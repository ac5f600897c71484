# envy

A local-first manager for encrypted environment variables: secrets live in
an encrypted vault, are injected into child processes, and are shared
through a passphrase-sealed `envy.enc` artifact that can be committed to git.

The library is written in Verus: every function in `src/` carries a
contract that Verus proves.

## Layout

- `src/` — the verified library.
  - `text`, `pairs` — the character-level model of strings (order, trimming,
    lines, search, case mapping) and of sorted key/value lists.
  - `crypto` — AES-256-GCM secrets, the Argon2id-sealed artifact envelopes,
    master-key hex encoding, the passphrase alphabet measure and word
    passphrases.
  - `engine` — secret operations, vault/artifact diff, sealing and
    (progressively disclosed) unsealing of the artifact, sync status and
    rotation reminders, the audit trail, the manifest text, leak scanning
    and workspace discovery.
  - `db` — the record types of the vault store and the mapping of driver
    errors.
  - `cli` — errors and exit codes, output formats, reports, time
    formatting, shell setup text, and the interactive session: its state,
    its key handling, its seal runs and the text of its panes and dialogs.
- `app/` — the command-line program around the library: argument parsing,
  the SQLCipher vault, the OS credential store, files, prompts and the
  floating-point strength and colour helpers.
- `tests/` — tests of the library's public API.

## Trust boundary

Calls into `aes-gcm`, `argon2`, `base64ct`, `serde_json`, the OS random
number generator and a few `std` functions (clock, UTF-8 decoding, case
mapping, `String::push`) sit behind small `#[verifier::external_body]`
wrappers whose contracts state what those functions document; everything
built on them is verified.
