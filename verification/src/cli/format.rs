//! Presentation: renders command output in the format chosen with
//! `--format`. Commands collect data into [`OutputData`] and render it with
//! [`print_output`]; writing the text out is the caller's job.
use vstd::prelude::*;
use crate::text::{chars_of, push_char, push_str};

verus! {

/// The output format selected by the global `--format` / `-f` flag.
#[derive(Debug, Clone, Copy, PartialEq, Eq, Structural)]
pub enum OutputFormat {
    /// Human-readable text (default).
    Table,
    /// A JSON document.
    Json,
    /// `KEY=value` one per line.
    Dotenv,
    /// `export KEY='value'` one per line, safe to `eval` in POSIX shells.
    Shell,
}

impl Default for OutputFormat {
    fn default() -> (f: Self)
        ensures
            f == OutputFormat::Table,
    {
        OutputFormat::Table
    }
}

/// The data a command passes to [`print_output`].
pub enum OutputData<'a> {
    /// Output for `envy list`: all key-value pairs of the environment.
    SecretList { env: &'a str, secrets: &'a [(String, String)] },
    /// Output for `envy get KEY`: a single found key-value pair.
    SecretItem { key: &'a str, value: &'a str },
    /// Output for `envy export ENV`: all key-value pairs.
    ExportList { env: &'a str, secrets: &'a [(String, String)] },
    /// Output for `envy get KEY` when the key does not exist.
    NotFound { key: &'a str },
}

/// The lowercase hexadecimal digit of `n` (0 to 15).
pub open spec fn hex_digit(n: int) -> char {
    if n < 10 { (48 + n) as char } else { (87 + n) as char }
}

/// How a JSON string writes `c`: `"` and `\` and the control characters
/// with a short form (`\b \t \n \f \r`) escaped by a backslash, the other
/// control characters below U+0020 as `\u00XX` in lowercase hexadecimal,
/// every other character as itself. This is `serde_json`'s escape table.
pub open spec fn json_escape(c: char) -> Seq<char> {
    if c == '"' {
        seq!['\\', '"']
    } else if c == '\\' {
        seq!['\\', '\\']
    } else if c == '\u{8}' {
        seq!['\\', 'b']
    } else if c == '\t' {
        seq!['\\', 't']
    } else if c == '\n' {
        seq!['\\', 'n']
    } else if c == '\u{c}' {
        seq!['\\', 'f']
    } else if c == '\r' {
        seq!['\\', 'r']
    } else if (c as u32) < 0x20 {
        seq!['\\', 'u', '0', '0', hex_digit((c as u32) as int / 16), hex_digit((c as u32) as int % 16)]
    } else {
        seq![c]
    }
}

/// The characters of `s`, each written as [`json_escape`] writes it.
pub open spec fn json_escaped(s: Seq<char>) -> Seq<char>
    decreases s.len(),
{
    if s.len() == 0 {
        seq![]
    } else {
        json_escaped(s.drop_last()) + json_escape(s.last())
    }
}

/// The JSON string literal of `s`, as `serde_json` writes it.
#[verifier::opaque]
pub open spec fn spec_json_string(s: Seq<char>) -> Seq<char> {
    seq!['"'] + json_escaped(s) + seq!['"']
}

fn hex_char(n: u32) -> (c: char)
    requires
        n < 16,
    ensures
        c == hex_digit(n as int),
{
    let code: u8 = if n < 10 { 48 + n as u8 } else { 87 + n as u8 };
    code as char
}

fn push_json_escape(out: &mut String, c: char)
    ensures
        final(out)@ == old(out)@ + json_escape(c),
{
    let ghost start = out@;
    if c == '"' {
        push_char(out, '\\');
        push_char(out, '"');
    } else if c == '\\' {
        push_char(out, '\\');
        push_char(out, '\\');
    } else if c == '\u{8}' {
        push_char(out, '\\');
        push_char(out, 'b');
    } else if c == '\t' {
        push_char(out, '\\');
        push_char(out, 't');
    } else if c == '\n' {
        push_char(out, '\\');
        push_char(out, 'n');
    } else if c == '\u{c}' {
        push_char(out, '\\');
        push_char(out, 'f');
    } else if c == '\r' {
        push_char(out, '\\');
        push_char(out, 'r');
    } else if (c as u32) < 0x20 {
        let code = c as u32;
        push_char(out, '\\');
        push_char(out, 'u');
        push_char(out, '0');
        push_char(out, '0');
        push_char(out, hex_char(code / 16));
        push_char(out, hex_char(code % 16));
    } else {
        push_char(out, c);
    }
    proof {
        assert(out@ =~= start + json_escape(c));
    }
}

/// Appends the JSON string literal of `s` to `out`.
pub fn push_json_string(out: &mut String, s: &str)
    ensures
        final(out)@ == old(out)@ + spec_json_string(s@),
{
    let ghost start = out@;
    let cs = chars_of(s);
    push_char(out, '"');
    let mut i: usize = 0;
    while i < cs.len()
        invariant
            0 <= i <= cs@.len(),
            cs@ == s@,
            out@ == start + seq!['"'] + json_escaped(s@.take(i as int)),
        decreases cs@.len() - i,
    {
        proof {
            assert(s@.take(i + 1).drop_last() =~= s@.take(i as int));
            assert(s@.take(i + 1).last() == cs@[i as int]);
        }
        push_json_escape(out, cs[i]);
        proof {
            assert(out@ =~= start + seq!['"'] + json_escaped(s@.take(i + 1)));
        }
        i += 1;
    }
    push_char(out, '"');
    proof {
        assert(s@.take(s@.len() as int) =~= s@);
        reveal(spec_json_string);
        assert(out@ =~= start + spec_json_string(s@));
    }
}

/// POSIX single-quote escaping: each `'` becomes `'\''`.
pub open spec fn shell_escaped(s: Seq<char>) -> Seq<char>
    decreases s.len(),
{
    if s.len() == 0 {
        seq![]
    } else {
        shell_escaped(s.drop_last()) + if s.last() == '\'' {
            seq!['\'', '\\', '\'', '\'']
        } else {
            seq![s.last()]
        }
    }
}

/// Escapes a value for a POSIX single-quoted string: replaces each `'` with
/// `'\''` (end quote, escaped quote, reopen quote).
pub fn shell_escape(value: &str) -> (r: String)
    ensures
        r@ == shell_escaped(value@),
{
    let cs = chars_of(value);
    let mut out = String::new();
    let mut i: usize = 0;
    while i < cs.len()
        invariant
            cs@ == value@,
            0 <= i <= cs@.len(),
            out@ == shell_escaped(cs@.take(i as int)),
        decreases cs@.len() - i,
    {
        proof {
            assert(cs@.take(i + 1).drop_last() =~= cs@.take(i as int));
            assert(cs@.take(i + 1).last() == cs@[i as int]);
        }
        if cs[i] == '\'' {
            push_char(&mut out, '\'');
            push_char(&mut out, '\\');
            push_char(&mut out, '\'');
            push_char(&mut out, '\'');
            proof {
                assert(out@ =~= shell_escaped(cs@.take(i as int)) + seq!['\'', '\\', '\'', '\'']);
            }
        } else {
            push_char(&mut out, cs[i]);
            proof {
                assert(out@ =~= shell_escaped(cs@.take(i as int)) + seq![cs@[i as int]]);
            }
        }
        i += 1;
    }
    proof {
        assert(cs@.take(cs@.len() as int) =~= cs@);
    }
    out
}

/// One line per key: `KEY\n`.
pub open spec fn key_lines(s: Seq<(String, String)>) -> Seq<char>
    decreases s.len(),
{
    if s.len() == 0 {
        seq![]
    } else {
        key_lines(s.drop_last()) + s.last().0@ + "\n"@
    }
}

/// One `KEY=value` line per pair.
pub open spec fn dotenv_lines(s: Seq<(String, String)>) -> Seq<char>
    decreases s.len(),
{
    if s.len() == 0 {
        seq![]
    } else {
        dotenv_lines(s.drop_last()) + s.last().0@ + "="@ + s.last().1@ + "\n"@
    }
}

/// One `export KEY='value'` line per pair, the value escaped.
pub open spec fn shell_lines(s: Seq<(String, String)>) -> Seq<char>
    decreases s.len(),
{
    if s.len() == 0 {
        seq![]
    } else {
        shell_lines(s.drop_last()) + "export "@ + s.last().0@ + "='"@ + shell_escaped(s.last().1@) + "'\n"@
    }
}

/// The JSON object `{"key":K,"value":V}` of one pair.
pub open spec fn json_pair(k: Seq<char>, v: Seq<char>) -> Seq<char> {
    "{\"key\":"@ + spec_json_string(k) + ",\"value\":"@ + spec_json_string(v) + "}"@
}

/// The pairs as comma-separated JSON objects.
pub open spec fn json_pairs(s: Seq<(String, String)>) -> Seq<char>
    decreases s.len(),
{
    if s.len() == 0 {
        seq![]
    } else if s.len() == 1 {
        json_pair(s[0].0@, s[0].1@)
    } else {
        json_pairs(s.drop_last()) + ","@ + json_pair(s.last().0@, s.last().1@)
    }
}

/// The text [`print_output`] writes for `data` in `format`.
pub open spec fn rendered(format: OutputFormat, data: OutputData) -> Seq<char> {
    match format {
        OutputFormat::Table => match data {
            OutputData::SecretList { env, secrets } => key_lines(secrets@),
            OutputData::SecretItem { key, value } => value@ + "\n"@,
            OutputData::ExportList { env, secrets } => dotenv_lines(secrets@),
            OutputData::NotFound { key } => seq![],
        },
        OutputFormat::Json => match data {
            OutputData::SecretList { env, secrets } => "{\"secrets\":["@ + json_pairs(secrets@) + "]}\n"@,
            OutputData::SecretItem { key, value } => json_pair(key@, value@) + "\n"@,
            OutputData::ExportList { env, secrets } => "{\"environment\":"@ + spec_json_string(env@)
                + ",\"secrets\":["@ + json_pairs(secrets@) + "]}\n"@,
            OutputData::NotFound { key } => "{\"error\":\"key not found\"}\n"@,
        },
        OutputFormat::Dotenv => match data {
            OutputData::SecretList { env, secrets } => dotenv_lines(secrets@),
            OutputData::SecretItem { key, value } => key@ + "="@ + value@ + "\n"@,
            OutputData::ExportList { env, secrets } => dotenv_lines(secrets@),
            OutputData::NotFound { key } => seq![],
        },
        OutputFormat::Shell => match data {
            OutputData::SecretList { env, secrets } => shell_lines(secrets@),
            OutputData::SecretItem { key, value } => "export "@ + key@ + "='"@ + shell_escaped(value@) + "'\n"@,
            OutputData::ExportList { env, secrets } => shell_lines(secrets@),
            OutputData::NotFound { key } => seq![],
        },
    }
}

/// Which line layout a list is rendered with.
enum ListStyle {
    Keys,
    Dotenv,
    Shell,
    Json,
}

spec fn list_text(style: ListStyle, s: Seq<(String, String)>) -> Seq<char> {
    match style {
        ListStyle::Keys => key_lines(s),
        ListStyle::Dotenv => dotenv_lines(s),
        ListStyle::Shell => shell_lines(s),
        ListStyle::Json => json_pairs(s),
    }
}

fn push_list(out: &mut String, style: ListStyle, secrets: &[(String, String)])
    ensures
        final(out)@ == old(out)@ + list_text(style, secrets@),
{
    let ghost start = out@;
    let mut i: usize = 0;
    proof {
        assert(secrets@.take(0) =~= Seq::<(String, String)>::empty());
        assert(out@ =~= start + list_text(style, secrets@.take(0)));
    }
    while i < secrets.len()
        invariant
            0 <= i <= secrets@.len(),
            out@ == start + list_text(style, secrets@.take(i as int)),
        decreases secrets@.len() - i,
    {
        let (k, v) = (&secrets[i].0, &secrets[i].1);
        let ghost before = out@;
        let ghost pre = secrets@.take(i as int);
        let ghost post = secrets@.take(i + 1);
        proof {
            assert(post.drop_last() =~= pre);
            assert(post.last() == secrets@[i as int]);
        }
        match style {
            ListStyle::Keys => {
                push_str(out, k.as_str());
                push_str(out, "\n");
                proof {
                    assert(out@ =~= before + k@ + "\n"@);
                }
            },
            ListStyle::Dotenv => {
                push_str(out, k.as_str());
                push_str(out, "=");
                push_str(out, v.as_str());
                push_str(out, "\n");
                proof {
                    assert(out@ =~= before + (k@ + "="@ + v@ + "\n"@));
                }
            },
            ListStyle::Shell => {
                push_str(out, "export ");
                push_str(out, k.as_str());
                push_str(out, "='");
                let e = shell_escape(v.as_str());
                push_str(out, e.as_str());
                push_str(out, "'\n");
                proof {
                    assert(out@ =~= before + ("export "@ + k@ + "='"@ + shell_escaped(v@) + "'\n"@));
                }
            },
            ListStyle::Json => {
                if i > 0 {
                    push_str(out, ",");
                }
                push_str(out, "{\"key\":");
                push_json_string(out, k.as_str());
                push_str(out, ",\"value\":");
                push_json_string(out, v.as_str());
                push_str(out, "}");
                proof {
                    if i > 0 {
                        assert(out@ =~= before + (","@ + json_pair(k@, v@)));
                    } else {
                        assert(out@ =~= before + json_pair(k@, v@));
                        assert(post.len() == 1);
                        assert(post[0] == secrets@[0]);
                    }
                }
            },
        }
        i += 1;
    }
    proof {
        assert(secrets@.take(secrets@.len() as int) =~= secrets@);
    }
}

/// Appends to `out` the rendering of `data` in `format`:
///
/// * `Table`: for a list, one key per line (values are not shown); for one
///   secret, its value; for an export, `KEY=value` lines; nothing for a
///   missing key.
/// * `Json`: one compact JSON document and a newline: `{"secrets":[...]}`,
///   `{"key":..,"value":..}`, `{"environment":..,"secrets":[...]}` or
///   `{"error":"key not found"}`.
/// * `Dotenv`: `KEY=value` lines; nothing for a missing key.
/// * `Shell`: `export KEY='value'` lines with POSIX quote escaping.
pub fn print_output(format: OutputFormat, data: OutputData, out: &mut String)
    ensures
        final(out)@ == old(out)@ + rendered(format, data),
{
    let ghost start = out@;
    match format {
        OutputFormat::Table => match data {
            OutputData::SecretList { env: _, secrets } => push_list(out, ListStyle::Keys, secrets),
            OutputData::SecretItem { key: _, value } => {
                push_str(out, value);
                push_str(out, "\n");
            },
            OutputData::ExportList { env: _, secrets } => push_list(out, ListStyle::Dotenv, secrets),
            OutputData::NotFound { key: _ } => {
                proof {
                    assert(out@ =~= start + Seq::<char>::empty());
                }
            },
        },
        OutputFormat::Json => match data {
            OutputData::SecretList { env: _, secrets } => {
                push_str(out, "{\"secrets\":[");
                push_list(out, ListStyle::Json, secrets);
                push_str(out, "]}\n");
                proof {
                    assert(out@ =~= start + ("{\"secrets\":["@ + json_pairs(secrets@) + "]}\n"@));
                }
            },
            OutputData::SecretItem { key, value } => {
                push_str(out, "{\"key\":");
                push_json_string(out, key);
                push_str(out, ",\"value\":");
                push_json_string(out, value);
                push_str(out, "}");
                push_str(out, "\n");
                proof {
                    assert(out@ =~= start + (json_pair(key@, value@) + "\n"@));
                }
            },
            OutputData::ExportList { env, secrets } => {
                push_str(out, "{\"environment\":");
                push_json_string(out, env);
                push_str(out, ",\"secrets\":[");
                push_list(out, ListStyle::Json, secrets);
                push_str(out, "]}\n");
                proof {
                    assert(out@ =~= start + ("{\"environment\":"@ + spec_json_string(env@) + ",\"secrets\":["@
                        + json_pairs(secrets@) + "]}\n"@));
                }
            },
            OutputData::NotFound { key: _ } => {
                push_str(out, "{\"error\":\"key not found\"}\n");
            },
        },
        OutputFormat::Dotenv => match data {
            OutputData::SecretList { env: _, secrets } => push_list(out, ListStyle::Dotenv, secrets),
            OutputData::SecretItem { key, value } => {
                push_str(out, key);
                push_str(out, "=");
                push_str(out, value);
                push_str(out, "\n");
                proof {
                    assert(out@ =~= start + (key@ + "="@ + value@ + "\n"@));
                }
            },
            OutputData::ExportList { env: _, secrets } => push_list(out, ListStyle::Dotenv, secrets),
            OutputData::NotFound { key: _ } => {
                proof {
                    assert(out@ =~= start + Seq::<char>::empty());
                }
            },
        },
        OutputFormat::Shell => match data {
            OutputData::SecretList { env: _, secrets } => push_list(out, ListStyle::Shell, secrets),
            OutputData::SecretItem { key, value } => {
                push_str(out, "export ");
                push_str(out, key);
                push_str(out, "='");
                let e = shell_escape(value);
                push_str(out, e.as_str());
                push_str(out, "'\n");
                proof {
                    assert(out@ =~= start + ("export "@ + key@ + "='"@ + shell_escaped(value@) + "'\n"@));
                }
            },
            OutputData::ExportList { env: _, secrets } => push_list(out, ListStyle::Shell, secrets),
            OutputData::NotFound { key: _ } => {
                proof {
                    assert(out@ =~= start + Seq::<char>::empty());
                }
            },
        },
    }
}

} // verus!
