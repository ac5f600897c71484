use envy::engine::discover::{components_of, dir_sorts_after, order_discovered, DiscoveredProject};

fn project(id: &str, dir: &str) -> DiscoveredProject {
    DiscoveredProject {
        project_id: id.into(),
        rotation_reminder_days: 90,
        manifest_dir: dir.into(),
        artifact_path: format!("{dir}/envy.enc"),
    }
}

fn ids(ps: &[DiscoveredProject]) -> Vec<&str> {
    ps.iter().map(|p| p.project_id.as_str()).collect()
}

#[test]
fn components_follow_unix_path_rules() {
    let c = components_of("/tmp//ws/./api/../x/");
    let view: Vec<(u8, &str)> = c.iter().map(|(r, n)| (*r, n.as_str())).collect();
    assert_eq!(view, vec![(1, ""), (4, "tmp"), (4, "ws"), (4, "api"), (3, ""), (4, "x")]);
    let rel = components_of("./a");
    assert_eq!(rel.len(), 2);
    assert_eq!(rel[0].0, 2);
    assert!(components_of("").is_empty());
}

#[test]
fn directories_sort_by_components_like_pathbuf() {
    // As paths, "ws/a" < "ws/a-b" (component "a" < "a-b"), although as
    // text "ws/a-b" < "ws/a/..." ('-' < '/').
    let found = vec![project("dash", "/ws/a-b"), project("nested", "/ws/a/z"), project("root", "/ws")];
    let ordered = order_discovered(&found);
    assert_eq!(ids(&ordered), vec!["root", "nested", "dash"]);
    let mut expected: Vec<std::path::PathBuf> = found.iter().map(|p| std::path::PathBuf::from(&p.manifest_dir)).collect();
    expected.sort();
    let got: Vec<std::path::PathBuf> = ordered.iter().map(|p| std::path::PathBuf::from(&p.manifest_dir)).collect();
    assert_eq!(got, expected);
    assert!(dir_sorts_after(&found[0], &found[1]));
    assert!(!dir_sorts_after(&found[2], &found[0]));
}

#[test]
fn launch_directory_reported_twice_is_listed_once() {
    let found = vec![project("root", "/w"), project("root", "/w"), project("child", "/w/child")];
    assert_eq!(ids(&order_discovered(&found)), vec!["root", "child"]);
}

#[test]
fn copied_manifest_keeps_the_earliest_directory() {
    let found = vec![project("p", "/w/zeta"), project("q", "/w/beta"), project("p", "/w/alpha")];
    let ordered = order_discovered(&found);
    assert_eq!(ids(&ordered), vec!["p", "q"]);
    assert_eq!(ordered[0].manifest_dir, "/w/alpha");
}

#[test]
fn equal_directories_keep_walk_order() {
    let found = vec![project("b", "/w/x"), project("a", "/w//x")];
    assert_eq!(ids(&order_discovered(&found)), vec!["b", "a"]);
    assert!(order_discovered(&Vec::new()).is_empty());
}
