use bondage::config::{
    config_file_name, config_missing, config_search_places, default_config_path, Config,
};
use bondage::policy::{
    is_web_lookup, InsideWalk, Policy, PolicyConfig, PolicyMode,
};
use bondage::util::{
    expand_tilde, format_tools_block, join_paths, locate_among, path_starts_with, paths_equal,
    pick_existing, resolve_path,
    resource_candidates, resource_missing, truncate_text,
};
use bondage::ToolDefinition;

#[test]
fn truncate_keeps_head_and_tail_lines() {
    assert_eq!(
        truncate_text("a\nb\nc\nd\ne\n", 1, 1, 100, 100),
        "a\n[... 3 lines and 6 bytes omitted ...]\ne\n"
    );
}

#[test]
fn truncate_by_characters_puts_marker_on_its_own_line() {
    assert_eq!(
        truncate_text("abcdefghij", 5, 5, 3, 2),
        "abc\n[... 0 lines and 5 bytes omitted ...]\nij"
    );
}

#[test]
fn truncate_counts_bytes_of_multibyte_text() {
    assert_eq!(
        truncate_text("é\né\né\n", 1, 1, 100, 100),
        "é\n[... 1 lines and 3 bytes omitted ...]\né\n"
    );
}

#[test]
fn truncate_leaves_small_or_overlapping_text() {
    assert_eq!(truncate_text("a\nb\n", 1, 1, 10, 10), "a\nb\n");
    assert_eq!(truncate_text("", 0, 1, 0, 0), "");
    // Text within both the line and the character limits is kept whole.
    assert_eq!(truncate_text("abcdef", 1, 1, 4, 4), "abcdef");
}

#[test]
fn tools_block_lists_one_line_per_tool() {
    let tools = vec![
        ToolDefinition { name: "a".to_string(), description: "first ".to_string(), parameters: "{}".to_string() },
        ToolDefinition { name: "b".to_string(), description: "second  ".to_string(), parameters: "{}".to_string() },
    ];
    assert_eq!(format_tools_block(&tools), "- a: first \n- b: second");
    assert_eq!(format_tools_block(&[]), "");
}

#[test]
fn paths_join_and_resolve() {
    assert_eq!(join_paths("/base", "x/y"), "/base/x/y");
    assert_eq!(join_paths("/base/", "x"), "/base/x");
    assert_eq!(join_paths("/base", "/abs"), "/abs");
    assert_eq!(join_paths("", "x"), "x");
    assert_eq!(resolve_path("/w", "file.txt", Some("/home/u")), "/w/file.txt");
    assert_eq!(resolve_path("/w", "/etc/x", Some("/home/u")), "/etc/x");
    assert_eq!(resolve_path("/w", "~/notes.md", Some("/home/u")), "/home/u/notes.md");
    assert_eq!(resolve_path("/w", "~", Some("/home/u")), "/home/u");
    assert_eq!(resolve_path("/w", "~/x", None), "/w/~/x");
    assert_eq!(resolve_path("/w", "~user/x", Some("/home/u")), "/w/~user/x");
}

#[test]
fn tilde_expansion() {
    assert_eq!(expand_tilde("~", Some("/h")), "/h");
    assert_eq!(expand_tilde("~/a", Some("/h")), "/h/a");
    assert_eq!(expand_tilde("~/a", None), "~/a");
    assert_eq!(expand_tilde("a/~", Some("/h")), "a/~");
}

#[test]
fn test_policy_tilde_expansion() {
    let config = PolicyConfig {
        access_lookup_directory: Some(PolicyMode::Yes),
        access_lookup_fs: Some(PolicyMode::No),
        access_write_directory: Some(PolicyMode::Yes),
        access_write_fs: Some(PolicyMode::No),
        ..Default::default()
    };
    let policy = Policy::from_config(&config);
    let base_dir = "/media/veracrypt1/_PROJECTS/_LinuxUX/Bondage";
    let home = Some("/home/testuser");

    // Even with the workspace present, the home directory lies outside it.
    let fs = [
        ("/", "/"),
        ("/home", "/home"),
        ("/home/testuser", "/home/testuser"),
        (base_dir, base_dir),
    ];

    let target = resolve_path(base_dir, "~/K/Catch-all/", home);
    assert_eq!(target, "/home/testuser/K/Catch-all/");
    let inside = walk_inside(&target, &fs, base_dir);
    assert!(!inside);
    let mode = policy.check_lookup("~/K/Catch-all/", inside);
    assert_eq!(mode, PolicyMode::No);

    let written = resolve_path(base_dir, "~/K/Catch-all/file.txt", home);
    let mode_write = policy.check_write(walk_inside(&written, &fs, base_dir));
    assert_eq!(mode_write, PolicyMode::No);
}

/// Runs the inside check on a simulated disk: `fs` lists the paths that
/// exist, each with its canonical form.
fn walk_inside(resolved: &str, fs: &[(&str, &str)], canonical_base: &str) -> bool {
    let mut walk = InsideWalk::new(resolved);
    loop {
        let probe = walk.probe();
        let found = fs.iter().find(|(p, _)| *p == probe.as_str());
        if let Some(inside) = walk.step(found.is_some(), found.map(|(_, c)| *c), canonical_base) {
            return inside;
        }
    }
}

#[test]
fn test_path_safety_check() {
    let base_dir = "/tmp/bondage_policy_test_0";
    let fs = [("/", "/"), ("/tmp", "/tmp"), (base_dir, base_dir)];
    let inside_file = join_paths(base_dir, "src/lib.rs");
    let outside_file = join_paths("/tmp", "some_other_file_outside.txt");
    assert!(walk_inside(&inside_file, &fs, base_dir));
    assert!(!walk_inside(&outside_file, &fs, base_dir));
}

#[test]
fn path_components_compare_whole_components() {
    assert!(path_starts_with("/w/a/b", "/w/a"));
    assert!(path_starts_with("/w/a", "/w/a/"));
    assert!(!path_starts_with("/w/ab", "/w/a"));
    assert!(!path_starts_with("w/a", "/w"));
    assert!(path_starts_with("./a", "."));
    assert!(!path_starts_with("a", "."));
    assert!(path_starts_with("/w/./a", "/w//a"));
    assert!(paths_equal("/a//b/", "/a/b"));
    assert!(paths_equal("a/./b", "a/b"));
    assert!(!paths_equal("./a", "a"));
    assert!(!paths_equal("/a/../b", "/b"));
}

#[test]
fn default_policy_reads_everywhere_and_asks_otherwise() {
    let p = Policy::from_config(&PolicyConfig::default());
    assert_eq!(p, Policy::default());
    assert_eq!(p.check_lookup("src", true), PolicyMode::Yes);
    assert_eq!(p.check_lookup("/etc", false), PolicyMode::Yes);
    assert_eq!(p.check_lookup("https://x", true), PolicyMode::Yes);
    assert_eq!(p.check_write(true), PolicyMode::Ask);
    assert_eq!(p.check_write(false), PolicyMode::Ask);
    assert_eq!(p.check_bash(), PolicyMode::Ask);
}

#[test]
fn policy_web_targets() {
    let cfg = PolicyConfig { access_lookup_web: Some(PolicyMode::No), ..Default::default() };
    let p = Policy::from_config(&cfg);
    assert_eq!(p.check_lookup("web", true), PolicyMode::No);
    assert_eq!(p.check_lookup("http://a", false), PolicyMode::No);
    assert_eq!(p.check_lookup("webpage.txt", true), PolicyMode::Yes);
    assert!(is_web_lookup("https://x"));
    assert!(!is_web_lookup("httpx://x"));
}

fn cfg(model: Option<&str>, bash: Option<PolicyMode>) -> Config {
    let mut c = Config::default();
    c.model = model.map(|m| m.to_string());
    c.policy.access_bash = bash;
    c
}

#[test]
fn later_configs_override_earlier_ones() {
    let mut base = cfg(Some("m1"), Some(PolicyMode::Ask));
    base.terminal = Some("kitty".to_string());
    base.merge(cfg(Some("m2"), None));
    assert_eq!(base.model.as_deref(), Some("m2"));
    assert_eq!(base.policy.access_bash, Some(PolicyMode::Ask));
    assert_eq!(base.terminal.as_deref(), Some("kitty"));
    base.merge(cfg(None, Some(PolicyMode::Yes)));
    assert_eq!(base.model.as_deref(), Some("m2"));
    assert_eq!(base.policy.access_bash, Some(PolicyMode::Yes));
}

#[test]
fn merging_an_empty_config_changes_nothing() {
    let mut a = cfg(Some("m"), Some(PolicyMode::No));
    a.merge(Config::default());
    assert_eq!(a.model.as_deref(), Some("m"));
    assert_eq!(a.policy.access_bash, Some(PolicyMode::No));
    assert_eq!(a.api_key, None);
}

#[test]
fn config_names_get_toml_suffix() {
    assert_eq!(config_file_name("yolo"), "yolo.toml");
    assert_eq!(config_file_name("yolo.toml"), "yolo.toml");
    assert_eq!(config_file_name("YOLO.TOML"), "YOLO.TOML");
    assert_eq!(config_file_name("a.toml.bak"), "a.toml.bak.toml");
}

#[test]
fn resource_lookup_places() {
    assert_eq!(
        resource_candidates("yolo.toml", true, "/cwd", Some("/home/u")),
        vec!["/cwd/yolo.toml".to_string(), "/home/u/.config/rope/yolo.toml".to_string()]
    );
    assert_eq!(
        resource_candidates("config.toml", false, "/cwd", Some("/home/u")),
        vec!["/home/u/.config/rope/config.toml".to_string()]
    );
    assert_eq!(
        resource_candidates("~/p.txt", true, "/cwd", Some("/home/u")),
        vec!["/home/u/p.txt".to_string()]
    );
    assert_eq!(
        resource_candidates("x", false, "/cwd", None),
        vec!["./.config/rope/x".to_string()]
    );
}

#[test]
fn resource_found_or_reported() {
    let places = vec!["/a".to_string(), "/b".to_string()];
    assert_eq!(locate_among("n", true, "/cwd", &places, &vec![false, true]), Ok("/b".to_string()));
    assert_eq!(locate_among("n", true, "/cwd", &places, &vec![true, true]), Ok("/a".to_string()));
    assert_eq!(
        locate_among("n", true, "/cwd", &places, &vec![false, false]),
        Err("Resource 'n' not found in CWD (/cwd) or ~/.config/rope/".to_string())
    );
    assert_eq!(
        resource_missing("config.toml", false, "/cwd"),
        "Default resource 'config.toml' not found in ~/.config/rope/"
    );
}

#[test]
fn config_search_order() {
    assert_eq!(
        config_search_places("yolo", "/cwd", Some("/h")),
        vec![
            "yolo.toml".to_string(),
            "/cwd/yolo.toml".to_string(),
            "/h/.config/rope/yolo.toml".to_string(),
            "yolo".to_string(),
            "/cwd/yolo".to_string(),
            "/h/.config/rope/yolo".to_string(),
        ]
    );
    assert_eq!(
        config_search_places("/etc/a.TOML", "/cwd", None),
        vec!["/etc/a.TOML".to_string(), "/etc/a.TOML".to_string(), "/etc/a.TOML".to_string()]
    );
    assert_eq!(default_config_path(Some("/h")), "/h/.config/rope/config.toml");
    assert_eq!(default_config_path(None), "./.config/rope/config.toml");
    assert_eq!(config_missing("x"), "Config file 'x' not found in CWD or ~/.config/rope/");
}

#[test]
fn first_existing_place() {
    let places = vec!["a".to_string(), "b".to_string(), "c".to_string()];
    assert_eq!(pick_existing(&places, &vec![false, true, true]), Some("b".to_string()));
    assert_eq!(pick_existing(&places, &vec![false, false, false]), None);
}

#[test]
fn inside_walk_probes_up_to_an_existing_ancestor() {
    let mut w = InsideWalk::new("/w/a/new.txt");
    assert_eq!(w.probe(), "/w/a/new.txt");
    assert_eq!(w.step(false, None, "/w"), None);
    assert_eq!(w.probe(), "/w/a");
    assert_eq!(w.step(true, Some("/w/a"), "/w"), Some(true));
    let mut o = InsideWalk::new("/x/y");
    assert_eq!(o.step(true, Some("/x/y"), "/w"), Some(false));
    // Whole components only: "/w/ab" is not inside "/w/a".
    let mut c = InsideWalk::new("/w/ab");
    assert_eq!(c.step(true, Some("/w/ab"), "/w/a"), Some(false));
    let mut l = InsideWalk::new("/w/l");
    assert_eq!(l.step(true, None, "/w"), Some(false));
    let mut r = InsideWalk::new("rel");
    assert_eq!(r.step(false, None, "/w"), None);
    assert_eq!(r.probe(), "");
    assert_eq!(r.step(false, None, "/w"), Some(false));
}

#[test]
fn inside_walk_resolves_dotdot_past_missing_components() {
    // base/nosuch is missing: the walk climbs to base, and the rest lands outside it.
    let mut w = InsideWalk::new("/w/nosuch/../../x");
    assert_eq!(w.probe(), "/w/nosuch/../../x");
    for expected in ["/w/nosuch/../..", "/w/nosuch/..", "/w/nosuch", "/w"] {
        assert_eq!(w.step(false, None, "/w"), None);
        assert_eq!(w.probe(), expected);
    }
    assert_eq!(w.step(true, Some("/w"), "/w"), Some(false));
    // Climbing back down stays inside; `.` and repeated separators are ignored.
    let mut v = InsideWalk::new("/w/new/../sub//./f.txt");
    for _ in 0..5 {
        assert_eq!(v.step(false, None, "/w"), None);
    }
    assert_eq!(v.probe(), "/w");
    assert_eq!(v.step(true, Some("/w"), "/w"), Some(true));
    // The existing ancestor counts by its canonical form (a link resolved).
    let mut k = InsideWalk::new("/w/link/new.txt");
    assert_eq!(k.step(false, None, "/w"), None);
    assert_eq!(k.step(true, Some("/elsewhere/dir"), "/w"), Some(false));
    // The root's parent is the root.
    let mut t = InsideWalk::new("/w/../../../w/x");
    for _ in 0..6 {
        assert_eq!(t.step(false, None, "/w"), None);
    }
    assert_eq!(t.probe(), "/");
    assert_eq!(t.step(true, Some("/"), "/w"), Some(true));
}

#[test]
fn truncate_with_no_tail_lines_keeps_no_tail() {
    assert_eq!(truncate_text("a\nb", 1, 0, 9, 9), "a\n[... 0 lines and 1 bytes omitted ...]");
    assert_eq!(truncate_text("a\nb\nc\n", 1, 0, 100, 100), "a\n[... 2 lines and 4 bytes omitted ...]");
    assert_eq!(truncate_text("a\nb", 2, 0, 9, 9), "a\nb");
}
