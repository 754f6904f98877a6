use bondage::tools::bash::{format_bash_result, BashArgs};
use bondage::tools::lookup::{
    effective_radius, grep_file, html_escape, is_skipped_entry, lookup_file_text,
    lookup_page_text, missing_target_error, render_dir_entries, render_dir_listing, render_dir_search, render_page,
    route_lookup, GrepHit, ListedEntry, LookupArgs, LookupRoute,
};
use bondage::tools::write::{missing_file_report, overwrite_report, plan_patch, PatchOutcome, WriteArgs};
use bondage::tools::{get_standard_tools, tool_kind, tool_response, unknown_tool_error, ToolKind};
use bondage::{BondageError, Message};

const SMALL: &str = "apple\nbanana\ncherry";

fn large() -> String {
    let mut s = String::new();
    for i in 1..=120 {
        s.push_str(&format!("Line {}\n", i));
    }
    s
}

#[test]
fn test_file_read_entire() {
    let res = lookup_file_text("/ws/small.txt", SMALL, None, effective_radius(None));
    assert!(res.contains("<file path="));
    assert!(res.contains("apple\nbanana\ncherry"));
    assert_eq!(
        res,
        "<file path=\"/ws/small.txt\" total_lines=\"3\">\n  <content>apple\nbanana\ncherry</content>\n</file>"
    );
}

#[test]
fn test_file_read_truncated() {
    let res = lookup_file_text("/ws/large.txt", &large(), None, 20);
    assert!(res.contains("truncated=\"true\""));
    assert!(res.contains("lines_remaining=\"20\""));
    assert!(res.contains("total_lines=\"120\""));
    assert!(res.contains("Line 100</content>"));
    assert!(!res.contains("Line 101"));
}

#[test]
fn test_file_lookup_query() {
    let res = lookup_file_text("/ws/small.txt", SMALL, Some("banana"), 1);
    assert!(res.contains("<fragment start_line=\"1\" end_line=\"3\">"));
    assert!(res.contains("2: banana"));
    assert_eq!(
        res,
        "<file path=\"/ws/small.txt\" query=\"banana\" total_lines=\"3\">\n  <fragment start_line=\"1\" end_line=\"3\">\n1: apple\n2: banana\n3: cherry\n  </fragment>\n</file>"
    );
}

#[test]
fn file_query_is_case_insensitive_and_merges_windows() {
    let text = "a\nX\nb\nc\nd\ne\nx\nf";
    let res = lookup_file_text("f", text, Some("x"), 0);
    assert_eq!(
        res,
        "<file path=\"f\" query=\"x\" total_lines=\"8\">\n  <fragment start_line=\"2\" end_line=\"2\">\n2: X\n  </fragment>\n  <fragment start_line=\"7\" end_line=\"7\">\n7: x\n  </fragment>\n</file>"
    );
    let merged = lookup_file_text("f", "x\na\nx", Some("X"), 1);
    assert!(merged.contains("<fragment start_line=\"1\" end_line=\"3\">"));
}

#[test]
fn file_query_not_found() {
    let res = lookup_file_text("f", SMALL, Some("<kiwi>"), 3);
    assert_eq!(
        res,
        "<file path=\"f\" query=\"&lt;kiwi&gt;\">\n  <!-- Query not found in file -->\n</file>"
    );
}

#[test]
fn test_dir_list() {
    let entries = vec![ListedEntry {
        name: "nested.txt".to_string(),
        is_dir: false,
        size: "12 B".to_string(),
        contents: None,
    }];
    let res = render_dir_listing("/ws/subdir", &entries, 5);
    assert!(res.contains("<file name=\"nested.txt\""));
    assert_eq!(
        res,
        "<dir path=\"/ws/subdir\">\n  <file name=\"nested.txt\" size=\"12 B\" />\n</dir>"
    );
}

#[test]
fn dir_listing_puts_directories_first_sorted() {
    let e = |n: &str, d: bool| ListedEntry { name: n.to_string(), is_dir: d, size: "1 B".to_string(), contents: None };
    let entries = vec![e("b.txt", false), e("Zeta", true), e("A.txt", false), e("alpha", true)];
    let res = render_dir_listing("/d", &entries, 3);
    assert_eq!(
        res,
        "<dir path=\"/d\">\n  <dir name=\"alpha\" />\n  <dir name=\"Zeta\" />\n  <file name=\"A.txt\" size=\"1 B\" />\n  <file name=\"b.txt\" size=\"1 B\" />\n</dir>"
    );
    assert!(is_skipped_entry(".git"));
    assert!(is_skipped_entry("node_modules"));
    assert!(is_skipped_entry("target"));
    assert!(!is_skipped_entry("src"));
}

#[test]
fn dir_listing_nests_to_the_radius_depth() {
    let file = |n: &str| ListedEntry { name: n.to_string(), is_dir: false, size: "3 B".to_string(), contents: None };
    // Level 3 of a listing 2 levels deep is not shown.
    assert_eq!(render_dir_entries(&vec![file("deep.txt")], 3, 2), "");
    let inner = render_dir_entries(&vec![file("f.txt")], 2, 2);
    assert_eq!(inner, "    <file name=\"f.txt\" size=\"3 B\" />\n");
    let sub = ListedEntry { name: "d".to_string(), is_dir: true, size: "0 B".to_string(), contents: Some(inner.clone()) };
    let res = render_dir_listing("/w", &vec![file("top.txt"), sub.clone()], 2);
    assert_eq!(
        res,
        "<dir path=\"/w\">\n  <dir name=\"d\">\n    <file name=\"f.txt\" size=\"3 B\" />\n  </dir>\n  <file name=\"top.txt\" size=\"3 B\" />\n</dir>"
    );
    // At the deepest level a directory's contents are not shown.
    assert_eq!(
        render_dir_listing("/w", &vec![sub.clone()], 1),
        "<dir path=\"/w\">\n  <dir name=\"d\" />\n</dir>"
    );
    // A listing 0 levels deep shows no entry.
    assert_eq!(render_dir_listing("/w", &vec![sub], 0), "<dir path=\"/w\">\n</dir>");
    let empty = ListedEntry { name: "e".to_string(), is_dir: true, size: "0 B".to_string(), contents: Some(String::new()) };
    assert_eq!(render_dir_listing("/w", &vec![empty], 5), "<dir path=\"/w\">\n  <dir name=\"e\" />\n</dir>");
}

#[test]
fn test_dir_grep() {
    let mut hits: Vec<GrepHit> = Vec::new();
    let t1 = grep_file("/ws/small.txt", SMALL, "apple", &mut hits);
    let t2 = grep_file("/ws/subdir/nested.txt", "nested apple", "apple", &mut hits);
    assert!(!t1 && !t2);
    let res = render_dir_search("/ws/.", "apple", &hits, false);
    assert!(res.contains("<match file="));
    assert!(res.contains("small.txt\" line=\"1\">apple</match>"));
    assert!(res.contains("nested.txt\" line=\"1\">nested apple</match>"));
}

#[test]
fn dir_grep_caps_hits() {
    let mut content = String::new();
    for _ in 0..250 {
        content.push_str("  hit  \n");
    }
    let mut hits: Vec<GrepHit> = Vec::new();
    assert!(grep_file("f", &content, "hit", &mut hits));
    assert_eq!(hits.len(), 201);
    assert_eq!(hits[0].text, "hit");
    assert_eq!(hits[200].line, 201);
    let res = render_dir_search("d", "hit", &hits, true);
    assert!(res.ends_with("  <truncated />\n</dir_search>"));
}

#[test]
fn test_web_url_lookup() {
    let page = "<html>\n<h1>Example Domain</h1>\n</html>";
    let res = lookup_page_text("https://example.com", page, None);
    assert!(res.contains("<webpage url=\"https://example.com\">"));
    assert!(res.contains("Example Domain"));
    assert_eq!(res, render_page("https://example.com", page));
    assert!(res.contains("&lt;h1&gt;Example Domain&lt;/h1&gt;"));
}

#[test]
fn web_page_query_lists_matching_lines() {
    let res = lookup_page_text("u", "one\n  Two words \nthree", Some("two"));
    assert_eq!(res, "<webpage url=\"u\" query=\"two\">\n  <match line=\"2\">Two words</match>\n</webpage>");
    let none = lookup_page_text("u", "one", Some("zzz"));
    assert_eq!(none, "<webpage url=\"u\" query=\"zzz\">\n  <!-- Query not found on page -->\n</webpage>");
}

#[test]
fn test_web_search_not_implemented() {
    let args = LookupArgs { target: "web".to_string(), query: Some("rust lang".to_string()), radius: None };
    match route_lookup(&args, "/ws", Some("/home/u")) {
        LookupRoute::WebSearch(Ok(m)) => {
            assert!(m.contains("not implemented yet"));
            assert_eq!(m, "Web search for 'rust lang' is not implemented yet.");
        }
        _ => panic!("expected a web search"),
    }
    let bare = LookupArgs { target: "web".to_string(), query: None, radius: None };
    match route_lookup(&bare, "/ws", None) {
        LookupRoute::WebSearch(Err(e)) => {
            assert_eq!(e.describe(), "Tool Execution Error: Web search target requires a query.")
        }
        _ => panic!("expected an error"),
    }
}

#[test]
fn lookup_routes_urls_and_paths() {
    let url = LookupArgs { target: "http://x.org".to_string(), query: None, radius: None };
    assert!(matches!(route_lookup(&url, "/ws", None), LookupRoute::Url));
    let rel = LookupArgs { target: "src/lib.rs".to_string(), query: None, radius: None };
    match route_lookup(&rel, "/ws", Some("/home/u")) {
        LookupRoute::Local(p) => assert_eq!(p, "/ws/src/lib.rs"),
        _ => panic!("expected a local path"),
    }
    let abs = LookupArgs { target: "/etc/hosts".to_string(), query: None, radius: Some(3) };
    match route_lookup(&abs, "/ws", Some("/home/u")) {
        LookupRoute::Local(p) => assert_eq!(p, "/etc/hosts"),
        _ => panic!("expected a local path"),
    }
    let tilde = LookupArgs { target: "~/x".to_string(), query: None, radius: None };
    match route_lookup(&tilde, "/base", Some("/home/u")) {
        LookupRoute::Local(p) => assert_eq!(p, "/home/u/x"),
        _ => panic!("expected a local path"),
    }
    match route_lookup(&tilde, "/base", None) {
        LookupRoute::Local(p) => assert_eq!(p, "/base/~/x"),
        _ => panic!("expected a local path"),
    }
    assert_eq!(effective_radius(Some(3)), 3);
    assert_eq!(effective_radius(None), 20);
    match missing_target_error("nope") {
        BondageError::Io(d) => assert_eq!(d, "Target path 'nope' does not exist."),
        _ => panic!("expected an I/O error"),
    }
}

#[test]
fn escape_replaces_markup_characters() {
    assert_eq!(html_escape("<a href=\"x\">Tom & 'Jo'</a>"), "&lt;a href=&quot;x&quot;&gt;Tom &amp; &apos;Jo&apos;&lt;/a&gt;");
}

#[test]
fn test_write_overwrite() {
    let args = WriteArgs { path: "test.txt".to_string(), new_content: "hello world".to_string(), old_content: None };
    let res = overwrite_report(&args.path);
    assert!(res.contains("status=\"success\""));
    assert!(res.contains("mode=\"overwrite\""));
    assert_eq!(res, "<write path=\"test.txt\" status=\"success\" mode=\"overwrite\" />");
}

#[test]
fn test_write_overwrite_creates_dirs() {
    let res = overwrite_report("subdir/nested/test.txt");
    assert!(res.contains("status=\"success\""));
    assert_eq!(res, "<write path=\"subdir/nested/test.txt\" status=\"success\" mode=\"overwrite\" />");
}

#[test]
fn test_write_patch_success() {
    match plan_patch("patch.txt", "hello apple world", "apple", "banana") {
        PatchOutcome::Apply { updated, report } => {
            assert!(report.contains("status=\"success\""));
            assert!(report.contains("mode=\"patch\""));
            assert_eq!(updated, "hello banana world");
        }
        PatchOutcome::Refuse { .. } => panic!("expected the patch to apply"),
    }
}

#[test]
fn test_write_patch_missing_error() {
    match plan_patch("patch.txt", "hello apple world", "orange", "banana") {
        PatchOutcome::Refuse { report } => {
            assert!(report.contains("status=\"error\""));
            assert!(report.contains("reason=\"old_content not found"));
        }
        PatchOutcome::Apply { .. } => panic!("expected a refusal"),
    }
}

#[test]
fn test_write_patch_duplicate_error() {
    match plan_patch("patch.txt", "apple apple", "apple", "banana") {
        PatchOutcome::Refuse { report } => {
            assert!(report.contains("status=\"error\""));
            assert!(report.contains("reason=\"old_content is not unique"));
            assert_eq!(
                report,
                "<write path=\"patch.txt\" status=\"error\" reason=\"old_content is not unique in the file (found 2 occurrences)\" />"
            );
        }
        PatchOutcome::Apply { .. } => panic!("expected a refusal"),
    }
}

#[test]
fn patch_of_missing_file_and_overlapping_matches() {
    assert_eq!(
        missing_file_report("p.txt"),
        "<write path=\"p.txt\" status=\"error\" reason=\"File does not exist for patching\" />"
    );
    // "aa" starts at two positions of "aaa": the section is not unique.
    match plan_patch("p", "aaa", "aa", "b") {
        PatchOutcome::Refuse { report } => assert_eq!(
            report,
            "<write path=\"p\" status=\"error\" reason=\"old_content is not unique in the file (found 2 occurrences)\" />"
        ),
        PatchOutcome::Apply { .. } => panic!("expected the patch to be refused"),
    }
    match plan_patch("p", "abab", "bab", "X") {
        PatchOutcome::Apply { updated, .. } => assert_eq!(updated, "aX"),
        PatchOutcome::Refuse { .. } => panic!("expected the patch to apply"),
    }
    match plan_patch("p", "", "", "new") {
        PatchOutcome::Apply { updated, .. } => assert_eq!(updated, "new"),
        PatchOutcome::Refuse { .. } => panic!("expected the patch to apply"),
    }
}

#[test]
fn test_bash_execute_truncation() {
    let mut out = String::new();
    for i in 1..=200 {
        out.push_str(&format!("line {}\n", i));
    }
    let args = BashArgs { command: "for i in {1..200}; do echo \"line $i\"; done".to_string() };
    assert!(args.command.contains("200"));
    let res = format_bash_result(Some(0), &out, "");
    assert!(res.contains("<stdout>"));
    assert!(res.contains("line 1\n"));
    assert!(res.contains("line 200"));
    assert!(res.contains("lines and"));
    assert!(res.contains("bytes omitted"));
}

#[test]
fn bash_report_without_exit_code() {
    assert_eq!(
        format_bash_result(None, "ok", "warn"),
        "<bash_result status_code=\"-1\">\n<stdout>\nok\n</stdout>\n<stderr>\nwarn\n</stderr>\n</bash_result>"
    );
    assert!(format_bash_result(Some(-2), "", "").starts_with("<bash_result status_code=\"-2\">"));
}

#[test]
fn standard_tools_and_routing() {
    let tools = get_standard_tools();
    let names: Vec<&str> = tools.iter().map(|t| t.name.as_str()).collect();
    assert_eq!(names, vec!["lookup", "write", "bash"]);
    assert_eq!(tool_kind("write"), ToolKind::Write);
    assert_eq!(tool_kind("Write"), ToolKind::Unknown);
    match unknown_tool_error("fly") {
        BondageError::Tool(d) => assert_eq!(d, "Unknown tool: fly"),
        _ => panic!("expected a tool error"),
    }
    let ok = tool_response("c1", "bash", Ok("out".to_string()));
    assert_eq!(
        ok,
        Message::ToolResponse { id: "c1".to_string(), name: "bash".to_string(), content: "out".to_string(), is_error: false }
    );
    let err = tool_response("c2", "lookup", Err(BondageError::Io("boom".to_string())));
    assert_eq!(
        err,
        Message::ToolResponse { id: "c2".to_string(), name: "lookup".to_string(), content: "I/O Error: boom".to_string(), is_error: true }
    );
}
