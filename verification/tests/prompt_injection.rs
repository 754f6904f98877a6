use bondage::prompt_file_injector::{
    assemble_prompt, first_mentions, longest_resolving, missing_reference_message, note_new, DirectFile,
    MentionScan, NestedFile, Settled,
};

fn strings(v: &[&str]) -> Vec<String> {
    v.iter().map(|s| s.to_string()).collect()
}

#[test]
fn scan_proposes_growing_candidates() {
    let mut s = MentionScan::new("read @notes/a b.txt, please");
    let c = s.next_candidates().unwrap();
    assert_eq!(c, strings(&["notes/a", "notes/a b.txt", "notes/a b.txt, please"]));
    // The two-word candidate resolved: the search goes on after "b.txt,".
    assert_eq!(s.settle(Some(1)), None);
    assert_eq!(s.next_candidates(), None);
}

#[test]
fn scan_skips_rope_control_words_and_bare_at() {
    let mut s = MentionScan::new("@rope @rope-done @ \n@x");
    let c = s.next_candidates().unwrap();
    assert_eq!(c, strings(&["x"]));
    assert_eq!(s.settle(None), Some("x".to_string()));
    assert_eq!(s.next_candidates(), None);
}

#[test]
fn scan_segment_stops_at_next_at_and_line_break() {
    let mut s = MentionScan::new("@a b\nc @d");
    assert_eq!(s.next_candidates().unwrap(), strings(&["a", "a b"]));
    assert_eq!(s.settle(Some(0)), None);
    assert_eq!(s.next_candidates().unwrap(), strings(&["d"]));
    assert_eq!(s.settle(Some(0)), None);
    assert_eq!(s.next_candidates(), None);
}

#[test]
fn scan_candidates_stop_at_unusable_text() {
    let mut s = MentionScan::new("@file.txt > out");
    assert_eq!(s.next_candidates().unwrap(), strings(&["file.txt"]));
    let mut t = MentionScan::new("@<x>");
    assert_eq!(t.next_candidates().unwrap(), Vec::<String>::new());
    assert_eq!(t.settle(None), Some("<x>".to_string()));
}

#[test]
fn scan_strips_trailing_marks() {
    let mut s = MentionScan::new("see (@dir/file.rs).");
    assert_eq!(s.next_candidates().unwrap(), strings(&["dir/file.rs"]));
    let mut t = MentionScan::new("@...");
    assert_eq!(t.next_candidates().unwrap(), Vec::<String>::new());
}

#[test]
fn scan_takes_at_most_ten_words() {
    let mut s = MentionScan::new("@a b c d e f g h i j k l");
    let c = s.next_candidates().unwrap();
    assert_eq!(c.len(), 10);
    assert_eq!(c[9], "a b c d e f g h i j");
}

#[test]
fn scan_missing_reference_advances_past_at() {
    let mut s = MentionScan::new("@ghost@real");
    assert_eq!(s.next_candidates().unwrap(), strings(&["ghost"]));
    assert_eq!(s.settle(None), Some("ghost".to_string()));
    assert_eq!(s.next_candidates().unwrap(), strings(&["real"]));
    assert_eq!(s.settle(Some(0)), None);
    // Settling again, with nothing pending, changes nothing.
    assert_eq!(s.settle(None), None);
    assert_eq!(s.next_candidates(), None);
}

#[test]
fn missing_reference_text() {
    assert_eq!(
        missing_reference_message("nope.txt", "/work"),
        "Resource '@nope.txt' not found in CWD (/work) or ~/.config/rope/"
    );
}

#[test]
fn seen_files_are_taken_once() {
    let mut seen = Vec::new();
    assert!(note_new(&mut seen, "/a"));
    assert!(note_new(&mut seen, "/b"));
    assert!(!note_new(&mut seen, "/a"));
    assert_eq!(seen, strings(&["/a", "/b"]));
}

#[test]
fn assembled_prompt_layout() {
    assert_eq!(assemble_prompt("plain", &Vec::new(), &Vec::new()), "plain");
    let direct = vec![DirectFile { name: "a.txt".to_string(), content: "A".to_string() }];
    let nested = vec![NestedFile {
        name: "b.txt".to_string(),
        content: "B".to_string(),
        parent: "a.txt".to_string(),
    }];
    assert_eq!(
        assemble_prompt("look @a.txt", &direct, &nested),
        "look @a.txt\n\n---\n\n[File: a.txt]\nA\n\n[File: b.txt (referenced by a.txt)]\nB"
    );
}

#[test]
fn longest_resolving_candidate_wins() {
    assert_eq!(longest_resolving(&vec![true, false, true, false]), Some(2));
    assert_eq!(longest_resolving(&vec![false, false]), None);
    assert_eq!(longest_resolving(&Vec::new()), None);
    // "My" and "My Spaced File.txt" exist: the longer one is taken.
    let mut s = MentionScan::new("see @My Spaced File.txt, thanks");
    let c = s.next_candidates().unwrap();
    assert_eq!(c, strings(&["My", "My Spaced", "My Spaced File.txt", "My Spaced File.txt, thanks"]));
    assert_eq!(s.settle_by(&vec![true, false, true, false]), Some(Settled::Found(2)));
    assert_eq!(s.next_candidates(), None);
    let mut m = MentionScan::new("@ghost here");
    let c = m.next_candidates().unwrap();
    assert_eq!(s.settle_by(&Vec::new()), None);
    assert_eq!(m.settle_by(&vec![false; c.len()]), Some(Settled::Missing("ghost".to_string())));
}

#[test]
fn prompt_embeds_each_file_once_and_one_level_deep() {
    // "@a.txt @a.txt": a.txt says "see @b.txt", b.txt says "see @c.txt".
    let refs_0 = vec!["/d/a.txt".to_string(), "/d/a.txt".to_string()];
    assert_eq!(first_mentions(&refs_0, &Vec::new()), vec![0]);
    // Only the directly named a.txt is scanned; b.txt's own mention of c.txt is not.
    let refs_1 = vec!["/d/b.txt".to_string()];
    assert_eq!(first_mentions(&refs_1, &refs_0), vec![0]);
    let direct = vec![DirectFile { name: "a.txt".to_string(), content: "see @b.txt".to_string() }];
    let nested = vec![NestedFile {
        name: "b.txt".to_string(),
        content: "see @c.txt".to_string(),
        parent: "a.txt".to_string(),
    }];
    assert_eq!(
        assemble_prompt("@a.txt @a.txt", &direct, &nested),
        "@a.txt @a.txt\n\n---\n\n[File: a.txt]\nsee @b.txt\n\n[File: b.txt (referenced by a.txt)]\nsee @c.txt"
    );
}

#[test]
fn first_mentions_skip_repeats_and_taken_files() {
    let paths: Vec<String> = ["x", "y", "x", "z", "y"].iter().map(|s| s.to_string()).collect();
    assert_eq!(first_mentions(&paths, &Vec::new()), vec![0, 1, 3]);
    let taken = vec!["y".to_string()];
    assert_eq!(first_mentions(&paths, &taken), vec![0, 3]);
    assert_eq!(first_mentions(&Vec::new(), &taken), Vec::<usize>::new());
}
