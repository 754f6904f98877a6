//! The `write` tool: overwrite a file, or patch one unique section of it. The
//! caller reads and writes the disk; the library decides what the patched
//! text is and what the tool reports.

use vstd::prelude::*;
use crate::ToolDefinition;
use crate::text::{
    chars_of, dec, find_from, occurs_at, push_chars, push_dec, push_str, slice_chars,
    string_from_chars,
};

verus! {

broadcast use vstd::string::group_string_axioms;

/// Arguments of the `write` tool.
#[derive(Debug, Clone)]
pub struct WriteArgs {
    /// Destination path.
    pub path: String,
    /// The new text: the whole file, or the replacement for `old_content`.
    pub new_content: String,
    /// The unique section to replace; absent for a full overwrite.
    pub old_content: Option<String>,
}

/// `d` is the definition of the `write` tool.
pub open spec fn is_write_definition(d: ToolDefinition) -> bool {
    &&& d.name@ == "write"@
    &&& d.description@
        == "Write content to a file. Overwrite the entire file, or patch a specific unique section."@
    &&& d.parameters@
        == "{\"type\":\"object\",\"properties\":{\"path\":{\"type\":\"string\",\"description\":\"The destination path of the file.\"},\"new_content\":{\"type\":\"string\",\"description\":\"The text content to write to the file (or the replacement text block).\"},\"old_content\":{\"type\":\"string\",\"description\":\"Optional. The exact, unique substring block of text in the file to be replaced. If omitted, the tool performs a full file overwrite.\"}},\"required\":[\"path\",\"new_content\"]}"@
}

/// The definition of the `write` tool.
pub fn definition() -> (d: ToolDefinition)
    ensures
        is_write_definition(d),
{
    ToolDefinition {
        name: "write".to_owned(),
        description: "Write content to a file. Overwrite the entire file, or patch a specific unique section.".to_owned(),
        parameters: "{\"type\":\"object\",\"properties\":{\"path\":{\"type\":\"string\",\"description\":\"The destination path of the file.\"},\"new_content\":{\"type\":\"string\",\"description\":\"The text content to write to the file (or the replacement text block).\"},\"old_content\":{\"type\":\"string\",\"description\":\"Optional. The exact, unique substring block of text in the file to be replaced. If omitted, the tool performs a full file overwrite.\"}},\"required\":[\"path\",\"new_content\"]}".to_owned(),
    }
}

/// The positions from `from` on at which `p` starts in `s`, overlapping
/// ones included; an empty `p` starts at every position, the end included.
pub open spec fn count_from(s: Seq<char>, p: Seq<char>, from: int) -> nat
    decreases s.len() + 1 - from,
{
    if from < 0 || from > s.len() {
        0
    } else if occurs_at(s, p, from) {
        1 + count_from(s, p, from + 1)
    } else {
        count_from(s, p, from + 1)
    }
}

/// The number of positions at which `p` starts in `s`, overlapping ones
/// included.
pub open spec fn occurrences(s: Seq<char>, p: Seq<char>) -> nat {
    count_from(s, p, 0)
}

/// `s` with the occurrence of `p` at `i` replaced by `r`.
pub open spec fn replaced_at(s: Seq<char>, p: Seq<char>, r: Seq<char>, i: int) -> Seq<char> {
    s.subrange(0, i) + r + s.subrange(i + p.len(), s.len() as int)
}

/// The report of a write to `path` that failed for `reason`.
pub open spec fn write_error(path: Seq<char>, reason: Seq<char>) -> Seq<char> {
    "<write path=\""@ + path + "\" status=\"error\" reason=\""@ + reason + "\" />"@
}

/// The report of a write to `path` that succeeded in `mode`.
pub open spec fn write_success(path: Seq<char>, mode: Seq<char>) -> Seq<char> {
    "<write path=\""@ + path + "\" status=\"success\" mode=\""@ + mode + "\" />"@
}

/// What a patch comes to.
#[derive(Debug)]
pub enum PatchOutcome {
    /// The file is to hold `updated`; `report` is the tool's answer once written.
    Apply { updated: String, report: String },
    /// The file is left as it is; `report` says why.
    Refuse { report: String },
}

fn push_write_head(out: &mut Vec<char>, path: &str)
    ensures
        final(out)@ == old(out)@ + "<write path=\""@ + path@,
{
    push_str(out, "<write path=\"");
    push_str(out, path);
}

/// The report for a patch of a file that does not exist.
pub fn missing_file_report(path: &str) -> (r: String)
    ensures
        r@ == write_error(path@, "File does not exist for patching"@),
{
    let mut out: Vec<char> = Vec::new();
    push_write_head(&mut out, path);
    push_str(&mut out, "\" status=\"error\" reason=\"");
    push_str(&mut out, "File does not exist for patching");
    push_str(&mut out, "\" />");
    string_from_chars(out.as_slice())
}

/// The report for a full overwrite of `path`.
pub fn overwrite_report(path: &str) -> (r: String)
    ensures
        r@ == write_success(path@, "overwrite"@),
{
    let mut out: Vec<char> = Vec::new();
    push_write_head(&mut out, path);
    push_str(&mut out, "\" status=\"success\" mode=\"");
    push_str(&mut out, "overwrite");
    push_str(&mut out, "\" />");
    string_from_chars(out.as_slice())
}

proof fn lemma_count_skip(s: Seq<char>, p: Seq<char>, from: int, to: int)
    requires
        0 <= from <= to <= s.len() + 1,
        forall|j: int| from <= j < to ==> !occurs_at(s, p, j),
    ensures
        count_from(s, p, from) == count_from(s, p, to),
    decreases to - from,
{
    if from < to {
        lemma_count_skip(s, p, from + 1, to);
    }
}

proof fn lemma_count_zero(s: Seq<char>, p: Seq<char>, from: int)
    requires
        0 <= from,
        count_from(s, p, from) == 0,
    ensures
        forall|j: int| from <= j ==> !occurs_at(s, p, j),
    decreases s.len() + 1 - from,
{
    if from <= s.len() {
        lemma_count_zero(s, p, from + 1);
    }
}

/// The plan for a patch of the file `path`, whose text is `content`: when
/// `old` starts at exactly one position of `content`, that occurrence is
/// replaced by `new` and the patch applies; otherwise it is refused and the
/// report says whether `old` was missing or at how many positions it starts
/// (overlapping occurrences each count).
pub fn plan_patch(path: &str, content: &str, old: &str, new: &str) -> (r: PatchOutcome)
    ensures
        occurrences(content@, old@) == 0 ==> (r matches PatchOutcome::Refuse { report }
            && report@ == write_error(path@, "old_content not found in the file"@)),
        occurrences(content@, old@) > 1 ==> (r matches PatchOutcome::Refuse { report }
            && report@ == write_error(
            path@,
            "old_content is not unique in the file (found "@ + dec(occurrences(content@, old@))
                + " occurrences)"@,
        )),
        occurrences(content@, old@) == 1 ==> (r matches PatchOutcome::Apply { updated, report }
            && report@ == write_success(path@, "patch"@) && exists|i: int|
            occurs_at(content@, old@, i) && (forall|j: int|
                j != i ==> !occurs_at(content@, old@, j)) && updated@ == replaced_at(
                content@,
                old@,
                new@,
                i,
            )),
{
    let s = chars_of(content);
    let p = chars_of(old);
    let n = s.len();
    let mut count: u128 = 0;
    let mut first: Option<usize> = None;
    let mut i: usize = 0;
    let mut done = false;
    while !done
        invariant
            n == s.len(),
            count + (if done {
                0
            } else {
                count_from(s@, p@, i as int)
            }) == occurrences(s@, p@),
            !done ==> i <= n,
            !done ==> count <= i,
            count == 0 ==> first is None,
            count > 0 ==> first is Some,
            first matches Some(f) ==> occurs_at(s@, p@, f as int),
            first matches Some(f) ==> forall|j: int| 0 <= j < f ==> !occurs_at(s@, p@, j),
            first is None && !done ==> forall|j: int| 0 <= j < i ==> !occurs_at(s@, p@, j),
        decreases (if done {
            0
        } else {
            n + 1 - i
        }),
    {
        match find_from(&s, &p, i) {
            Some(j) => {
                proof {
                    lemma_count_skip(s@, p@, i as int, j as int);
                }
                if first.is_none() {
                    first = Some(j);
                }
                count = count + 1;
                if j >= n {
                    assert(count_from(s@, p@, j + 1) == 0);
                    done = true;
                } else {
                    i = j + 1;
                }
            },
            None => {
                proof {
                    lemma_count_skip(s@, p@, i as int, n + 1);
                }
                done = true;
            },
        }
    }
    let mut out: Vec<char> = Vec::new();
    push_write_head(&mut out, path);
    if count == 0 {
        push_str(&mut out, "\" status=\"error\" reason=\"");
        push_str(&mut out, "old_content not found in the file");
        push_str(&mut out, "\" />");
        PatchOutcome::Refuse { report: string_from_chars(out.as_slice()) }
    } else if count > 1 {
        push_str(&mut out, "\" status=\"error\" reason=\"");
        push_str(&mut out, "old_content is not unique in the file (found ");
        push_dec(&mut out, count as u128);
        push_str(&mut out, " occurrences)");
        push_str(&mut out, "\" />");
        PatchOutcome::Refuse { report: string_from_chars(out.as_slice()) }
    } else {
        let f = match first {
            Some(f) => f,
            None => 0,
        };
        assert(occurs_at(s@, p@, f as int));
        proof {
            lemma_count_skip(s@, p@, 0, f as int);
            lemma_count_zero(s@, p@, f + 1);
        }
        let mut u = slice_chars(&s, 0, f);
        push_str(&mut u, new);
        let rest = slice_chars(&s, f + p.len(), n);
        push_chars(&mut u, &rest);
        push_str(&mut out, "\" status=\"success\" mode=\"");
        push_str(&mut out, "patch");
        push_str(&mut out, "\" />");
        PatchOutcome::Apply {
            updated: string_from_chars(u.as_slice()),
            report: string_from_chars(out.as_slice()),
        }
    }
}

} // verus!
