//! The pass over a whole log: tagged lines are told from the rest, and the
//! blocks between the begin and end markers are cut out and decoded.

use crate::block::{check_of_block, lines_view, parsed_content_security_check};
use crate::checktypes::{CheckView, ContentSecurityCheck, ProcessType};
use crate::text::{chars_of, same_chars};
use vstd::prelude::*;

verus! {

/// The line that opens a block.
pub const BEGIN_MARKER: &'static str = "#DebugDoContentSecurityCheck Begin";

/// The line that closes a block.
pub const END_MARKER: &'static str = "#DebugDoContentSecurityCheck End";

/// The format of a tagged line: the process tag, the thread, the level, and
/// the payload after the log's name.
pub const CSMLOG_LINE: &'static str = "\\[(Parent|Child) \\d+: Main Thread]: (V|D)/CSMLog (.*)";

/// The capture groups of the first match of regular expression `pattern` in
/// `text`, each group `None` where it took no part in the match: `Some(None)`
/// where nothing matches, `None` where `pattern` is not a valid expression.
pub uninterp spec fn regex_captures(pattern: Seq<char>, text: Seq<char>) -> Option<
    Option<Seq<Option<Seq<char>>>>,
>;

/// Relies on `regex::Regex::new`, which compiles `pattern`, and on
/// `Regex::captures`, which finds the first match in `text`; each group is
/// handed out as the text it matched.
#[verifier::external_body]
fn captures(pattern: &str, text: &str) -> (r: Option<Option<Vec<Option<String>>>>)
    ensures
        r.deep_view() == regex_captures(pattern@, text@),
{
    match regex::Regex::new(pattern) {
        Ok(re) => Some(
            re.captures(text).map(|c| c.iter().map(|m| m.map(|m| m.as_str().to_owned())).collect()),
        ),
        Err(_) => None,
    }
}

/// The process that a tag names; any tag but the two known ones is unknown.
pub open spec fn process_type_of(tag: Seq<char>) -> ProcessType {
    if tag == "Child"@ {
        ProcessType::Child
    } else if tag == "Parent"@ {
        ProcessType::Parent
    } else {
        ProcessType::Unknown
    }
}

/// The process and the payload that the groups of a match of `CSMLOG_LINE`
/// give, or `None` where there is no match.
pub open spec fn tagged_payload(caps: Option<Option<Seq<Option<Seq<char>>>>>) -> Option<
    (ProcessType, Seq<char>),
> {
    match caps {
        Some(Some(groups)) => if groups.len() > 3 && groups[1] is Some && groups[3] is Some {
            Some((process_type_of(groups[1]->0), groups[3]->0))
        } else {
            None
        },
        _ => None,
    }
}

/// The process and the payload of `line`, where it has the tag format.
pub open spec fn classify(line: Seq<char>) -> Option<(ProcessType, Seq<char>)> {
    tagged_payload(regex_captures(CSMLOG_LINE@, line))
}

/// The value of a classified line.
pub open spec fn tagged_view(t: Option<(ProcessType, String)>) -> Option<(ProcessType, Seq<char>)> {
    match t {
        Some((p, s)) => Some((p, s@)),
        None => None,
    }
}

/// The process that `tag` names.
pub fn process_type_of_tag(tag: &str) -> (r: ProcessType)
    ensures
        r == process_type_of(tag@),
{
    let t = chars_of(tag);
    if same_chars(&t, &chars_of("Child")) {
        ProcessType::Child
    } else if same_chars(&t, &chars_of("Parent")) {
        ProcessType::Parent
    } else {
        ProcessType::Unknown
    }
}

/// The process and the payload that the capture groups `caps` of the tag
/// format give.
pub fn payload_of_captures(caps: Option<Option<Vec<Option<String>>>>) -> (r: Option<(ProcessType, String)>)
    ensures
        tagged_view(r) == tagged_payload(caps.deep_view()),
{
    match caps {
        Some(Some(mut groups)) => {
            let ghost g = groups.deep_view();
            if groups.len() > 3 {
                let payload = groups.remove(3);
                let tag = groups.remove(1);
                assert(payload.deep_view() == g[3]);
                assert(tag.deep_view() == g[1]);
                match (tag, payload) {
                    (Some(t), Some(p)) => Some((process_type_of_tag(t.as_str()), p)),
                    _ => None,
                }
            } else {
                None
            }
        },
        _ => None,
    }
}

/// The process and the payload of `line`, where it has the tag format.
pub fn classify_line(line: &str) -> (r: Option<(ProcessType, String)>)
    ensures
        tagged_view(r) == classify(line@),
{
    payload_of_captures(captures(CSMLOG_LINE, line))
}

/// Where the scan of a log stands: inside a block or not, the payloads of
/// the open block, the process of its last tagged line, and the records of
/// the blocks closed so far.
pub struct ScanView {
    pub inside: bool,
    pub block: Seq<Seq<char>>,
    pub process_type: ProcessType,
    pub records: Seq<CheckView>,
}

/// Where a scan starts: outside any block, with nothing found.
pub open spec fn scan_start() -> ScanView {
    ScanView { inside: false, block: Seq::empty(), process_type: ProcessType::Unknown, records: Seq::empty() }
}

/// One step of the scan. Outside a block, a begin marker opens a fresh
/// block and every other line is ignored. Inside a block, an end marker
/// closes it and keeps its record where it decodes, a tagged line adds its
/// payload and sets the block's process, and any other line (a begin marker
/// among them) is dropped.
pub open spec fn scan_step(s: ScanView, line: Seq<char>) -> ScanView {
    if line == BEGIN_MARKER@ && !s.inside {
        ScanView { inside: true, block: Seq::empty(), process_type: ProcessType::Unknown, ..s }
    } else if line == END_MARKER@ {
        if s.inside {
            ScanView {
                inside: false,
                block: Seq::empty(),
                process_type: ProcessType::Unknown,
                records: match check_of_block(s.process_type, s.block) {
                    Ok(c) => s.records.push(c),
                    Err(_) => s.records,
                },
            }
        } else {
            s
        }
    } else if s.inside {
        match classify(line) {
            Some((t, payload)) => ScanView { block: s.block.push(payload), process_type: t, ..s },
            None => s,
        }
    } else {
        s
    }
}

/// The scan after reading `lines` from `s`, in order.
pub open spec fn scan_from(s: ScanView, lines: Seq<Seq<char>>) -> ScanView
    decreases lines.len(),
{
    if lines.len() == 0 {
        s
    } else {
        scan_step(scan_from(s, lines.drop_last()), lines.last())
    }
}

/// The records that a log's lines give: one for each block that is closed
/// and decodes, in the order of the log. A block still open at the end
/// gives none.
pub open spec fn scan_log(lines: Seq<Seq<char>>) -> Seq<CheckView> {
    scan_from(scan_start(), lines).records
}

/// Scanning two runs of lines one after the other is scanning them joined.
pub proof fn lemma_scan_append(s: ScanView, a: Seq<Seq<char>>, b: Seq<Seq<char>>)
    ensures
        scan_from(s, a + b) == scan_from(scan_from(s, a), b),
    decreases b.len(),
{
    if b.len() == 0 {
        assert(a + b == a);
    } else {
        assert((a + b).drop_last() == a + b.drop_last());
        lemma_scan_append(s, a, b.drop_last());
    }
}

/// A log without a begin marker gives no record.
pub proof fn lemma_no_markers_no_records(lines: Seq<Seq<char>>)
    requires
        forall|i: int| 0 <= i < lines.len() ==> lines[i] != BEGIN_MARKER@,
    ensures
        scan_log(lines) == Seq::<CheckView>::empty(),
{
    lemma_unopened_scan(lines);
}

/// Without a begin marker the scan never leaves its start.
proof fn lemma_unopened_scan(lines: Seq<Seq<char>>)
    requires
        forall|i: int| 0 <= i < lines.len() ==> lines[i] != BEGIN_MARKER@,
    ensures
        scan_from(scan_start(), lines) == scan_start(),
    decreases lines.len(),
{
    if lines.len() > 0 {
        assert(lines.last() == lines[lines.len() - 1]);
        lemma_unopened_scan(lines.drop_last());
    }
}

/// Outside a block, lines that are neither marker leave the scan as it is.
pub proof fn lemma_noise_run(s: ScanView, noise: Seq<Seq<char>>)
    requires
        !s.inside,
        forall|i: int|
            0 <= i < noise.len() ==> #[trigger] noise[i] != BEGIN_MARKER@ && noise[i] != END_MARKER@,
    ensures
        scan_from(s, noise) == s,
    decreases noise.len(),
{
    if noise.len() > 0 {
        assert(noise.last() == noise[noise.len() - 1]);
        lemma_noise_run(s, noise.drop_last());
    }
}

/// Any run of lines that are neither marker, put where the scan is outside
/// every block, leaves the records unchanged.
pub proof fn lemma_noise_run_ignored(
    before: Seq<Seq<char>>,
    noise: Seq<Seq<char>>,
    after: Seq<Seq<char>>,
)
    requires
        !scan_from(scan_start(), before).inside,
        forall|i: int|
            0 <= i < noise.len() ==> #[trigger] noise[i] != BEGIN_MARKER@ && noise[i] != END_MARKER@,
    ensures
        scan_log(before + noise + after) == scan_log(before + after),
{
    lemma_scan_append(scan_start(), before + noise, after);
    lemma_scan_append(scan_start(), before, noise);
    lemma_scan_append(scan_start(), before, after);
    lemma_noise_run(scan_from(scan_start(), before), noise);
}

/// The values of a sequence of records.
pub open spec fn records_view(rs: Seq<ContentSecurityCheck>) -> Seq<CheckView> {
    rs.map_values(|c: ContentSecurityCheck| c@)
}

/// Scans the lines of a log for blocks, and decodes each block that is
/// closed; see `scan_log`.
pub fn parse_log(lines: &Vec<String>) -> (r: Vec<ContentSecurityCheck>)
    ensures
        records_view(r@) == scan_log(lines_view(lines@)),
{
    let ghost all = lines_view(lines@);
    let begin = chars_of(BEGIN_MARKER);
    let end = chars_of(END_MARKER);
    let mut records: Vec<ContentSecurityCheck> = Vec::new();
    let mut block: Vec<String> = Vec::new();
    let mut inside = false;
    let mut process_type = ProcessType::Unknown;
    let mut i: usize = 0;
    assert(all.take(0) == Seq::<Seq<char>>::empty());
    assert(records_view(records@) == Seq::<CheckView>::empty());
    assert(lines_view(block@) == Seq::<Seq<char>>::empty());
    while i < lines.len()
        invariant
            all == lines_view(lines@),
            all.len() == lines@.len(),
            i <= all.len(),
            begin@ == BEGIN_MARKER@,
            end@ == END_MARKER@,
            scan_from(scan_start(), all.take(i as int)) == (ScanView {
                inside,
                block: lines_view(block@),
                process_type,
                records: records_view(records@),
            }),
        decreases all.len() - i,
    {
        let line = chars_of(lines[i].as_str());
        assert(line@ == all[i as int]);
        assert(all.take(i + 1).drop_last() == all.take(i as int));
        if !inside && same_chars(&line, &begin) {
            inside = true;
            block = Vec::new();
            process_type = ProcessType::Unknown;
            assert(lines_view(block@) == Seq::<Seq<char>>::empty());
        } else if same_chars(&line, &end) {
            if inside {
                let closed = block;
                block = Vec::new();
                assert(lines_view(block@) == Seq::<Seq<char>>::empty());
                let ghost before = records_view(records@);
                match parsed_content_security_check(process_type, closed) {
                    Ok(c) => {
                        records.push(c);
                        assert(records_view(records@) == before.push(c@));
                    },
                    Err(_) => {},
                }
                inside = false;
                process_type = ProcessType::Unknown;
            }
        } else if inside {
            match classify_line(lines[i].as_str()) {
                Some((t, payload)) => {
                    let ghost before = lines_view(block@);
                    block.push(payload);
                    assert(lines_view(block@) == before.push(payload@));
                    process_type = t;
                },
                None => {},
            }
        }
        i = i + 1;
    }
    assert(all.take(i as int) == all);
    records
}

} // verus!
