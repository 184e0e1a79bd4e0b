//! The section scanner: a single pass over the document's lines. Each line is
//! classified against the current section, then either accumulated into a
//! text buffer, parsed as a state vector, or dropped, exactly as the
//! transition table of the format prescribes.

use vstd::prelude::*;
use crate::record::Satellite;
use crate::record::SatelliteView;
use crate::record::appended_text;
use crate::record::numbered_vector;
use crate::section::Section;
use crate::section::classify;
use crate::section::classify_line;
use crate::section::comment_marker;
use crate::text::chars_of;
use crate::text::contains_pat;
use crate::text::spec_lines;
use crate::text::spec_tokens;
use crate::text::split_lines;
use crate::text::char_seqs;
use crate::text::tokenize;
use crate::vector::StateVectorView;
use crate::vector::VectorError;
use crate::vector::parse_vector_line;
use crate::vector::spec_parse_vector;

verus! {

/// A recoverable per-line failure, recorded against the line it came from.
#[derive(Clone, Copy, PartialEq, Eq, Structural, Debug)]
pub struct LineIssue {
    /// 0-based index of the offending line among the scanned lines.
    pub line_index: usize,
    /// What went wrong on that line.
    pub error: VectorError,
}

/// Mathematical image of a recorded per-line failure.
pub struct LineIssueView {
    pub line_index: int,
    pub error: VectorError,
}

impl View for LineIssue {
    type V = LineIssueView;

    open spec fn view(&self) -> LineIssueView {
        LineIssueView { line_index: self.line_index as int, error: self.error }
    }
}

pub open spec fn issue_views(v: Seq<LineIssue>) -> Seq<LineIssueView> {
    Seq::new(v.len(), |i: int| v[i]@)
}

/// The whole state of a scan: the current section and everything
/// accumulated so far.
pub struct ScanModel {
    pub section: Section,
    pub meta: Seq<char>,
    pub trajectory: Seq<char>,
    pub vectors: Seq<StateVectorView>,
    pub issues: Seq<LineIssueView>,
}

/// The state before any line was offered.
pub open spec fn initial_scan() -> ScanModel {
    ScanModel {
        section: Section::Unknown,
        meta: Seq::empty(),
        trajectory: Seq::empty(),
        vectors: Seq::empty(),
        issues: Seq::empty(),
    }
}

/// One step of the scanner: line `idx` is classified against the current
/// section; metadata and trajectory lines are accumulated with the comment
/// keyword stripped, the comment-end handoff advances to the coordinate
/// stream without appending text, coordinate lines are parsed as state
/// vectors (a failure is recorded and the scan continues), and lines before
/// any recognized section are dropped.
pub open spec fn scan_step(m: ScanModel, line: Seq<char>, idx: int) -> ScanModel {
    let toks = spec_tokens(line);
    let next = classify(m.section, toks);
    match next {
        Section::MetaStart | Section::MetaEnd => ScanModel {
            section: next,
            meta: appended_text(m.meta, line),
            trajectory: m.trajectory,
            vectors: m.vectors,
            issues: m.issues,
        },
        Section::CommentTrajectory => ScanModel {
            section: next,
            meta: m.meta,
            trajectory: appended_text(m.trajectory, line),
            vectors: m.vectors,
            issues: m.issues,
        },
        Section::CommentSource => ScanModel {
            section: next,
            meta: m.meta,
            trajectory: m.trajectory,
            vectors: m.vectors,
            issues: m.issues,
        },
        Section::CommentEnd => ScanModel {
            section: Section::CoordinateStream,
            meta: m.meta,
            trajectory: m.trajectory,
            vectors: m.vectors,
            issues: m.issues,
        },
        Section::CoordinateStream => match spec_parse_vector(toks) {
            Ok(p) => ScanModel {
                section: next,
                meta: m.meta,
                trajectory: m.trajectory,
                vectors: m.vectors.push(
                    StateVectorView {
                        sequence_number: m.vectors.len() as int + 1,
                        epoch: p.0,
                        x: p.1,
                        y: p.2,
                        z: p.3,
                    },
                ),
                issues: m.issues,
            },
            Err(e) => ScanModel {
                section: next,
                meta: m.meta,
                trajectory: m.trajectory,
                vectors: m.vectors,
                issues: m.issues.push(LineIssueView { line_index: idx, error: e }),
            },
        },
        Section::Unknown => m,
    }
}

/// The state after the first `n` lines.
pub open spec fn scan_upto(lines: Seq<Seq<char>>, n: int) -> ScanModel
    decreases n,
{
    if n <= 0 {
        initial_scan()
    } else {
        scan_step(scan_upto(lines, n - 1), lines[n - 1], n - 1)
    }
}

/// The lines actually scanned under an optional line-count ceiling.
pub open spec fn limited_lines(lines: Seq<Seq<char>>, limit: Option<usize>) -> Seq<Seq<char>> {
    match limit {
        Some(l) => if (l as int) < lines.len() {
            lines.subrange(0, l as int)
        } else {
            lines
        },
        None => lines,
    }
}

/// The complete scan of a document under an optional line-count ceiling.
pub open spec fn spec_scan(content: Seq<char>, limit: Option<usize>) -> ScanModel {
    let lines = limited_lines(spec_lines(content), limit);
    scan_upto(lines, lines.len() as int)
}

/// The record a scan state denotes.
pub open spec fn record_of(m: ScanModel) -> SatelliteView {
    SatelliteView { meta: m.meta, trajectory: m.trajectory, vectors: m.vectors }
}

/// A scan never gathers more vectors than it has seen lines.
pub proof fn lemma_scan_vector_count(lines: Seq<Seq<char>>, n: int)
    requires
        0 <= n,
    ensures
        scan_upto(lines, n).vectors.len() <= n,
    decreases n,
{
    if n > 0 {
        lemma_scan_vector_count(lines, n - 1);
    }
}

/// Everything a scan produced: the record, the per-line failures, and the
/// section that was current when input ended.
pub struct ScanOutcome {
    pub record: Satellite,
    pub issues: Vec<LineIssue>,
    pub last_section: Section,
}

impl ScanOutcome {
    /// Whether no recognizable section was ever entered.
    pub fn empty_document(&self) -> (r: bool)
        ensures
            r == (self.last_section == Section::Unknown),
    {
        self.last_section == Section::Unknown
    }
}

/// Scans a document, line by line, under an optional line-count ceiling
/// (`None` scans until input is exhausted).
pub fn scan_document(content: &String, limit: Option<usize>) -> (out: ScanOutcome)
    ensures
        out.record@ == record_of(spec_scan(content@, limit)),
        issue_views(out.issues@) == spec_scan(content@, limit).issues,
        out.last_section == spec_scan(content@, limit).section,
{
    let chars = chars_of(content.as_str());
    let lines = split_lines(&chars);
    let total = lines.len();
    let n: usize = match limit {
        Some(l) => if l < total {
            l
        } else {
            total
        },
        None => total,
    };
    let ghost glines = limited_lines(spec_lines(content@), limit);
    proof {
        assert(char_seqs(lines@) == spec_lines(content@));
        assert(glines.len() == n as int);
        assert forall|k: int| 0 <= k < n implies lines@[k]@ == glines[k] by {
            assert(char_seqs(lines@)[k] == lines@[k]@);
        }
    }
    let mut sat = Satellite::new();
    let mut issues: Vec<LineIssue> = Vec::new();
    let mut section = Section::Unknown;
    let mut i: usize = 0;
    proof {
        assert(issue_views(issues@) =~= initial_scan().issues);
        assert(sat@.vectors =~= initial_scan().vectors);
    }
    while i < n
        invariant
            i <= n,
            n as int == glines.len(),
            n <= lines@.len(),
            forall|k: int| 0 <= k < n ==> lines@[k]@ == glines[k],
            section == scan_upto(glines, i as int).section,
            sat@.meta == scan_upto(glines, i as int).meta,
            sat@.trajectory == scan_upto(glines, i as int).trajectory,
            sat@.vectors == scan_upto(glines, i as int).vectors,
            issue_views(issues@) == scan_upto(glines, i as int).issues,
        decreases n - i,
    {
        let ghost m = scan_upto(glines, i as int);
        let ghost m2 = scan_upto(glines, i as int + 1);
        let toks = tokenize(&lines[i]);
        let next = classify_line(section, &toks);
        proof {
            assert(m2 == scan_step(m, glines[i as int], i as int));
            assert(char_seqs(toks@) == spec_tokens(glines[i as int]));
            assert(next == classify(m.section, spec_tokens(glines[i as int])));
        }
        match next {
            Section::MetaStart => {
                sat.append_meta(&lines[i]);
                section = next;
            },
            Section::MetaEnd => {
                sat.append_meta(&lines[i]);
                section = next;
            },
            Section::CommentTrajectory => {
                sat.append_trajectory(&lines[i]);
                section = next;
            },
            Section::CommentSource => {
                section = next;
            },
            Section::CommentEnd => {
                section = Section::CoordinateStream;
            },
            Section::CoordinateStream => {
                match parse_vector_line(&toks) {
                    Ok(pv) => {
                        proof {
                            lemma_scan_vector_count(glines, i as int);
                            assert(sat.vectors@.len() < usize::MAX);
                        }
                        let ghost count = sat@.vectors.len() as int;
                        sat.append_vector(pv);
                        section = next;
                        proof {
                            let p = spec_parse_vector(spec_tokens(glines[i as int]))->Ok_0;
                            assert(numbered_vector(pv, count) == StateVectorView {
                                sequence_number: m.vectors.len() as int + 1,
                                epoch: p.0,
                                x: p.1,
                                y: p.2,
                                z: p.3,
                            });
                        }
                    },
                    Err(e) => {
                        issues.push(LineIssue { line_index: i, error: e });
                        section = next;
                        proof {
                            assert(issue_views(issues@) =~= m.issues.push(
                                LineIssueView { line_index: i as int, error: e },
                            ));
                        }
                    },
                }
            },
            Section::Unknown => {},
        }
        i += 1;
    }
    ScanOutcome { record: sat, issues, last_section: section }
}

/// Converts an OEM document into its structured record: metadata text,
/// trajectory text, and the ordered series of state vectors, scanning until
/// input is exhausted.
pub fn construct_oem(content: &String) -> (sat: Satellite)
    ensures
        sat@ == record_of(spec_scan(content@, None)),
{
    let out = scan_document(content, None);
    proof {
        assert(out.record@ =~= record_of(spec_scan(content@, None)));
    }
    out.record
}

/// Sequence numbers are dense and 1-based: for every `i`, the `i`-th vector
/// of the output series carries sequence number `i + 1`, regardless of gaps
/// or disorder in the source timestamps.
pub proof fn lemma_sequence_numbers_dense(lines: Seq<Seq<char>>, n: int)
    requires
        0 <= n,
    ensures
        forall|i: int|
            0 <= i < scan_upto(lines, n).vectors.len() ==> #[trigger] scan_upto(
                lines,
                n,
            ).vectors[i].sequence_number == i + 1,
    decreases n,
{
    if n > 0 {
        lemma_sequence_numbers_dense(lines, n - 1);
    }
}

/// An input with no recognizable section markers leaves the scan in the
/// unknown section and the record empty: empty metadata text, empty
/// trajectory text, and an empty vector series.
pub proof fn lemma_unmarked_input_yields_empty(lines: Seq<Seq<char>>, n: int)
    requires
        0 <= n <= lines.len(),
        forall|i: int|
            0 <= i < lines.len() ==> classify(Section::Unknown, #[trigger] spec_tokens(lines[i]))
                == Section::Unknown,
    ensures
        scan_upto(lines, n) == initial_scan(),
    decreases n,
{
    if n > 0 {
        lemma_unmarked_input_yields_empty(lines, n - 1);
    }
}

/// A sequence ends with a line feed.
pub open spec fn ends_in_newline(s: Seq<char>) -> bool {
    s.len() == 0 || s[s.len() - 1] == '\n'
}

/// Text free of a pattern, extended by a stripped line and a line feed,
/// stays free of the pattern.
proof fn lemma_append_keeps_no_marker(a: Seq<char>, b: Seq<char>, pat: Seq<char>)
    requires
        pat.len() > 0,
        !contains_pat(a, pat),
        !contains_pat(b, pat),
        ends_in_newline(a),
        forall|j: int| 0 <= j < pat.len() ==> pat[j] != '\n',
    ensures
        !contains_pat(a + b + seq!['\n'], pat),
        ends_in_newline(a + b + seq!['\n']),
{
    let c = a + b + seq!['\n'];
    assert(c[c.len() - 1] == '\n');
    assert forall|i: int| !crate::text::matches_at(c, pat, i) by {
        if crate::text::matches_at(c, pat, i) {
            if i + pat.len() <= a.len() {
                assert forall|j: int| 0 <= j < pat.len() implies a[i + j] == pat[j] by {
                    assert(c[i + j] == a[i + j]);
                }
                assert(crate::text::matches_at(a, pat, i));
            } else if i < a.len() {
                let j0 = a.len() - 1 - i;
                assert(c[i + j0] == a[a.len() - 1]);
                assert(pat[j0] == '\n');
            } else if i + pat.len() <= a.len() + b.len() {
                assert forall|j: int| 0 <= j < pat.len() implies b[i - a.len() + j] == pat[j] by {
                    assert(c[i + j] == b[i + j - a.len()]);
                }
                assert(crate::text::matches_at(b, pat, i - a.len()));
            } else {
                let j0 = a.len() + b.len() - i;
                assert(c[i + j0] == '\n');
                assert(pat[j0] == '\n');
            }
        }
    }
}

/// The comment keyword holds no line feed.
proof fn lemma_comment_marker_chars()
    ensures
        forall|j: int| 0 <= j < comment_marker().len() ==> comment_marker()[j] != '\n',
{
    assert forall|j: int| 0 <= j < comment_marker().len() implies comment_marker()[j] != '\n' by {
        if j == 0 {
            assert(comment_marker()[0] == 'C');
        } else if j == 1 {
            assert(comment_marker()[1] == 'O');
        } else if j == 2 {
            assert(comment_marker()[2] == 'M');
        } else if j == 3 {
            assert(comment_marker()[3] == 'M');
        } else if j == 4 {
            assert(comment_marker()[4] == 'E');
        } else if j == 5 {
            assert(comment_marker()[5] == 'N');
        } else {
            assert(comment_marker()[6] == 'T');
        }
    }
}

/// The metadata text and the trajectory text never contain the comment
/// keyword: the aggregator strips it from every appended line.
pub proof fn lemma_no_comment_in_text(lines: Seq<Seq<char>>, n: int)
    requires
        0 <= n,
    ensures
        !contains_pat(scan_upto(lines, n).meta, comment_marker()),
        !contains_pat(scan_upto(lines, n).trajectory, comment_marker()),
        ends_in_newline(scan_upto(lines, n).meta),
        ends_in_newline(scan_upto(lines, n).trajectory),
    decreases n,
{
    lemma_comment_marker_chars();
    if n == 0 {
        assert forall|i: int| !crate::text::matches_at(Seq::<char>::empty(), comment_marker(), i)
        by {}
    } else {
        lemma_no_comment_in_text(lines, n - 1);
        let m = scan_upto(lines, n - 1);
        let line = lines[n - 1];
        let next = classify(m.section, spec_tokens(line));
        if next == Section::MetaStart || next == Section::MetaEnd {
            crate::text::lemma_strip_all_no_match(line, comment_marker());
            lemma_append_keeps_no_marker(
                m.meta,
                crate::text::strip_all(line, comment_marker()),
                comment_marker(),
            );
        } else if next == Section::CommentTrajectory {
            crate::text::lemma_strip_all_no_match(line, comment_marker());
            lemma_append_keeps_no_marker(
                m.trajectory,
                crate::text::strip_all(line, comment_marker()),
                comment_marker(),
            );
        }
    }
}

/// In every scanned record the vector series is densely numbered: the `i`-th
/// vector carries sequence number `i + 1`.
pub proof fn lemma_scan_sequence_numbers(content: Seq<char>, limit: Option<usize>)
    ensures
        forall|i: int|
            0 <= i < spec_scan(content, limit).vectors.len() ==> #[trigger] spec_scan(
                content,
                limit,
            ).vectors[i].sequence_number == i + 1,
{
    let lines = limited_lines(spec_lines(content), limit);
    lemma_sequence_numbers_dense(lines, lines.len() as int);
}

/// In every scanned record, neither the metadata text nor the trajectory
/// text contains the comment keyword.
pub proof fn lemma_scan_no_comment(content: Seq<char>, limit: Option<usize>)
    ensures
        !contains_pat(spec_scan(content, limit).meta, comment_marker()),
        !contains_pat(spec_scan(content, limit).trajectory, comment_marker()),
{
    let lines = limited_lines(spec_lines(content), limit);
    lemma_no_comment_in_text(lines, lines.len() as int);
}

/// A document none of whose lines fires a classifier rule scans to the empty
/// record, with the section still unknown.
pub proof fn lemma_scan_unmarked_is_empty(content: Seq<char>, limit: Option<usize>)
    requires
        forall|i: int|
            0 <= i < spec_lines(content).len() ==> classify(
                Section::Unknown,
                #[trigger] spec_tokens(spec_lines(content)[i]),
            ) == Section::Unknown,
    ensures
        record_of(spec_scan(content, limit)) == record_of(initial_scan()),
        spec_scan(content, limit).section == Section::Unknown,
{
    let all = spec_lines(content);
    let lines = limited_lines(all, limit);
    assert forall|i: int|
        0 <= i < lines.len() implies classify(Section::Unknown, #[trigger] spec_tokens(lines[i]))
        == Section::Unknown by {
        assert(lines[i] == all[i]);
    }
    lemma_unmarked_input_yields_empty(lines, lines.len() as int);
}

/// Parsing is deterministic: two records built from equal documents are
/// structurally equal.
pub proof fn lemma_parse_deterministic(a: SatelliteView, b: SatelliteView, content: Seq<char>)
    requires
        a == record_of(spec_scan(content, None)),
        b == record_of(spec_scan(content, None)),
    ensures
        a == b,
{
}

} // verus!
