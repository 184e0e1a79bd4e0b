//! The section classifier: a line's tokens are held against the fixed marker
//! keywords and decide the (possibly unchanged) next document section.

use vstd::prelude::*;
use crate::text::char_seqs;
use crate::text::contains_chars;
use crate::text::contains_pat;
use crate::text::spec_tokens;
use crate::vector::is_numeric_token;
use crate::vector::is_numeric;
use crate::vector::is_timestamp;
use crate::vector::parse_timestamp;

verus! {

/// The structurally distinct regions of an OEM document. Exactly one is
/// current during a scan; it changes only when a line's tokens match a
/// recognized marker, and persists unchanged otherwise.
#[derive(Clone, Copy, PartialEq, Eq, Structural, Debug)]
pub enum Section {
    /// No section entered yet: pre-header noise is dropped.
    Unknown,
    /// Inside the metadata header, entered at `META_START`.
    MetaStart,
    /// Past the end of the metadata header, entered at `META_END`.
    MetaEnd,
    /// A comment block tagged as source annotation.
    CommentSource,
    /// A comment block tagged as trajectory annotation.
    CommentTrajectory,
    /// The handoff marker before the coordinate block.
    CommentEnd,
    /// The time series of state vectors.
    CoordinateStream,
}

pub open spec fn meta_start_marker() -> Seq<char> {
    seq!['M', 'E', 'T', 'A', '_', 'S', 'T', 'A', 'R', 'T']
}

pub open spec fn meta_end_marker() -> Seq<char> {
    seq!['M', 'E', 'T', 'A', '_', 'E', 'N', 'D']
}

pub open spec fn comment_marker() -> Seq<char> {
    seq!['C', 'O', 'M', 'M', 'E', 'N', 'T']
}

pub open spec fn source_marker() -> Seq<char> {
    seq!['S', 'o', 'u', 'r', 'c', 'e']
}

pub open spec fn trajectory_marker() -> Seq<char> {
    seq!['T', 'R', 'A', 'J', 'E', 'C', 'T', 'O', 'R', 'Y']
}

pub open spec fn end_marker() -> Seq<char> {
    seq!['E', 'n', 'd']
}

pub fn meta_start_chars() -> (r: Vec<char>)
    ensures
        r@ == meta_start_marker(),
{
    let mut v: Vec<char> = Vec::new();
    v.push('M');
    v.push('E');
    v.push('T');
    v.push('A');
    v.push('_');
    v.push('S');
    v.push('T');
    v.push('A');
    v.push('R');
    v.push('T');
    proof {
        assert(v@ =~= meta_start_marker());
    }
    v
}

pub fn meta_end_chars() -> (r: Vec<char>)
    ensures
        r@ == meta_end_marker(),
{
    let mut v: Vec<char> = Vec::new();
    v.push('M');
    v.push('E');
    v.push('T');
    v.push('A');
    v.push('_');
    v.push('E');
    v.push('N');
    v.push('D');
    proof {
        assert(v@ =~= meta_end_marker());
    }
    v
}

pub fn comment_chars() -> (r: Vec<char>)
    ensures
        r@ == comment_marker(),
{
    let mut v: Vec<char> = Vec::new();
    v.push('C');
    v.push('O');
    v.push('M');
    v.push('M');
    v.push('E');
    v.push('N');
    v.push('T');
    proof {
        assert(v@ =~= comment_marker());
    }
    v
}

pub fn source_chars() -> (r: Vec<char>)
    ensures
        r@ == source_marker(),
{
    let mut v: Vec<char> = Vec::new();
    v.push('S');
    v.push('o');
    v.push('u');
    v.push('r');
    v.push('c');
    v.push('e');
    proof {
        assert(v@ =~= source_marker());
    }
    v
}

pub fn trajectory_chars() -> (r: Vec<char>)
    ensures
        r@ == trajectory_marker(),
{
    let mut v: Vec<char> = Vec::new();
    v.push('T');
    v.push('R');
    v.push('A');
    v.push('J');
    v.push('E');
    v.push('C');
    v.push('T');
    v.push('O');
    v.push('R');
    v.push('Y');
    proof {
        assert(v@ =~= trajectory_marker());
    }
    v
}

pub fn end_chars() -> (r: Vec<char>)
    ensures
        r@ == end_marker(),
{
    let mut v: Vec<char> = Vec::new();
    v.push('E');
    v.push('n');
    v.push('d');
    proof {
        assert(v@ =~= end_marker());
    }
    v
}

/// A line that opens the coordinate block on its own: a timestamp token
/// followed by exactly six further numeric fields (three position and three
/// velocity components).
pub open spec fn is_vector_line(toks: Seq<Seq<char>>) -> bool {
    &&& toks.len() == 7
    &&& is_timestamp(toks[0])
    &&& forall|i: int| 1 <= i < 7 ==> is_numeric_token(#[trigger] toks[i])
}

/// The classifier's rules, in order of evaluation; the last rule that fires
/// wins. Marker detection uses substring containment, matching the loose
/// tagging style of the format's header lines; the start of the coordinate
/// block is detected structurally.
pub open spec fn classify(cur: Section, toks: Seq<Seq<char>>) -> Section {
    let s1 = if toks.len() > 0 && contains_pat(toks[0], meta_start_marker()) {
        Section::MetaStart
    } else {
        cur
    };
    let s2 = if toks.len() > 0 && contains_pat(toks[0], meta_end_marker()) {
        Section::MetaEnd
    } else {
        s1
    };
    let s3 = if toks.len() > 1 && contains_pat(toks[0], comment_marker()) {
        if contains_pat(toks[1], end_marker()) {
            Section::CommentEnd
        } else if contains_pat(toks[1], trajectory_marker()) {
            Section::CommentTrajectory
        } else if contains_pat(toks[1], source_marker()) {
            Section::CommentSource
        } else {
            s2
        }
    } else {
        s2
    };
    if is_vector_line(toks) {
        Section::CoordinateStream
    } else {
        s3
    }
}

/// Checks whether a line's tokens open the coordinate block structurally.
pub fn vector_line_check(toks: &Vec<Vec<char>>) -> (r: bool)
    ensures
        r == is_vector_line(char_seqs(toks@)),
{
    if toks.len() != 7 {
        return false;
    }
    if parse_timestamp(&toks[0]).is_none() {
        return false;
    }
    let mut i: usize = 1;
    while i < 7
        invariant
            toks@.len() == 7,
            1 <= i <= 7,
            forall|k: int| 1 <= k < i ==> is_numeric_token(#[trigger] char_seqs(toks@)[k]),
        decreases 7 - i,
    {
        if !is_numeric(&toks[i]) {
            proof {
                assert(char_seqs(toks@)[i as int] == toks@[i as int]@);
                assert(!is_numeric_token(char_seqs(toks@)[i as int]));
            }
            return false;
        }
        i += 1;
    }
    true
}

/// Decides the next section from the current one and a line's tokens.
pub fn classify_line(cur: Section, toks: &Vec<Vec<char>>) -> (r: Section)
    ensures
        r == classify(cur, char_seqs(toks@)),
{
    let mut s = cur;
    if toks.len() > 0 && contains_chars(&toks[0], &meta_start_chars()) {
        s = Section::MetaStart;
    }
    if toks.len() > 0 && contains_chars(&toks[0], &meta_end_chars()) {
        s = Section::MetaEnd;
    }
    if toks.len() > 1 && contains_chars(&toks[0], &comment_chars()) {
        if contains_chars(&toks[1], &end_chars()) {
            s = Section::CommentEnd;
        } else if contains_chars(&toks[1], &trajectory_chars()) {
            s = Section::CommentTrajectory;
        } else if contains_chars(&toks[1], &source_chars()) {
            s = Section::CommentSource;
        }
    }
    if vector_line_check(toks) {
        s = Section::CoordinateStream;
    }
    s
}

/// A line whose tokens fire no rule leaves every section unchanged.
pub proof fn lemma_classifier_sticky(cur: Section, toks: Seq<Seq<char>>)
    requires
        classify(Section::Unknown, toks) == Section::Unknown,
    ensures
        classify(cur, toks) == cur,
{
}

} // verus!
