//! The record aggregator: owns the parse result of one document and appends
//! metadata lines, trajectory lines and parsed vectors to it, assigning
//! sequence numbers monotonically.

use vstd::prelude::*;
use crate::section::comment_chars;
use crate::section::comment_marker;
use crate::text::append_line;
use crate::text::strip_all;
use crate::text::strip_pattern;
use crate::vector::ParsedVector;
use crate::vector::StateVector;
use crate::vector::StateVectorView;

verus! {

/// The parse result of one OEM document.
pub struct Satellite {
    /// Ordered concatenation of every metadata-section line, newline-joined,
    /// with the comment keyword stripped.
    pub meta_summary: String,
    /// Ordered concatenation of every trajectory-section line, newline-joined,
    /// with the comment keyword stripped.
    pub trajectory_summary: String,
    /// The ordered series of parsed state vectors.
    pub vectors: Vec<StateVector>,
}

/// Mathematical image of a record.
pub struct SatelliteView {
    pub meta: Seq<char>,
    pub trajectory: Seq<char>,
    pub vectors: Seq<StateVectorView>,
}

impl View for Satellite {
    type V = SatelliteView;

    open spec fn view(&self) -> SatelliteView {
        SatelliteView {
            meta: self.meta_summary@,
            trajectory: self.trajectory_summary@,
            vectors: Seq::new(self.vectors@.len(), |i: int| self.vectors@[i]@),
        }
    }
}

/// The record before any line was appended.
pub open spec fn empty_record() -> SatelliteView {
    SatelliteView {
        meta: Seq::empty(),
        trajectory: Seq::empty(),
        vectors: Seq::empty(),
    }
}

/// What appending a line to a text buffer yields: the line with every
/// occurrence of the comment keyword stripped, then a line feed.
pub open spec fn appended_text(buf: Seq<char>, line: Seq<char>) -> Seq<char> {
    buf + strip_all(line, comment_marker()) + seq!['\n']
}

/// The view a parsed vector takes when it joins a series of length `n`.
pub open spec fn numbered_vector(v: ParsedVector, n: int) -> StateVectorView {
    StateVectorView { sequence_number: n + 1, epoch: v.epoch, x: v.x@, y: v.y@, z: v.z@ }
}

impl Satellite {
    /// Constructs a new, empty record.
    pub fn new() -> (s: Self)
        ensures
            s@ == empty_record(),
    {
        let s = Satellite {
            meta_summary: String::new(),
            trajectory_summary: String::new(),
            vectors: Vec::new(),
        };
        proof {
            assert(s@.vectors =~= empty_record().vectors);
            assert(s@ =~= empty_record());
        }
        s
    }

    /// Appends one line to the metadata text, stripping the comment keyword.
    pub fn append_meta(&mut self, line: &Vec<char>)
        ensures
            final(self)@.meta == appended_text(old(self)@.meta, line@),
            final(self)@.trajectory == old(self)@.trajectory,
            final(self)@.vectors == old(self)@.vectors,
    {
        let stripped = strip_pattern(line, &comment_chars());
        append_line(&mut self.meta_summary, &stripped);
    }

    /// Appends one line to the trajectory text, stripping the comment keyword.
    pub fn append_trajectory(&mut self, line: &Vec<char>)
        ensures
            final(self)@.trajectory == appended_text(old(self)@.trajectory, line@),
            final(self)@.meta == old(self)@.meta,
            final(self)@.vectors == old(self)@.vectors,
    {
        let stripped = strip_pattern(line, &comment_chars());
        append_line(&mut self.trajectory_summary, &stripped);
    }

    /// Appends one parsed vector, assigning the next 1-based sequence number.
    pub fn append_vector(&mut self, v: ParsedVector)
        requires
            old(self).vectors@.len() < usize::MAX,
        ensures
            final(self)@.vectors == old(self)@.vectors.push(
                numbered_vector(v, old(self)@.vectors.len() as int),
            ),
            final(self)@.meta == old(self)@.meta,
            final(self)@.trajectory == old(self)@.trajectory,
    {
        let n = self.vectors.len();
        self.vectors.push(
            StateVector {
                sequence_number: n + 1,
                epoch: v.epoch,
                x: v.x,
                y: v.y,
                z: v.z,
            },
        );
        proof {
            assert(self@.vectors =~= old(self)@.vectors.push(
                numbered_vector(v, old(self)@.vectors.len() as int),
            ));
        }
    }

    /// The sequence-number column of the tabular projection.
    pub fn sequence_numbers(&self) -> (r: Vec<usize>)
        ensures
            r@.len() == self@.vectors.len(),
            forall|i: int| 0 <= i < r@.len() ==> r@[i] as int == self@.vectors[i].sequence_number,
    {
        let mut r: Vec<usize> = Vec::new();
        let mut i: usize = 0;
        while i < self.vectors.len()
            invariant
                i <= self.vectors@.len(),
                r@.len() == i,
                forall|k: int| 0 <= k < i ==> r@[k] as int == self@.vectors[k].sequence_number,
            decreases self.vectors.len() - i,
        {
            r.push(self.vectors[i].sequence_number);
            i += 1;
        }
        r
    }

    /// The x column of the tabular projection.
    pub fn x_coord_vec(&self) -> (r: Vec<String>)
        ensures
            r@.len() == self@.vectors.len(),
            forall|i: int| 0 <= i < r@.len() ==> r@[i]@ == self@.vectors[i].x,
    {
        let mut r: Vec<String> = Vec::new();
        let mut i: usize = 0;
        while i < self.vectors.len()
            invariant
                i <= self.vectors@.len(),
                r@.len() == i,
                forall|k: int| 0 <= k < i ==> r@[k]@ == self@.vectors[k].x,
            decreases self.vectors.len() - i,
        {
            r.push(self.vectors[i].x.clone());
            i += 1;
        }
        r
    }

    /// The y column of the tabular projection.
    pub fn y_coord_vec(&self) -> (r: Vec<String>)
        ensures
            r@.len() == self@.vectors.len(),
            forall|i: int| 0 <= i < r@.len() ==> r@[i]@ == self@.vectors[i].y,
    {
        let mut r: Vec<String> = Vec::new();
        let mut i: usize = 0;
        while i < self.vectors.len()
            invariant
                i <= self.vectors@.len(),
                r@.len() == i,
                forall|k: int| 0 <= k < i ==> r@[k]@ == self@.vectors[k].y,
            decreases self.vectors.len() - i,
        {
            r.push(self.vectors[i].y.clone());
            i += 1;
        }
        r
    }

    /// The z column of the tabular projection.
    pub fn z_coord_vec(&self) -> (r: Vec<String>)
        ensures
            r@.len() == self@.vectors.len(),
            forall|i: int| 0 <= i < r@.len() ==> r@[i]@ == self@.vectors[i].z,
    {
        let mut r: Vec<String> = Vec::new();
        let mut i: usize = 0;
        while i < self.vectors.len()
            invariant
                i <= self.vectors@.len(),
                r@.len() == i,
                forall|k: int| 0 <= k < i ==> r@[k]@ == self@.vectors[k].z,
            decreases self.vectors.len() - i,
        {
            r.push(self.vectors[i].z.clone());
            i += 1;
        }
        r
    }
}

impl Default for Satellite {
    /// The empty record.
    fn default() -> (s: Self)
        ensures
            s@ == empty_record(),
    {
        Satellite::new()
    }
}

} // verus!
