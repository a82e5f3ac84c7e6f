//! Paths into structured values.

use vstd::prelude::*;

verus! {

/// One step of a path into a structured value.
#[derive(Clone, Debug, PartialEq, Eq)]
pub enum Segment {
    /// A field, by name.
    Field(String),
    /// Candidate field names; the first one present wins.
    Coalesce(Vec<String>),
    /// A zero-based array position.
    Index(usize),
}

/// The abstract value of a [`Segment`].
pub enum SegmentModel {
    Field(Seq<char>),
    Coalesce(Seq<Seq<char>>),
    Index(usize),
}

impl View for Segment {
    type V = SegmentModel;

    open spec fn view(&self) -> SegmentModel {
        match self {
            Segment::Field(f) => SegmentModel::Field(f@),
            Segment::Coalesce(fs) => SegmentModel::Coalesce(fs@.map_values(|f: String| f@)),
            Segment::Index(i) => SegmentModel::Index(*i),
        }
    }
}

/// An ordered sequence of segments naming a place inside a structured value.
#[derive(Clone, Debug, PartialEq, Eq)]
pub struct Path {
    pub segments: Vec<Segment>,
}

impl View for Path {
    type V = Seq<SegmentModel>;

    open spec fn view(&self) -> Seq<SegmentModel> {
        self.segments@.map_values(|s: Segment| s@)
    }
}

impl Path {
    pub fn new(segments: Vec<Segment>) -> (r: Path)
        ensures
            r.segments == segments,
    {
        Path { segments }
    }
}

} // verus!
