//! What an adapter reads out of harness output: named values, still in the
//! decimal text that the harness printed.

use vstd::prelude::*;
use crate::literal::Literal;

verus! {

/// What a harness says about how far a value may be off.
#[derive(Debug, PartialEq, Eq)]
pub enum Bounds {
    /// Nothing.
    Unknown,
    /// The value may be off by this much in either direction.
    Around(Literal),
    /// The value lies between a lower and an upper bound, either of which
    /// may be missing.
    Between(Option<Literal>, Option<Literal>),
}

/// One value of one measure of one benchmark.
#[derive(Debug, PartialEq, Eq)]
pub struct Reading {
    pub benchmark: Vec<u8>,
    pub measure: Vec<u8>,
    pub value: Literal,
    pub bounds: Bounds,
}

/// The text of an optional literal.
pub open spec fn text_of(literal: Option<Literal>) -> Option<Seq<u8>> {
    match literal {
        Some(literal) => Some(literal@),
        None => None,
    }
}

/// [`Bounds`] as plain text.
pub enum BoundsView {
    Unknown,
    Around(Seq<u8>),
    Between(Option<Seq<u8>>, Option<Seq<u8>>),
}

/// [`Reading`] as plain text.
pub struct ReadingView {
    pub benchmark: Seq<u8>,
    pub measure: Seq<u8>,
    pub value: Seq<u8>,
    pub bounds: BoundsView,
}

impl View for Bounds {
    type V = BoundsView;

    open spec fn view(&self) -> BoundsView {
        match self {
            Bounds::Unknown => BoundsView::Unknown,
            Bounds::Around(spread) => BoundsView::Around(spread@),
            Bounds::Between(lower, upper) => BoundsView::Between(text_of(*lower), text_of(*upper)),
        }
    }
}

impl View for Reading {
    type V = ReadingView;

    open spec fn view(&self) -> ReadingView {
        ReadingView {
            benchmark: self.benchmark@,
            measure: self.measure@,
            value: self.value@,
            bounds: self.bounds@,
        }
    }
}

/// A list of readings as plain text.
pub open spec fn readings(list: Seq<Reading>) -> Seq<ReadingView> {
    list.map_values(|reading: Reading| reading@)
}

} // verus!
