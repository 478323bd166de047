//! Adapters: one parser per dialect of benchmark-harness output, and the
//! mode that finds the dialect by trial.

use vstd::prelude::*;
use crate::adapter::lines::LineDialect;
use crate::reading::{readings, Reading, ReadingView};

pub mod json;
pub mod lines;

verus! {

/// Why harness output could not be read.
#[derive(Debug, Clone, Copy, PartialEq, Eq, Structural)]
pub enum ParseError {
    /// There was no output at all.
    Empty,
    /// The output is not in the dialect: no benchmark was found in it.
    Unrecognized,
    /// The line with this number, counted from 1, names a benchmark but
    /// gives no number for it.
    InvalidValue { line: usize },
    /// No dialect accepted the output.
    NoAdapterMatched,
}

/// How harness output is to be read.
#[derive(Debug, Clone, Copy, PartialEq, Eq, Hash, Structural)]
pub enum Adapter {
    /// Try the dialects in their fixed order and take the first that reads
    /// the output.
    Magic,
    /// A JSON document of benchmarks, measures and numbers.
    Json,
    /// The bench lines of the Rust test harness.
    RustBench,
    /// The result lines of the Go test harness.
    GoBench,
}

impl Adapter {
    /// The place of a dialect in the order in which the magic mode tries
    /// them: the most structured dialect comes first. The magic mode itself
    /// has no place.
    pub open spec fn rank(self) -> Option<int> {
        match self {
            Adapter::Magic => None,
            Adapter::Json => Some(0),
            Adapter::RustBench => Some(1),
            Adapter::GoBench => Some(2),
        }
    }

    /// What `raw` holds for this adapter: the readings in the order of the
    /// output, or the reason why there are none.
    pub open spec fn outcome(self, raw: Seq<u8>) -> Result<Seq<ReadingView>, ParseError> {
        match self {
            Adapter::Json => json::outcome(raw),
            Adapter::RustBench => LineDialect::RustBench.outcome(raw),
            Adapter::GoBench => LineDialect::GoBench.outcome(raw),
            Adapter::Magic => if json::outcome(raw) is Ok {
                json::outcome(raw)
            } else if LineDialect::RustBench.outcome(raw) is Ok {
                LineDialect::RustBench.outcome(raw)
            } else if LineDialect::GoBench.outcome(raw) is Ok {
                LineDialect::GoBench.outcome(raw)
            } else {
                Err(ParseError::NoAdapterMatched)
            },
        }
    }
}

/// Reads harness output.
pub fn parse(adapter: Adapter, raw: &[u8]) -> (parsed: Result<Vec<Reading>, ParseError>)
    ensures
        match parsed {
            Ok(found) => adapter.outcome(raw@) == Ok::<Seq<ReadingView>, ParseError>(
                readings(found@),
            ),
            Err(error) => adapter.outcome(raw@) == Err::<Seq<ReadingView>, ParseError>(error),
        },
{
    match adapter {
        Adapter::Json => json::parse(raw),
        Adapter::RustBench => LineDialect::RustBench.parse(raw),
        Adapter::GoBench => LineDialect::GoBench.parse(raw),
        Adapter::Magic => {
            if let Ok(found) = json::parse(raw) {
                return Ok(found);
            }
            if let Ok(found) = LineDialect::RustBench.parse(raw) {
                return Ok(found);
            }
            if let Ok(found) = LineDialect::GoBench.parse(raw) {
                return Ok(found);
            }
            Err(ParseError::NoAdapterMatched)
        },
    }
}

/// Whether the adapter reads the output: whether [`parse`] gives readings
/// for it.
pub fn detect(adapter: Adapter, raw: &[u8]) -> (accepted: bool)
    ensures
        accepted == adapter.outcome(raw@) is Ok,
{
    parse(adapter, raw).is_ok()
}

/// The magic mode reads output as the first dialect in its order that
/// accepts the output does.
pub proof fn lemma_magic_takes_first(raw: Seq<u8>, first: Adapter)
    requires
        first.rank() is Some,
        first.outcome(raw) is Ok,
        forall|other: Adapter|
            other.rank() is Some && other.rank().unwrap() < first.rank().unwrap()
                ==> #[trigger] other.outcome(raw) is Err,
    ensures
        Adapter::Magic.outcome(raw) == first.outcome(raw),
{
    assert(Adapter::Json.rank() == Some(0int));
    assert(Adapter::RustBench.rank() == Some(1int));
    if first != Adapter::Json {
        assert(Adapter::Json.outcome(raw) is Err);
        if first != Adapter::RustBench {
            assert(Adapter::RustBench.outcome(raw) is Err);
        }
    }
}

/// Of two dialects that both accept the output, the magic mode never takes
/// the one that comes later in its order: what it returns is what the
/// earlier one returns, or what a dialect before that one returns.
pub proof fn lemma_magic_prefers_earlier(raw: Seq<u8>, earlier: Adapter, later: Adapter)
    requires
        earlier.rank() is Some,
        later.rank() is Some,
        earlier.rank().unwrap() < later.rank().unwrap(),
        earlier.outcome(raw) is Ok,
        later.outcome(raw) is Ok,
    ensures
        Adapter::Magic.outcome(raw) is Ok,
        exists|taken: Adapter|
            taken.rank() is Some && taken.rank().unwrap() <= earlier.rank().unwrap()
                && #[trigger] taken.outcome(raw) == Adapter::Magic.outcome(raw),
{
    if Adapter::Json.outcome(raw) is Ok {
        assert(Adapter::Json.rank() == Some(0int));
        assert(Adapter::Json.outcome(raw) == Adapter::Magic.outcome(raw));
    } else {
        assert(earlier == Adapter::RustBench);
        assert(Adapter::RustBench.outcome(raw) == Adapter::Magic.outcome(raw));
    }
}

/// The magic mode fails only by finding no dialect, and it does so exactly
/// when every dialect rejects the output.
pub proof fn lemma_magic_fails(raw: Seq<u8>)
    ensures
        Adapter::Magic.outcome(raw) is Err <==> (forall|dialect: Adapter|
            dialect.rank() is Some ==> #[trigger] dialect.outcome(raw) is Err),
        Adapter::Magic.outcome(raw) is Err ==> Adapter::Magic.outcome(raw) == Err::<
            Seq<ReadingView>,
            ParseError,
        >(ParseError::NoAdapterMatched),
{
    if Adapter::Magic.outcome(raw) is Ok {
        if Adapter::Json.outcome(raw) is Ok {
            assert(Adapter::Json.rank() is Some);
        } else if Adapter::RustBench.outcome(raw) is Ok {
            assert(Adapter::RustBench.rank() is Some);
        } else {
            assert(Adapter::GoBench.rank() is Some);
            assert(Adapter::GoBench.outcome(raw) is Ok);
        }
    }
}

} // verus!
