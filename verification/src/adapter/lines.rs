//! The dialects that report one benchmark per line of text.

use vstd::prelude::*;
use crate::adapter::ParseError;
use crate::literal::{is_number, without_commas, Literal};
use crate::reading::{readings, Bounds, BoundsView, Reading, ReadingView};
use crate::text::{
    ascii, begins, bytes_of, lines_of, spells, split, texts, words, words_of, Separator,
};

verus! {

/// A dialect with one benchmark per line.
#[derive(Debug, Clone, Copy, PartialEq, Eq, Structural)]
pub enum LineDialect {
    /// `test NAME ... bench: VALUE ns/iter (+/- DEVIATION)`, further words
    /// ignored
    RustBench,
    /// `BenchmarkNAME ITERATIONS VALUE ns/op`, further columns ignored
    GoBench,
}

/// `)`
pub const CLOSING: u8 = 41;

/// What a line says.
pub enum Line {
    /// Nothing about a benchmark.
    Other,
    /// The value of a benchmark.
    Bench(ReadingView),
    /// It names a benchmark, but the rest is not as the dialect has it.
    Broken,
}

/// The measure of both dialects: `latency`, in nanoseconds.
pub open spec fn latency() -> Seq<u8> {
    ascii("latency"@)
}

/// `test`
pub open spec fn word_test() -> Seq<u8> {
    ascii("test"@)
}

/// `...`
pub open spec fn word_dots() -> Seq<u8> {
    ascii("..."@)
}

/// `bench:`
pub open spec fn word_bench() -> Seq<u8> {
    ascii("bench:"@)
}

/// `ns/iter`
pub open spec fn word_ns_iter() -> Seq<u8> {
    ascii("ns/iter"@)
}

/// `(+/-`
pub open spec fn word_plus_minus() -> Seq<u8> {
    ascii("(+/-"@)
}

/// `Benchmark`
pub open spec fn word_benchmark() -> Seq<u8> {
    ascii("Benchmark"@)
}

/// `ns/op`
pub open spec fn word_ns_op() -> Seq<u8> {
    ascii("ns/op"@)
}

/// Whether the words are those of a line that reports a benchmark of the
/// Rust test harness.
pub open spec fn rust_names_benchmark(words: Seq<Seq<u8>>) -> bool {
    &&& words.len() >= 4
    &&& words[0] == word_test()
    &&& words[2] == word_dots()
    &&& words[3] == word_bench()
}

/// Whether the words behind the name start with a value, its unit and its
/// deviation in parentheses.
pub open spec fn rust_gives_value(words: Seq<Seq<u8>>) -> bool {
    &&& words.len() >= 8
    &&& is_number(words[4])
    &&& words[5] == word_ns_iter()
    &&& words[6] == word_plus_minus()
    &&& words[7].len() > 0
    &&& words[7].last() == CLOSING
    &&& is_number(words[7].drop_last())
}

/// Whether the words are those of a result line of the Go test harness.
pub open spec fn go_names_benchmark(words: Seq<Seq<u8>>) -> bool {
    &&& words.len() >= 4
    &&& words[0].len() >= word_benchmark().len()
    &&& words[0].take(word_benchmark().len() as int) == word_benchmark()
    &&& words[3] == word_ns_op()
}

/// Whether the iteration count and the value are numbers.
pub open spec fn go_gives_value(words: Seq<Seq<u8>>) -> bool {
    is_number(words[1]) && is_number(words[2])
}

impl LineDialect {
    /// What the line with these words says in this dialect.
    pub open spec fn classify(self, words: Seq<Seq<u8>>) -> Line {
        match self {
            LineDialect::RustBench => if !rust_names_benchmark(words) {
                Line::Other
            } else if !rust_gives_value(words) {
                Line::Broken
            } else {
                Line::Bench(
                    ReadingView {
                        benchmark: words[1],
                        measure: latency(),
                        value: without_commas(words[4]),
                        bounds: BoundsView::Around(without_commas(words[7].drop_last())),
                    },
                )
            },
            LineDialect::GoBench => if !go_names_benchmark(words) {
                Line::Other
            } else if !go_gives_value(words) {
                Line::Broken
            } else {
                Line::Bench(
                    ReadingView {
                        benchmark: words[0],
                        measure: latency(),
                        value: without_commas(words[2]),
                        bounds: BoundsView::Unknown,
                    },
                )
            },
        }
    }

    /// What the first `lines` say, in order: the readings of the lines that
    /// report a benchmark, or the first line that names one without giving
    /// its value.
    pub open spec fn scan(self, lines: Seq<Seq<u8>>) -> Result<Seq<ReadingView>, ParseError>
        decreases lines.len(),
    {
        if lines.len() == 0 {
            Ok(Seq::empty())
        } else {
            match self.scan(lines.drop_last()) {
                Err(error) => Err(error),
                Ok(found) => match self.classify(words_of(lines.last())) {
                    Line::Other => Ok(found),
                    Line::Bench(reading) => Ok(found.push(reading)),
                    Line::Broken => Err(ParseError::InvalidValue { line: lines.len() as usize }),
                },
            }
        }
    }

    /// What `raw` holds in this dialect. Output without a benchmark is not
    /// in the dialect.
    pub open spec fn outcome(self, raw: Seq<u8>) -> Result<Seq<ReadingView>, ParseError> {
        if raw.len() == 0 {
            Err(ParseError::Empty)
        } else {
            match self.scan(lines_of(raw)) {
                Err(error) => Err(error),
                Ok(found) => if found.len() == 0 {
                    Err(ParseError::Unrecognized)
                } else {
                    Ok(found)
                },
            }
        }
    }

    /// A line that cannot be read stops the scan, whatever follows it.
    pub proof fn lemma_scan_stops(self, lines: Seq<Seq<u8>>, upto: int)
        requires
            0 <= upto <= lines.len(),
            self.scan(lines.take(upto)) is Err,
        ensures
            self.scan(lines) == self.scan(lines.take(upto)),
        decreases lines.len(),
    {
        if upto < lines.len() {
            assert(lines.drop_last().take(upto) =~= lines.take(upto));
            self.lemma_scan_stops(lines.drop_last(), upto);
        } else {
            assert(lines.take(upto) =~= lines);
        }
    }
}

fn latency_name() -> (name: Vec<u8>)
    ensures
        name@ == latency(),
{
    proof {
        reveal_strlit("latency");
    }
    bytes_of("latency")
}

fn rust_line(words: &Vec<Vec<u8>>) -> (line: Option<Option<Reading>>)
    ensures
        match LineDialect::RustBench.classify(texts(words@)) {
            Line::Other => line == Some(None::<Reading>),
            Line::Bench(reading) => line is Some && line.unwrap() is Some
                && line.unwrap().unwrap()@ == reading,
            Line::Broken => line is None,
        },
{
    proof {
        reveal_strlit("test");
        reveal_strlit("...");
        reveal_strlit("bench:");
        reveal_strlit("ns/iter");
        reveal_strlit("(+/-");
    }
    if !(words.len() >= 4 && spells(words[0].as_slice(), "test") && spells(
        words[2].as_slice(),
        "...",
    ) && spells(words[3].as_slice(), "bench:")) {
        return Some(None);
    }
    if !(words.len() >= 8 && spells(words[5].as_slice(), "ns/iter") && spells(
        words[6].as_slice(),
        "(+/-",
    )) {
        return None;
    }
    let last = words[7].as_slice();
    if last.len() == 0 || last[last.len() - 1] != CLOSING {
        return None;
    }
    let inner = vstd::slice::slice_subrange(last, 0, last.len() - 1);
    assert(inner@ =~= words@[7]@.drop_last());
    let value = Literal::read(words[4].as_slice());
    let deviation = Literal::read(inner);
    match (value, deviation) {
        (Some(value), Some(deviation)) => Some(
            Some(
                Reading {
                    benchmark: words[1].clone(),
                    measure: latency_name(),
                    value,
                    bounds: Bounds::Around(deviation),
                },
            ),
        ),
        _ => None,
    }
}

fn go_line(words: &Vec<Vec<u8>>) -> (line: Option<Option<Reading>>)
    ensures
        match LineDialect::GoBench.classify(texts(words@)) {
            Line::Other => line == Some(None::<Reading>),
            Line::Bench(reading) => line is Some && line.unwrap() is Some
                && line.unwrap().unwrap()@ == reading,
            Line::Broken => line is None,
        },
{
    proof {
        reveal_strlit("Benchmark");
        reveal_strlit("ns/op");
    }
    if !(words.len() >= 4 && begins(words[0].as_slice(), "Benchmark") && spells(
        words[3].as_slice(),
        "ns/op",
    )) {
        return Some(None);
    }
    let count = Literal::read(words[1].as_slice());
    let value = Literal::read(words[2].as_slice());
    match (count, value) {
        (Some(_), Some(value)) => Some(
            Some(
                Reading {
                    benchmark: words[0].clone(),
                    measure: latency_name(),
                    value,
                    bounds: Bounds::Unknown,
                },
            ),
        ),
        _ => None,
    }
}

impl LineDialect {
    /// Reads one line: `Some(None)` where it says nothing about a benchmark,
    /// `None` where it names one without giving its value.
    pub fn read_line(self, line: &[u8]) -> (read: Option<Option<Reading>>)
        ensures
            match self.classify(words_of(line@)) {
                Line::Other => read == Some(None::<Reading>),
                Line::Bench(reading) => read is Some && read.unwrap() is Some
                    && read.unwrap().unwrap()@ == reading,
                Line::Broken => read is None,
            },
    {
        let found = words(line);
        match self {
            LineDialect::RustBench => rust_line(&found),
            LineDialect::GoBench => go_line(&found),
        }
    }

    /// Reads harness output in this dialect.
    pub fn parse(self, raw: &[u8]) -> (parsed: Result<Vec<Reading>, ParseError>)
        ensures
            match parsed {
                Ok(found) => self.outcome(raw@) == Ok::<Seq<ReadingView>, ParseError>(
                    readings(found@),
                ),
                Err(error) => self.outcome(raw@) == Err::<Seq<ReadingView>, ParseError>(error),
            },
    {
        if raw.len() == 0 {
            return Err(ParseError::Empty);
        }
        let lines = split(raw, Separator::Line);
        let mut found: Vec<Reading> = Vec::new();
        let mut i: usize = 0;
        assert(texts(lines@).take(0) =~= Seq::<Seq<u8>>::empty());
        assert(readings(found@) =~= Seq::<ReadingView>::empty());
        while i < lines.len()
            invariant
                i <= lines.len(),
                texts(lines@) == lines_of(raw@),
                self.scan(texts(lines@).take(i as int)) == Ok::<Seq<ReadingView>, ParseError>(
                    readings(found@),
                ),
            decreases lines.len() - i,
        {
            let ghost before = readings(found@);
            proof {
                let next = texts(lines@).take(i + 1);
                assert(next.drop_last() =~= texts(lines@).take(i as int));
                assert(next.last() == lines@[i as int]@);
            }
            match self.read_line(lines[i].as_slice()) {
                None => {
                    proof {
                        self.lemma_scan_stops(texts(lines@), i + 1);
                    }
                    return Err(ParseError::InvalidValue { line: i + 1 });
                },
                Some(None) => {},
                Some(Some(reading)) => {
                    found.push(reading);
                    assert(readings(found@) =~= before.push(reading@));
                },
            }
            i += 1;
        }
        assert(texts(lines@).take(lines.len() as int) =~= texts(lines@));
        if found.len() == 0 {
            Err(ParseError::Unrecognized)
        } else {
            Ok(found)
        }
    }
}

} // verus!
