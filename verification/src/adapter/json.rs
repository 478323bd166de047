//! The JSON dialect: one object per benchmark, in it one object per measure,
//! and in that the numbers `value`, `lower_value` and `upper_value`, of
//! which only the first must be there.

use indexmap::IndexMap;
use vstd::prelude::*;
use crate::adapter::ParseError;
use crate::literal::{is_literal, Literal};
use crate::reading::{readings, Bounds, BoundsView, Reading, ReadingView};
use crate::text::{ascii, bytes_of, same};

verus! {

/// A number of a measure, as the document names and writes it.
#[derive(Debug, PartialEq, Eq)]
pub struct Field {
    pub name: Vec<u8>,
    pub number: Vec<u8>,
}

/// The numbers of one measure.
#[derive(Debug, PartialEq, Eq)]
pub struct MeasureNode {
    pub name: Vec<u8>,
    pub fields: Vec<Field>,
}

/// The measures of one benchmark.
#[derive(Debug, PartialEq, Eq)]
pub struct BenchmarkNode {
    pub name: Vec<u8>,
    pub measures: Vec<MeasureNode>,
}

/// [`Field`] as plain text.
pub struct FieldView {
    pub name: Seq<u8>,
    pub number: Seq<u8>,
}

/// [`MeasureNode`] as plain text.
pub struct MeasureView {
    pub name: Seq<u8>,
    pub fields: Seq<FieldView>,
}

/// [`BenchmarkNode`] as plain text.
pub struct BenchmarkView {
    pub name: Seq<u8>,
    pub measures: Seq<MeasureView>,
}

impl View for Field {
    type V = FieldView;

    open spec fn view(&self) -> FieldView {
        FieldView { name: self.name@, number: self.number@ }
    }
}

impl View for MeasureNode {
    type V = MeasureView;

    open spec fn view(&self) -> MeasureView {
        MeasureView { name: self.name@, fields: self.fields@.map_values(|field: Field| field@) }
    }
}

impl View for BenchmarkNode {
    type V = BenchmarkView;

    open spec fn view(&self) -> BenchmarkView {
        BenchmarkView {
            name: self.name@,
            measures: self.measures@.map_values(|measure: MeasureNode| measure@),
        }
    }
}

/// A document as plain text.
pub open spec fn document_view(document: Option<Vec<BenchmarkNode>>) -> Option<
    Seq<BenchmarkView>,
> {
    match document {
        Some(benchmarks) => Some(benchmarks@.map_values(|benchmark: BenchmarkNode| benchmark@)),
        None => None,
    }
}

/// What the JSON parser makes of `text` when it is asked for an object of
/// objects of objects of numbers: the members of each object in the order of
/// the text, each number in the decimal form that the parser gives it, or
/// nothing where the text is not such a document.
pub uninterp spec fn json_document(text: Seq<u8>) -> Option<Seq<BenchmarkView>>;

/// Calls `serde_json::from_slice` for an `indexmap::IndexMap` from strings
/// to such maps from strings to such maps from strings to
/// `serde_json::Number`, and hands the maps out as lists in their own order,
/// each number as `serde_json::Number` displays it. The contract only gives
/// the result its name.
#[verifier::external_body]
fn read_document(text: &[u8]) -> (document: Option<Vec<BenchmarkNode>>)
    ensures
        document_view(document) == json_document(text@),
{
    let parsed = serde_json::from_slice::<
        IndexMap<String, IndexMap<String, IndexMap<String, serde_json::Number>>>,
    >(text).ok()?;
    Some(parsed.into_iter().map(|(name, measures)| BenchmarkNode {
        name: name.into_bytes(),
        measures: measures.into_iter().map(|(name, fields)| MeasureNode {
            name: name.into_bytes(),
            fields: fields.into_iter().map(|(name, number)| Field {
                name: name.into_bytes(),
                number: number.to_string().into_bytes(),
            }).collect(),
        }).collect(),
    }).collect())
}

/// `value`
pub open spec fn name_value() -> Seq<u8> {
    ascii("value"@)
}

/// `lower_value`
pub open spec fn name_lower() -> Seq<u8> {
    ascii("lower_value"@)
}

/// `upper_value`
pub open spec fn name_upper() -> Seq<u8> {
    ascii("upper_value"@)
}

/// The place of the first field at or after `from` that is called `name`,
/// or the number of fields if there is none.
pub open spec fn field_at(fields: Seq<FieldView>, name: Seq<u8>, from: int) -> int
    decreases fields.len() - from,
{
    if 0 <= from < fields.len() && fields[from].name != name {
        field_at(fields, name, from + 1)
    } else {
        from
    }
}

/// The number that the field called `name` holds.
pub open spec fn field(fields: Seq<FieldView>, name: Seq<u8>) -> Option<Seq<u8>> {
    let at = field_at(fields, name, 0);
    if 0 <= at < fields.len() {
        Some(fields[at].number)
    } else {
        None
    }
}

/// Whether an optional number is a decimal literal where it is there.
pub open spec fn literal_if_any(number: Option<Seq<u8>>) -> bool {
    number is Some ==> is_literal(number.unwrap())
}

/// The reading that a measure of the benchmark called `benchmark` gives: it
/// needs a `value`, and each of its three numbers must be a decimal literal.
pub open spec fn measure_reading(benchmark: Seq<u8>, measure: MeasureView) -> Option<
    ReadingView,
> {
    let value = field(measure.fields, name_value());
    let lower = field(measure.fields, name_lower());
    let upper = field(measure.fields, name_upper());
    if value is Some && is_literal(value.unwrap()) && literal_if_any(lower) && literal_if_any(
        upper,
    ) {
        Some(
            ReadingView {
                benchmark,
                measure: measure.name,
                value: value.unwrap(),
                bounds: BoundsView::Between(lower, upper),
            },
        )
    } else {
        None
    }
}

/// The readings of the measures of one benchmark, in order, unless one of
/// them gives none.
pub open spec fn benchmark_readings(benchmark: Seq<u8>, measures: Seq<MeasureView>) -> Option<
    Seq<ReadingView>,
>
    decreases measures.len(),
{
    if measures.len() == 0 {
        Some(Seq::empty())
    } else {
        match (
            benchmark_readings(benchmark, measures.drop_last()),
            measure_reading(benchmark, measures.last()),
        ) {
            (Some(found), Some(reading)) => Some(found.push(reading)),
            _ => None,
        }
    }
}

/// The readings of all benchmarks of a document, in order, unless a measure
/// gives none.
pub open spec fn document_readings(document: Seq<BenchmarkView>) -> Option<Seq<ReadingView>>
    decreases document.len(),
{
    if document.len() == 0 {
        Some(Seq::empty())
    } else {
        match (
            document_readings(document.drop_last()),
            benchmark_readings(document.last().name, document.last().measures),
        ) {
            (Some(found), Some(more)) => Some(found + more),
            _ => None,
        }
    }
}

/// What a document holds: its readings, if there are any and every measure
/// gives one.
pub open spec fn document_outcome(document: Option<Seq<BenchmarkView>>) -> Result<
    Seq<ReadingView>,
    ParseError,
> {
    match document {
        None => Err(ParseError::Unrecognized),
        Some(document) => match document_readings(document) {
            None => Err(ParseError::Unrecognized),
            Some(found) => if found.len() == 0 {
                Err(ParseError::Unrecognized)
            } else {
                Ok(found)
            },
        },
    }
}

/// What `raw` holds in the JSON dialect.
pub open spec fn outcome(raw: Seq<u8>) -> Result<Seq<ReadingView>, ParseError> {
    if raw.len() == 0 {
        Err(ParseError::Empty)
    } else {
        document_outcome(json_document(raw))
    }
}

fn find_field(fields: &Vec<Field>, name: &[u8]) -> (number: Option<Vec<u8>>)
    ensures
        match number {
            Some(number) => field(fields@.map_values(|field: Field| field@), name@) == Some(
                number@,
            ),
            None => field(fields@.map_values(|field: Field| field@), name@) is None,
        },
{
    let ghost list = fields@.map_values(|field: Field| field@);
    let mut i: usize = 0;
    while i < fields.len()
        invariant
            i <= fields.len(),
            list == fields@.map_values(|field: Field| field@),
            field_at(list, name@, 0) == field_at(list, name@, i as int),
        decreases fields.len() - i,
    {
        assert(list[i as int] == fields@[i as int]@);
        if same(fields[i].name.as_slice(), name) {
            return Some(fields[i].number.clone());
        }
        i += 1;
    }
    None
}

fn optional_literal(number: Option<Vec<u8>>) -> (literal: Option<Option<Literal>>)
    ensures
        literal is Some <==> (number is Some ==> is_literal(number.unwrap()@)),
        literal is Some ==> (literal.unwrap() is Some <==> number is Some),
        literal is Some && number is Some ==> literal.unwrap().unwrap()@ == number.unwrap()@,
{
    match number {
        None => Some(None),
        Some(text) => match Literal::exact(text) {
            Some(literal) => Some(Some(literal)),
            None => None,
        },
    }
}

fn read_measure(benchmark: &Vec<u8>, measure: &MeasureNode) -> (reading: Option<Reading>)
    ensures
        match reading {
            Some(reading) => measure_reading(benchmark@, measure@) == Some(reading@),
            None => measure_reading(benchmark@, measure@) is None,
        },
{
    proof {
        reveal_strlit("value");
        reveal_strlit("lower_value");
        reveal_strlit("upper_value");
    }
    let value_name = bytes_of("value");
    let lower_name = bytes_of("lower_value");
    let upper_name = bytes_of("upper_value");
    let value = match find_field(&measure.fields, value_name.as_slice()) {
        Some(text) => Literal::exact(text),
        None => None,
    };
    let lower = optional_literal(find_field(&measure.fields, lower_name.as_slice()));
    let upper = optional_literal(find_field(&measure.fields, upper_name.as_slice()));
    match (value, lower, upper) {
        (Some(value), Some(lower), Some(upper)) => Some(
            Reading {
                benchmark: benchmark.clone(),
                measure: measure.name.clone(),
                value,
                bounds: Bounds::Between(lower, upper),
            },
        ),
        _ => None,
    }
}

/// The readings of a document that the JSON parser has handed out.
pub fn gather(document: Option<Vec<BenchmarkNode>>) -> (parsed: Result<Vec<Reading>, ParseError>)
    ensures
        match parsed {
            Ok(found) => document_outcome(document_view(document)) == Ok::<
                Seq<ReadingView>,
                ParseError,
            >(readings(found@)),
            Err(error) => document_outcome(document_view(document)) == Err::<
                Seq<ReadingView>,
                ParseError,
            >(error),
        },
{
    let benchmarks = match document {
        Some(benchmarks) => benchmarks,
        None => {
            return Err(ParseError::Unrecognized);
        },
    };
    let ghost list = benchmarks@.map_values(|benchmark: BenchmarkNode| benchmark@);
    let mut found: Vec<Reading> = Vec::new();
    let mut valid = true;
    let mut i: usize = 0;
    assert(list.take(0) =~= Seq::<BenchmarkView>::empty());
    assert(readings(found@) =~= Seq::<ReadingView>::empty());
    while i < benchmarks.len()
        invariant
            i <= benchmarks.len(),
            list == benchmarks@.map_values(|benchmark: BenchmarkNode| benchmark@),
            valid <==> document_readings(list.take(i as int)) is Some,
            valid ==> document_readings(list.take(i as int)) == Some(readings(found@)),
        decreases benchmarks.len() - i,
    {
        let benchmark = &benchmarks[i];
        let ghost measures = benchmark.measures@.map_values(|measure: MeasureNode| measure@);
        proof {
            assert(list.take(i + 1).drop_last() =~= list.take(i as int));
            assert(list.take(i + 1).last() == benchmark@);
            assert(measures.take(0) =~= Seq::<MeasureView>::empty());
        }
        let ghost before = readings(found@);
        let mut j: usize = 0;
        while j < benchmark.measures.len()
            invariant
                j <= benchmark.measures.len(),
                measures == benchmark.measures@.map_values(|measure: MeasureNode| measure@),
                valid <==> document_readings(list.take(i as int)) is Some && benchmark_readings(
                    benchmark.name@,
                    measures.take(j as int),
                ) is Some,
                valid ==> document_readings(list.take(i as int)) == Some(before),
                valid ==> benchmark_readings(benchmark.name@, measures.take(j as int)) is Some
                    && readings(found@) == before + benchmark_readings(
                    benchmark.name@,
                    measures.take(j as int),
                ).unwrap(),
            decreases benchmark.measures.len() - j,
        {
            proof {
                assert(measures.take(j + 1).drop_last() =~= measures.take(j as int));
                assert(measures.take(j + 1).last() == benchmark.measures@[j as int]@);
            }
            let ghost so_far = readings(found@);
            match read_measure(&benchmark.name, &benchmark.measures[j]) {
                Some(reading) => {
                    if valid {
                        found.push(reading);
                        assert(readings(found@) =~= so_far.push(reading@));
                        assert(readings(found@) =~= before + benchmark_readings(
                            benchmark.name@,
                            measures.take(j + 1),
                        ).unwrap());
                    }
                },
                None => {
                    valid = false;
                },
            }
            j += 1;
        }
        assert(measures.take(benchmark.measures.len() as int) =~= measures);
        i += 1;
    }
    assert(list.take(benchmarks.len() as int) =~= list);
    if valid && found.len() > 0 {
        Ok(found)
    } else {
        Err(ParseError::Unrecognized)
    }
}

/// Reads harness output in the JSON dialect.
pub fn parse(raw: &[u8]) -> (parsed: Result<Vec<Reading>, ParseError>)
    ensures
        match parsed {
            Ok(found) => outcome(raw@) == Ok::<Seq<ReadingView>, ParseError>(readings(found@)),
            Err(error) => outcome(raw@) == Err::<Seq<ReadingView>, ParseError>(error),
        },
{
    if raw.len() == 0 {
        return Err(ParseError::Empty);
    }
    gather(read_document(raw))
}

} // verus!
