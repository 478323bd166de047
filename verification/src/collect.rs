//! Collecting the output of the iterations of a benchmark command.
//!
//! The command is run elsewhere, one iteration after the other. This module
//! decides, after each iteration, whether the collection goes on.

use vstd::prelude::*;
use crate::adapter::{parse, Adapter, ParseError};
use crate::reading::{readings, Reading, ReadingView};

verus! {

/// What one run of the benchmark command gave.
#[derive(Debug, Clone, PartialEq, Eq)]
pub struct RunOutput {
    /// Whether the command exited with success.
    pub success: bool,
    /// What the command printed.
    pub text: Vec<u8>,
}

/// Why a collection was given up.
#[derive(Debug, PartialEq, Eq)]
pub enum CollectError {
    /// The iteration with this number, counted from 1, failed, and failures
    /// are not allowed.
    ExitStatus { iteration: usize, output: RunOutput },
    /// The output of the iteration with this number could not be read.
    Parse { iteration: usize, error: ParseError },
}

/// What is to happen next.
#[derive(Debug, Clone, Copy, PartialEq, Eq, Structural)]
pub enum Next {
    /// The command is to be run once more.
    Run,
    /// All iterations were made.
    Finished,
}

/// The readings of the iterations made so far.
#[derive(Debug, PartialEq, Eq)]
pub struct Collector {
    adapter: Adapter,
    iterations: usize,
    allow_failure: bool,
    made: usize,
    results: Vec<Vec<Reading>>,
}

/// The readings of several iterations as plain text.
pub open spec fn all_readings(results: Seq<Vec<Reading>>) -> Seq<Seq<ReadingView>> {
    results.map_values(|result: Vec<Reading>| readings(result@))
}

/// What a collection comes to when its iterations give `outputs`, in this
/// order: the readings of the iterations that succeeded, or the first
/// iteration that ended the collection. The output of a successful
/// iteration is read. A failed iteration is passed over where failures are
/// allowed, and ends the collection where they are not; so does output that
/// cannot be read.
pub open spec fn collection(adapter: Adapter, allow_failure: bool, outputs: Seq<RunOutput>) -> Result<
    Seq<Seq<ReadingView>>,
    CollectError,
>
    decreases outputs.len(),
{
    if outputs.len() == 0 {
        Ok(Seq::empty())
    } else {
        let output = outputs.last();
        let iteration = outputs.len() as usize;
        match collection(adapter, allow_failure, outputs.drop_last()) {
            Err(error) => Err(error),
            Ok(found) => if !output.success {
                if allow_failure {
                    Ok(found)
                } else {
                    Err(CollectError::ExitStatus { iteration, output })
                }
            } else {
                match adapter.outcome(output.text@) {
                    Ok(readings) => Ok(found.push(readings)),
                    Err(error) => Err(CollectError::Parse { iteration, error }),
                }
            },
        }
    }
}

/// A collection that has ended stays ended, whatever output follows.
pub proof fn lemma_collection_ends(
    adapter: Adapter,
    allow_failure: bool,
    outputs: Seq<RunOutput>,
    upto: int,
)
    requires
        0 <= upto <= outputs.len(),
        collection(adapter, allow_failure, outputs.take(upto)) is Err,
    ensures
        collection(adapter, allow_failure, outputs) == collection(
            adapter,
            allow_failure,
            outputs.take(upto),
        ),
    decreases outputs.len(),
{
    if upto < outputs.len() {
        assert(outputs.drop_last().take(upto) =~= outputs.take(upto));
        lemma_collection_ends(adapter, allow_failure, outputs.drop_last(), upto);
    } else {
        assert(outputs.take(upto) =~= outputs);
    }
}

/// The outputs that count: the first `iterations` of them.
pub open spec fn counted(iterations: usize, outputs: Seq<RunOutput>) -> Seq<RunOutput> {
    if outputs.len() > iterations {
        outputs.take(iterations as int)
    } else {
        outputs
    }
}

/// Collects the iterations of a run whose outputs are all at hand, in
/// order. Outputs beyond the number of iterations do not count.
pub fn collect(
    adapter: Adapter,
    iterations: usize,
    allow_failure: bool,
    outputs: Vec<RunOutput>,
) -> (collected: Result<Vec<Vec<Reading>>, CollectError>)
    ensures
        match collected {
            Ok(results) => collection(adapter, allow_failure, counted(iterations, outputs@)) == Ok::<
                Seq<Seq<ReadingView>>,
                CollectError,
            >(all_readings(results@)),
            Err(error) => collection(adapter, allow_failure, counted(iterations, outputs@)) == Err::<
                Seq<Seq<ReadingView>>,
                CollectError,
            >(error),
        },
{
    let ghost all = counted(iterations, outputs@);
    let mut rest = outputs;
    let mut collector = Collector::new(adapter, iterations, allow_failure);
    assert(all.take(0) =~= Seq::<RunOutput>::empty());
    while rest.len() > 0 && collector.made < iterations
        invariant
            collector.adapter() == adapter,
            collector.iterations() == iterations,
            collector.allow_failure() == allow_failure,
            all == counted(iterations, outputs@),
            collector.made() <= all.len(),
            rest@ == outputs@.skip(collector.made() as int),
            collection(adapter, allow_failure, all.take(collector.made() as int)) == Ok::<
                Seq<Seq<ReadingView>>,
                CollectError,
            >(collector.results()),
        decreases rest@.len(),
    {
        let ghost made = collector.made() as int;
        let ghost before = collector.results();
        let output = rest.remove(0);
        proof {
            assert(output == outputs@[made]);
            assert(all[made] == outputs@[made]);
            assert(all.take(made + 1).drop_last() =~= all.take(made));
            assert(all.take(made + 1).last() == output);
            assert(rest@ =~= outputs@.skip(made + 1));
        }
        match collector.record(output) {
            Ok(next) => {
                collector = next;
            },
            Err(error) => {
                proof {
                    let part = all.take(made + 1);
                    assert(part.len() == made + 1);
                    assert(collection(adapter, allow_failure, part.drop_last()) == Ok::<
                        Seq<Seq<ReadingView>>,
                        CollectError,
                    >(before));
                    lemma_collection_ends(adapter, allow_failure, all, made + 1);
                }
                return Err(error);
            },
        }
    }
    assert(all.take(collector.made() as int) =~= all);
    Ok(collector.finish())
}

impl Collector {
    #[verifier::type_invariant]
    spec fn well_formed(self) -> bool {
        self.made <= self.iterations
    }

    /// How the output is read.
    pub closed spec fn adapter(self) -> Adapter {
        self.adapter
    }

    /// How many iterations are to be made.
    pub closed spec fn iterations(self) -> usize {
        self.iterations
    }

    /// Whether an iteration that fails is passed over.
    pub closed spec fn allow_failure(self) -> bool {
        self.allow_failure
    }

    /// How many iterations were made.
    pub closed spec fn made(self) -> usize {
        self.made
    }

    /// The readings of the iterations that succeeded, in order.
    pub closed spec fn results(self) -> Seq<Seq<ReadingView>> {
        all_readings(self.results@)
    }

    /// Whether `other` is this collector after one more iteration.
    pub open spec fn advanced_to(self, other: Collector) -> bool {
        &&& other.adapter() == self.adapter()
        &&& other.iterations() == self.iterations()
        &&& other.allow_failure() == self.allow_failure()
        &&& other.made() == self.made() + 1
    }

    /// A collector before the first iteration.
    pub fn new(adapter: Adapter, iterations: usize, allow_failure: bool) -> (collector: Self)
        ensures
            collector.adapter() == adapter,
            collector.iterations() == iterations,
            collector.allow_failure() == allow_failure,
            collector.made() == 0,
            collector.results() == Seq::<Seq<ReadingView>>::empty(),
    {
        let collector = Collector { adapter, iterations, allow_failure, made: 0, results: Vec::new() };
        assert(all_readings(collector.results@) =~= Seq::<Seq<ReadingView>>::empty());
        collector
    }

    /// What is to happen next: the command is run until all iterations are
    /// made.
    pub fn next(&self) -> (next: Next)
        ensures
            next is Run <==> self.made() < self.iterations(),
    {
        if self.made < self.iterations {
            Next::Run
        } else {
            Next::Finished
        }
    }

    /// Takes in the output of one more iteration.
    ///
    /// The output of a successful iteration is read and its readings are
    /// kept. A failed iteration is passed over where failures are allowed,
    /// and ends the collection where they are not; so does output that
    /// cannot be read. Once all iterations are made, further output is
    /// ignored.
    pub fn record(self, output: RunOutput) -> (step: Result<Collector, CollectError>)
        ensures
            self.made() >= self.iterations() ==> step == Ok::<Collector, CollectError>(self),
            self.made() < self.iterations() && !output.success && self.allow_failure()
                ==> step is Ok && self.advanced_to(step.unwrap()) && step.unwrap().results()
                == self.results(),
            self.made() < self.iterations() && !output.success && !self.allow_failure() ==> step
                == Err::<Collector, CollectError>(
                CollectError::ExitStatus { iteration: (self.made() + 1) as usize, output },
            ),
            self.made() < self.iterations() && output.success ==> match self.adapter().outcome(
                output.text@,
            ) {
                Ok(found) => step is Ok && self.advanced_to(step.unwrap())
                    && step.unwrap().results() == self.results().push(found),
                Err(error) => step == Err::<Collector, CollectError>(
                    CollectError::Parse { iteration: (self.made() + 1) as usize, error },
                ),
            },
    {
        proof {
            use_type_invariant(&self);
        }
        if self.made >= self.iterations {
            return Ok(self);
        }
        let iteration = self.made + 1;
        let Collector { adapter, iterations, allow_failure, made, results } = self;
        if !output.success {
            if allow_failure {
                return Ok(Collector { adapter, iterations, allow_failure, made: iteration, results });
            }
            return Err(CollectError::ExitStatus { iteration, output });
        }
        match parse(adapter, output.text.as_slice()) {
            Ok(found) => {
                let ghost before = all_readings(results@);
                let mut results = results;
                results.push(found);
                assert(all_readings(results@) =~= before.push(readings(found@)));
                Ok(Collector { adapter, iterations, allow_failure, made: iteration, results })
            },
            Err(error) => Err(CollectError::Parse { iteration, error }),
        }
    }

    /// The readings of the iterations that succeeded, in order.
    pub fn finish(self) -> (results: Vec<Vec<Reading>>)
        ensures
            all_readings(results@) == self.results(),
    {
        self.results
    }
}

} // verus!
