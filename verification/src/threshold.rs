//! Thresholds: which statistic watches which measure.

use vstd::prelude::*;
use crate::boundary::Statistic;
use crate::text::same;

verus! {

/// The statistic that watches a measure on a testbed for a branch.
#[derive(Debug, PartialEq, Eq)]
pub struct Threshold {
    pub branch: String,
    pub testbed: String,
    pub measure: Vec<u8>,
    pub statistic: Statistic,
}

/// A branch, a testbed and a measure, by name.
pub struct Triple {
    pub branch: Seq<char>,
    pub testbed: Seq<char>,
    pub measure: Seq<u8>,
}

/// [`Threshold`] with its names as plain text.
pub struct ThresholdView {
    pub triple: Triple,
    pub statistic: Statistic,
}

impl View for Threshold {
    type V = ThresholdView;

    open spec fn view(&self) -> ThresholdView {
        ThresholdView {
            triple: Triple {
                branch: self.branch@,
                testbed: self.testbed@,
                measure: self.measure@,
            },
            statistic: self.statistic,
        }
    }
}

/// A list of thresholds with their names as plain text.
pub open spec fn thresholds(list: Seq<Threshold>) -> Seq<ThresholdView> {
    list.map_values(|threshold: Threshold| threshold@)
}

/// Whether no two thresholds of the list are for the same triple.
pub open spec fn one_each(list: Seq<ThresholdView>) -> bool {
    forall|i: int, j: int|
        0 <= i < j < list.len() ==> (#[trigger] list[i]).triple != (#[trigger] list[j]).triple
}

/// The place of the first threshold at or after `from` that is for
/// `triple`, or the length of the list if there is none.
pub open spec fn active_at(list: Seq<ThresholdView>, triple: Triple, from: int) -> int
    decreases list.len() - from,
{
    if 0 <= from < list.len() && list[from].triple != triple {
        active_at(list, triple, from + 1)
    } else {
        from
    }
}

/// The statistic that watches `triple`.
pub open spec fn active(list: Seq<ThresholdView>, triple: Triple) -> Option<Statistic> {
    let at = active_at(list, triple, 0);
    if 0 <= at < list.len() {
        Some(list[at].statistic)
    } else {
        None
    }
}

/// [`active_at`] finds the triple where it is, and runs to the end where it
/// is not.
pub proof fn lemma_active_at(list: Seq<ThresholdView>, triple: Triple, from: int)
    requires
        0 <= from <= list.len(),
    ensures
        from <= active_at(list, triple, from) <= list.len(),
        active_at(list, triple, from) < list.len() ==> list[active_at(
            list,
            triple,
            from,
        )].triple == triple,
        forall|i: int|
            from <= i < active_at(list, triple, from) ==> (#[trigger] list[i]).triple != triple,
    decreases list.len() - from,
{
    if from < list.len() && list[from].triple != triple {
        lemma_active_at(list, triple, from + 1);
    }
}

/// The thresholds that are in force: at most one for each measure on each
/// testbed for each branch.
#[derive(Debug, PartialEq, Eq)]
pub struct Thresholds {
    list: Vec<Threshold>,
}

impl View for Thresholds {
    type V = Seq<ThresholdView>;

    closed spec fn view(&self) -> Seq<ThresholdView> {
        thresholds(self.list@)
    }
}

impl Thresholds {
    #[verifier::type_invariant]
    spec fn well_formed(self) -> bool {
        one_each(thresholds(self.list@))
    }

    /// No thresholds.
    pub fn new() -> (none: Self)
        ensures
            none@ == Seq::<ThresholdView>::empty(),
    {
        let none = Thresholds { list: Vec::new() };
        assert(thresholds(none.list@) =~= Seq::<ThresholdView>::empty());
        none
    }

    /// The thresholds, of which no two are for the same triple.
    pub fn list(&self) -> (list: &Vec<Threshold>)
        ensures
            thresholds(list@) == self@,
            one_each(self@),
    {
        proof {
            use_type_invariant(self);
        }
        &self.list
    }

    fn find(&self, branch: &String, testbed: &String, measure: &[u8]) -> (at: usize)
        ensures
            at == active_at(
                self@,
                Triple { branch: branch@, testbed: testbed@, measure: measure@ },
                0,
            ),
            at <= self@.len(),
    {
        let ghost triple = Triple { branch: branch@, testbed: testbed@, measure: measure@ };
        let mut i: usize = 0;
        while i < self.list.len()
            invariant
                i <= self.list.len(),
                triple == (Triple { branch: branch@, testbed: testbed@, measure: measure@ }),
                active_at(self@, triple, 0) == active_at(self@, triple, i as int),
            decreases self.list.len() - i,
        {
            assert(self@[i as int] == self.list@[i as int]@);
            if self.list[i].branch == *branch && self.list[i].testbed == *testbed && same(
                self.list[i].measure.as_slice(),
                measure,
            ) {
                return i;
            }
            i += 1;
        }
        i
    }

    /// The statistic that watches a measure on a testbed for a branch.
    pub fn statistic(&self, branch: &String, testbed: &String, measure: &[u8]) -> (found: Option<
        Statistic,
    >)
        ensures
            found == active(
                self@,
                Triple { branch: branch@, testbed: testbed@, measure: measure@ },
            ),
    {
        let at = self.find(branch, testbed, measure);
        if at < self.list.len() {
            assert(self@[at as int] == self.list@[at as int]@);
            Some(self.list[at].statistic)
        } else {
            None
        }
    }

    /// Puts a threshold in force. It takes the place of the one that was in
    /// force for its triple, whose statistic is handed back; the thresholds
    /// for other triples stay as they are.
    pub fn set(self, threshold: Threshold) -> (changed: (Self, Option<Statistic>))
        ensures
            changed.1 == active(self@, threshold@.triple),
            active(changed.0@, threshold@.triple) == Some(threshold.statistic),
            ({
                let at = active_at(self@, threshold@.triple, 0);
                if at < self@.len() {
                    changed.0@ == self@.update(at, threshold@)
                } else {
                    changed.0@ == self@.push(threshold@)
                }
            }),
    {
        proof {
            use_type_invariant(&self);
        }
        let ghost triple = threshold@.triple;
        let ghost before = self@;
        let at = self.find(&threshold.branch, &threshold.testbed, threshold.measure.as_slice());
        proof {
            lemma_active_at(before, triple, 0);
        }
        let mut list = self.list;
        let superseded = if at < list.len() {
            assert(before[at as int] == list@[at as int]@);
            let old = list[at].statistic;
            list.set(at, threshold);
            assert(thresholds(list@) =~= before.update(at as int, threshold@));
            Some(old)
        } else {
            list.push(threshold);
            assert(thresholds(list@) =~= before.push(threshold@));
            None
        };
        proof {
            let after = thresholds(list@);
            lemma_active_at(after, triple, 0);
            assert(after[at as int].triple == triple);
        }
        (Thresholds { list }, superseded)
    }
}

/// Putting a threshold in force changes nothing for any other triple.
pub proof fn lemma_set_elsewhere(list: Seq<ThresholdView>, threshold: ThresholdView, other: Triple)
    requires
        other != threshold.triple,
    ensures
        ({
            let at = active_at(list, threshold.triple, 0);
            let changed = if at < list.len() {
                list.update(at, threshold)
            } else {
                list.push(threshold)
            };
            active(changed, other) == active(list, other)
        }),
{
    let at = active_at(list, threshold.triple, 0);
    let changed = if at < list.len() {
        list.update(at, threshold)
    } else {
        list.push(threshold)
    };
    lemma_active_at(list, threshold.triple, 0);
    lemma_same_search(list, changed, other, 0);
}

/// A search passes alike over two lists that agree on where `triple` is.
proof fn lemma_same_search(
    list: Seq<ThresholdView>,
    changed: Seq<ThresholdView>,
    triple: Triple,
    from: int,
)
    requires
        0 <= from <= list.len() <= changed.len() <= list.len() + 1,
        forall|i: int|
            0 <= i < list.len() ==> ((#[trigger] list[i]).triple == triple <==> (
            #[trigger] changed[i]).triple == triple),
        forall|i: int|
            0 <= i < list.len() && list[i].triple == triple ==> (#[trigger] changed[i]).statistic
                == list[i].statistic,
        changed.len() > list.len() ==> changed[list.len() as int].triple != triple,
    ensures
        active_at(list, triple, from) < list.len() ==> active_at(changed, triple, from)
            == active_at(list, triple, from),
        active_at(list, triple, from) >= list.len() ==> active_at(changed, triple, from)
            >= changed.len(),
        active_at(list, triple, from) < list.len() ==> changed[active_at(
            list,
            triple,
            from,
        )].statistic == list[active_at(list, triple, from)].statistic,
    decreases list.len() - from,
{
    lemma_active_at(list, triple, from);
    if from < list.len() {
        if list[from].triple != triple {
            assert(changed[from].triple != triple);
            lemma_same_search(list, changed, triple, from + 1);
        } else {
            assert(changed[from].triple == triple);
        }
    } else {
        if changed.len() > list.len() {
            assert(active_at(changed, triple, from + 1) == from + 1);
        }
    }
}

} // verus!
