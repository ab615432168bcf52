//! The pass over the entries of a list: which endpoint to probe next, what to keep
//! of each answer, and which lines make up the working set.
//!
//! Probing itself is left to the caller. A `Scan` says what to do next, takes the
//! answer, and moves on.

use crate::endpoint::{Endpoint, ExtractError};
use crate::extract::{extraction, Entry};
use vstd::prelude::*;

verus! {

/// What a probe found for one entry.
#[derive(Debug, PartialEq, Eq)]
pub struct ProbeResult {
    /// The entry whose endpoint was probed.
    pub entry: Entry,
    /// Whether a connection to the endpoint was established in time.
    pub reachable: bool,
}

/// What a scan asks its caller to do next.
#[derive(Clone, Copy, Debug, PartialEq, Eq)]
pub enum Step {
    /// Probe this endpoint, which the current entry names, and record the answer.
    Probe(Endpoint),
    /// The current entry names no endpoint, for this reason: there is nothing to
    /// probe, and recording moves on to the next entry.
    Skip(ExtractError),
    /// Every entry has been dealt with.
    Done,
}

/// The state of a scan as contracts see it.
pub struct ScanState {
    /// The entries of the list, in the order of the list.
    pub entries: Seq<Entry>,
    /// How many entries have been dealt with.
    pub position: nat,
    /// One result for each entry dealt with that named an endpoint, in order.
    pub results: Seq<ProbeResult>,
}

/// The state in which a scan of `entries` starts.
pub open spec fn initial_state(entries: Seq<Entry>) -> ScanState {
    ScanState { entries, position: 0, results: Seq::empty() }
}

/// What is to be done next in `state`.
pub open spec fn next_step(state: ScanState) -> Step {
    if state.position < state.entries.len() {
        let entry = state.entries[state.position as int];
        match extraction(entry.raw_text@, entry.format) {
            Ok(endpoint) => Step::Probe(endpoint),
            Err(error) => Step::Skip(error),
        }
    } else {
        Step::Done
    }
}

/// The state that follows `state` once the answer `reachable` is recorded for the
/// current entry. An entry that names an endpoint gets a result holding the answer.
/// An entry that names none gets no result, whatever the answer. In a finished
/// scan nothing changes.
pub open spec fn recorded(state: ScanState, reachable: bool) -> ScanState {
    if state.position < state.entries.len() {
        let entry = state.entries[state.position as int];
        ScanState {
            entries: state.entries,
            position: state.position + 1,
            results: if extraction(entry.raw_text@, entry.format) is Ok {
                state.results.push(ProbeResult { entry, reachable })
            } else {
                state.results
            },
        }
    } else {
        state
    }
}

/// The working set of `results`: the raw text of each entry that was found
/// reachable, in the order of the results.
pub open spec fn working_lines(results: Seq<ProbeResult>) -> Seq<Seq<char>> {
    results.filter(|result: ProbeResult| result.reachable).map_values(
        |result: ProbeResult| result.entry.raw_text@,
    )
}

/// The view of each string, in order.
pub open spec fn texts(strings: Seq<String>) -> Seq<Seq<char>> {
    strings.map_values(|s: String| s@)
}

/// An entry enters the working set if and only if it names an endpoint and that
/// endpoint was found reachable: recording an answer appends the current entry's
/// raw text to the working set in exactly that case, and otherwise leaves the
/// working set as it was.
pub proof fn lemma_included_iff_extracted_and_reachable(state: ScanState, reachable: bool)
    requires
        state.position < state.entries.len(),
    ensures
        working_lines(recorded(state, reachable).results) == if extraction(
            state.entries[state.position as int].raw_text@,
            state.entries[state.position as int].format,
        ) is Ok && reachable {
            working_lines(state.results).push(state.entries[state.position as int].raw_text@)
        } else {
            working_lines(state.results)
        },
{
    let entry = state.entries[state.position as int];
    let keep = |result: ProbeResult| result.reachable;
    let text = |result: ProbeResult| result.entry.raw_text@;
    if extraction(entry.raw_text@, entry.format) is Ok {
        let result = ProbeResult { entry, reachable };
        state.results.lemma_filter_push(result, keep);
        if reachable {
            assert(state.results.filter(keep).push(result).map_values(text)
                =~= state.results.filter(keep).map_values(text).push(entry.raw_text@));
        }
    }
}

/// Where no probe found its endpoint reachable, the working set is empty.
pub proof fn lemma_nothing_reachable(results: Seq<ProbeResult>)
    requires
        forall|i: int| 0 <= i < results.len() ==> !(#[trigger] results[i]).reachable,
    ensures
        working_lines(results).len() == 0,
    decreases results.len(),
{
    reveal(Seq::filter);
    if results.len() > 0 {
        lemma_nothing_reachable(results.drop_last());
    }
}

/// The working set of `results`.
pub fn working_set(results: &Vec<ProbeResult>) -> (r: Vec<String>)
    ensures
        texts(r@) == working_lines(results@),
{
    let ghost keep = |result: ProbeResult| result.reachable;
    let ghost text = |result: ProbeResult| result.entry.raw_text@;
    let mut out: Vec<String> = Vec::new();
    let mut i: usize = 0;
    assert(texts(out@) =~= results@.take(0).filter(keep).map_values(text)) by {
        reveal(Seq::filter);
    }
    while i < results.len()
        invariant
            keep == |result: ProbeResult| result.reachable,
            text == |result: ProbeResult| result.entry.raw_text@,
            i <= results@.len(),
            texts(out@) == results@.take(i as int).filter(keep).map_values(text),
        decreases results@.len() - i,
    {
        proof {
            assert(results@.take(i + 1) =~= results@.take(i as int).push(results@[i as int]));
            results@.take(i as int).lemma_filter_push(results@[i as int], keep);
        }
        if results[i].reachable {
            let ghost before = texts(out@);
            out.push(results[i].entry.raw_text.clone());
            assert(texts(out@) =~= before.push(results@[i as int].entry.raw_text@));
            assert(results@.take(i as int).filter(keep).push(results@[i as int]).map_values(text)
                =~= results@.take(i as int).filter(keep).map_values(text).push(
                results@[i as int].entry.raw_text@,
            ));
        }
        i += 1;
    }
    assert(results@.take(i as int) =~= results@);
    out
}

/// A pass over the entries of a list, one entry at a time, in the order of the
/// list.
pub struct Scan {
    entries: Vec<Entry>,
    position: usize,
    results: Vec<ProbeResult>,
}

impl View for Scan {
    type V = ScanState;

    closed spec fn view(&self) -> ScanState {
        ScanState {
            entries: self.entries@,
            position: self.position as nat,
            results: self.results@,
        }
    }
}

impl Scan {
    #[verifier::type_invariant]
    spec fn inv(self) -> bool {
        self.position <= self.entries@.len()
    }

    /// Starts a scan of `entries`.
    pub fn new(entries: Vec<Entry>) -> (scan: Scan)
        ensures
            scan@ == initial_state(entries@),
    {
        Scan { entries, position: 0, results: Vec::new() }
    }

    /// What is to be done next.
    pub fn step(&self) -> (r: Step)
        ensures
            r == next_step(self@),
    {
        if self.position < self.entries.len() {
            match self.entries[self.position].endpoint() {
                Ok(endpoint) => Step::Probe(endpoint),
                Err(error) => Step::Skip(error),
            }
        } else {
            Step::Done
        }
    }

    /// The entry that the next step is about, if the scan is not finished.
    pub fn current(&self) -> (r: Option<&Entry>)
        ensures
            match r {
                Some(entry) => self@.position < self@.entries.len() && *entry
                    == self@.entries[self@.position as int],
                None => self@.position >= self@.entries.len(),
            },
    {
        if self.position < self.entries.len() {
            Some(&self.entries[self.position])
        } else {
            None
        }
    }

    /// Records the prober's answer for the current entry and moves on to the next.
    pub fn record(self, reachable: bool) -> (next: Scan)
        ensures
            next@ == recorded(self@, reachable),
    {
        proof {
            use_type_invariant(&self);
        }
        if self.position < self.entries.len() {
            let named = self.entries[self.position].endpoint().is_ok();
            let mut results = self.results;
            if named {
                results.push(ProbeResult { entry: self.entries[self.position].clone(), reachable });
            }
            Scan { entries: self.entries, position: self.position + 1, results }
        } else {
            self
        }
    }

    /// The results recorded so far.
    pub fn results(&self) -> (r: &Vec<ProbeResult>)
        ensures
            r@ == self@.results,
    {
        &self.results
    }

    /// Ends the scan and hands out the results recorded.
    pub fn into_results(self) -> (r: Vec<ProbeResult>)
        ensures
            r@ == self@.results,
    {
        self.results
    }
}

} // verus!
