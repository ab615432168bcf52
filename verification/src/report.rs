//! What is shown and written: the record of one probe, and what a finished scan
//! leaves to be appended to the output.

use crate::endpoint::{endpoint_text, Endpoint};
use crate::extract::{entry_lines, raw_texts, Entry};
use crate::scan::{
    initial_state, lemma_included_iff_extracted_and_reachable, next_step, recorded, texts,
    working_lines, working_set, ProbeResult, ScanState, Step,
};
use crate::text::trim;
use vstd::prelude::*;
use vstd::string::StringExecFns;

verus! {

/// The record of one probe: the tag `[OK]` or `[ERR]`, a tab, and the endpoint as
/// it is written.
pub open spec fn record_text(endpoint: Endpoint, reachable: bool) -> Seq<char> {
    if reachable {
        seq!['[', 'O', 'K', ']', '\t'] + endpoint_text(endpoint)
    } else {
        seq!['[', 'E', 'R', 'R', ']', '\t'] + endpoint_text(endpoint)
    }
}

/// The lines one after another, each followed by a line feed.
pub open spec fn joined_lines(lines: Seq<Seq<char>>) -> Seq<char>
    decreases lines.len(),
{
    if lines.len() == 0 {
        Seq::empty()
    } else {
        joined_lines(lines.drop_last()) + lines.last() + seq!['\n']
    }
}

/// What `results` leave to be appended to the output: nothing where no entry was
/// found reachable, else the working set, one line for each entry.
pub open spec fn output_text(results: Seq<ProbeResult>) -> Option<Seq<char>> {
    if working_lines(results).len() == 0 {
        None
    } else {
        Some(joined_lines(working_lines(results)))
    }
}

/// The state of a scan of `entries` once the answers `answers` have been recorded,
/// one after another.
pub open spec fn state_after(entries: Seq<Entry>, answers: Seq<bool>) -> ScanState
    decreases answers.len(),
{
    if answers.len() == 0 {
        initial_state(entries)
    } else {
        recorded(state_after(entries, answers.drop_last()), answers.last())
    }
}

/// A scan in which no probe finds its endpoint reachable leaves nothing to be
/// written, whatever the entries are and however often it is run.
pub proof fn lemma_unreachable_only_writes_nothing(entries: Seq<Entry>, answers: Seq<bool>)
    requires
        forall|i: int| 0 <= i < answers.len() ==> !(#[trigger] answers[i]),
    ensures
        working_lines(state_after(entries, answers).results).len() == 0,
        output_text(state_after(entries, answers).results) is None,
    decreases answers.len(),
{
    if answers.len() == 0 {
        reveal(Seq::filter);
    } else {
        let before = state_after(entries, answers.drop_last());
        lemma_unreachable_only_writes_nothing(entries, answers.drop_last());
        if before.position < before.entries.len() {
            lemma_included_iff_extracted_and_reachable(before, answers.last());
        }
    }
}

/// A text that is empty once it is trimmed has no entries, and a scan of no entries
/// is done at once: it probes nothing and leaves nothing to be written.
pub proof fn lemma_empty_input_writes_nothing(text: Seq<char>, entries: Seq<Entry>)
    requires
        trim(text).len() == 0,
        raw_texts(entries) == entry_lines(text),
    ensures
        entries.len() == 0,
        next_step(initial_state(entries)) == Step::Done,
        output_text(initial_state(entries).results) is None,
{
    reveal(Seq::filter);
    assert(raw_texts(entries).len() == entries.len());
}

/// The record of one probe, for the console.
pub fn probe_record(endpoint: &Endpoint, reachable: bool) -> (r: String)
    ensures
        r@ == record_text(*endpoint, reachable),
{
    let mut out = if reachable {
        String::from_str("[OK]\t")
    } else {
        String::from_str("[ERR]\t")
    };
    proof {
        reveal_strlit("[OK]\t");
        reveal_strlit("[ERR]\t");
        if reachable {
            assert(out@ =~= seq!['[', 'O', 'K', ']', '\t']);
        } else {
            assert(out@ =~= seq!['[', 'E', 'R', 'R', ']', '\t']);
        }
    }
    let text = endpoint.to_text();
    out.append(text.as_str());
    out
}

/// What a finished scan has to show.
#[derive(Debug, PartialEq, Eq)]
pub enum Report {
    /// No entry was found reachable: nothing is written.
    NothingReachable,
    /// The working set, which is not empty.
    Working(Vec<String>),
}

impl Report {
    /// The text that this report leaves to be appended to the output: each line of
    /// the working set followed by a line feed, or nothing at all.
    pub open spec fn output_view(&self) -> Option<Seq<char>> {
        match *self {
            Report::NothingReachable => None,
            Report::Working(lines) => Some(joined_lines(texts(lines@))),
        }
    }

    /// The report on `results`: the working set where some entry was found
    /// reachable, and only then.
    pub fn new(results: &Vec<ProbeResult>) -> (r: Report)
        ensures
            match r {
                Report::NothingReachable => working_lines(results@).len() == 0,
                Report::Working(lines) => lines@.len() > 0 && texts(lines@) == working_lines(
                    results@,
                ),
            },
            r.output_view() == output_text(results@),
    {
        let lines = working_set(results);
        if lines.len() == 0 {
            Report::NothingReachable
        } else {
            Report::Working(lines)
        }
    }

    /// The text to append to the output. `None` where nothing was found reachable:
    /// then nothing is to be written at all.
    pub fn output(&self) -> (r: Option<String>)
        ensures
            match r {
                Some(text) => self.output_view() == Some(text@),
                None => self.output_view() is None,
            },
    {
        match self {
            Report::NothingReachable => None,
            Report::Working(lines) => {
                let mut out = String::new();
                let mut i: usize = 0;
                while i < lines.len()
                    invariant
                        i <= lines@.len(),
                        out@ == joined_lines(texts(lines@).take(i as int)),
                    decreases lines@.len() - i,
                {
                    proof {
                        assert(texts(lines@).take(i + 1).drop_last() =~= texts(lines@).take(
                            i as int,
                        ));
                    }
                    out.append(lines[i].as_str());
                    out.push('\n');
                    i += 1;
                }
                assert(texts(lines@).take(i as int) =~= texts(lines@));
                Some(out)
            },
        }
    }
}

} // verus!
