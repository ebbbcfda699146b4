//! Parsing a message that still ends in the debugger's prompt: notifications
//! and stream records, then at most one result record, then the prompt.

use super::grammar::{spec_out_of_band, spec_result_record};
use super::output_syntax::{
    fields_are_wf, OutOfBandResult, OutOfBandView, Result, ResultView,
};
use super::parser::{out_of_band_at, result_record_at, word_is_at};
use super::text::{chars_of, lemma_skip, rest_of};
use vstd::prelude::*;

verus! {

/// A message in the order that the debugger's manual gives it: what no
/// command asked for, and then the answer to a command, if there is one.
#[derive(Debug, PartialEq, Eq)]
pub struct Output {
    pub out_of_band: Vec<OutOfBandResult>,
    pub result: Option<Result>,
}

pub ghost struct OutputView {
    pub out_of_band: Seq<OutOfBandView>,
    pub result: Option<ResultView>,
}

/// The notifications and stream records of a message, as the contracts see
/// them.
pub open spec fn out_of_bands_view(records: Seq<OutOfBandResult>) -> Seq<OutOfBandView> {
    Seq::new(records.len(), |i: int| records[i]@)
}

impl View for Output {
    type V = OutputView;

    open spec fn view(&self) -> OutputView {
        OutputView {
            out_of_band: out_of_bands_view(self.out_of_band@),
            result: match self.result {
                Some(r) => Some(r@),
                None => None,
            },
        }
    }
}

/// The prompt that ends a message: `(gdb)` and a line end.
pub open spec fn prompt() -> Seq<char> {
    seq!['(', 'g', 'd', 'b', ')', '\n']
}

/// The notifications and stream records at the front of `s`, as many as
/// stand there and are well formed, added to `acc`; and what follows them.
pub open spec fn spec_out_of_bands(s: Seq<char>, acc: Seq<OutOfBandView>) -> (
    Seq<OutOfBandView>,
    Seq<char>,
)
    decreases s.len(),
{
    match spec_out_of_band(s) {
        Some((record, rest)) => if record.wf() && rest.len() < s.len() {
            spec_out_of_bands(rest, acc.push(record))
        } else {
            (acc, s)
        },
        None => (acc, s),
    }
}

/// The result record at the front of `s`, if one stands there and is well
/// formed, and what follows it.
pub open spec fn spec_optional_result(s: Seq<char>) -> (Option<ResultView>, Seq<char>) {
    match spec_result_record(s) {
        Some((record, rest)) => if record.wf() {
            (Some(record), rest)
        } else {
            (None, s)
        },
        None => (None, s),
    }
}

/// A message and its prompt. Nothing may follow the prompt, so nothing is
/// left over.
pub open spec fn spec_prompted_output(s: Seq<char>) -> Option<(OutputView, Seq<char>)> {
    let (out_of_band, after) = spec_out_of_bands(s, Seq::empty());
    let (result, rest) = spec_optional_result(after);
    if rest == prompt() {
        Some((OutputView { out_of_band, result }, Seq::empty()))
    } else {
        None
    }
}

/// Reads notifications and stream records at `pos`, as many as stand there.
fn out_of_bands_at(text: &[char], pos: usize) -> (r: (Vec<OutOfBandResult>, usize))
    requires
        pos <= text.len(),
    ensures
        pos <= r.1 <= text.len(),
        spec_out_of_bands(text@.skip(pos as int), Seq::empty()) == (
            out_of_bands_view(r.0@),
            text@.skip(r.1 as int),
        ),
{
    let mut records: Vec<OutOfBandResult> = Vec::new();
    let mut p: usize = pos;
    assert(out_of_bands_view(records@) =~= Seq::empty());
    loop
        invariant
            pos <= p <= text.len(),
            spec_out_of_bands(text@.skip(pos as int), Seq::empty()) == spec_out_of_bands(
                text@.skip(p as int),
                out_of_bands_view(records@),
            ),
        decreases text.len() - p,
    {
        let read = match out_of_band_at(text, p) {
            Some((record, end)) => if record.is_wf() {
                Some((record, end))
            } else {
                None
            },
            None => None,
        };
        match read {
            Some((record, end)) => {
                proof {
                    lemma_skip(text@, p as int, 0);
                    lemma_skip(text@, end as int, 0);
                }
                let ghost before = out_of_bands_view(records@);
                records.push(record);
                assert(out_of_bands_view(records@) =~= before.push(record@));
                p = end;
            },
            None => {
                return (records, p);
            },
        }
    }
}

/// Parses the notifications and stream records at the front of `s`, as many
/// as stand there and are well formed.
pub fn parse_out_of_bands(s: &str) -> (r: (Vec<OutOfBandResult>, &str))
    ensures
        spec_out_of_bands(s@, Seq::empty()) == (out_of_bands_view(r.0@), r.1@),
{
    let chars = chars_of(s);
    proof {
        lemma_skip(s@, 0, 0);
    }
    let (records, end) = out_of_bands_at(chars.as_slice(), 0);
    (records, rest_of(s, end, chars.len()))
}

/// Parses a message that ends in the prompt. Succeeds where the prompt
/// follows the records and ends the text; what is then left over is empty.
pub fn parse_output(s: &str) -> (r: Option<(Output, &str)>)
    ensures
        match r {
            Some((output, rest)) => spec_prompted_output(s@) == Some((output@, rest@)),
            None => spec_prompted_output(s@) is None,
        },
{
    let chars = chars_of(s);
    let text = chars.as_slice();
    proof {
        lemma_skip(s@, 0, 0);
    }
    let (out_of_band, after) = out_of_bands_at(text, 0);
    let (result, at) = match result_record_at(text, after) {
        Some((record, end)) => if fields_are_wf(&record.results) {
            (Some(record), end)
        } else {
            (None, after)
        },
        None => (None, after),
    };
    let word: Vec<char> = vec!['(', 'g', 'd', 'b', ')', '\n'];
    if text.len() - at == 6 && word_is_at(text, at, &word) {
        proof {
            lemma_skip(text@, at as int, 6);
            assert(text@.skip(at as int).take(6) =~= text@.skip(at as int));
            assert(text@.skip(text.len() as int) =~= Seq::empty());
        }
        Some((Output { out_of_band, result }, rest_of(s, chars.len(), chars.len())))
    } else {
        proof {
            if text@.skip(at as int) == prompt() {
                lemma_skip(text@, at as int, 6);
                assert(text@.skip(at as int).take(6) =~= text@.skip(at as int));
            }
        }
        None
    }
}

} // verus!
