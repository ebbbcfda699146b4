//! The parser: from the text of a message to its records.

use super::grammar::{
    keyword, run_len, spec_async_record, spec_list, spec_more_results, spec_more_values,
    spec_newline, spec_optional_token, spec_out_of_band, spec_output, spec_record, spec_records,
    spec_result, spec_result_class, spec_result_record, spec_results, spec_stream_record,
    spec_string, spec_string_body, spec_token, spec_tuple, spec_value, spec_variable, starts_with,
    Run,
};
use super::output_syntax::{
    class_wf, fields_are_wf, fields_view, output_view, records_are_wf, records_wf, token_view,
    token_wf, values_view,
    AsyncRecord, AsyncRecordView, OutOfBandResult, Output, ParseError, Result, ResultClass,
    ResultOrOOB, Token, Value, Var,
};
use super::text::{chars_of, copy_range, lemma_skip, rest_of, run_end};
use super::theorems::{
    is_proper_suffix, lemma_async_record, lemma_newline_rest, lemma_out_of_band,
    lemma_result_record, lemma_string_rest, theorem_record, theorem_result, theorem_value,
};
use vstd::prelude::*;

verus! {

/// Reads a quoted string at `pos`.
fn string_at(text: &[char], pos: usize) -> (r: Option<(String, usize)>)
    requires
        pos <= text.len(),
    ensures
        match r {
            Some((out, end)) => pos < end <= text.len() && spec_string(text@.skip(pos as int))
                == Some((out@, text@.skip(end as int))),
            None => spec_string(text@.skip(pos as int)) is None,
        },
{
    if pos >= text.len() || text[pos] != '"' {
        return None;
    }
    proof {
        lemma_skip(text@, pos as int, 1);
    }
    let mut out = String::new();
    let mut p: usize = pos + 1;
    loop
        invariant
            pos < p <= text.len(),
            spec_string(text@.skip(pos as int)) == spec_string_body(text@.skip(p as int), out@),
        decreases text.len() - p,
    {
        if p >= text.len() {
            return None;
        }
        let c = text[p];
        proof {
            lemma_skip(text@, p as int, 1);
        }
        if c == '"' {
            return Some((out, p + 1));
        } else if c == '\\' {
            if p + 1 >= text.len() {
                return None;
            }
            proof {
                lemma_skip(text@, p as int, 2);
            }
            let e = text[p + 1];
            if e == 'n' {
                out.push('\n');
            } else if e == 't' {
                out.push('\t');
            } else {
                out.push(e);
            }
            p = p + 2;
        } else {
            out.push(c);
            p = p + 1;
        }
    }
}

/// Reads a value at `pos`.
fn value_at(text: &[char], pos: usize) -> (r: Option<(Value, usize)>)
    requires
        pos <= text.len(),
    ensures
        match r {
            Some((value, end)) => pos < end <= text.len() && spec_value(text@.skip(pos as int))
                == Some((value@, text@.skip(end as int))),
            None => spec_value(text@.skip(pos as int)) is None,
        },
    decreases text.len() - pos, 0int,
{
    if pos >= text.len() {
        return None;
    }
    proof {
        lemma_skip(text@, pos as int, 1);
    }
    let c = text[pos];
    if c == '"' {
        match string_at(text, pos) {
            Some((out, end)) => Some((Value::Const(out), end)),
            None => None,
        }
    } else if c == '{' {
        tuple_at(text, pos + 1)
    } else if c == '[' {
        list_at(text, pos + 1)
    } else {
        None
    }
}

/// Reads what follows `{` at `pos`.
fn tuple_at(text: &[char], pos: usize) -> (r: Option<(Value, usize)>)
    requires
        pos <= text.len(),
    ensures
        match r {
            Some((value, end)) => pos < end <= text.len() && spec_tuple(text@.skip(pos as int))
                == Some((value@, text@.skip(end as int))),
            None => spec_tuple(text@.skip(pos as int)) is None,
        },
    decreases text.len() - pos, 3int,
{
    if pos < text.len() {
        proof {
            lemma_skip(text@, pos as int, 1);
        }
        if text[pos] == '}' {
            let fields: Vec<(Var, Value)> = Vec::new();
            assert(fields_view(fields@) =~= Seq::empty());
            return Some((Value::Tuple(fields), pos + 1));
        }
    }
    match results_at(text, pos) {
        Some((fields, end)) => {
            if end < text.len() {
                proof {
                    lemma_skip(text@, end as int, 1);
                }
                if text[end] == '}' {
                    return Some((Value::Tuple(fields), end + 1));
                }
            }
            None
        },
        None => None,
    }
}

/// Reads what follows `[` at `pos`.
fn list_at(text: &[char], pos: usize) -> (r: Option<(Value, usize)>)
    requires
        pos <= text.len(),
    ensures
        match r {
            Some((value, end)) => pos < end <= text.len() && spec_list(text@.skip(pos as int))
                == Some((value@, text@.skip(end as int))),
            None => spec_list(text@.skip(pos as int)) is None,
        },
    decreases text.len() - pos, 3int,
{
    if pos < text.len() {
        proof {
            lemma_skip(text@, pos as int, 1);
        }
        if text[pos] == ']' {
            let items: Vec<Value> = Vec::new();
            assert(values_view(items@) =~= Seq::empty());
            return Some((Value::ValueList(items), pos + 1));
        }
    }
    match value_at(text, pos) {
        Some((first, after)) => {
            proof {
                lemma_skip(text@, pos as int, 0);
                lemma_skip(text@, after as int, 0);
            }
            let mut items: Vec<Value> = Vec::new();
            items.push(first);
            assert(values_view(items@) =~= seq![first@]);
            match more_values_at(text, after, items) {
                Some((items, end)) => {
                    if end < text.len() {
                        proof {
                            lemma_skip(text@, end as int, 1);
                        }
                        if text[end] == ']' {
                            return Some((Value::ValueList(items), end + 1));
                        }
                    }
                    None
                },
                None => None,
            }
        },
        None => match results_at(text, pos) {
            Some((fields, end)) => {
                if end < text.len() {
                    proof {
                        lemma_skip(text@, end as int, 1);
                    }
                    if text[end] == ']' {
                        return Some((Value::ResultList(fields), end + 1));
                    }
                }
                None
            },
            None => None,
        },
    }
}

/// Reads `name=value` at `pos`.
fn result_at(text: &[char], pos: usize) -> (r: Option<((Var, Value), usize)>)
    requires
        pos <= text.len(),
    ensures
        match r {
            Some((field, end)) => pos < end <= text.len() && spec_result(text@.skip(pos as int))
                == Some(((field.0@, field.1@), text@.skip(end as int))),
            None => spec_result(text@.skip(pos as int)) is None,
        },
    decreases text.len() - pos, 1int,
{
    let stop = run_end(text, pos, Run::Variable);
    if stop == pos || stop >= text.len() {
        return None;
    }
    proof {
        lemma_skip(text@, pos as int, stop - pos);
        lemma_skip(text@, pos as int, stop - pos + 1);
    }
    if text[stop] != '=' {
        return None;
    }
    match value_at(text, stop + 1) {
        Some((value, end)) => {
            let name = copy_range(text, pos, stop);
            Some(((name, value), end))
        },
        None => None,
    }
}

/// Reads one `name=value` or more at `pos`, with `,` between them.
fn results_at(text: &[char], pos: usize) -> (r: Option<(Vec<(Var, Value)>, usize)>)
    requires
        pos <= text.len(),
    ensures
        match r {
            Some((fields, end)) => pos < end <= text.len() && spec_results(text@.skip(pos as int))
                == Some((fields_view(fields@), text@.skip(end as int))),
            None => spec_results(text@.skip(pos as int)) is None,
        },
    decreases text.len() - pos, 2int,
{
    match result_at(text, pos) {
        Some((field, after)) => {
            proof {
                lemma_skip(text@, pos as int, 0);
                lemma_skip(text@, after as int, 0);
            }
            let mut fields: Vec<(Var, Value)> = Vec::new();
            fields.push(field);
            assert(fields_view(fields@) =~= seq![(field.0@, field.1@)]);
            more_results_at(text, after, fields)
        },
        None => None,
    }
}

/// Reads `,name=value` at `pos` as often as it stands there, and adds the
/// fields to `acc`.
fn more_results_at(text: &[char], pos: usize, acc: Vec<(Var, Value)>) -> (r: Option<
    (Vec<(Var, Value)>, usize),
>)
    requires
        pos <= text.len(),
    ensures
        match r {
            Some((fields, end)) => pos <= end <= text.len() && spec_more_results(
                text@.skip(pos as int),
                fields_view(acc@),
            ) == Some((fields_view(fields@), text@.skip(end as int))),
            None => spec_more_results(text@.skip(pos as int), fields_view(acc@)) is None,
        },
    decreases text.len() - pos, 2int,
{
    let mut fields = acc;
    let mut p: usize = pos;
    loop
        invariant
            pos <= p <= text.len(),
            spec_more_results(text@.skip(pos as int), fields_view(acc@)) == spec_more_results(
                text@.skip(p as int),
                fields_view(fields@),
            ),
        decreases text.len() - p,
    {
        if p >= text.len() {
            return Some((fields, p));
        }
        proof {
            lemma_skip(text@, p as int, 1);
        }
        if text[p] != ',' {
            return Some((fields, p));
        }
        match result_at(text, p + 1) {
            Some((field, end)) => {
                proof {
                    lemma_skip(text@, end as int, 0);
                }
                let ghost before = fields_view(fields@);
                fields.push(field);
                assert(fields_view(fields@) =~= before.push((field.0@, field.1@)));
                p = end;
            },
            None => {
                return None;
            },
        }
    }
}

/// Reads `,value` at `pos` as often as it stands there, and adds the values
/// to `acc`.
fn more_values_at(text: &[char], pos: usize, acc: Vec<Value>) -> (r: Option<(Vec<Value>, usize)>)
    requires
        pos <= text.len(),
    ensures
        match r {
            Some((items, end)) => pos <= end <= text.len() && spec_more_values(
                text@.skip(pos as int),
                values_view(acc@),
            ) == Some((values_view(items@), text@.skip(end as int))),
            None => spec_more_values(text@.skip(pos as int), values_view(acc@)) is None,
        },
    decreases text.len() - pos, 2int,
{
    let mut items = acc;
    let mut p: usize = pos;
    loop
        invariant
            pos <= p <= text.len(),
            spec_more_values(text@.skip(pos as int), values_view(acc@)) == spec_more_values(
                text@.skip(p as int),
                values_view(items@),
            ),
        decreases text.len() - p,
    {
        if p >= text.len() {
            return Some((items, p));
        }
        proof {
            lemma_skip(text@, p as int, 1);
        }
        if text[p] != ',' {
            return Some((items, p));
        }
        match value_at(text, p + 1) {
            Some((value, end)) => {
                proof {
                    lemma_skip(text@, end as int, 0);
                }
                let ghost before = values_view(items@);
                items.push(value);
                assert(values_view(items@) =~= before.push(value@));
                p = end;
            },
            None => {
                return None;
            },
        }
    }
}

/// Reads a run of one character or more at `pos`.
fn word_at(text: &[char], pos: usize, run: Run) -> (r: Option<(String, usize)>)
    requires
        pos <= text.len(),
    ensures
        match r {
            Some((word, end)) => pos < end <= text.len() && end == pos + run_len(
                run,
                text@.skip(pos as int),
            ) && word@ == text@.skip(pos as int).take(end - pos),
            None => run_len(run, text@.skip(pos as int)) == 0,
        },
{
    let end = run_end(text, pos, run);
    if end == pos {
        None
    } else {
        proof {
            lemma_skip(text@, pos as int, end - pos);
        }
        Some((copy_range(text, pos, end), end))
    }
}

/// Reads one line end or more at `pos`.
fn newline_at(text: &[char], pos: usize) -> (r: Option<usize>)
    requires
        pos <= text.len(),
    ensures
        match r {
            Some(end) => pos < end <= text.len() && spec_newline(text@.skip(pos as int)) == Some(
                text@.skip(end as int),
            ),
            None => spec_newline(text@.skip(pos as int)) is None,
        },
{
    let end = run_end(text, pos, Run::Newlines);
    if end == pos {
        None
    } else {
        proof {
            lemma_skip(text@, pos as int, end - pos);
        }
        Some(end)
    }
}

/// Reads the token at `pos`, if one stands there.
fn optional_token_at(text: &[char], pos: usize) -> (r: (Option<Token>, usize))
    requires
        pos <= text.len(),
    ensures
        pos <= r.1 <= text.len(),
        spec_optional_token(text@.skip(pos as int)) == (token_view(r.0), text@.skip(r.1 as int)),
{
    match word_at(text, pos, Run::Token) {
        Some((token, end)) => {
            proof {
                lemma_skip(text@, pos as int, end - pos);
            }
            (Some(token), end)
        },
        None => (None, pos),
    }
}

/// Whether `word` stands at `pos`.
pub(crate) fn word_is_at(text: &[char], pos: usize, word: &Vec<char>) -> (b: bool)
    requires
        pos <= text.len(),
    ensures
        b == starts_with(text@.skip(pos as int), word@),
{
    if word.len() > text.len() - pos {
        return false;
    }
    proof {
        lemma_skip(text@, pos as int, word.len() as int);
    }
    let mut i: usize = 0;
    while i < word.len()
        invariant
            i <= word.len() <= text.len() - pos,
            forall|k: int| 0 <= k < i ==> text[pos + k] == word[k],
        decreases word.len() - i,
    {
        if text[pos + i] != word[i] {
            assert(text@.skip(pos as int).take(word.len() as int)[i as int] != word@[i as int]);
            return false;
        }
        i = i + 1;
    }
    assert(text@.skip(pos as int).take(word.len() as int) =~= word@);
    true
}

/// Reads the keyword of a result class at `pos`.
fn result_class_at(text: &[char], pos: usize) -> (r: Option<(ResultClass, usize)>)
    requires
        pos <= text.len(),
    ensures
        match r {
            Some((class, end)) => pos < end <= text.len() && spec_result_class(
                text@.skip(pos as int),
            ) == Some((class, text@.skip(end as int))),
            None => spec_result_class(text@.skip(pos as int)) is None,
        },
{
    let class = if word_is_at(text, pos, &vec!['d', 'o', 'n', 'e']) {
        ResultClass::Done
    } else if word_is_at(text, pos, &vec!['r', 'u', 'n', 'n', 'i', 'n', 'g']) {
        ResultClass::Running
    } else if word_is_at(text, pos, &vec!['c', 'o', 'n', 'n', 'e', 'c', 't', 'e', 'd']) {
        ResultClass::Connected
    } else if word_is_at(text, pos, &vec!['e', 'r', 'r', 'o', 'r']) {
        ResultClass::Error
    } else if word_is_at(text, pos, &vec!['e', 'x', 'i', 't']) {
        ResultClass::Exit
    } else {
        return None;
    };
    let n: usize = match class {
        ResultClass::Done => 4,
        ResultClass::Running => 7,
        ResultClass::Connected => 9,
        ResultClass::Error => 5,
        ResultClass::Exit => 4,
    };
    proof {
        assert(keyword(class).len() == n);
        lemma_skip(text@, pos as int, n as int);
    }
    Some((class, pos + n))
}

/// Reads what follows the sigil of a notification at `pos`.
fn async_record_at(text: &[char], pos: usize, token: Option<Token>) -> (r: Option<
    (AsyncRecord, usize),
>)
    requires
        pos <= text.len(),
    ensures
        match r {
            Some((record, end)) => pos < end <= text.len() && record.token == token
                && spec_async_record(text@.skip(pos as int)) == Some(
                (AsyncRecordView { token: None, ..record@ }, text@.skip(end as int)),
            ),
            None => spec_async_record(text@.skip(pos as int)) is None,
        },
{
    let stop = run_end(text, pos, Run::Class);
    if stop >= text.len() {
        return None;
    }
    proof {
        lemma_skip(text@, pos as int, stop - pos);
    }
    let none: Vec<(Var, Value)> = Vec::new();
    assert(fields_view(none@) =~= Seq::empty());
    match more_results_at(text, stop, none) {
        Some((results, after)) => match newline_at(text, after) {
            Some(end) => {
                let class = copy_range(text, pos, stop);
                Some((AsyncRecord { token, class, results }, end))
            },
            None => None,
        },
        None => None,
    }
}

/// Reads what follows the sigil of a stream record at `pos`.
fn stream_record_at(text: &[char], pos: usize) -> (r: Option<(String, usize)>)
    requires
        pos <= text.len(),
    ensures
        match r {
            Some((out, end)) => pos < end <= text.len() && spec_stream_record(
                text@.skip(pos as int),
            ) == Some((out@, text@.skip(end as int))),
            None => spec_stream_record(text@.skip(pos as int)) is None,
        },
{
    match string_at(text, pos) {
        Some((out, after)) => match newline_at(text, after) {
            Some(end) => Some((out, end)),
            None => None,
        },
        None => None,
    }
}

/// Reads a notification or a stream record at `pos`.
pub(crate) fn out_of_band_at(text: &[char], pos: usize) -> (r: Option<(OutOfBandResult, usize)>)
    requires
        pos <= text.len(),
    ensures
        match r {
            Some((record, end)) => pos < end <= text.len() && spec_out_of_band(
                text@.skip(pos as int),
            ) == Some((record@, text@.skip(end as int))),
            None => spec_out_of_band(text@.skip(pos as int)) is None,
        },
{
    let (token, at) = optional_token_at(text, pos);
    if at >= text.len() {
        return None;
    }
    proof {
        lemma_skip(text@, at as int, 1);
    }
    let c = text[at];
    if c == '*' || c == '+' || c == '=' {
        match async_record_at(text, at + 1, token) {
            Some((record, end)) => {
                if c == '*' {
                    Some((OutOfBandResult::ExecAsyncRecord(record), end))
                } else if c == '+' {
                    Some((OutOfBandResult::StatusAsyncRecord(record), end))
                } else {
                    Some((OutOfBandResult::NotifyAsyncRecord(record), end))
                }
            },
            None => None,
        }
    } else if token.is_none() && (c == '~' || c == '@' || c == '&') {
        match stream_record_at(text, at + 1) {
            Some((out, end)) => {
                if c == '~' {
                    Some((OutOfBandResult::ConsoleStreamRecord(out), end))
                } else if c == '@' {
                    Some((OutOfBandResult::TargetStreamRecord(out), end))
                } else {
                    Some((OutOfBandResult::LogStreamRecord(out), end))
                }
            },
            None => None,
        }
    } else {
        None
    }
}

/// Reads a result record at `pos`.
pub(crate) fn result_record_at(text: &[char], pos: usize) -> (r: Option<(Result, usize)>)
    requires
        pos <= text.len(),
    ensures
        match r {
            Some((record, end)) => pos < end <= text.len() && spec_result_record(
                text@.skip(pos as int),
            ) == Some((record@, text@.skip(end as int))),
            None => spec_result_record(text@.skip(pos as int)) is None,
        },
{
    let (token, at) = optional_token_at(text, pos);
    if at >= text.len() {
        return None;
    }
    proof {
        lemma_skip(text@, at as int, 1);
    }
    if text[at] != '^' {
        return None;
    }
    match result_class_at(text, at + 1) {
        Some((class, after)) => {
            let none: Vec<(Var, Value)> = Vec::new();
            assert(fields_view(none@) =~= Seq::empty());
            match more_results_at(text, after, none) {
                Some((results, stop)) => match newline_at(text, stop) {
                    Some(end) => Some((Result { token, class, results }, end)),
                    None => None,
                },
                None => None,
            }
        },
        None => None,
    }
}

/// Reads one record of either kind at `pos`.
fn record_at(text: &[char], pos: usize) -> (r: Option<(ResultOrOOB, usize)>)
    requires
        pos <= text.len(),
    ensures
        match r {
            Some((record, end)) => pos < end <= text.len() && spec_record(text@.skip(pos as int))
                == Some((record@, text@.skip(end as int))),
            None => spec_record(text@.skip(pos as int)) is None,
        },
{
    match out_of_band_at(text, pos) {
        Some((record, end)) => Some((ResultOrOOB::OOB(record), end)),
        None => match result_record_at(text, pos) {
            Some((record, end)) => Some((ResultOrOOB::Result(record), end)),
            None => None,
        },
    }
}

/// Reads record after record from `pos` up to the end of the text.
fn records_at(text: &[char], pos: usize) -> (r: Option<Output>)
    requires
        pos <= text.len(),
    ensures
        match r {
            Some(records) => spec_output(text@.skip(pos as int)) == Some(output_view(records@)),
            None => spec_output(text@.skip(pos as int)) is None,
        },
{
    let mut records: Vec<ResultOrOOB> = Vec::new();
    let mut p: usize = pos;
    assert(output_view(records@) =~= Seq::empty());
    while p < text.len()
        invariant
            pos <= p <= text.len(),
            spec_output(text@.skip(pos as int)) == spec_records(
                text@.skip(p as int),
                output_view(records@),
            ),
        decreases text.len() - p,
    {
        match record_at(text, p) {
            Some((record, end)) => {
                proof {
                    lemma_skip(text@, p as int, 0);
                    lemma_skip(text@, end as int, 0);
                }
                let ghost before = output_view(records@);
                records.push(record);
                assert(output_view(records@) =~= before.push(record@));
                p = end;
            },
            None => {
                return None;
            },
        }
    }
    proof {
        lemma_skip(text@, p as int, 0);
    }
    Some(records)
}

/// Whether `r` is what is read out of the message `s`: its records, where
/// it follows the grammar and no tuple in it holds a name twice.
pub open spec fn is_output_of(r: Option<Output>, s: Seq<char>) -> bool {
    match r {
        Some(records) => spec_output(s) == Some(output_view(records@)) && records_wf(
            output_view(records@),
        ),
        None => spec_output(s) matches Some(records) ==> !records_wf(records),
    }
}

/// Parsing keeps no state: whatever is read out of one text, at any time,
/// stands for the same records, or fails each time.
pub proof fn theorem_parse_output_is_a_function(s: Seq<char>, a: Option<Output>, b: Option<Output>)
    requires
        is_output_of(a, s),
        is_output_of(b, s),
    ensures
        a is Some <==> b is Some,
        a is Some ==> output_view(a->0@) == output_view(b->0@),
{
}

/// Parses a whole message: record after record, up to the end of `s`, and
/// says why where it is refused.
///
/// Where what is left begins with no record the message does not follow the
/// grammar. Where it does, but a tuple in it holds a name twice, it is
/// refused for that. Either way the records that were read are not
/// returned.
pub fn try_parse_output(s: &str) -> (r: core::result::Result<Output, ParseError>)
    ensures
        match r {
            Ok(records) => spec_output(s@) == Some(output_view(records@)) && records_wf(
                output_view(records@),
            ),
            Err(ParseError::Syntax) => spec_output(s@) is None,
            Err(ParseError::DuplicateField) => spec_output(s@) matches Some(records)
                && !records_wf(records),
        },
{
    let chars = chars_of(s);
    proof {
        lemma_skip(s@, 0, 0);
    }
    message_at(chars.as_slice())
}

/// Reads a whole message out of `text`.
pub(crate) fn message_at(text: &[char]) -> (r: core::result::Result<Output, ParseError>)
    ensures
        match r {
            Ok(records) => spec_output(text@) == Some(output_view(records@)) && records_wf(
                output_view(records@),
            ),
            Err(ParseError::Syntax) => spec_output(text@) is None,
            Err(ParseError::DuplicateField) => spec_output(text@) matches Some(records)
                && !records_wf(records),
        },
{
    proof {
        lemma_skip(text@, 0, 0);
    }
    match records_at(text, 0) {
        Some(records) => if records_are_wf(&records) {
            Ok(records)
        } else {
            Err(ParseError::DuplicateField)
        },
        None => Err(ParseError::Syntax),
    }
}

/// Parses a whole message: record after record, up to the end of `s`.
///
/// A message that does not follow the grammar to its end is refused, and so
/// is one in which a tuple holds a name twice. The records that were read
/// are then not returned.
pub fn parse_output(s: &str) -> (r: Option<Output>)
    ensures
        is_output_of(r, s@),
{
    match try_parse_output(s) {
        Ok(records) => Some(records),
        Err(_) => None,
    }
}

/// Parses one record at the front of `s`.
pub fn parse_record(s: &str) -> (r: Option<(ResultOrOOB, &str)>)
    ensures
        match r {
            Some((record, rest)) => spec_record(s@) == Some((record@, rest@)) && record@.wf(),
            None => spec_record(s@) matches Some((record, _)) ==> !record.wf(),
        },
        r matches Some((record, rest)) ==> record@.head_wf() && is_proper_suffix(rest@, s@),
{
    let chars = chars_of(s);
    proof {
        lemma_skip(s@, 0, 0);
        theorem_record(s@);
    }
    match record_at(chars.as_slice(), 0) {
        Some((record, end)) => if record.is_wf() {
            Some((record, rest_of(s, end, chars.len())))
        } else {
            None
        },
        None => None,
    }
}

/// Expects a line end at the front of `s` and skips it, with every line end
/// that follows it.
pub fn expect_newline(s: &str) -> (r: Option<&str>)
    ensures
        match r {
            Some(rest) => spec_newline(s@) == Some(rest@),
            None => spec_newline(s@) is None,
        },
        r matches Some(rest) ==> is_proper_suffix(rest@, s@),
{
    let chars = chars_of(s);
    proof {
        lemma_skip(s@, 0, 0);
        lemma_newline_rest(s@);
    }
    match newline_at(chars.as_slice(), 0) {
        Some(end) => Some(rest_of(s, end, chars.len())),
        None => None,
    }
}

/// Parses a notification or a stream record at the front of `s`.
pub fn parse_out_of_band(s: &str) -> (r: Option<(OutOfBandResult, &str)>)
    ensures
        match r {
            Some((record, rest)) => spec_out_of_band(s@) == Some((record@, rest@))
                && record@.wf(),
            None => spec_out_of_band(s@) matches Some((record, _)) ==> !record.wf(),
        },
        r matches Some((record, rest)) ==> record@.head_wf() && is_proper_suffix(rest@, s@),
{
    let chars = chars_of(s);
    proof {
        lemma_skip(s@, 0, 0);
        lemma_out_of_band(s@);
    }
    match out_of_band_at(chars.as_slice(), 0) {
        Some((record, end)) => if record.is_wf() {
            Some((record, rest_of(s, end, chars.len())))
        } else {
            None
        },
        None => None,
    }
}

/// Parses a result record at the front of `s`.
pub fn parse_result_record(s: &str) -> (r: Option<(Result, &str)>)
    ensures
        match r {
            Some((record, rest)) => spec_result_record(s@) == Some((record@, rest@))
                && record@.wf(),
            None => spec_result_record(s@) matches Some((record, _)) ==> !record.wf(),
        },
        r matches Some((record, rest)) ==> token_wf(record@.token) && is_proper_suffix(
            rest@,
            s@,
        ),
{
    let chars = chars_of(s);
    proof {
        lemma_skip(s@, 0, 0);
        lemma_result_record(s@);
    }
    match result_record_at(chars.as_slice(), 0) {
        Some((record, end)) => if fields_are_wf(&record.results) {
            Some((record, rest_of(s, end, chars.len())))
        } else {
            None
        },
        None => None,
    }
}

/// Parses a token, one digit or more, at the front of `s`.
pub fn parse_token(s: &str) -> (r: Option<(Token, &str)>)
    ensures
        match r {
            Some((token, rest)) => spec_token(s@) == Some((token@, rest@)),
            None => spec_token(s@) is None,
        },
{
    let chars = chars_of(s);
    proof {
        lemma_skip(s@, 0, 0);
    }
    match word_at(chars.as_slice(), 0, Run::Token) {
        Some((token, end)) => {
            proof {
                lemma_skip(s@, 0, end as int);
            }
            Some((token, rest_of(s, end, chars.len())))
        },
        None => None,
    }
}

/// Parses what follows the sigil of a notification: its class, its fields
/// and the line end. The record has no token.
pub fn parse_async_record(s: &str) -> (r: Option<(AsyncRecord, &str)>)
    ensures
        match r {
            Some((record, rest)) => spec_async_record(s@) == Some((record@, rest@))
                && record@.wf(),
            None => spec_async_record(s@) matches Some((record, _)) ==> !record.wf(),
        },
        r matches Some((record, rest)) ==> record.token is None && class_wf(record@.class)
            && is_proper_suffix(rest@, s@),
{
    let chars = chars_of(s);
    proof {
        lemma_skip(s@, 0, 0);
        lemma_async_record(s@);
    }
    match async_record_at(chars.as_slice(), 0, None) {
        Some((record, end)) => if fields_are_wf(&record.results) {
            Some((record, rest_of(s, end, chars.len())))
        } else {
            None
        },
        None => None,
    }
}

/// Parses `name=value` at the front of `s`.
pub fn parse_result(s: &str) -> (r: Option<((Var, Value), &str)>)
    ensures
        match r {
            Some((field, rest)) => spec_result(s@) == Some(((field.0@, field.1@), rest@))
                && field.1@.wf(),
            None => spec_result(s@) matches Some((field, _)) ==> !field.1.wf(),
        },
        r matches Some((field, rest)) ==> is_proper_suffix(rest@, s@),
{
    let chars = chars_of(s);
    proof {
        lemma_skip(s@, 0, 0);
        theorem_result(s@);
    }
    match result_at(chars.as_slice(), 0) {
        Some((field, end)) => if field.1.is_wf() {
            Some((field, rest_of(s, end, chars.len())))
        } else {
            None
        },
        None => None,
    }
}

/// Parses a field's name at the front of `s`: one character or more, up to
/// the first `=`, `,` or white space.
pub fn parse_variable(s: &str) -> (r: Option<(Var, &str)>)
    ensures
        match r {
            Some((name, rest)) => spec_variable(s@) == Some((name@, rest@)),
            None => spec_variable(s@) is None,
        },
{
    let chars = chars_of(s);
    proof {
        lemma_skip(s@, 0, 0);
    }
    match word_at(chars.as_slice(), 0, Run::Variable) {
        Some((name, end)) => {
            proof {
                lemma_skip(s@, 0, end as int);
            }
            Some((name, rest_of(s, end, chars.len())))
        },
        None => None,
    }
}

/// Parses a value at the front of `s`: a string, a tuple or a list, and says
/// why where the text is refused.
pub fn try_parse_value(s: &str) -> (r: core::result::Result<(Value, &str), ParseError>)
    ensures
        match r {
            Ok((value, rest)) => spec_value(s@) == Some((value@, rest@)) && value@.wf(),
            Err(ParseError::Syntax) => spec_value(s@) is None,
            Err(ParseError::DuplicateField) => spec_value(s@) matches Some((value, _))
                && !value.wf(),
        },
        r matches Ok((_, rest)) ==> is_proper_suffix(rest@, s@),
{
    let chars = chars_of(s);
    proof {
        lemma_skip(s@, 0, 0);
        theorem_value(s@);
    }
    match value_at(chars.as_slice(), 0) {
        Some((value, end)) => if value.is_wf() {
            Ok((value, rest_of(s, end, chars.len())))
        } else {
            Err(ParseError::DuplicateField)
        },
        None => Err(ParseError::Syntax),
    }
}

/// Parses a value at the front of `s`: a string, a tuple or a list. A value
/// in which a tuple holds a name twice is refused.
pub fn parse_value(s: &str) -> (r: Option<(Value, &str)>)
    ensures
        match r {
            Some((value, rest)) => spec_value(s@) == Some((value@, rest@)) && value@.wf(),
            None => spec_value(s@) matches Some((value, _)) ==> !value.wf(),
        },
        r matches Some((_, rest)) ==> is_proper_suffix(rest@, s@),
{
    match try_parse_value(s) {
        Ok(read) => Some(read),
        Err(_) => None,
    }
}

/// Parses a quoted string at the front of `s` and decodes its escapes.
pub fn parse_string(s: &str) -> (r: Option<(String, &str)>)
    ensures
        match r {
            Some((out, rest)) => spec_string(s@) == Some((out@, rest@)),
            None => spec_string(s@) is None,
        },
        r matches Some((out, rest)) ==> is_proper_suffix(rest@, s@),
{
    let chars = chars_of(s);
    proof {
        lemma_skip(s@, 0, 0);
        lemma_string_rest(s@);
    }
    match string_at(chars.as_slice(), 0) {
        Some((out, end)) => Some((out, rest_of(s, end, chars.len()))),
        None => None,
    }
}

/// Parses what follows the sigil of a stream record: a string and the line
/// end.
pub fn parse_stream_record(s: &str) -> (r: Option<(String, &str)>)
    ensures
        match r {
            Some((out, rest)) => spec_stream_record(s@) == Some((out@, rest@)),
            None => spec_stream_record(s@) is None,
        },
{
    let chars = chars_of(s);
    proof {
        lemma_skip(s@, 0, 0);
    }
    match stream_record_at(chars.as_slice(), 0) {
        Some((out, end)) => Some((out, rest_of(s, end, chars.len()))),
        None => None,
    }
}

} // verus!
