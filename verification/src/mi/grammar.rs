//! The grammar of the machine interface's output, as functions on text.
//!
//! Each function takes the text that is left and gives what it reads from its
//! front together with the text that follows, or `None` where the text does
//! not begin with what the function reads.

use super::output_syntax::{
    AsyncRecordView, FieldView, OutOfBandView, ResultClass, ResultOrOOBView, ResultView,
    ValueView,
};
use vstd::prelude::*;

verus! {

/// The runs of characters that the grammar reads greedily.
#[derive(Clone, Copy, Debug, PartialEq, Eq)]
pub enum Run {
    /// The digits of a token.
    Token,
    /// The name of a field.
    Variable,
    /// The class of a notification.
    Class,
    /// The line ends after a record.
    Newlines,
}

/// The characters of Unicode's White_Space property.
pub open spec fn is_whitespace(c: char) -> bool {
    let n = c as u32;
    ||| 0x09 <= n <= 0x0d
    ||| n == 0x20
    ||| n == 0x85
    ||| n == 0xa0
    ||| n == 0x1680
    ||| 0x2000 <= n <= 0x200a
    ||| n == 0x2028
    ||| n == 0x2029
    ||| n == 0x202f
    ||| n == 0x205f
    ||| n == 0x3000
}

/// Whether `c` may stand in a run of the given kind.
pub open spec fn in_run(run: Run, c: char) -> bool {
    match run {
        Run::Token => '0' <= c <= '9',
        Run::Variable => c != '=' && c != ',' && !is_whitespace(c),
        Run::Class => c != ',' && c != '\n',
        Run::Newlines => c == '\n',
    }
}

/// The length of the longest prefix of `s` that is a run of the given kind.
pub open spec fn run_len(run: Run, s: Seq<char>) -> nat
    decreases s.len(),
{
    if s.len() > 0 && in_run(run, s[0]) {
        1 + run_len(run, s.skip(1))
    } else {
        0
    }
}

/// A token: one digit or more.
pub open spec fn spec_token(s: Seq<char>) -> Option<(Seq<char>, Seq<char>)> {
    let n = run_len(Run::Token, s) as int;
    if n == 0 {
        None
    } else {
        Some((s.take(n), s.skip(n)))
    }
}

/// A field's name: one character or more, up to the first `=`, `,` or
/// white space.
pub open spec fn spec_variable(s: Seq<char>) -> Option<(Seq<char>, Seq<char>)> {
    let n = run_len(Run::Variable, s) as int;
    if n == 0 {
        None
    } else {
        Some((s.take(n), s.skip(n)))
    }
}

/// One line end or more.
pub open spec fn spec_newline(s: Seq<char>) -> Option<Seq<char>> {
    let n = run_len(Run::Newlines, s) as int;
    if n == 0 {
        None
    } else {
        Some(s.skip(n))
    }
}

/// The character that follows a backslash stands for.
pub open spec fn unescape(c: char) -> char {
    if c == 'n' {
        '\n'
    } else if c == 't' {
        '\t'
    } else {
        c
    }
}

/// What follows the opening quote of a string, decoded onto `acc` up to the
/// closing quote.
pub open spec fn spec_string_body(s: Seq<char>, acc: Seq<char>) -> Option<(Seq<char>, Seq<char>)>
    decreases s.len(),
{
    if s.len() == 0 {
        None
    } else if s[0] == '"' {
        Some((acc, s.skip(1)))
    } else if s[0] == '\\' {
        if s.len() == 1 {
            None
        } else {
            spec_string_body(s.skip(2), acc.push(unescape(s[1])))
        }
    } else {
        spec_string_body(s.skip(1), acc.push(s[0]))
    }
}

/// A quoted string with its escapes decoded.
pub open spec fn spec_string(s: Seq<char>) -> Option<(Seq<char>, Seq<char>)> {
    if s.len() > 0 && s[0] == '"' {
        spec_string_body(s.skip(1), Seq::empty())
    } else {
        None
    }
}

/// A value: a string, a tuple or a list.
pub open spec fn spec_value(s: Seq<char>) -> Option<(ValueView, Seq<char>)>
    decreases s.len(), 0int,
{
    if s.len() == 0 {
        None
    } else if s[0] == '"' {
        match spec_string(s) {
            Some((text, rest)) => Some((ValueView::Const(text), rest)),
            None => None,
        }
    } else if s[0] == '{' {
        spec_tuple(s.skip(1))
    } else if s[0] == '[' {
        spec_list(s.skip(1))
    } else {
        None
    }
}

/// `name=value`.
pub open spec fn spec_result(s: Seq<char>) -> Option<(FieldView, Seq<char>)>
    decreases s.len(), 1int,
{
    let n = run_len(Run::Variable, s) as int;
    if 0 < n < s.len() && s[n] == '=' {
        match spec_value(s.skip(n + 1)) {
            Some((value, rest)) => Some(((s.take(n), value), rest)),
            None => None,
        }
    } else {
        None
    }
}

/// Zero or more times `,name=value`, added to `acc`.
pub open spec fn spec_more_results(s: Seq<char>, acc: Seq<FieldView>) -> Option<
    (Seq<FieldView>, Seq<char>),
>
    decreases s.len(), 2int,
{
    if s.len() > 0 && s[0] == ',' {
        match spec_result(s.skip(1)) {
            Some((field, rest)) => if rest.len() < s.len() {
                spec_more_results(rest, acc.push(field))
            } else {
                None
            },
            None => None,
        }
    } else {
        Some((acc, s))
    }
}

/// One `name=value` or more, with `,` between them.
pub open spec fn spec_results(s: Seq<char>) -> Option<(Seq<FieldView>, Seq<char>)>
    decreases s.len(), 2int,
{
    match spec_result(s) {
        Some((field, rest)) => if rest.len() < s.len() {
            spec_more_results(rest, seq![field])
        } else {
            None
        },
        None => None,
    }
}

/// Zero or more times `,value`, added to `acc`.
pub open spec fn spec_more_values(s: Seq<char>, acc: Seq<ValueView>) -> Option<
    (Seq<ValueView>, Seq<char>),
>
    decreases s.len(), 2int,
{
    if s.len() > 0 && s[0] == ',' {
        match spec_value(s.skip(1)) {
            Some((value, rest)) => if rest.len() < s.len() {
                spec_more_values(rest, acc.push(value))
            } else {
                None
            },
            None => None,
        }
    } else {
        Some((acc, s))
    }
}

/// What follows `{`: the closing brace at once, or fields up to it. Whether
/// a name occurs twice is not asked here.
pub open spec fn spec_tuple(s: Seq<char>) -> Option<(ValueView, Seq<char>)>
    decreases s.len(), 3int,
{
    if s.len() > 0 && s[0] == '}' {
        Some((ValueView::Tuple(Seq::empty()), s.skip(1)))
    } else {
        match spec_results(s) {
            Some((fields, rest)) => if rest.len() > 0 && rest[0] == '}' {
                Some((ValueView::Tuple(fields), rest.skip(1)))
            } else {
                None
            },
            None => None,
        }
    }
}

/// What follows `[`: the closing bracket at once, or items up to it. The
/// first item decides what the others must be: where it reads as a value, the
/// list holds values; else it holds fields.
pub open spec fn spec_list(s: Seq<char>) -> Option<(ValueView, Seq<char>)>
    decreases s.len(), 3int,
{
    if s.len() > 0 && s[0] == ']' {
        Some((ValueView::ValueList(Seq::empty()), s.skip(1)))
    } else {
        match spec_value(s) {
            Some((first, after)) => if after.len() < s.len() {
                match spec_more_values(after, seq![first]) {
                    Some((items, rest)) => if rest.len() > 0 && rest[0] == ']' {
                        Some((ValueView::ValueList(items), rest.skip(1)))
                    } else {
                        None
                    },
                    None => None,
                }
            } else {
                None
            },
            None => match spec_results(s) {
                Some((fields, rest)) => if rest.len() > 0 && rest[0] == ']' {
                    Some((ValueView::ResultList(fields), rest.skip(1)))
                } else {
                    None
                },
                None => None,
            },
        }
    }
}

/// What follows the sigil of a notification: the class, fields if a comma
/// follows it, and the line end.
pub open spec fn spec_async_record(s: Seq<char>) -> Option<(AsyncRecordView, Seq<char>)> {
    let n = run_len(Run::Class, s) as int;
    if n < s.len() {
        match spec_more_results(s.skip(n), Seq::empty()) {
            Some((results, rest)) => match spec_newline(rest) {
                Some(next) => Some((AsyncRecordView { token: None, class: s.take(n), results }, next)),
                None => None,
            },
            None => None,
        }
    } else {
        None
    }
}

/// Whether `s` begins with `word`.
pub open spec fn starts_with(s: Seq<char>, word: Seq<char>) -> bool {
    word.len() <= s.len() && s.take(word.len() as int) == word
}

/// The keyword of each class.
pub open spec fn keyword(class: ResultClass) -> Seq<char> {
    match class {
        ResultClass::Done => seq!['d', 'o', 'n', 'e'],
        ResultClass::Running => seq!['r', 'u', 'n', 'n', 'i', 'n', 'g'],
        ResultClass::Connected => seq!['c', 'o', 'n', 'n', 'e', 'c', 't', 'e', 'd'],
        ResultClass::Error => seq!['e', 'r', 'r', 'o', 'r'],
        ResultClass::Exit => seq!['e', 'x', 'i', 't'],
    }
}

/// The class whose keyword `s` begins with.
pub open spec fn spec_result_class(s: Seq<char>) -> Option<(ResultClass, Seq<char>)> {
    if starts_with(s, keyword(ResultClass::Done)) {
        Some((ResultClass::Done, s.skip(4)))
    } else if starts_with(s, keyword(ResultClass::Running)) {
        Some((ResultClass::Running, s.skip(7)))
    } else if starts_with(s, keyword(ResultClass::Connected)) {
        Some((ResultClass::Connected, s.skip(9)))
    } else if starts_with(s, keyword(ResultClass::Error)) {
        Some((ResultClass::Error, s.skip(5)))
    } else if starts_with(s, keyword(ResultClass::Exit)) {
        Some((ResultClass::Exit, s.skip(4)))
    } else {
        None
    }
}

/// The token in front of a record, if there is one, and what follows it.
pub open spec fn spec_optional_token(s: Seq<char>) -> (Option<Seq<char>>, Seq<char>) {
    match spec_token(s) {
        Some((token, rest)) => (Some(token), rest),
        None => (None, s),
    }
}

/// A result record: a token if there is one, `^`, the class, fields each
/// behind a comma, and the line end.
pub open spec fn spec_result_record(s: Seq<char>) -> Option<(ResultView, Seq<char>)> {
    let (token, body) = spec_optional_token(s);
    if body.len() > 0 && body[0] == '^' {
        match spec_result_class(body.skip(1)) {
            Some((class, after)) => match spec_more_results(after, Seq::empty()) {
                Some((results, rest)) => match spec_newline(rest) {
                    Some(next) => Some((ResultView { token, class, results }, next)),
                    None => None,
                },
                None => None,
            },
            None => None,
        }
    } else {
        None
    }
}

/// What follows the sigil of a stream record: a string and the line end.
pub open spec fn spec_stream_record(s: Seq<char>) -> Option<(Seq<char>, Seq<char>)> {
    match spec_string(s) {
        Some((text, rest)) => match spec_newline(rest) {
            Some(next) => Some((text, next)),
            None => None,
        },
        None => None,
    }
}

/// A notification or a stream record. A token may stand before a
/// notification, and none before a stream record.
pub open spec fn spec_out_of_band(s: Seq<char>) -> Option<(OutOfBandView, Seq<char>)> {
    let (token, body) = spec_optional_token(s);
    if body.len() == 0 {
        None
    } else if body[0] == '*' || body[0] == '+' || body[0] == '=' {
        match spec_async_record(body.skip(1)) {
            Some((record, next)) => {
                let record = AsyncRecordView { token, ..record };
                if body[0] == '*' {
                    Some((OutOfBandView::ExecAsyncRecord(record), next))
                } else if body[0] == '+' {
                    Some((OutOfBandView::StatusAsyncRecord(record), next))
                } else {
                    Some((OutOfBandView::NotifyAsyncRecord(record), next))
                }
            },
            None => None,
        }
    } else if token is None && (body[0] == '~' || body[0] == '@' || body[0] == '&') {
        match spec_stream_record(body.skip(1)) {
            Some((text, next)) => if body[0] == '~' {
                Some((OutOfBandView::ConsoleStreamRecord(text), next))
            } else if body[0] == '@' {
                Some((OutOfBandView::TargetStreamRecord(text), next))
            } else {
                Some((OutOfBandView::LogStreamRecord(text), next))
            },
            None => None,
        }
    } else {
        None
    }
}

/// One record of either kind.
pub open spec fn spec_record(s: Seq<char>) -> Option<(ResultOrOOBView, Seq<char>)> {
    match spec_out_of_band(s) {
        Some((record, next)) => Some((ResultOrOOBView::OOB(record), next)),
        None => match spec_result_record(s) {
            Some((record, next)) => Some((ResultOrOOBView::Result(record), next)),
            None => None,
        },
    }
}

/// The records of `s` up to its end, added to `acc`. Where what is left
/// begins with no record, nothing is read.
pub open spec fn spec_records(s: Seq<char>, acc: Seq<ResultOrOOBView>) -> Option<
    Seq<ResultOrOOBView>,
>
    decreases s.len(),
{
    if s.len() == 0 {
        Some(acc)
    } else {
        match spec_record(s) {
            Some((record, next)) => if next.len() < s.len() {
                spec_records(next, acc.push(record))
            } else {
                None
            },
            None => None,
        }
    }
}

/// A whole message: record after record up to the end of the text.
pub open spec fn spec_output(s: Seq<char>) -> Option<Seq<ResultOrOOBView>> {
    spec_records(s, Seq::empty())
}

} // verus!
