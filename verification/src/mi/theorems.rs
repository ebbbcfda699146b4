//! What holds of the grammar on every text.

use super::grammar::{
    in_run, run_len, spec_async_record, spec_list, spec_more_results, spec_more_values,
    spec_newline, spec_optional_token, spec_out_of_band, spec_output, spec_record, spec_records,
    spec_result, spec_result_class, spec_result_record, spec_results, spec_string,
    spec_string_body, spec_token, spec_tuple, spec_value, unescape, Run,
};
use super::output_syntax::{class_wf, token_wf, FieldView, ResultOrOOBView, ValueView};
use super::text::lemma_run_len_bound;
use vstd::prelude::*;

verus! {

/// `k` line ends.
pub open spec fn newlines(k: nat) -> Seq<char> {
    Seq::new(k, |i: int| '\n')
}

/// Whether `c` is written in a string as it is: neither the quote nor the
/// backslash.
pub open spec fn is_plain(c: char) -> bool {
    c != '"' && c != '\\'
}

/// The body of a string whose characters are all plain is read as it stands,
/// up to the closing quote.
pub proof fn lemma_plain_body(s: Seq<char>, acc: Seq<char>, tail: Seq<char>)
    requires
        forall|i: int| 0 <= i < s.len() ==> is_plain(#[trigger] s[i]),
    ensures
        spec_string_body(s + seq!['"'] + tail, acc) == Some((acc + s, tail)),
    decreases s.len(),
{
    let text = s + seq!['"'] + tail;
    if s.len() == 0 {
        assert(text.skip(1) =~= tail);
        assert(acc + s =~= acc);
    } else {
        assert(text[0] == s[0]);
        assert(is_plain(s[0]));
        assert(text.skip(1) =~= s.skip(1) + seq!['"'] + tail);
        assert forall|i: int| 0 <= i < s.skip(1).len() implies is_plain(
            #[trigger] s.skip(1)[i],
        ) by {
            assert(s.skip(1)[i] == s[i + 1]);
        }
        lemma_plain_body(s.skip(1), acc.push(s[0]), tail);
        assert(acc.push(s[0]) + s.skip(1) =~= acc + s);
    }
}

/// A text without quote and backslash, put between quotes, is read as the
/// string that holds that text, and nothing is left over.
pub proof fn theorem_plain_string(s: Seq<char>)
    requires
        forall|i: int| 0 <= i < s.len() ==> is_plain(#[trigger] s[i]),
    ensures
        spec_value(seq!['"'] + s + seq!['"']) == Some((ValueView::Const(s), Seq::<char>::empty())),
{
    let text = seq!['"'] + s + seq!['"'];
    assert(text[0] == '"');
    assert(text.skip(1) =~= s + seq!['"'] + Seq::<char>::empty());
    lemma_plain_body(s, Seq::empty(), Seq::empty());
    assert(Seq::<char>::empty() + s =~= s);
}

/// `{}` is read as the tuple without fields and `[]` as the list without
/// items, and nothing is left over.
pub proof fn theorem_empty_tuple_and_list()
    ensures
        spec_value(seq!['{', '}']) == Some(
            (ValueView::Tuple(Seq::empty()), Seq::<char>::empty()),
        ),
        spec_value(seq!['[', ']']) == Some(
            (ValueView::ValueList(Seq::empty()), Seq::<char>::empty()),
        ),
{
    let t = seq!['{', '}'];
    assert(t.skip(1)[0] == '}');
    assert(t.skip(1).skip(1) =~= Seq::<char>::empty());
    let l = seq!['[', ']'];
    assert(l.skip(1)[0] == ']');
    assert(l.skip(1).skip(1) =~= Seq::<char>::empty());
}

/// A string that is not closed is not read: without a quote in `s`, nothing
/// is read from a quote followed by `s`.
pub proof fn theorem_open_string_fails(s: Seq<char>)
    requires
        forall|i: int| 0 <= i < s.len() ==> #[trigger] s[i] != '"',
    ensures
        spec_string(seq!['"'] + s) is None,
        spec_value(seq!['"'] + s) is None,
{
    let text = seq!['"'] + s;
    assert(text[0] == '"');
    assert(text.skip(1) =~= s);
    lemma_open_body(s, Seq::empty());
}

/// Without a quote in `s` the body of a string does not end in it.
pub proof fn lemma_open_body(s: Seq<char>, acc: Seq<char>)
    requires
        forall|i: int| 0 <= i < s.len() ==> #[trigger] s[i] != '"',
    ensures
        spec_string_body(s, acc) is None,
    decreases s.len(),
{
    if s.len() == 0 {
    } else if s[0] == '\\' {
        if s.len() > 1 {
            assert forall|i: int| 0 <= i < s.skip(2).len() implies #[trigger] s.skip(2)[i]
                != '"' by {
                assert(s.skip(2)[i] == s[i + 2]);
            }
            lemma_open_body(s.skip(2), acc.push(unescape(s[1])));
        }
    } else {
        assert forall|i: int| 0 <= i < s.skip(1).len() implies #[trigger] s.skip(1)[i] != '"' by {
            assert(s.skip(1)[i] == s[i + 1]);
        }
        lemma_open_body(s.skip(1), acc.push(s[0]));
    }
}

/// A run of `k` line ends in front of a text that begins with none is `k`
/// long.
pub proof fn lemma_newline_run(k: nat, tail: Seq<char>)
    requires
        tail.len() == 0 || tail[0] != '\n',
    ensures
        run_len(Run::Newlines, newlines(k) + tail) == k,
    decreases k,
{
    let text = newlines(k) + tail;
    if k == 0 {
        assert(text =~= tail);
    } else {
        assert(text[0] == '\n');
        assert(text.skip(1) =~= newlines((k - 1) as nat) + tail);
        lemma_newline_run((k - 1) as nat, tail);
    }
}

/// However many line ends follow a record, one or more, they are all
/// skipped: what is left is the text behind the last of them.
pub proof fn theorem_newlines_are_skipped(k: nat, tail: Seq<char>)
    requires
        k >= 1,
        tail.len() == 0 || tail[0] != '\n',
    ensures
        spec_newline(newlines(k) + tail) == Some(tail),
{
    lemma_newline_run(k, tail);
    assert((newlines(k) + tail).skip(k as int) =~= tail);
}

/// A token holds digits and nothing else, and it ends where the digits end.
pub proof fn theorem_token_is_digits(s: Seq<char>)
    ensures
        match spec_token(s) {
            Some((token, rest)) => {
                &&& token.len() > 0
                &&& token + rest == s
                &&& forall|i: int| 0 <= i < token.len() ==> '0' <= #[trigger] token[i] <= '9'
                &&& rest.len() == 0 || !('0' <= rest[0] <= '9')
            },
            None => s.len() == 0 || !('0' <= s[0] <= '9'),
        },
{
    lemma_run_len_bound(Run::Token, s);
    let n = run_len(Run::Token, s) as int;
    if n > 0 {
        assert(s.take(n) + s.skip(n) =~= s);
        assert forall|i: int| 0 <= i < n implies '0' <= #[trigger] s.take(n)[i] <= '9' by {
            assert(in_run(Run::Token, s[i]));
        }
    }
}

/// `rest` is what is left of `s` behind some of its characters.
pub open spec fn is_suffix(rest: Seq<char>, s: Seq<char>) -> bool {
    rest.len() <= s.len() && rest == s.skip(s.len() - rest.len())
}

/// `rest` is what is left of `s` behind one of its characters or more.
pub open spec fn is_proper_suffix(rest: Seq<char>, s: Seq<char>) -> bool {
    rest.len() < s.len() && is_suffix(rest, s)
}

/// What is left behind the first `n` characters is a suffix.
pub proof fn lemma_skip_is_suffix(s: Seq<char>, n: int)
    requires
        0 <= n <= s.len(),
    ensures
        is_suffix(s.skip(n), s),
{
}

/// A suffix of a suffix is a suffix.
pub proof fn lemma_suffix_of_suffix(a: Seq<char>, b: Seq<char>, c: Seq<char>)
    requires
        is_suffix(a, b),
        is_suffix(b, c),
    ensures
        is_suffix(a, c),
{
    assert(c.skip(c.len() - b.len()).skip(b.len() - a.len()) =~= c.skip(c.len() - a.len()));
}

/// The body of a string ends behind its closing quote.
pub proof fn lemma_string_body_rest(s: Seq<char>, acc: Seq<char>)
    ensures
        spec_string_body(s, acc) matches Some((_, rest)) ==> is_proper_suffix(rest, s),
    decreases s.len(),
{
    if s.len() == 0 {
    } else if s[0] == '"' {
        lemma_skip_is_suffix(s, 1);
    } else if s[0] == '\\' {
        if s.len() > 1 {
            let t = s.skip(2);
            lemma_string_body_rest(t, acc.push(unescape(s[1])));
            if let Some((_, rest)) = spec_string_body(t, acc.push(unescape(s[1]))) {
                lemma_skip_is_suffix(s, 2);
                lemma_suffix_of_suffix(rest, t, s);
            }
        }
    } else {
        let t = s.skip(1);
        lemma_string_body_rest(t, acc.push(s[0]));
        if let Some((_, rest)) = spec_string_body(t, acc.push(s[0])) {
            lemma_skip_is_suffix(s, 1);
            lemma_suffix_of_suffix(rest, t, s);
        }
    }
}

/// A string ends behind its closing quote.
pub proof fn lemma_string_rest(s: Seq<char>)
    ensures
        spec_string(s) matches Some((_, rest)) ==> is_proper_suffix(rest, s),
{
    if s.len() > 0 && s[0] == '"' {
        lemma_string_body_rest(s.skip(1), Seq::empty());
        if let Some((_, rest)) = spec_string(s) {
            lemma_skip_is_suffix(s, 1);
            lemma_suffix_of_suffix(rest, s.skip(1), s);
        }
    }
}

/// What is left of a text after a value lies behind the value: reading
/// takes one character at least, and none that it does not read.
pub proof fn theorem_value(s: Seq<char>)
    ensures
        spec_value(s) matches Some((_, rest)) ==> is_proper_suffix(rest, s),
    decreases s.len(), 0int,
{
    if s.len() == 0 {
    } else if s[0] == '"' {
        lemma_string_rest(s);
    } else if s[0] == '{' {
        lemma_tuple(s.skip(1));
        if let Some((_, rest)) = spec_tuple(s.skip(1)) {
            lemma_skip_is_suffix(s, 1);
            lemma_suffix_of_suffix(rest, s.skip(1), s);
        }
    } else if s[0] == '[' {
        lemma_list(s.skip(1));
        if let Some((_, rest)) = spec_list(s.skip(1)) {
            lemma_skip_is_suffix(s, 1);
            lemma_suffix_of_suffix(rest, s.skip(1), s);
        }
    }
}

/// A field that is read has a name, and what is left lies behind the
/// field.
pub proof fn theorem_result(s: Seq<char>)
    ensures
        spec_result(s) matches Some((field, rest)) ==> field.0.len() > 0 && is_proper_suffix(
            rest,
            s,
        ),
    decreases s.len(), 1int,
{
    let n = run_len(Run::Variable, s) as int;
    if 0 < n < s.len() && s[n] == '=' {
        let t = s.skip(n + 1);
        theorem_value(t);
        if let Some((_, rest)) = spec_value(t) {
            lemma_skip_is_suffix(s, n + 1);
            lemma_suffix_of_suffix(rest, t, s);
        }
    }
}

/// Fields that are read after others keep the others in front of them, and
/// what is left begins with no comma.
pub proof fn lemma_more_results(s: Seq<char>, acc: Seq<FieldView>)
    ensures
        spec_more_results(s, acc) matches Some((fields, rest)) ==> {
            &&& is_suffix(rest, s)
            &&& acc.len() <= fields.len()
            &&& fields.take(acc.len() as int) == acc
            &&& rest.len() == 0 || rest[0] != ','
        },
    decreases s.len(), 2int,
{
    if s.len() > 0 && s[0] == ',' {
        let t = s.skip(1);
        theorem_result(t);
        if let Some((field, after)) = spec_result(t) {
            lemma_more_results(after, acc.push(field));
            if let Some((fields, rest)) = spec_more_results(after, acc.push(field)) {
                lemma_skip_is_suffix(s, 1);
                lemma_suffix_of_suffix(after, t, s);
                lemma_suffix_of_suffix(rest, after, s);
                assert(fields.take(acc.len() as int) =~= fields.take(acc.len() as int + 1).take(
                    acc.len() as int,
                ));
                assert(acc.push(field).take(acc.len() as int) =~= acc);
            }
        }
    } else {
        lemma_skip_is_suffix(s, 0);
        assert(s.skip(0) =~= s);
        assert(acc.take(acc.len() as int) =~= acc);
    }
}

/// Where fields are read there is one at least, and what is left lies
/// behind them.
pub proof fn lemma_results(s: Seq<char>)
    ensures
        spec_results(s) matches Some((fields, rest)) ==> fields.len() > 0 && is_proper_suffix(
            rest,
            s,
        ),
    decreases s.len(), 2int,
{
    theorem_result(s);
    if let Some((field, after)) = spec_result(s) {
        lemma_more_results(after, seq![field]);
        if let Some((_, rest)) = spec_more_results(after, seq![field]) {
            lemma_suffix_of_suffix(rest, after, s);
        }
    }
}

/// What is left after values that are read after others lies behind them.
pub proof fn lemma_more_values(s: Seq<char>, acc: Seq<ValueView>)
    ensures
        spec_more_values(s, acc) matches Some((items, rest)) ==> {
            &&& is_suffix(rest, s)
            &&& acc.len() <= items.len()
        },
    decreases s.len(), 2int,
{
    if s.len() > 0 && s[0] == ',' {
        let t = s.skip(1);
        theorem_value(t);
        if let Some((value, after)) = spec_value(t) {
            lemma_more_values(after, acc.push(value));
            if let Some((_, rest)) = spec_more_values(after, acc.push(value)) {
                lemma_skip_is_suffix(s, 1);
                lemma_suffix_of_suffix(after, t, s);
                lemma_suffix_of_suffix(rest, after, s);
            }
        }
    } else {
        lemma_skip_is_suffix(s, 0);
        assert(s.skip(0) =~= s);
    }
}

/// What is read behind `{` is a tuple.
pub proof fn lemma_tuple(s: Seq<char>)
    ensures
        spec_tuple(s) matches Some((value, rest)) ==> value is Tuple && is_proper_suffix(rest, s),
    decreases s.len(), 3int,
{
    if s.len() > 0 && s[0] == '}' {
        lemma_skip_is_suffix(s, 1);
    } else {
        lemma_results(s);
        if let Some((_, after)) = spec_results(s) {
            if after.len() > 0 {
                lemma_skip_is_suffix(after, 1);
                lemma_suffix_of_suffix(after.skip(1), after, s);
            }
        }
    }
}

/// What is read behind `[` is a list.
pub proof fn lemma_list(s: Seq<char>)
    ensures
        spec_list(s) matches Some((value, rest)) ==> (value is ValueList || value is ResultList)
            && is_proper_suffix(rest, s),
    decreases s.len(), 3int,
{
    if s.len() > 0 && s[0] == ']' {
        lemma_skip_is_suffix(s, 1);
    } else {
        theorem_value(s);
        match spec_value(s) {
            Some((first, after)) => {
                lemma_more_values(after, seq![first]);
                if let Some((_, stop)) = spec_more_values(after, seq![first]) {
                    if stop.len() > 0 {
                        lemma_skip_is_suffix(stop, 1);
                        lemma_suffix_of_suffix(stop, after, s);
                        lemma_suffix_of_suffix(stop.skip(1), stop, s);
                    }
                }
            },
            None => {
                lemma_results(s);
                if let Some((_, stop)) = spec_results(s) {
                    if stop.len() > 0 {
                        lemma_skip_is_suffix(stop, 1);
                        lemma_suffix_of_suffix(stop.skip(1), stop, s);
                    }
                }
            },
        }
    }
}

/// The first item of a list decides what the list holds: where it reads as
/// a value the list holds values, and fields in no case; where it does not,
/// the list holds fields or is not read at all.
pub proof fn theorem_list_kind(s: Seq<char>)
    ensures
        spec_list(s) matches Some((list, _)) ==> (list is ValueList <==> (s[0] == ']'
            || spec_value(s) is Some)),
        spec_list(s) matches Some((list, _)) ==> (list is ResultList <==> (s[0] != ']'
            && spec_value(s) is None && spec_results(s) is Some)),
{
}

/// What is left behind line ends lies behind them, and begins with none.
pub proof fn lemma_newline_rest(s: Seq<char>)
    ensures
        spec_newline(s) matches Some(rest) ==> is_proper_suffix(rest, s) && (rest.len() == 0
            || rest[0] != '\n'),
{
    lemma_run_len_bound(Run::Newlines, s);
    let n = run_len(Run::Newlines, s) as int;
    if n > 0 {
        lemma_skip_is_suffix(s, n);
    }
}

/// A token, where one is read, is made of digits, and what is left lies
/// behind it.
pub proof fn lemma_optional_token(s: Seq<char>)
    ensures
        token_wf(spec_optional_token(s).0),
        is_suffix(spec_optional_token(s).1, s),
{
    theorem_token_is_digits(s);
    lemma_run_len_bound(Run::Token, s);
    let n = run_len(Run::Token, s) as int;
    lemma_skip_is_suffix(s, n);
    assert(s.skip(0) =~= s);
}

/// The class of a notification that is read holds neither a comma nor a
/// line end. The token comes from what stands before the sigil.
pub proof fn lemma_async_record(s: Seq<char>)
    ensures
        spec_async_record(s) matches Some((record, rest)) ==> record.token is None && class_wf(
            record.class,
        ) && is_proper_suffix(rest, s),
{
    lemma_run_len_bound(Run::Class, s);
    let n = run_len(Run::Class, s) as int;
    if n < s.len() {
        let t = s.skip(n);
        lemma_more_results(t, Seq::empty());
        if let Some((results, after)) = spec_more_results(t, Seq::empty()) {
            lemma_newline_rest(after);
            if let Some(rest) = spec_newline(after) {
                lemma_skip_is_suffix(s, n);
                lemma_suffix_of_suffix(after, t, s);
                lemma_suffix_of_suffix(rest, after, s);
                assert forall|i: int| 0 <= i < n implies #[trigger] s.take(n)[i] != ','
                    && s.take(n)[i] != '\n' by {
                    assert(in_run(Run::Class, s[i]));
                }
            }
        }
    }
}

/// The token of a result record that is read is made of digits, and what
/// is left lies behind the record.
pub proof fn lemma_result_record(s: Seq<char>)
    ensures
        spec_result_record(s) matches Some((record, rest)) ==> token_wf(record.token)
            && is_proper_suffix(rest, s),
{
    lemma_optional_token(s);
    let (token, body) = spec_optional_token(s);
    if body.len() > 0 && body[0] == '^' {
        let t = body.skip(1);
        if let Some((class, after)) = spec_result_class(t) {
            assert(is_suffix(after, t));
            lemma_more_results(after, Seq::empty());
            if let Some((results, stop)) = spec_more_results(after, Seq::empty()) {
                lemma_newline_rest(stop);
                if let Some(rest) = spec_newline(stop) {
                    lemma_skip_is_suffix(body, 1);
                    lemma_suffix_of_suffix(t, body, s);
                    lemma_suffix_of_suffix(after, t, s);
                    lemma_suffix_of_suffix(stop, after, s);
                    lemma_suffix_of_suffix(rest, stop, s);
                }
            }
        }
    }
}

/// The token and the class of a notification that is read are as the
/// grammar writes them, and what is left lies behind the record.
pub proof fn lemma_out_of_band(s: Seq<char>)
    ensures
        spec_out_of_band(s) matches Some((record, rest)) ==> record.head_wf()
            && is_proper_suffix(rest, s),
{
    lemma_optional_token(s);
    let (token, body) = spec_optional_token(s);
    if body.len() > 0 {
        let t = body.skip(1);
        lemma_skip_is_suffix(body, 1);
        lemma_suffix_of_suffix(t, body, s);
        if body[0] == '*' || body[0] == '+' || body[0] == '=' {
            lemma_async_record(t);
            if let Some((_, rest)) = spec_async_record(t) {
                lemma_suffix_of_suffix(rest, t, s);
            }
        } else {
            lemma_string_rest(t);
            if let Some((_, after)) = spec_string(t) {
                lemma_newline_rest(after);
                if let Some(rest) = spec_newline(after) {
                    lemma_suffix_of_suffix(after, t, s);
                    lemma_suffix_of_suffix(rest, after, s);
                }
            }
        }
    }
}

/// In a record that is read a token is made of digits, and the class of a
/// notification holds neither a comma nor a line end. What is left lies
/// behind the record.
pub proof fn theorem_record(s: Seq<char>)
    ensures
        spec_record(s) matches Some((record, rest)) ==> record.head_wf() && is_proper_suffix(
            rest,
            s,
        ),
{
    lemma_out_of_band(s);
    lemma_result_record(s);
}

/// In every record, what stands before the fields is as the grammar writes
/// it.
pub open spec fn heads_wf(records: Seq<ResultOrOOBView>) -> bool {
    forall|i: int| 0 <= i < records.len() ==> (#[trigger] records[i]).head_wf()
}

/// The records that are read after others stand behind the others.
pub proof fn lemma_records(s: Seq<char>, acc: Seq<ResultOrOOBView>)
    ensures
        spec_records(s, acc) matches Some(records) ==> {
            &&& acc.len() <= records.len()
            &&& records.take(acc.len() as int) == acc
            &&& heads_wf(acc) ==> heads_wf(records)
        },
    decreases s.len(),
{
    if s.len() == 0 {
        assert(acc.take(acc.len() as int) =~= acc);
    } else {
        theorem_record(s);
        if let Some((record, next)) = spec_record(s) {
            lemma_records(next, acc.push(record));
            if let Some(records) = spec_records(next, acc.push(record)) {
                assert(records.take(acc.len() as int) =~= records.take(acc.len() as int + 1).take(
                    acc.len() as int,
                ));
                assert(acc.push(record).take(acc.len() as int) =~= acc);
                if heads_wf(acc) {
                    assert forall|i: int| 0 <= i < acc.push(record).len() implies (
                    #[trigger] acc.push(record)[i]).head_wf() by {
                        if i < acc.len() {
                            assert(acc.push(record)[i] == acc[i]);
                        }
                    }
                }
            }
        }
    }
}

/// In every record of a message that is read a token is made of digits,
/// and the class of a notification holds neither a comma nor a line end.
pub proof fn theorem_output(s: Seq<char>)
    ensures
        spec_output(s) matches Some(records) ==> heads_wf(records),
{
    lemma_records(s, Seq::empty());
}

/// A message is read record by record: where the first record is read, the
/// message is that record and then the message that is left.
pub proof fn theorem_output_unfolds(s: Seq<char>)
    requires
        s.len() > 0,
    ensures
        spec_output(s) == match spec_record(s) {
            Some((record, next)) => match spec_output(next) {
                Some(records) => Some(seq![record] + records),
                None => None,
            },
            None => None,
        },
{
    theorem_record(s);
    if let Some((record, next)) = spec_record(s) {
        lemma_records_shift(next, seq![record], Seq::empty());
        assert(Seq::<ResultOrOOBView>::empty().push(record) =~= seq![record]);
        assert(seq![record] + Seq::<ResultOrOOBView>::empty() =~= seq![record]);
    }
}

/// What was read before stands in front of what is read after it.
pub proof fn lemma_records_shift(
    s: Seq<char>,
    front: Seq<ResultOrOOBView>,
    acc: Seq<ResultOrOOBView>,
)
    ensures
        spec_records(s, front + acc) == match spec_records(s, acc) {
            Some(records) => Some(front + records),
            None => None,
        },
    decreases s.len(),
{
    if s.len() > 0 {
        if let Some((record, next)) = spec_record(s) {
            if next.len() < s.len() {
                lemma_records_shift(next, front, acc.push(record));
                assert((front + acc).push(record) =~= front + acc.push(record));
            }
        }
    }
}

} // verus!
