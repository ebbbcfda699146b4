//! Framing the debugger's output: from the bytes that arrive to the messages
//! that they hold.
//!
//! The debugger ends each message with a separator. A [`Framer`] keeps the
//! bytes that have arrived and belong to no message yet. It does no reading
//! itself: [`Framer::next`] says what is to be done next, and the caller, who
//! owns the stream, does it.

use crate::mi::grammar::{spec_output, starts_with};
use crate::mi::output_syntax::{output_view, records_wf, Output, ParseError, ResultOrOOBView};
use crate::mi::parser::{message_at, word_is_at};
use crate::mi::text::{chars_of, copy_range, lemma_skip, rest_of};
use core::str::Utf8Error;
use vstd::prelude::*;
use vstd::slice::slice_subrange;
use vstd::utf8::{decode_utf8, decode_utf8_encode_utf8, encode_utf8, valid_utf8};

verus! {

/// The error of `core::str::from_utf8`. Nothing is read out of it.
#[verifier::external_type_specification]
#[verifier::external_body]
pub struct ExUtf8Error(Utf8Error);

/// `core::str::from_utf8` of the standard library gives the text that the
/// bytes encode where they are valid UTF-8, and an error where they are not.
pub assume_specification[ core::str::from_utf8 ](v: &[u8]) -> (r: core::result::Result<
    &str,
    Utf8Error,
>)
    ensures
        r is Ok <==> valid_utf8(v@),
        r matches Ok(text) ==> text@ == decode_utf8(v@),
;

/// What the debugger on the author's machine ends a message with. The
/// manual says `(gdb)` and a line end, without the space.
pub const MI_MSG_SEP: &'static str = "(gdb) \n";

/// Whether `word` stands in `text` at `i`.
pub open spec fn occurs_at(text: Seq<char>, word: Seq<char>, i: int) -> bool {
    0 <= i <= text.len() && starts_with(text.skip(i), word)
}

/// Whether `i` is the first place in `text` at which `word` stands.
pub open spec fn first_occurrence(text: Seq<char>, word: Seq<char>, i: int) -> bool {
    occurs_at(text, word, i) && forall|j: int| 0 <= j < i ==> !occurs_at(text, word, j)
}

/// The first place in `text` at which `word` stands, if it stands anywhere.
pub open spec fn spec_find(text: Seq<char>, word: Seq<char>) -> Option<int> {
    if exists|i: int| first_occurrence(text, word, i) {
        Some(choose|i: int| first_occurrence(text, word, i))
    } else {
        None
    }
}

/// What is to be done next.
#[derive(Debug, PartialEq, Eq)]
pub enum Step {
    /// No whole message has arrived: read more bytes and hand them to
    /// [`Framer::receive`].
    Read,
    /// A message was taken out and parsed: these are its records.
    Deliver(Output),
    /// A message was taken out and refused: this is its text, and why it
    /// was refused. The message is gone, and framing goes on behind it.
    Discard(String, ParseError),
}

pub ghost enum StepView {
    Read,
    Deliver(Seq<ResultOrOOBView>),
    Discard(Seq<char>, ParseError),
}

impl View for Step {
    type V = StepView;

    open spec fn view(&self) -> StepView {
        match self {
            Step::Read => StepView::Read,
            Step::Deliver(records) => StepView::Deliver(output_view(records@)),
            Step::Discard(message, why) => StepView::Discard(message@, *why),
        }
    }
}

/// What becomes of a message: its records are delivered, or it is
/// discarded because it does not follow the grammar, or because a tuple in
/// it holds a name twice.
pub open spec fn spec_message_step(message: Seq<char>) -> StepView {
    match spec_output(message) {
        Some(records) => if records_wf(records) {
            StepView::Deliver(records)
        } else {
            StepView::Discard(message, ParseError::DuplicateField)
        },
        None => StepView::Discard(message, ParseError::Syntax),
    }
}

/// The buffer after `bytes` have arrived.
pub open spec fn spec_receive(buffer: Seq<u8>, bytes: Seq<u8>) -> Seq<u8> {
    buffer + bytes
}

/// What is to be done with the bytes in `buffer`, and the bytes that are
/// left after it.
///
/// Bytes that are not valid UTF-8 are left alone: the last character may
/// still be on its way. So is a text in which the separator does not stand.
/// Else the text before the first separator is the message. It is parsed,
/// and leaves the buffer together with the separator, whether it was
/// refused or not.
pub open spec fn spec_next(buffer: Seq<u8>, separator: Seq<char>) -> (StepView, Seq<u8>) {
    if !valid_utf8(buffer) {
        (StepView::Read, buffer)
    } else {
        let text = decode_utf8(buffer);
        match spec_find(text, separator) {
            None => (StepView::Read, buffer),
            Some(i) => {
                let message = text.take(i);
                let taken = encode_utf8(text.take(i + separator.len())).len();
                (spec_message_step(message), buffer.skip(taken as int))
            },
        }
    }
}

/// A text is encoded piece by piece.
pub proof fn lemma_encode_concat(a: Seq<char>, b: Seq<char>)
    ensures
        encode_utf8(a + b) == encode_utf8(a) + encode_utf8(b),
    decreases a.len(),
{
    if a.len() == 0 {
        assert(a + b =~= b);
        assert(encode_utf8(a) + encode_utf8(b) =~= encode_utf8(b));
    } else {
        assert((a + b).drop_first() =~= a.drop_first() + b);
        lemma_encode_concat(a.drop_first(), b);
        assert(encode_utf8(a + b) =~= encode_utf8(a) + encode_utf8(b));
    }
}

/// A text takes at least one byte for each of its characters.
pub proof fn lemma_encode_len(text: Seq<char>)
    ensures
        encode_utf8(text).len() >= text.len(),
    decreases text.len(),
{
    if text.len() > 0 {
        lemma_encode_len(text.drop_first());
    }
}

/// Bytes that arrive in two reads are kept as if they had arrived in one.
pub proof fn theorem_reads_join(buffer: Seq<u8>, first: Seq<u8>, second: Seq<u8>)
    ensures
        spec_receive(spec_receive(buffer, first), second) == spec_receive(buffer, first + second),
{
    assert((buffer + first) + second =~= buffer + (first + second));
}

/// A read that ends in the middle of a character changes nothing: the bytes
/// wait, and once the rest of the character has arrived, the framer goes on
/// as if both reads had been one.
pub proof fn theorem_split_character(
    buffer: Seq<u8>,
    separator: Seq<char>,
    first: Seq<u8>,
    second: Seq<u8>,
)
    requires
        !valid_utf8(spec_receive(buffer, first)),
    ensures
        spec_next(spec_receive(buffer, first), separator) == (
            StepView::Read,
            spec_receive(buffer, first),
        ),
        spec_next(
            spec_receive(spec_next(spec_receive(buffer, first), separator).1, second),
            separator,
        ) == spec_next(spec_receive(buffer, first + second), separator),
{
    theorem_reads_join(buffer, first, second);
}

/// What is left after a step is the end of what was there. Where a message
/// was taken out, its text and the separator are gone from the front, and no
/// separator stands in the message; where none was taken out, nothing has
/// changed.
pub proof fn theorem_next_takes_a_prefix(buffer: Seq<u8>, separator: Seq<char>)
    ensures
        ({
            let (step, left) = spec_next(buffer, separator);
            &&& left.len() <= buffer.len()
            &&& left == buffer.skip(buffer.len() - left.len())
            &&& step is Read ==> left == buffer
            &&& !(step is Read) && separator.len() > 0 ==> left.len() < buffer.len()
            &&& !(step is Read) ==> valid_utf8(left)
        }),
{
    if valid_utf8(buffer) {
        let text = decode_utf8(buffer);
        if let Some(i) = spec_find(text, separator) {
            let end = i + separator.len();
            assert(first_occurrence(text, separator, i));
            decode_utf8_encode_utf8(buffer);
            lemma_encode_concat(text.take(end), text.skip(end));
            assert(text.take(end) + text.skip(end) =~= text);
            lemma_encode_len(text.take(end));
            let taken = encode_utf8(text.take(end)).len() as int;
            assert(buffer.skip(taken) =~= encode_utf8(text.skip(end)));
            vstd::utf8::encode_utf8_valid_utf8(text.skip(end));
        } else {
            assert(buffer.skip(0) =~= buffer);
        }
    } else {
        assert(buffer.skip(0) =~= buffer);
    }
}

/// Once the framer asks for bytes, no whole message is left in the buffer:
/// where the bytes are text, the separator stands nowhere in it.
pub proof fn theorem_read_leaves_no_message(buffer: Seq<u8>, separator: Seq<char>)
    requires
        spec_next(buffer, separator).0 is Read,
        valid_utf8(buffer),
    ensures
        forall|i: int| !occurs_at(decode_utf8(buffer), separator, i),
{
    let text = decode_utf8(buffer);
    assert forall|i: int| !occurs_at(text, separator, i) by {
        if occurs_at(text, separator, i) {
            lemma_some_occurrence_is_first(text, separator, i);
        }
    }
}

/// Where the word stands at all, it stands somewhere first.
pub proof fn lemma_some_occurrence_is_first(text: Seq<char>, word: Seq<char>, i: int)
    requires
        occurs_at(text, word, i),
    ensures
        exists|k: int| first_occurrence(text, word, k),
    decreases i,
{
    if exists|j: int| 0 <= j < i && occurs_at(text, word, j) {
        let j = choose|j: int| 0 <= j < i && occurs_at(text, word, j);
        lemma_some_occurrence_is_first(text, word, j);
    } else {
        assert(first_occurrence(text, word, i));
    }
}

/// There is one first place at most.
pub proof fn lemma_first_occurrence_is_unique(text: Seq<char>, word: Seq<char>, i: int, j: int)
    requires
        first_occurrence(text, word, i),
        first_occurrence(text, word, j),
    ensures
        i == j,
{
}

/// The first place in `text` at which `word` stands.
fn find(text: &[char], word: &Vec<char>) -> (r: Option<usize>)
    ensures
        match r {
            Some(i) => spec_find(text@, word@) == Some(i as int) && i + word.len() <= text.len(),
            None => spec_find(text@, word@) is None,
        },
{
    let mut i: usize = 0;
    loop
        invariant
            i <= text.len(),
            forall|j: int| 0 <= j < i ==> !occurs_at(text@, word@, j),
        decreases text.len() - i,
    {
        if word_is_at(text, i, word) {
            proof {
                assert(first_occurrence(text@, word@, i as int));
                let k = choose|k: int| first_occurrence(text@, word@, k);
                lemma_first_occurrence_is_unique(text@, word@, i as int, k);
                lemma_skip(text@, i as int, 0);
            }
            return Some(i);
        }
        if i == text.len() {
            return None;
        }
        i = i + 1;
    }
}

/// The bytes that have arrived and belong to no message yet, and the
/// separator that ends a message.
pub struct Framer {
    buffer: Vec<u8>,
    separator: Vec<char>,
}

impl Framer {
    /// The bytes that are kept.
    pub closed spec fn buffered(&self) -> Seq<u8> {
        self.buffer@
    }

    /// The separator that ends a message.
    pub closed spec fn separator(&self) -> Seq<char> {
        self.separator@
    }

    /// A framer that holds no bytes yet.
    pub fn new(separator: &str) -> (framer: Framer)
        ensures
            framer.buffered() == Seq::<u8>::empty(),
            framer.separator() == separator@,
    {
        Framer { buffer: Vec::new(), separator: chars_of(separator) }
    }

    /// Takes in the bytes of one read. A read of no bytes means that the
    /// stream is closed: the answer is then `false`, and framing is over.
    pub fn receive(&mut self, bytes: &[u8]) -> (open: bool)
        ensures
            open == (bytes@.len() > 0),
            final(self).buffered() == spec_receive(old(self).buffered(), bytes@),
            final(self).separator() == old(self).separator(),
    {
        self.buffer.extend_from_slice(bytes);
        bytes.len() > 0
    }

    /// Says what is to be done next, and takes the message that it speaks of
    /// out of the buffer.
    pub fn next(&mut self) -> (step: Step)
        ensures
            (step@, final(self).buffered()) == spec_next(old(self).buffered(), old(self).separator()),
            final(self).separator() == old(self).separator(),
    {
        let ghost buffer = self.buffer@;
        let text = match core::str::from_utf8(self.buffer.as_slice()) {
            Ok(text) => text,
            Err(_) => {
                return Step::Read;
            },
        };
        let chars = chars_of(text);
        let at = match find(chars.as_slice(), &self.separator) {
            Some(at) => at,
            None => {
                return Step::Read;
            },
        };
        let end = at + self.separator.len();
        let message = slice_subrange(chars.as_slice(), 0, at);
        proof {
            lemma_skip(message@, 0, 0);
            assert(message@ =~= text@.take(at as int));
            decode_utf8_encode_utf8(buffer);
            lemma_encode_concat(text@.take(end as int), text@.skip(end as int));
            assert(text@.take(end as int) + text@.skip(end as int) =~= text@);
            assert((encode_utf8(text@.take(end as int)) + encode_utf8(text@.skip(end as int))).skip(
                encode_utf8(text@.take(end as int)).len() as int,
            ) =~= encode_utf8(text@.skip(end as int)));
        }
        let step = match message_at(message) {
            Ok(records) => Step::Deliver(records),
            Err(why) => Step::Discard(copy_range(message, 0, at), why),
        };
        let left = rest_of(text, end, chars.len()).as_bytes_vec();
        proof {
            assert(message@.subrange(0, at as int) =~= message@);
        }
        self.buffer = left;
        step
    }
}

} // verus!
