//! Breakpoints, frames and threads as the rows and titles under which they
//! are shown.

use crate::numbers::{decimal, digit_value, is_digit};
use crate::types::{text_view, Breakpoint, BreakpointView, Frame, FrameView};
use vstd::prelude::*;
use vstd::string::StringExecFns;

verus! {

/// The digit that stands for a number below ten.
pub open spec fn digit_char(d: nat) -> char {
    seq!['0', '1', '2', '3', '4', '5', '6', '7', '8', '9'][d as int]
}

/// A number in base ten, without zeros in front.
pub open spec fn spec_decimal_text(n: nat) -> Seq<char>
    decreases n,
{
    if n < 10 {
        seq![digit_char(n)]
    } else {
        spec_decimal_text(n / 10).push(digit_char(n % 10))
    }
}

/// A number in base ten, with `-` in front where it is below zero.
pub open spec fn spec_signed_text(n: int) -> Seq<char> {
    if n < 0 {
        seq!['-'] + spec_decimal_text((-n) as nat)
    } else {
        spec_decimal_text(n as nat)
    }
}

/// The text of a number is made of digits, and read as a number it gives
/// the number back.
pub proof fn theorem_decimal_text_reads_back(n: nat)
    ensures
        spec_decimal_text(n).len() > 0,
        forall|i: int| 0 <= i < spec_decimal_text(n).len() ==> is_digit(
            #[trigger] spec_decimal_text(n)[i],
        ),
        decimal(spec_decimal_text(n)) == n,
    decreases n,
{
    let text = spec_decimal_text(n);
    if n < 10 {
        assert(text.drop_last() =~= Seq::<char>::empty());
        assert(decimal(text.drop_last()) == 0);
        assert(digit_value(digit_char(n)) == n);
    } else {
        theorem_decimal_text_reads_back(n / 10);
        let front = spec_decimal_text(n / 10);
        assert(text.drop_last() =~= front);
        assert(digit_value(digit_char(n % 10)) == n % 10);
        assert forall|i: int| 0 <= i < text.len() implies is_digit(#[trigger] text[i]) by {
            if i < front.len() {
                assert(text[i] == front[i]);
            }
        }
    }
}

/// Writes a number below ten.
fn push_digit(out: &mut String, d: u64)
    requires
        d < 10,
    ensures
        final(out)@ == old(out)@.push(digit_char(d as nat)),
{
    let c = if d == 0 {
        '0'
    } else if d == 1 {
        '1'
    } else if d == 2 {
        '2'
    } else if d == 3 {
        '3'
    } else if d == 4 {
        '4'
    } else if d == 5 {
        '5'
    } else if d == 6 {
        '6'
    } else if d == 7 {
        '7'
    } else if d == 8 {
        '8'
    } else {
        '9'
    };
    out.push(c);
}

/// Writes a number in base ten.
fn push_decimal(out: &mut String, n: u64)
    ensures
        final(out)@ == old(out)@ + spec_decimal_text(n as nat),
    decreases n,
{
    if n < 10 {
        push_digit(out, n);
        assert(old(out)@.push(digit_char(n as nat)) =~= old(out)@ + spec_decimal_text(n as nat));
    } else {
        push_decimal(out, n / 10);
        push_digit(out, n % 10);
        assert(out@ =~= old(out)@ + spec_decimal_text(n as nat));
    }
}

/// A number as text, in base ten.
pub fn decimal_text(n: u64) -> (text: String)
    ensures
        text@ == spec_decimal_text(n as nat),
{
    let mut text = String::new();
    push_decimal(&mut text, n);
    assert(Seq::<char>::empty() + spec_decimal_text(n as nat) =~= spec_decimal_text(n as nat));
    text
}

/// Where a frame or a breakpoint lies in the source: the file, a colon and
/// the line where both are known, and nothing else.
pub open spec fn spec_place(file: Option<Seq<char>>, line: Option<nat>) -> Seq<char> {
    match (file, line) {
        (Some(file), Some(line)) => file + seq![':'] + spec_decimal_text(line),
        _ => Seq::empty(),
    }
}

/// Writes where a frame or a breakpoint lies in the source.
fn place(file: &Option<String>, line: Option<u64>) -> (text: String)
    ensures
        text@ == spec_place(
            text_view(*file),
            match line {
                Some(n) => Some(n as nat),
                None => None,
            },
        ),
{
    let mut text = String::new();
    match (file, line) {
        (Some(file), Some(line)) => {
            text.append(file.as_str());
            text.push(':');
            push_decimal(&mut text, line);
            assert(text@ =~= file@ + seq![':'] + spec_decimal_text(line as nat));
        },
        _ => {},
    }
    text
}

/// A breakpoint as a row of a table.
#[derive(Debug, PartialEq, Eq)]
pub struct BreakpointRow {
    pub enabled: bool,
    pub number: String,
    pub location: String,
    pub file: String,
    pub address: String,
    pub cond: String,
    pub hits: String,
}

pub ghost struct BreakpointRowView {
    pub enabled: bool,
    pub number: Seq<char>,
    pub location: Seq<char>,
    pub file: Seq<char>,
    pub address: Seq<char>,
    pub cond: Seq<char>,
    pub hits: Seq<char>,
}

impl View for BreakpointRow {
    type V = BreakpointRowView;

    open spec fn view(&self) -> BreakpointRowView {
        BreakpointRowView {
            enabled: self.enabled,
            number: self.number@,
            location: self.location@,
            file: self.file@,
            address: self.address@,
            cond: self.cond@,
            hits: self.hits@,
        }
    }
}

/// The row of a breakpoint: its numbers in base ten, the place in the
/// source as file and line, and an empty condition where it has none.
pub open spec fn spec_breakpoint_row(bp: BreakpointView) -> BreakpointRowView {
    BreakpointRowView {
        enabled: bp.enabled,
        number: spec_decimal_text(bp.number),
        location: bp.original_location,
        file: spec_place(bp.file, bp.line),
        address: bp.address,
        cond: match bp.cond {
            Some(cond) => cond,
            None => Seq::empty(),
        },
        hits: spec_decimal_text(bp.hits),
    }
}

/// Makes the row of a breakpoint.
pub fn breakpoint_row(bp: &Breakpoint) -> (row: BreakpointRow)
    ensures
        row@ == spec_breakpoint_row(bp@),
{
    BreakpointRow {
        enabled: bp.enabled,
        number: decimal_text(bp.number as u64),
        location: bp.original_location.clone(),
        file: place(
            &bp.file,
            match bp.line {
                Some(n) => Some(n as u64),
                None => None,
            },
        ),
        address: bp.address.clone(),
        cond: match &bp.cond {
            Some(cond) => cond.clone(),
            None => String::new(),
        },
        hits: decimal_text(bp.hits as u64),
    }
}

/// A frame as a row of a table.
#[derive(Debug, PartialEq, Eq)]
pub struct FrameRow {
    pub level: String,
    pub addr: String,
    pub func: String,
    pub loc: String,
}

pub ghost struct FrameRowView {
    pub level: Seq<char>,
    pub addr: Seq<char>,
    pub func: Seq<char>,
    pub loc: Seq<char>,
}

impl View for FrameRow {
    type V = FrameRowView;

    open spec fn view(&self) -> FrameRowView {
        FrameRowView { level: self.level@, addr: self.addr@, func: self.func@, loc: self.loc@ }
    }
}

/// The row of a frame: `#` and its level, and the place in the source as
/// file and line.
pub open spec fn spec_frame_row(frame: FrameView) -> FrameRowView {
    FrameRowView {
        level: seq!['#'] + spec_decimal_text(frame.level),
        addr: frame.addr,
        func: frame.func,
        loc: spec_place(frame.file, frame.line),
    }
}

/// Makes the row of a frame.
pub fn frame_row(frame: &Frame) -> (row: FrameRow)
    ensures
        row@ == spec_frame_row(frame@),
{
    let mut level = String::new();
    level.push('#');
    push_decimal(&mut level, frame.level as u64);
    assert(level@ =~= seq!['#'] + spec_decimal_text(frame.level as nat));
    FrameRow {
        level,
        addr: frame.addr.clone(),
        func: frame.func.clone(),
        loc: place(
            &frame.file,
            match frame.line {
                Some(n) => Some(n as u64),
                None => None,
            },
        ),
    }
}

/// The title of a thread: `#`, its number, a space, and what the system
/// calls it.
pub open spec fn spec_thread_title(thread_id: int, target_id: Seq<char>) -> Seq<char> {
    seq!['#'] + spec_signed_text(thread_id) + seq![' '] + target_id
}

/// Makes the title of a thread.
pub fn thread_title(thread_id: i32, target_id: &str) -> (title: String)
    ensures
        title@ == spec_thread_title(thread_id as int, target_id@),
{
    let mut title = String::new();
    title.push('#');
    if thread_id < 0 {
        title.push('-');
        push_decimal(&mut title, (0 - (thread_id as i64)) as u64);
    } else {
        push_decimal(&mut title, thread_id as u64);
    }
    title.push(' ');
    title.append(target_id);
    assert(title@ =~= spec_thread_title(thread_id as int, target_id@));
    title
}

} // verus!
