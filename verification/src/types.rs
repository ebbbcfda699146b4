//! What the debugger's records say: breakpoints, watchpoints, frames,
//! expressions and instructions.

use vstd::prelude::*;

verus! {

/// What an optional text stands for in contracts.
pub open spec fn text_view(text: Option<String>) -> Option<Seq<char>> {
    match text {
        Some(t) => Some(t@),
        None => None,
    }
}

/// What an optional number stands for in contracts.
pub open spec fn number_view(number: Option<usize>) -> Option<nat> {
    match number {
        Some(n) => Some(n as nat),
        None => None,
    }
}

/// A breakpoint as the debugger reports it.
#[derive(Debug, PartialEq, Eq)]
pub struct Breakpoint {
    /// The number by which the debugger knows it.
    pub number: u32,
    pub type_: BreakpointType,
    /// Whether the breakpoint stays once it was hit.
    pub disposition: BreakpointDisposition,
    pub enabled: bool,
    /// The place in memory at which the breakpoint is set.
    pub address: String,
    /// The place as the user wrote it.
    pub original_location: String,
    /// The name of the source file.
    pub file: Option<String>,
    /// The full path of the source file.
    pub fullname: Option<String>,
    /// The line in the source file.
    pub line: Option<u32>,
    /// The condition on which the breakpoint stops.
    pub cond: Option<String>,
    /// How often the breakpoint was hit.
    pub hits: u32,
}

pub ghost struct BreakpointView {
    pub number: nat,
    pub type_: BreakpointType,
    pub disposition: BreakpointDisposition,
    pub enabled: bool,
    pub address: Seq<char>,
    pub original_location: Seq<char>,
    pub file: Option<Seq<char>>,
    pub fullname: Option<Seq<char>>,
    pub line: Option<nat>,
    pub cond: Option<Seq<char>>,
    pub hits: nat,
}

impl View for Breakpoint {
    type V = BreakpointView;

    open spec fn view(&self) -> BreakpointView {
        BreakpointView {
            number: self.number as nat,
            type_: self.type_,
            disposition: self.disposition,
            enabled: self.enabled,
            address: self.address@,
            original_location: self.original_location@,
            file: text_view(self.file),
            fullname: text_view(self.fullname),
            line: match self.line {
                Some(n) => Some(n as nat),
                None => None,
            },
            cond: text_view(self.cond),
            hits: self.hits as nat,
        }
    }
}

/// The kinds of breakpoint. The debugger tells more of a watchpoint than
/// this, such as whether the hardware watches; none of it is kept.
#[derive(Debug, PartialEq, Eq, Structural, Clone, Copy)]
pub enum BreakpointType {
    Breakpoint,
    Watchpoint,
}

/// What becomes of a breakpoint that was hit.
#[derive(Debug, PartialEq, Eq, Structural, Clone, Copy)]
pub enum BreakpointDisposition {
    Keep,
    NoKeep,
}

/// A watchpoint: the expression that is watched, and for what.
#[derive(Debug)]
pub struct Watchpoint {
    pub number: u32,
    pub expr: String,
    pub type_: WatchpointType,
}

/// What a watchpoint watches for.
#[derive(Debug, Copy, Clone)]
pub enum WatchpointType {
    ReadWrite,
    Read,
    Write,
}

/// The frames of a thread's stack, the innermost first.
pub struct Backtrace(pub Vec<Frame>);

/// The frames of a stack, as the contracts see them.
pub open spec fn frames_view(frames: Seq<Frame>) -> Seq<FrameView> {
    Seq::new(frames.len(), |i: int| frames[i]@)
}

impl View for Backtrace {
    type V = Seq<FrameView>;

    open spec fn view(&self) -> Seq<FrameView> {
        frames_view(self.0@)
    }
}

/// One frame of a stack.
#[derive(Debug, PartialEq, Eq)]
pub struct Frame {
    pub level: usize,
    /// The program counter of the frame.
    pub addr: String,
    /// The name of the function.
    pub func: String,
    /// The name of the source file that holds the function.
    pub file: Option<String>,
    /// The full path of that source file.
    pub fullname: Option<String>,
    /// The line that the program counter stands at.
    pub line: Option<usize>,
    /// The shared library that defines the function, given only where the
    /// function is not known.
    pub from: Option<String>,
}

pub ghost struct FrameView {
    pub level: nat,
    pub addr: Seq<char>,
    pub func: Seq<char>,
    pub file: Option<Seq<char>>,
    pub fullname: Option<Seq<char>>,
    pub line: Option<nat>,
    pub from: Option<Seq<char>>,
}

impl View for Frame {
    type V = FrameView;

    open spec fn view(&self) -> FrameView {
        FrameView {
            level: self.level as nat,
            addr: self.addr@,
            func: self.func@,
            file: text_view(self.file),
            fullname: text_view(self.fullname),
            line: number_view(self.line),
            from: text_view(self.from),
        }
    }
}

/// A thread of the program: the number by which the debugger knows it, and
/// what the system calls it.
#[derive(Debug, PartialEq, Eq)]
pub struct Thread {
    pub id: i32,
    pub target_id: String,
}

pub ghost struct ThreadView {
    pub id: int,
    pub target_id: Seq<char>,
}

impl View for Thread {
    type V = ThreadView;

    open spec fn view(&self) -> ThreadView {
        ThreadView { id: self.id as int, target_id: self.target_id@ }
    }
}

/// The threads of a list, as the contracts see them.
pub open spec fn threads_view(threads: Seq<Thread>) -> Seq<ThreadView> {
    Seq::new(threads.len(), |i: int| threads[i]@)
}

/// A variable object whose value has changed: its name and its new value.
#[derive(Debug, PartialEq, Eq)]
pub struct Change {
    pub name: String,
    pub value: String,
}

pub ghost struct ChangeView {
    pub name: Seq<char>,
    pub value: Seq<char>,
}

impl View for Change {
    type V = ChangeView;

    open spec fn view(&self) -> ChangeView {
        ChangeView { name: self.name@, value: self.value@ }
    }
}

/// The changes of a list, as the contracts see them.
pub open spec fn changes_view(changes: Seq<Change>) -> Seq<ChangeView> {
    Seq::new(changes.len(), |i: int| changes[i]@)
}

/// What a notification asks for.
#[derive(Debug, PartialEq, Eq)]
pub enum AsyncEvent {
    /// A breakpoint was created or modified: this is what it is now.
    BreakpointChanged(Breakpoint),
    /// The program has stopped: threads and expressions are out of date.
    Stopped,
    /// Nothing.
    Other,
}

pub ghost enum AsyncEventView {
    BreakpointChanged(BreakpointView),
    Stopped,
    Other,
}

impl View for AsyncEvent {
    type V = AsyncEventView;

    open spec fn view(&self) -> AsyncEventView {
        match self {
            AsyncEvent::BreakpointChanged(b) => AsyncEventView::BreakpointChanged(b@),
            AsyncEvent::Stopped => AsyncEventView::Stopped,
            AsyncEvent::Other => AsyncEventView::Other,
        }
    }
}

/// An expression that the debugger evaluates, or a child of one.
#[derive(Debug, PartialEq, Eq)]
pub struct Value {
    pub expr: Option<String>,
    pub value: String,
    pub name: String,
    pub type_: String,
    pub n_children: usize,
}

pub ghost struct ValueView {
    pub expr: Option<Seq<char>>,
    pub value: Seq<char>,
    pub name: Seq<char>,
    pub type_: Seq<char>,
    pub n_children: nat,
}

impl View for Value {
    type V = ValueView;

    open spec fn view(&self) -> ValueView {
        ValueView {
            expr: text_view(self.expr),
            value: self.value@,
            name: self.name@,
            type_: self.type_@,
            n_children: self.n_children as nat,
        }
    }
}

/// The expressions of a list, as the contracts see them.
pub open spec fn exprs_view(exprs: Seq<Value>) -> Seq<ValueView> {
    Seq::new(exprs.len(), |i: int| exprs[i]@)
}

/// An instruction of the program, as the debugger disassembles it.
#[derive(Debug, PartialEq, Eq)]
pub struct AsmInst {
    pub offset: usize,
    pub func_name: String,
    pub inst: String,
    pub address: String,
}

pub ghost struct AsmInstView {
    pub offset: nat,
    pub func_name: Seq<char>,
    pub inst: Seq<char>,
    pub address: Seq<char>,
}

impl View for AsmInst {
    type V = AsmInstView;

    open spec fn view(&self) -> AsmInstView {
        AsmInstView {
            offset: self.offset as nat,
            func_name: self.func_name@,
            inst: self.inst@,
            address: self.address@,
        }
    }
}

/// The instructions of a list, as the contracts see them.
pub open spec fn insts_view(insts: Seq<AsmInst>) -> Seq<AsmInstView> {
    Seq::new(insts.len(), |i: int| insts[i]@)
}

} // verus!
