//! From the values of the machine interface to what they say of
//! breakpoints, frames, expressions and instructions.

use crate::mi::output_syntax as mi;
use crate::mi::output_syntax::{fields_view, lookup, values_view, FieldView};
use crate::mi::text::same_text;
use crate::mi::output_syntax::{AsyncRecord, AsyncRecordView};
use crate::numbers::{parse_i32, parse_u32, parse_usize, spec_number, spec_signed_number};
use crate::types::{
    changes_view, exprs_view, frames_view, insts_view, number_view, text_view, threads_view,
    AsmInst, AsmInstView, AsyncEvent, AsyncEventView, Backtrace, Breakpoint,
    BreakpointDisposition, BreakpointType, BreakpointView, Change, ChangeView, Frame, FrameView,
    Thread, ThreadView, Value, ValueView,
};
use vstd::prelude::*;

verus! {

/// The text of the field called `name`, which must be there and hold text.
pub open spec fn required_text(fields: Seq<FieldView>, name: Seq<char>) -> Option<Seq<char>> {
    match lookup(fields, name) {
        Some(mi::ValueView::Const(text)) => Some(text),
        _ => None,
    }
}

/// The text of the field called `name`, which may be missing; where it is
/// there it must hold text.
pub open spec fn optional_text(fields: Seq<FieldView>, name: Seq<char>) -> Option<
    Option<Seq<char>>,
> {
    match lookup(fields, name) {
        Some(mi::ValueView::Const(text)) => Some(Some(text)),
        Some(_) => None,
        None => Some(None),
    }
}

/// The number in the field called `name`, which must be there and hold a
/// number no greater than `max`.
pub open spec fn required_number(fields: Seq<FieldView>, name: Seq<char>, max: nat) -> Option<
    nat,
> {
    match required_text(fields, name) {
        Some(text) => spec_number(text, max),
        None => None,
    }
}

/// The number in the field called `name`, which may be missing; where it is
/// there it must hold a number no greater than `max`.
pub open spec fn optional_number(fields: Seq<FieldView>, name: Seq<char>, max: nat) -> Option<
    Option<nat>,
> {
    match optional_text(fields, name) {
        Some(Some(text)) => match spec_number(text, max) {
            Some(n) => Some(Some(n)),
            None => None,
        },
        Some(None) => Some(None),
        None => None,
    }
}

/// The first field of `fields` that is called `name`.
fn find<'a>(fields: &'a Vec<(mi::Var, mi::Value)>, name: &str) -> (r: Option<
    &'a mi::Value,
>)
    ensures
        match r {
            Some(value) => lookup(fields_view(fields@), name@) == Some(value@),
            None => lookup(fields_view(fields@), name@) is None,
        },
{
    let ghost all = fields_view(fields@);
    let mut i: usize = 0;
    assert(all.skip(0) =~= all);
    while i < fields.len()
        invariant
            i <= fields.len(),
            all == fields_view(fields@),
            lookup(all, name@) == lookup(all.skip(i as int), name@),
        decreases fields.len() - i,
    {
        assert(all.skip(i as int)[0] == all[i as int]);
        assert(all.skip(i as int).skip(1) =~= all.skip(i + 1));
        if same_text(fields[i].0.as_str(), name) {
            return Some(&fields[i].1);
        }
        i = i + 1;
    }
    None
}

/// Reads the text of the field called `name`.
fn text_of(fields: &Vec<(mi::Var, mi::Value)>, name: &str) -> (r: Option<
    String,
>)
    ensures
        match r {
            Some(text) => required_text(fields_view(fields@), name@) == Some(text@),
            None => required_text(fields_view(fields@), name@) is None,
        },
{
    match find(fields, name) {
        Some(value) => match value.get_const_ref() {
            Some(text) => Some(text.to_owned()),
            None => None,
        },
        None => None,
    }
}

/// Reads the text of the field called `name`, if the field is there.
fn optional_text_of(fields: &Vec<(mi::Var, mi::Value)>, name: &str) -> (r:
    Option<Option<String>>)
    ensures
        match r {
            Some(text) => optional_text(fields_view(fields@), name@) == Some(
                text_view(text),
            ),
            None => optional_text(fields_view(fields@), name@) is None,
        },
{
    match find(fields, name) {
        Some(value) => match value.get_const_ref() {
            Some(text) => Some(Some(text.to_owned())),
            None => None,
        },
        None => Some(None),
    }
}

/// Reads the number in the field called `name`, as a `usize`.
fn usize_of(fields: &Vec<(mi::Var, mi::Value)>, name: &str) -> (r: Option<
    usize,
>)
    ensures
        match r {
            Some(n) => required_number(fields_view(fields@), name@, usize::MAX as nat) == Some(
                n as nat,
            ),
            None => required_number(fields_view(fields@), name@, usize::MAX as nat) is None,
        },
{
    match find(fields, name) {
        Some(value) => match value.get_const_ref() {
            Some(text) => parse_usize(text),
            None => None,
        },
        None => None,
    }
}

/// Reads the number in the field called `name`, as a `u32`.
fn u32_of(fields: &Vec<(mi::Var, mi::Value)>, name: &str) -> (r: Option<u32>)
    ensures
        match r {
            Some(n) => required_number(fields_view(fields@), name@, u32::MAX as nat) == Some(
                n as nat,
            ),
            None => required_number(fields_view(fields@), name@, u32::MAX as nat) is None,
        },
{
    match find(fields, name) {
        Some(value) => match value.get_const_ref() {
            Some(text) => parse_u32(text),
            None => None,
        },
        None => None,
    }
}

/// Reads the number in the field called `name`, if the field is there, as a
/// `usize`.
fn optional_usize_of(fields: &Vec<(mi::Var, mi::Value)>, name: &str) -> (r: Option<Option<usize>>)
    ensures
        match r {
            Some(n) => optional_number(fields_view(fields@), name@, usize::MAX as nat) == Some(
                number_view(n),
            ),
            None => optional_number(fields_view(fields@), name@, usize::MAX as nat) is None,
        },
{
    match find(fields, name) {
        Some(value) => match value.get_const_ref() {
            Some(text) => match parse_usize(text) {
                Some(n) => Some(Some(n)),
                None => None,
            },
            None => None,
        },
        None => Some(None),
    }
}

/// Reads the number in the field called `name`, if the field is there, as a
/// `u32`.
fn optional_u32_of(fields: &Vec<(mi::Var, mi::Value)>, name: &str) -> (r: Option<Option<u32>>)
    ensures
        match r {
            Some(n) => optional_number(fields_view(fields@), name@, u32::MAX as nat) == Some(
                match n {
                    Some(n) => Some(n as nat),
                    None => None,
                },
            ),
            None => optional_number(fields_view(fields@), name@, u32::MAX as nat) is None,
        },
{
    match find(fields, name) {
        Some(value) => match value.get_const_ref() {
            Some(text) => match parse_u32(text) {
                Some(n) => Some(Some(n)),
                None => None,
            },
            None => None,
        },
        None => Some(None),
    }
}

/// The frame that the fields describe: `level`, `addr` and `func` must be
/// there; `file`, `fullname` and `line` may be missing. Where a field that
/// is there does not hold what it should, there is no frame.
pub open spec fn spec_frame(fields: Seq<FieldView>) -> Option<FrameView> {
    let level = required_number(fields, "level"@, usize::MAX as nat);
    let addr = required_text(fields, "addr"@);
    let func = required_text(fields, "func"@);
    let file = optional_text(fields, "file"@);
    let fullname = optional_text(fields, "fullname"@);
    let line = optional_number(fields, "line"@, usize::MAX as nat);
    if level is Some && addr is Some && func is Some && file is Some && fullname is Some
        && line is Some {
        Some(
            FrameView {
                level: level->0,
                addr: addr->0,
                func: func->0,
                file: file->0,
                fullname: fullname->0,
                line: line->0,
                from: None,
            },
        )
    } else {
        None
    }
}

/// Reads a frame out of the fields of a tuple.
fn frame_of(fields: &Vec<(mi::Var, mi::Value)>) -> (r: Option<Frame>)
    ensures
        match r {
            Some(frame) => spec_frame(fields_view(fields@)) == Some(frame@),
            None => spec_frame(fields_view(fields@)) is None,
        },
{
    let level = usize_of(fields, "level")?;
    let addr = text_of(fields, "addr")?;
    let func = text_of(fields, "func")?;
    let file = optional_text_of(fields, "file")?;
    let fullname = optional_text_of(fields, "fullname")?;
    let line = optional_usize_of(fields, "line")?;
    Some(Frame { level, addr, func, file, fullname, line, from: None })
}

/// Reads a single frame out of the fields of a tuple.
pub fn parse_frame(v: Vec<(mi::Var, mi::Value)>) -> (r: Option<Frame>)
    ensures
        match r {
            Some(frame) => spec_frame(fields_view(v@)) == Some(frame@),
            None => spec_frame(fields_view(v@)) is None,
        },
{
    frame_of(&v)
}

/// The frame that one entry of a stack describes: the entry must be called
/// `frame` and hold a tuple.
pub open spec fn spec_frame_entry(entry: FieldView) -> Option<FrameView> {
    if entry.0 == "frame"@ {
        match entry.1 {
            mi::ValueView::Tuple(fields) => spec_frame(fields),
            _ => None,
        }
    } else {
        None
    }
}

/// The frames that the entries of a stack describe, where each of them
/// describes one.
pub open spec fn spec_backtrace(entries: Seq<FieldView>) -> Option<Seq<FrameView>> {
    if forall|i: int| 0 <= i < entries.len() ==> spec_frame_entry(#[trigger] entries[i]) is Some {
        Some(Seq::new(entries.len(), |i: int| spec_frame_entry(entries[i])->0))
    } else {
        None
    }
}

/// Reads the frames of a stack out of a list of fields.
pub fn parse_backtrace(v: Vec<(mi::Var, mi::Value)>) -> (r: Option<Backtrace>)
    ensures
        match r {
            Some(backtrace) => spec_backtrace(fields_view(v@)) == Some(backtrace@),
            None => spec_backtrace(fields_view(v@)) is None,
        },
{
    backtrace_of(&v)
}

/// What the text of `disp` says becomes of a breakpoint that was hit.
pub open spec fn spec_disposition(text: Seq<char>) -> Option<BreakpointDisposition> {
    if text == "keep"@ {
        Some(BreakpointDisposition::Keep)
    } else if text == "nokeep"@ {
        Some(BreakpointDisposition::NoKeep)
    } else {
        None
    }
}

/// What the text of `enabled` says.
pub open spec fn spec_enabled(text: Seq<char>) -> Option<bool> {
    if text == "y"@ {
        Some(true)
    } else if text == "n"@ {
        Some(false)
    } else {
        None
    }
}

/// The breakpoint that the fields describe. `number`, `type`, `disp`,
/// `enabled`, `addr`, `original-location` and `times` must be there, the
/// `type` being `breakpoint`; `file`, `fullname`, `line` and `cond` may be
/// missing.
pub open spec fn spec_breakpoint(fields: Seq<FieldView>) -> Option<BreakpointView> {
    let number = required_number(fields, "number"@, u32::MAX as nat);
    let type_ = required_text(fields, "type"@);
    let disp = required_text(fields, "disp"@);
    let enabled = required_text(fields, "enabled"@);
    let address = required_text(fields, "addr"@);
    let original_location = required_text(fields, "original-location"@);
    let file = optional_text(fields, "file"@);
    let fullname = optional_text(fields, "fullname"@);
    let line = optional_number(fields, "line"@, u32::MAX as nat);
    let cond = optional_text(fields, "cond"@);
    let hits = required_number(fields, "times"@, u32::MAX as nat);
    if number is Some && type_ == Some("breakpoint"@) && disp is Some && spec_disposition(
        disp->0,
    ) is Some && enabled is Some && spec_enabled(enabled->0) is Some && address is Some
        && original_location is Some && file is Some && fullname is Some && line is Some
        && cond is Some && hits is Some {
        Some(
            BreakpointView {
                number: number->0,
                type_: BreakpointType::Breakpoint,
                disposition: spec_disposition(disp->0)->0,
                enabled: spec_enabled(enabled->0)->0,
                address: address->0,
                original_location: original_location->0,
                file: file->0,
                fullname: fullname->0,
                line: line->0,
                cond: cond->0,
                hits: hits->0,
            },
        )
    } else {
        None
    }
}

/// Reads a breakpoint out of the fields of a tuple.
fn breakpoint_of(fields: &Vec<(mi::Var, mi::Value)>) -> (r: Option<Breakpoint>)
    ensures
        match r {
            Some(breakpoint) => spec_breakpoint(fields_view(fields@)) == Some(breakpoint@),
            None => spec_breakpoint(fields_view(fields@)) is None,
        },
{
    let number = u32_of(fields, "number")?;
    let type_text = text_of(fields, "type")?;
    if !same_text(type_text.as_str(), "breakpoint") {
        return None;
    }
    let disp = text_of(fields, "disp")?;
    let disposition = if same_text(disp.as_str(), "keep") {
        BreakpointDisposition::Keep
    } else if same_text(disp.as_str(), "nokeep") {
        BreakpointDisposition::NoKeep
    } else {
        return None;
    };
    let enabled_text = text_of(fields, "enabled")?;
    let enabled = if same_text(enabled_text.as_str(), "y") {
        true
    } else if same_text(enabled_text.as_str(), "n") {
        false
    } else {
        return None;
    };
    let address = text_of(fields, "addr")?;
    let original_location = text_of(fields, "original-location")?;
    let file = optional_text_of(fields, "file")?;
    let fullname = optional_text_of(fields, "fullname")?;
    let line = optional_u32_of(fields, "line")?;
    let cond = optional_text_of(fields, "cond")?;
    let hits = u32_of(fields, "times")?;
    Some(
        Breakpoint {
            number,
            type_: BreakpointType::Breakpoint,
            disposition,
            enabled,
            address,
            original_location,
            file,
            fullname,
            line,
            cond,
            hits,
        },
    )
}

/// Reads a breakpoint out of the fields of a tuple.
pub fn parse_breakpoint(v: Vec<(mi::Var, mi::Value)>) -> (r: Option<Breakpoint>)
    ensures
        match r {
            Some(breakpoint) => spec_breakpoint(fields_view(v@)) == Some(breakpoint@),
            None => spec_breakpoint(fields_view(v@)) is None,
        },
{
    breakpoint_of(&v)
}

/// The breakpoint that the answer to an insertion describes: its field
/// `bkpt` must hold a tuple that describes one.
pub open spec fn spec_break_insert_result(results: Seq<FieldView>) -> Option<BreakpointView> {
    match lookup(results, "bkpt"@) {
        Some(mi::ValueView::Tuple(fields)) => spec_breakpoint(fields),
        _ => None,
    }
}

/// Reads the breakpoint out of the answer to an insertion.
pub fn parse_break_insert_result(results: Vec<(mi::Var, mi::Value)>) -> (r: Option<Breakpoint>)
    ensures
        match r {
            Some(breakpoint) => spec_break_insert_result(fields_view(results@)) == Some(
                breakpoint@,
            ),
            None => spec_break_insert_result(fields_view(results@)) is None,
        },
{
    match find(&results, "bkpt") {
        Some(mi::Value::Tuple(fields)) => breakpoint_of(fields),
        _ => None,
    }
}

/// The expression that the fields describe. `value`, `name`, `type` and
/// `numchild` must be there; `exp` may be missing.
pub open spec fn spec_expr(fields: Seq<FieldView>) -> Option<ValueView> {
    let expr = optional_text(fields, "exp"@);
    let value = required_text(fields, "value"@);
    let name = required_text(fields, "name"@);
    let type_ = required_text(fields, "type"@);
    let n_children = required_number(fields, "numchild"@, usize::MAX as nat);
    if expr is Some && value is Some && name is Some && type_ is Some && n_children is Some {
        Some(
            ValueView {
                expr: expr->0,
                value: value->0,
                name: name->0,
                type_: type_->0,
                n_children: n_children->0,
            },
        )
    } else {
        None
    }
}

/// Reads an expression out of the fields of a tuple.
fn expr_of(fields: &Vec<(mi::Var, mi::Value)>) -> (r: Option<Value>)
    ensures
        match r {
            Some(expr) => spec_expr(fields_view(fields@)) == Some(expr@),
            None => spec_expr(fields_view(fields@)) is None,
        },
{
    let expr = optional_text_of(fields, "exp")?;
    let value = text_of(fields, "value")?;
    let name = text_of(fields, "name")?;
    let type_ = text_of(fields, "type")?;
    let n_children = usize_of(fields, "numchild")?;
    Some(Value { expr, value, name, type_, n_children })
}

/// Reads an expression out of the fields that describe it: the answer to
/// the creation of a variable object, or one child in a list of children.
pub fn parse_expr(v: Vec<(mi::Var, mi::Value)>) -> (r: Option<Value>)
    ensures
        match r {
            Some(expr) => spec_expr(fields_view(v@)) == Some(expr@),
            None => spec_expr(fields_view(v@)) is None,
        },
{
    expr_of(&v)
}

/// Reads the expression out of the answer to the creation of a variable
/// object.
pub fn parse_var_create_result(results: Vec<(mi::Var, mi::Value)>) -> (r: Option<Value>)
    ensures
        match r {
            Some(expr) => spec_expr(fields_view(results@)) == Some(expr@),
            None => spec_expr(fields_view(results@)) is None,
        },
{
    expr_of(&results)
}

/// The expression that one child describes, whatever it is called: it must
/// hold a tuple.
pub open spec fn spec_child(entry: FieldView) -> Option<ValueView> {
    match entry.1 {
        mi::ValueView::Tuple(fields) => spec_expr(fields),
        _ => None,
    }
}

/// The expressions that the answer to a listing of children describes: its
/// field `children` must hold a list of fields, each of which describes one.
pub open spec fn spec_var_list_children_result(results: Seq<FieldView>) -> Option<
    Seq<ValueView>,
> {
    match lookup(results, "children"@) {
        Some(mi::ValueView::ResultList(children)) => if forall|i: int|
            0 <= i < children.len() ==> spec_child(#[trigger] children[i]) is Some {
            Some(Seq::new(children.len(), |i: int| spec_child(children[i])->0))
        } else {
            None
        },
        _ => None,
    }
}

/// Reads the children out of the answer to a listing of children.
pub fn parse_var_list_children_result(results: Vec<(mi::Var, mi::Value)>) -> (r: Option<
    Vec<Value>,
>)
    ensures
        match r {
            Some(exprs) => spec_var_list_children_result(fields_view(results@)) == Some(
                exprs_view(exprs@),
            ),
            None => spec_var_list_children_result(fields_view(results@)) is None,
        },
{
    let list = match find(&results, "children") {
        Some(mi::Value::ResultList(list)) => list,
        _ => {
            return None;
        },
    };
    let ghost children = fields_view(list@);
    let mut ret: Vec<Value> = Vec::new();
    let mut i: usize = 0;
    while i < list.len()
        invariant
            i <= list.len(),
            children == fields_view(list@),
            lookup(fields_view(results@), "children"@) == Some(
                mi::ValueView::ResultList(children),
            ),
            ret.len() == i,
            forall|k: int| 0 <= k < i ==> spec_child(#[trigger] children[k]) == Some(ret[k]@),
        decreases list.len() - i,
    {
        let child = match &list[i].1 {
            mi::Value::Tuple(fields) => expr_of(fields),
            _ => None,
        };
        match child {
            Some(child) => {
                ret.push(child);
            },
            None => {
                assert(spec_child(children[i as int]) is None);
                return None;
            },
        }
        i = i + 1;
    }
    assert(exprs_view(ret@) =~= Seq::new(children.len(), |i: int| spec_child(children[i])->0));
    Some(ret)
}

/// The instruction that a value describes: a tuple in which `offset`,
/// `func-name`, `inst` and `address` are there.
pub open spec fn spec_asm_inst(value: mi::ValueView) -> Option<AsmInstView> {
    match value {
        mi::ValueView::Tuple(fields) => {
            let offset = required_number(fields, "offset"@, usize::MAX as nat);
            let func_name = required_text(fields, "func-name"@);
            let inst = required_text(fields, "inst"@);
            let address = required_text(fields, "address"@);
            if offset is Some && func_name is Some && inst is Some && address is Some {
                Some(
                    AsmInstView {
                        offset: offset->0,
                        func_name: func_name->0,
                        inst: inst->0,
                        address: address->0,
                    },
                )
            } else {
                None
            }
        },
        _ => None,
    }
}

/// The instructions that the values describe, where each of them describes
/// one.
pub open spec fn spec_asm_insts(values: Seq<mi::ValueView>) -> Option<Seq<AsmInstView>> {
    if forall|i: int| 0 <= i < values.len() ==> spec_asm_inst(#[trigger] values[i]) is Some {
        Some(Seq::new(values.len(), |i: int| spec_asm_inst(values[i])->0))
    } else {
        None
    }
}

/// Reads one instruction out of a value.
fn asm_inst_of(value: &mi::Value) -> (r: Option<AsmInst>)
    ensures
        match r {
            Some(inst) => spec_asm_inst(value@) == Some(inst@),
            None => spec_asm_inst(value@) is None,
        },
{
    match value {
        mi::Value::Tuple(fields) => {
            let offset = usize_of(fields, "offset")?;
            let func_name = text_of(fields, "func-name")?;
            let inst = text_of(fields, "inst")?;
            let address = text_of(fields, "address")?;
            Some(AsmInst { offset, func_name, inst, address })
        },
        _ => None,
    }
}

/// Reads the instructions out of the list that a disassembly answers with.
pub fn _parse_asm_insts(insts: Vec<mi::Value>) -> (r: Option<Vec<AsmInst>>)
    ensures
        match r {
            Some(ret) => spec_asm_insts(values_view(insts@)) == Some(insts_view(ret@)),
            None => spec_asm_insts(values_view(insts@)) is None,
        },
{
    let ghost values = values_view(insts@);
    let mut ret: Vec<AsmInst> = Vec::new();
    let mut i: usize = 0;
    while i < insts.len()
        invariant
            i <= insts.len(),
            values == values_view(insts@),
            ret.len() == i,
            forall|k: int| 0 <= k < i ==> spec_asm_inst(#[trigger] values[k]) == Some(ret[k]@),
        decreases insts.len() - i,
    {
        match asm_inst_of(&insts[i]) {
            Some(inst) => {
                ret.push(inst);
            },
            None => {
                assert(spec_asm_inst(values[i as int]) is None);
                return None;
            },
        }
        i = i + 1;
    }
    assert(insts_view(ret@) =~= Seq::new(values.len(), |i: int| spec_asm_inst(values[i])->0));
    Some(ret)
}

/// The frames that the answer to a listing of a thread's stack describes:
/// its field `stack` must hold a list of fields, each of which describes a
/// frame.
pub open spec fn spec_thread_stack_result(results: Seq<FieldView>) -> Option<Seq<FrameView>> {
    match lookup(results, "stack"@) {
        Some(mi::ValueView::ResultList(entries)) => spec_backtrace(entries),
        _ => None,
    }
}

/// Reads the frames of a stack out of a list of fields.
fn backtrace_of(v: &Vec<(mi::Var, mi::Value)>) -> (r: Option<Backtrace>)
    ensures
        match r {
            Some(backtrace) => spec_backtrace(fields_view(v@)) == Some(backtrace@),
            None => spec_backtrace(fields_view(v@)) is None,
        },
{
    let ghost entries = fields_view(v@);
    let mut frames: Vec<Frame> = Vec::new();
    let mut i: usize = 0;
    while i < v.len()
        invariant
            i <= v.len(),
            entries == fields_view(v@),
            frames.len() == i,
            forall|k: int| 0 <= k < i ==> spec_frame_entry(#[trigger] entries[k]) == Some(frames[k]@),
        decreases v.len() - i,
    {
        let frame = if same_text(v[i].0.as_str(), "frame") {
            match &v[i].1 {
                mi::Value::Tuple(fields) => frame_of(fields),
                _ => None,
            }
        } else {
            None
        };
        match frame {
            Some(frame) => {
                frames.push(frame);
            },
            None => {
                assert(spec_frame_entry(entries[i as int]) is None);
                return None;
            },
        }
        i = i + 1;
    }
    assert(frames_view(frames@) =~= Seq::new(
        entries.len(),
        |i: int| spec_frame_entry(entries[i])->0,
    ));
    Some(Backtrace(frames))
}

/// Reads the stack out of the answer to a listing of a thread's frames.
pub fn parse_thread_stack_result(results: Vec<(mi::Var, mi::Value)>) -> (r: Option<Backtrace>)
    ensures
        match r {
            Some(backtrace) => spec_thread_stack_result(fields_view(results@)) == Some(
                backtrace@,
            ),
            None => spec_thread_stack_result(fields_view(results@)) is None,
        },
{
    match find(&results, "stack") {
        Some(mi::Value::ResultList(entries)) => backtrace_of(entries),
        _ => None,
    }
}

/// The thread that a value describes: a tuple in which `id` holds a number
/// and `target-id` a text.
pub open spec fn spec_thread(value: mi::ValueView) -> Option<ThreadView> {
    match value {
        mi::ValueView::Tuple(fields) => {
            let id = match required_text(fields, "id"@) {
                Some(text) => spec_signed_number(text, 0x8000_0000, 0x7fff_ffff),
                None => None,
            };
            let target_id = required_text(fields, "target-id"@);
            if id is Some && target_id is Some {
                Some(ThreadView { id: id->0, target_id: target_id->0 })
            } else {
                None
            }
        },
        _ => None,
    }
}

/// The threads that the answer to a question for the threads describes: its
/// field `threads` must hold a list of values, each of which describes one.
pub open spec fn spec_thread_info_result(results: Seq<FieldView>) -> Option<Seq<ThreadView>> {
    match lookup(results, "threads"@) {
        Some(mi::ValueView::ValueList(values)) => if forall|i: int|
            0 <= i < values.len() ==> spec_thread(#[trigger] values[i]) is Some {
            Some(Seq::new(values.len(), |i: int| spec_thread(values[i])->0))
        } else {
            None
        },
        _ => None,
    }
}

/// Reads one thread out of a value.
fn thread_of(value: &mi::Value) -> (r: Option<Thread>)
    ensures
        match r {
            Some(thread) => spec_thread(value@) == Some(thread@),
            None => spec_thread(value@) is None,
        },
{
    match value {
        mi::Value::Tuple(fields) => {
            let id = match find(fields, "id") {
                Some(value) => match value.get_const_ref() {
                    Some(text) => parse_i32(text)?,
                    None => {
                        return None;
                    },
                },
                None => {
                    return None;
                },
            };
            let target_id = text_of(fields, "target-id")?;
            Some(Thread { id, target_id })
        },
        _ => None,
    }
}

/// Reads the threads out of the answer to a question for the threads.
pub fn parse_thread_info_result(results: Vec<(mi::Var, mi::Value)>) -> (r: Option<Vec<Thread>>)
    ensures
        match r {
            Some(threads) => spec_thread_info_result(fields_view(results@)) == Some(
                threads_view(threads@),
            ),
            None => spec_thread_info_result(fields_view(results@)) is None,
        },
{
    let list = match find(&results, "threads") {
        Some(mi::Value::ValueList(list)) => list,
        _ => {
            return None;
        },
    };
    let ghost values = values_view(list@);
    let mut ret: Vec<Thread> = Vec::new();
    let mut i: usize = 0;
    while i < list.len()
        invariant
            i <= list.len(),
            values == values_view(list@),
            lookup(fields_view(results@), "threads"@) == Some(mi::ValueView::ValueList(values)),
            ret.len() == i,
            forall|k: int| 0 <= k < i ==> spec_thread(#[trigger] values[k]) == Some(ret[k]@),
        decreases list.len() - i,
    {
        match thread_of(&list[i]) {
            Some(thread) => {
                ret.push(thread);
            },
            None => {
                assert(spec_thread(values[i as int]) is None);
                return None;
            },
        }
        i = i + 1;
    }
    assert(threads_view(ret@) =~= Seq::new(values.len(), |i: int| spec_thread(values[i])->0));
    Some(ret)
}

/// The change that a value describes: a tuple in which `name` and `value`
/// hold text.
pub open spec fn spec_change(value: mi::ValueView) -> Option<ChangeView> {
    match value {
        mi::ValueView::Tuple(fields) => {
            let name = required_text(fields, "name"@);
            let value = required_text(fields, "value"@);
            if name is Some && value is Some {
                Some(ChangeView { name: name->0, value: value->0 })
            } else {
                None
            }
        },
        _ => None,
    }
}

/// The changes that the answer to an update of the variable objects
/// describes: its field `changelist` must hold a list of values, each of
/// which describes one.
pub open spec fn spec_var_update_result(results: Seq<FieldView>) -> Option<Seq<ChangeView>> {
    match lookup(results, "changelist"@) {
        Some(mi::ValueView::ValueList(values)) => if forall|i: int|
            0 <= i < values.len() ==> spec_change(#[trigger] values[i]) is Some {
            Some(Seq::new(values.len(), |i: int| spec_change(values[i])->0))
        } else {
            None
        },
        _ => None,
    }
}

/// Reads one change out of a value.
fn change_of(value: &mi::Value) -> (r: Option<Change>)
    ensures
        match r {
            Some(change) => spec_change(value@) == Some(change@),
            None => spec_change(value@) is None,
        },
{
    match value {
        mi::Value::Tuple(fields) => {
            let name = text_of(fields, "name")?;
            let value = text_of(fields, "value")?;
            Some(Change { name, value })
        },
        _ => None,
    }
}

/// Reads the changes out of the answer to an update of the variable
/// objects.
pub fn parse_var_update_result(results: Vec<(mi::Var, mi::Value)>) -> (r: Option<Vec<Change>>)
    ensures
        match r {
            Some(changes) => spec_var_update_result(fields_view(results@)) == Some(
                changes_view(changes@),
            ),
            None => spec_var_update_result(fields_view(results@)) is None,
        },
{
    let list = match find(&results, "changelist") {
        Some(mi::Value::ValueList(list)) => list,
        _ => {
            return None;
        },
    };
    let ghost values = values_view(list@);
    let mut ret: Vec<Change> = Vec::new();
    let mut i: usize = 0;
    while i < list.len()
        invariant
            i <= list.len(),
            values == values_view(list@),
            lookup(fields_view(results@), "changelist"@) == Some(
                mi::ValueView::ValueList(values),
            ),
            ret.len() == i,
            forall|k: int| 0 <= k < i ==> spec_change(#[trigger] values[k]) == Some(ret[k]@),
        decreases list.len() - i,
    {
        match change_of(&list[i]) {
            Some(change) => {
                ret.push(change);
            },
            None => {
                assert(spec_change(values[i as int]) is None);
                return None;
            },
        }
        i = i + 1;
    }
    assert(changes_view(ret@) =~= Seq::new(values.len(), |i: int| spec_change(values[i])->0));
    Some(ret)
}

/// What a notification asks for. One of the class `breakpoint-created` or
/// `breakpoint-modified` whose field `bkpt` describes a breakpoint says that
/// the breakpoint has changed; one of the class `stopped` says that the
/// program has stopped; any other asks for nothing.
pub open spec fn spec_async_event(record: AsyncRecordView) -> AsyncEventView {
    if record.class == "breakpoint-created"@ || record.class == "breakpoint-modified"@ {
        match spec_break_insert_result(record.results) {
            Some(breakpoint) => AsyncEventView::BreakpointChanged(breakpoint),
            None => AsyncEventView::Other,
        }
    } else if record.class == "stopped"@ {
        AsyncEventView::Stopped
    } else {
        AsyncEventView::Other
    }
}

/// Says what a notification asks for.
pub fn parse_async_event(record: &AsyncRecord) -> (event: AsyncEvent)
    ensures
        event@ == spec_async_event(record@),
{
    let class = record.class.as_str();
    if same_text(class, "breakpoint-created") || same_text(class, "breakpoint-modified") {
        let breakpoint = match find(&record.results, "bkpt") {
            Some(mi::Value::Tuple(fields)) => breakpoint_of(fields),
            _ => None,
        };
        match breakpoint {
            Some(breakpoint) => AsyncEvent::BreakpointChanged(breakpoint),
            None => AsyncEvent::Other,
        }
    } else if same_text(class, "stopped") {
        AsyncEvent::Stopped
    } else {
        AsyncEvent::Other
    }
}

} // verus!
