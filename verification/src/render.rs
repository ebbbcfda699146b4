//! Records as lines of marked-up text.
//!
//! A line is made of pieces. What the debugger said stands in it as plain
//! text, which must be escaped before it is shown as markup; what this
//! module adds around it is markup already.

use crate::mi::output_syntax::{
    fields_view, values_view, AsyncRecord, AsyncRecordView, FieldView, OutOfBandResult,
    OutOfBandView, Result, ResultClass, ResultOrOOB, ResultOrOOBView, ResultView, Value,
    ValueView, Var,
};
use vstd::prelude::*;

verus! {

/// One piece of a line.
#[derive(Debug, PartialEq, Eq)]
pub enum Piece {
    /// Markup, to be shown as it is.
    Markup(String),
    /// Plain text, to be escaped.
    Text(String),
}

pub ghost enum PieceView {
    Markup(Seq<char>),
    Text(Seq<char>),
}

impl View for Piece {
    type V = PieceView;

    open spec fn view(&self) -> PieceView {
        match self {
            Piece::Markup(s) => PieceView::Markup(s@),
            Piece::Text(s) => PieceView::Text(s@),
        }
    }
}

/// The pieces of a line, as the contracts see them.
pub open spec fn pieces_view(pieces: Seq<Piece>) -> Seq<PieceView> {
    Seq::new(pieces.len(), |i: int| pieces[i]@)
}

/// A value: a text as it is, a tuple between braces, a list behind a
/// bracket. A list of values is closed by a bracket; a list of fields is left
/// open.
pub open spec fn spec_render_value(value: ValueView) -> Seq<PieceView>
    decreases value, 0nat,
{
    match value {
        ValueView::Const(text) => seq![PieceView::Text(text)],
        ValueView::Tuple(fields) => seq![PieceView::Markup("{"@)] + spec_render_fields(
            fields,
            fields.len(),
        ) + seq![PieceView::Markup("}"@)],
        ValueView::ValueList(items) => seq![PieceView::Markup("["@)] + spec_render_values(
            items,
            items.len(),
        ) + seq![PieceView::Markup("]"@)],
        ValueView::ResultList(fields) => seq![PieceView::Markup("["@)] + spec_render_fields(
            fields,
            fields.len(),
        ),
    }
}

/// The first `n` of the fields, each as `name = value`, with `, ` between
/// them.
pub open spec fn spec_render_fields(fields: Seq<FieldView>, n: nat) -> Seq<PieceView>
    decreases fields, n,
{
    if n == 0 || n > fields.len() {
        Seq::empty()
    } else {
        spec_render_fields(fields, (n - 1) as nat) + (if n > 1 {
            seq![PieceView::Markup(", "@)]
        } else {
            Seq::empty()
        }) + seq![PieceView::Markup(fields[n - 1].0), PieceView::Markup(" = "@)]
            + spec_render_value(fields[n - 1].1)
    }
}

/// The first `n` of the values, with `, ` between them.
pub open spec fn spec_render_values(items: Seq<ValueView>, n: nat) -> Seq<PieceView>
    decreases items, n,
{
    if n == 0 || n > items.len() {
        Seq::empty()
    } else {
        spec_render_values(items, (n - 1) as nat) + (if n > 1 {
            seq![PieceView::Markup(", "@)]
        } else {
            Seq::empty()
        }) + spec_render_value(items[n - 1])
    }
}

/// Adds markup to a line.
fn push_markup(out: &mut Vec<Piece>, markup: &str)
    ensures
        pieces_view(final(out)@) == pieces_view(old(out)@).push(PieceView::Markup(markup@)),
{
    out.push(Piece::Markup(markup.to_owned()));
    assert(pieces_view(out@) =~= pieces_view(old(out)@).push(PieceView::Markup(markup@)));
}

/// Adds plain text to a line.
fn push_text(out: &mut Vec<Piece>, text: &str)
    ensures
        pieces_view(final(out)@) == pieces_view(old(out)@).push(PieceView::Text(text@)),
{
    out.push(Piece::Text(text.to_owned()));
    assert(pieces_view(out@) =~= pieces_view(old(out)@).push(PieceView::Text(text@)));
}

/// Adds a value to a line.
fn render_value_into(value: &Value, out: &mut Vec<Piece>)
    ensures
        pieces_view(final(out)@) == pieces_view(old(out)@) + spec_render_value(value@),
    decreases value, 0nat,
{
    let ghost before = pieces_view(out@);
    match value {
        Value::Const(text) => {
            push_text(out, text.as_str());
            assert(before.push(PieceView::Text(text@)) =~= before + spec_render_value(value@));
        },
        Value::Tuple(fields) => {
            push_markup(out, "{");
            render_fields_into(fields, out);
            push_markup(out, "}");
            assert(pieces_view(out@) =~= before + spec_render_value(value@));
        },
        Value::ValueList(items) => {
            push_markup(out, "[");
            render_values_into(items, out);
            push_markup(out, "]");
            assert(pieces_view(out@) =~= before + spec_render_value(value@));
        },
        Value::ResultList(fields) => {
            push_markup(out, "[");
            render_fields_into(fields, out);
            assert(pieces_view(out@) =~= before + spec_render_value(value@));
        },
    }
}

/// Adds fields to a line.
fn render_fields_into(fields: &Vec<(Var, Value)>, out: &mut Vec<Piece>)
    ensures
        pieces_view(final(out)@) == pieces_view(old(out)@) + spec_render_fields(
            fields_view(fields@),
            fields.len() as nat,
        ),
    decreases fields, 1nat,
{
    let ghost before = pieces_view(out@);
    let ghost all = fields_view(fields@);
    let mut i: usize = 0;
    assert(pieces_view(out@) =~= before + spec_render_fields(all, 0));
    while i < fields.len()
        invariant
            i <= fields.len(),
            all == fields_view(fields@),
            pieces_view(out@) == before + spec_render_fields(all, i as nat),
        decreases fields.len() - i,
    {
        let ghost so_far = pieces_view(out@);
        if i > 0 {
            push_markup(out, ", ");
        }
        push_markup(out, fields[i].0.as_str());
        push_markup(out, " = ");
        render_value_into(&fields[i].1, out);
        i = i + 1;
        assert(pieces_view(out@) =~= before + spec_render_fields(all, i as nat));
    }
}

/// Adds values to a line.
fn render_values_into(items: &Vec<Value>, out: &mut Vec<Piece>)
    ensures
        pieces_view(final(out)@) == pieces_view(old(out)@) + spec_render_values(
            values_view(items@),
            items.len() as nat,
        ),
    decreases items, 1nat,
{
    let ghost before = pieces_view(out@);
    let ghost all = values_view(items@);
    let mut i: usize = 0;
    assert(pieces_view(out@) =~= before + spec_render_values(all, 0));
    while i < items.len()
        invariant
            i <= items.len(),
            all == values_view(items@),
            pieces_view(out@) == before + spec_render_values(all, i as nat),
        decreases items.len() - i,
    {
        if i > 0 {
            push_markup(out, ", ");
        }
        render_value_into(&items[i], out);
        i = i + 1;
        assert(pieces_view(out@) =~= before + spec_render_values(all, i as nat));
    }
}

/// Renders a value.
pub fn render_value(val: &Value) -> (line: Vec<Piece>)
    ensures
        pieces_view(line@) == spec_render_value(val@),
{
    let mut line: Vec<Piece> = Vec::new();
    assert(pieces_view(line@) =~= Seq::empty());
    render_value_into(val, &mut line);
    assert(Seq::<PieceView>::empty() + spec_render_value(val@) =~= spec_render_value(val@));
    line
}

/// A notification: its class in bold, and its fields behind it.
pub open spec fn spec_render_async_record(record: AsyncRecordView) -> Seq<PieceView> {
    seq![
        PieceView::Markup("<b>"@),
        PieceView::Markup(record.class),
        PieceView::Markup("</b> "@),
    ] + spec_render_fields(record.results, record.results.len())
}

/// Renders a notification.
pub fn render_async_record(async_: &AsyncRecord) -> (line: Vec<Piece>)
    ensures
        pieces_view(line@) == spec_render_async_record(async_@),
{
    let mut line: Vec<Piece> = Vec::new();
    assert(pieces_view(line@) =~= Seq::empty());
    render_async_record_into(async_, &mut line);
    assert(Seq::<PieceView>::empty() + spec_render_async_record(async_@)
        =~= spec_render_async_record(async_@));
    line
}

/// Adds a notification to a line.
fn render_async_record_into(async_: &AsyncRecord, out: &mut Vec<Piece>)
    ensures
        pieces_view(final(out)@) == pieces_view(old(out)@) + spec_render_async_record(async_@),
{
    let ghost before = pieces_view(out@);
    push_markup(out, "<b>");
    push_markup(out, async_.class.as_str());
    push_markup(out, "</b> ");
    render_fields_into(&async_.results, out);
    assert(pieces_view(out@) =~= before + spec_render_async_record(async_@));
}

/// The name under which a class is shown.
pub open spec fn spec_class_name(class: ResultClass) -> Seq<char> {
    match class {
        ResultClass::Done => "Done"@,
        ResultClass::Running => "Running"@,
        ResultClass::Connected => "Connected"@,
        ResultClass::Error => "Error"@,
        ResultClass::Exit => "Exit"@,
    }
}

/// A result: the name of its class and, where it has fields, a colon and
/// the fields.
pub open spec fn spec_render_result(result: ResultView) -> Seq<PieceView> {
    if result.results.len() == 0 {
        seq![PieceView::Markup(spec_class_name(result.class))]
    } else {
        seq![PieceView::Markup(spec_class_name(result.class)), PieceView::Markup(": "@)]
            + spec_render_fields(result.results, result.results.len())
    }
}

/// Renders a result.
pub fn render_result(result: &Result) -> (line: Vec<Piece>)
    ensures
        pieces_view(line@) == spec_render_result(result@),
{
    let mut line: Vec<Piece> = Vec::new();
    assert(pieces_view(line@) =~= Seq::empty());
    render_result_into(result, &mut line);
    assert(Seq::<PieceView>::empty() + spec_render_result(result@) =~= spec_render_result(
        result@,
    ));
    line
}

/// Adds a result to a line.
fn render_result_into(result: &Result, out: &mut Vec<Piece>)
    ensures
        pieces_view(final(out)@) == pieces_view(old(out)@) + spec_render_result(result@),
{
    let ghost before = pieces_view(out@);
    push_markup(
        out,
        match result.class {
            ResultClass::Done => "Done",
            ResultClass::Running => "Running",
            ResultClass::Connected => "Connected",
            ResultClass::Error => "Error",
            ResultClass::Exit => "Exit",
        },
    );
    if result.results.len() == 0 {
        assert(pieces_view(out@) =~= before + spec_render_result(result@));
        return ;
    }
    push_markup(out, ": ");
    render_fields_into(&result.results, out);
    assert(pieces_view(out@) =~= before + spec_render_result(result@));
}

/// The tag that a line begins with: the kind of the record, in the colour
/// of that kind.
pub open spec fn spec_tag(record: ResultOrOOBView) -> Seq<char> {
    match record {
        ResultOrOOBView::Result(_) => "<span color=\"#6BDEB1\">[RESULT]</span> "@,
        ResultOrOOBView::OOB(OutOfBandView::ExecAsyncRecord(_)) =>
            "<span color=\"#505B70\">[EXEC]</span> "@,
        ResultOrOOBView::OOB(OutOfBandView::StatusAsyncRecord(_)) =>
            "<span color=\"#3FBCA6\">[STATUS]</span> "@,
        ResultOrOOBView::OOB(OutOfBandView::NotifyAsyncRecord(_)) =>
            "<span color=\"#CBCE79\">[NOTIFY]</span> "@,
        ResultOrOOBView::OOB(OutOfBandView::ConsoleStreamRecord(_)) =>
            "<span color=\"#A1D490\">[CONSOLE]</span> "@,
        ResultOrOOBView::OOB(OutOfBandView::TargetStreamRecord(_)) =>
            "<span color=\"#90C3D4\">[TARGET]</span> "@,
        ResultOrOOBView::OOB(OutOfBandView::LogStreamRecord(_)) =>
            "<span color=\"#D4A190\">[LOG]</span> "@,
    }
}

/// What stands behind the tag: the result, the notification, or the text of
/// a stream record.
pub open spec fn spec_render_body(record: ResultOrOOBView) -> Seq<PieceView> {
    match record {
        ResultOrOOBView::Result(result) => spec_render_result(result),
        ResultOrOOBView::OOB(OutOfBandView::ExecAsyncRecord(r)) => spec_render_async_record(r),
        ResultOrOOBView::OOB(OutOfBandView::StatusAsyncRecord(r)) => spec_render_async_record(r),
        ResultOrOOBView::OOB(OutOfBandView::NotifyAsyncRecord(r)) => spec_render_async_record(r),
        ResultOrOOBView::OOB(OutOfBandView::ConsoleStreamRecord(text)) =>
            seq![PieceView::Text(text)],
        ResultOrOOBView::OOB(OutOfBandView::TargetStreamRecord(text)) =>
            seq![PieceView::Text(text)],
        ResultOrOOBView::OOB(OutOfBandView::LogStreamRecord(text)) => seq![PieceView::Text(text)],
    }
}

/// A record as a line: its tag, and what the record holds.
pub open spec fn spec_render_record(record: ResultOrOOBView) -> Seq<PieceView> {
    seq![PieceView::Markup(spec_tag(record))] + spec_render_body(record)
}

/// Renders a record as the line under which it is logged.
pub fn render_record(record: &ResultOrOOB) -> (line: Vec<Piece>)
    ensures
        pieces_view(line@) == spec_render_record(record@),
{
    let mut line: Vec<Piece> = Vec::new();
    assert(pieces_view(line@) =~= Seq::empty());
    match record {
        ResultOrOOB::Result(result) => {
            push_markup(&mut line, "<span color=\"#6BDEB1\">[RESULT]</span> ");
            render_result_into(result, &mut line);
        },
        ResultOrOOB::OOB(OutOfBandResult::ExecAsyncRecord(r)) => {
            push_markup(&mut line, "<span color=\"#505B70\">[EXEC]</span> ");
            render_async_record_into(r, &mut line);
        },
        ResultOrOOB::OOB(OutOfBandResult::StatusAsyncRecord(r)) => {
            push_markup(&mut line, "<span color=\"#3FBCA6\">[STATUS]</span> ");
            render_async_record_into(r, &mut line);
        },
        ResultOrOOB::OOB(OutOfBandResult::NotifyAsyncRecord(r)) => {
            push_markup(&mut line, "<span color=\"#CBCE79\">[NOTIFY]</span> ");
            render_async_record_into(r, &mut line);
        },
        ResultOrOOB::OOB(OutOfBandResult::ConsoleStreamRecord(text)) => {
            push_markup(&mut line, "<span color=\"#A1D490\">[CONSOLE]</span> ");
            push_text(&mut line, text.as_str());
        },
        ResultOrOOB::OOB(OutOfBandResult::TargetStreamRecord(text)) => {
            push_markup(&mut line, "<span color=\"#90C3D4\">[TARGET]</span> ");
            push_text(&mut line, text.as_str());
        },
        ResultOrOOB::OOB(OutOfBandResult::LogStreamRecord(text)) => {
            push_markup(&mut line, "<span color=\"#D4A190\">[LOG]</span> ");
            push_text(&mut line, text.as_str());
        },
    }
    assert(pieces_view(line@) =~= spec_render_record(record@));
    line
}

} // verus!
