//! The data model of the machine interface's output: values, and the records
//! that carry them.

use vstd::prelude::*;

verus! {

/// The name of a field.
pub type Var = String;

/// The digits in front of a record's sigil, by which a caller matches a
/// result to the command that asked for it.
pub type Token = String;

/// A field as the contracts see it: its name and the value it stands for.
pub type FieldView = (Seq<char>, ValueView);

/// Why a text was refused.
#[derive(Debug, PartialEq, Eq, Structural, Clone, Copy)]
pub enum ParseError {
    /// The text does not follow the grammar.
    Syntax,
    /// The text follows the grammar, but a tuple in it holds a name twice.
    DuplicateField,
}

/// A structured payload.
///
/// A `Tuple` keeps its fields in the order in which they were read. In a
/// well-formed value no name occurs twice in a tuple (see
/// [`ValueView::wf`]); the parser returns no other. A `ResultList` may hold
/// one name many times. Two values are equal where they hold the same in the
/// same order.
#[derive(Debug, PartialEq, Eq)]
pub enum Value {
    Const(String),
    Tuple(Vec<(Var, Value)>),
    ValueList(Vec<Value>),
    ResultList(Vec<(Var, Value)>),
}

/// The mathematical value that a [`Value`] stands for.
pub ghost enum ValueView {
    Const(Seq<char>),
    Tuple(Seq<FieldView>),
    ValueList(Seq<ValueView>),
    ResultList(Seq<FieldView>),
}

/// No name occurs twice among `fields`.
pub open spec fn distinct_names(fields: Seq<FieldView>) -> bool {
    forall|i: int, j: int| 0 <= i < j < fields.len() ==> fields[i].0 != fields[j].0
}

/// The first field of `fields` that is called `name`.
pub open spec fn lookup(fields: Seq<FieldView>, name: Seq<char>) -> Option<ValueView>
    decreases fields.len(),
{
    if fields.len() == 0 {
        None
    } else if fields[0].0 == name {
        Some(fields[0].1)
    } else {
        lookup(fields.skip(1), name)
    }
}

impl ValueView {
    /// Every tuple inside this value has distinct field names.
    pub open spec fn wf(self) -> bool
        decreases self,
    {
        match self {
            ValueView::Const(_) => true,
            ValueView::Tuple(fields) => distinct_names(fields) && forall|i: int|
                0 <= i < fields.len() ==> (#[trigger] fields[i]).1.wf(),
            ValueView::ValueList(items) => forall|i: int|
                0 <= i < items.len() ==> (#[trigger] items[i]).wf(),
            ValueView::ResultList(fields) => forall|i: int|
                0 <= i < fields.len() ==> (#[trigger] fields[i]).1.wf(),
        }
    }
}

/// Every value among `fields` is well formed.
pub open spec fn fields_wf(fields: Seq<FieldView>) -> bool {
    forall|i: int| 0 <= i < fields.len() ==> (#[trigger] fields[i]).1.wf()
}

/// Every value among `items` is well formed.
pub open spec fn values_wf(items: Seq<ValueView>) -> bool {
    forall|i: int| 0 <= i < items.len() ==> (#[trigger] items[i]).wf()
}

/// A value is well formed where the values in it are, and where it is a
/// tuple, no name occurs twice in it.
pub proof fn lemma_wf_unfolds(value: ValueView)
    ensures
        value.wf() == match value {
            ValueView::Const(_) => true,
            ValueView::Tuple(fields) => distinct_names(fields) && fields_wf(fields),
            ValueView::ValueList(items) => values_wf(items),
            ValueView::ResultList(fields) => fields_wf(fields),
        },
{
    reveal_with_fuel(ValueView::wf, 2);
}

/// Every record is well formed.
pub open spec fn records_wf(records: Seq<ResultOrOOBView>) -> bool {
    forall|i: int| 0 <= i < records.len() ==> (#[trigger] records[i]).wf()
}

/// The class of a notification holds neither a comma nor a line end.
pub open spec fn class_wf(class: Seq<char>) -> bool {
    forall|i: int| 0 <= i < class.len() ==> #[trigger] class[i] != ',' && class[i] != '\n'
}

/// A token, where there is one, holds one digit or more and nothing else.
pub open spec fn token_wf(token: Option<Seq<char>>) -> bool {
    token matches Some(digits) ==> digits.len() > 0 && forall|i: int|
        0 <= i < digits.len() ==> '0' <= #[trigger] digits[i] <= '9'
}

/// The fields of a record or of a value, as the contracts see them.
pub open spec fn fields_view(fields: Seq<(Var, Value)>) -> Seq<FieldView>
    decreases fields,
{
    Seq::new(
        fields.len(),
        |i: int|
            if 0 <= i < fields.len() {
                (fields[i].0@, fields[i].1.view())
            } else {
                (Seq::empty(), ValueView::Const(Seq::empty()))
            },
    )
}

/// The items of a list, as the contracts see them.
pub open spec fn values_view(items: Seq<Value>) -> Seq<ValueView>
    decreases items,
{
    Seq::new(
        items.len(),
        |i: int|
            if 0 <= i < items.len() {
                items[i].view()
            } else {
                ValueView::Const(Seq::empty())
            },
    )
}

impl View for Value {
    type V = ValueView;

    open spec fn view(&self) -> ValueView
        decreases self,
    {
        match self {
            Value::Const(s) => ValueView::Const(s@),
            Value::Tuple(fields) => ValueView::Tuple(fields_view(fields@)),
            Value::ValueList(items) => ValueView::ValueList(values_view(items@)),
            Value::ResultList(fields) => ValueView::ResultList(fields_view(fields@)),
        }
    }
}

/// Whether no name occurs twice among `fields`.
fn names_are_distinct(fields: &Vec<(Var, Value)>) -> (b: bool)
    ensures
        b == distinct_names(fields_view(fields@)),
{
    let mut j: usize = 0;
    while j < fields.len()
        invariant
            j <= fields.len(),
            forall|a: int, b: int| 0 <= a < b < j ==> fields[a].0@ != fields[b].0@,
        decreases fields.len() - j,
    {
        let mut i: usize = 0;
        while i < j
            invariant
                i <= j < fields.len(),
                forall|a: int| 0 <= a < i ==> fields[a].0@ != fields[j as int].0@,
            decreases j - i,
        {
            if fields[i].0 == fields[j].0 {
                assert(fields_view(fields@)[i as int].0 == fields_view(fields@)[j as int].0);
                return false;
            }
            i = i + 1;
        }
        j = j + 1;
    }
    assert forall|a: int, b: int| 0 <= a < b < fields.len() implies fields_view(fields@)[a].0
        != fields_view(fields@)[b].0 by {
        assert(fields[a].0@ != fields[b].0@);
    }
    true
}

/// Whether every value among `fields` is well formed.
pub fn fields_are_wf(fields: &Vec<(Var, Value)>) -> (b: bool)
    ensures
        b == fields_wf(fields_view(fields@)),
    decreases fields, 1nat,
{
    let ghost all = fields_view(fields@);
    let mut i: usize = 0;
    while i < fields.len()
        invariant
            i <= fields.len(),
            all == fields_view(fields@),
            forall|k: int| 0 <= k < i ==> (#[trigger] all[k]).1.wf(),
        decreases fields.len() - i,
    {
        if !fields[i].1.is_wf() {
            assert(!all[i as int].1.wf());
            return false;
        }
        i = i + 1;
    }
    true
}

/// Whether every value among `items` is well formed.
fn values_are_wf(items: &Vec<Value>) -> (b: bool)
    ensures
        b == values_wf(values_view(items@)),
    decreases items, 1nat,
{
    let ghost all = values_view(items@);
    let mut i: usize = 0;
    while i < items.len()
        invariant
            i <= items.len(),
            all == values_view(items@),
            forall|k: int| 0 <= k < i ==> (#[trigger] all[k]).wf(),
        decreases items.len() - i,
    {
        if !items[i].is_wf() {
            assert(!all[i as int].wf());
            return false;
        }
        i = i + 1;
    }
    true
}

impl Value {
    /// Whether the value is well formed: no tuple in it holds a name twice.
    pub fn is_wf(&self) -> (b: bool)
        ensures
            b == self@.wf(),
        decreases self, 0nat,
    {
        match self {
            Value::Const(_) => true,
            Value::Tuple(fields) => {
                let b = names_are_distinct(fields) && fields_are_wf(fields);
                proof {
                    lemma_wf_unfolds(self@);
                }
                b
            },
            Value::ValueList(items) => {
                let b = values_are_wf(items);
                proof {
                    lemma_wf_unfolds(self@);
                }
                b
            },
            Value::ResultList(fields) => {
                let b = fields_are_wf(fields);
                proof {
                    lemma_wf_unfolds(self@);
                }
                b
            },
        }
    }

    /// The text of a `Const`.
    pub fn get_const_ref(&self) -> (r: Option<&str>)
        ensures
            r is Some <==> self is Const,
            r matches Some(text) ==> self@ == ValueView::Const(text@),
    {
        match self {
            Value::Const(s) => Some(s.as_str()),
            _ => None,
        }
    }

    /// The text of a `Const`, owned.
    pub fn get_const(self) -> (r: Option<String>)
        ensures
            r == (match self {
                Value::Const(s) => Some(s),
                _ => None,
            }),
    {
        match self {
            Value::Const(s) => Some(s),
            _ => None,
        }
    }

    /// The fields of a `Tuple`.
    pub fn get_tuple(self) -> (r: Option<Vec<(Var, Value)>>)
        ensures
            r == (match self {
                Value::Tuple(fields) => Some(fields),
                _ => None,
            }),
    {
        match self {
            Value::Tuple(fields) => Some(fields),
            _ => None,
        }
    }

    /// The fields of a `ResultList`.
    pub fn get_result_list(self) -> (r: Option<Vec<(Var, Value)>>)
        ensures
            r == (match self {
                Value::ResultList(fields) => Some(fields),
                _ => None,
            }),
    {
        match self {
            Value::ResultList(fields) => Some(fields),
            _ => None,
        }
    }

    /// The items of a `ValueList`.
    pub fn get_value_list(self) -> (r: Option<Vec<Value>>)
        ensures
            r == (match self {
                Value::ValueList(items) => Some(items),
                _ => None,
            }),
    {
        match self {
            Value::ValueList(items) => Some(items),
            _ => None,
        }
    }
}

/// What a token stands for in contracts.
pub open spec fn token_view(token: Option<Token>) -> Option<Seq<char>> {
    match token {
        Some(t) => Some(t@),
        None => None,
    }
}

/// One message: its records in the order in which they were read.
pub type Output = Vec<ResultOrOOB>;

/// One record of a message.
#[derive(Debug, PartialEq, Eq)]
pub enum ResultOrOOB {
    Result(Result),
    OOB(OutOfBandResult),
}

pub ghost enum ResultOrOOBView {
    Result(ResultView),
    OOB(OutOfBandView),
}

impl ResultOrOOBView {
    /// Every value of the record is well formed.
    pub open spec fn wf(self) -> bool {
        match self {
            ResultOrOOBView::Result(r) => r.wf(),
            ResultOrOOBView::OOB(o) => o.wf(),
        }
    }

    /// What stands before the fields is as the grammar writes it: a token
    /// is made of digits, and the class of a notification holds neither a
    /// comma nor a line end.
    pub open spec fn head_wf(self) -> bool {
        match self {
            ResultOrOOBView::Result(r) => token_wf(r.token),
            ResultOrOOBView::OOB(o) => o.head_wf(),
        }
    }
}

impl ResultOrOOB {
    /// Whether every value of the record is well formed.
    pub fn is_wf(&self) -> (b: bool)
        ensures
            b == self@.wf(),
    {
        match self {
            ResultOrOOB::Result(r) => fields_are_wf(&r.results),
            ResultOrOOB::OOB(o) => o.is_wf(),
        }
    }
}

/// Whether every record is well formed.
pub fn records_are_wf(records: &Vec<ResultOrOOB>) -> (b: bool)
    ensures
        b == records_wf(output_view(records@)),
{
    let mut i: usize = 0;
    while i < records.len()
        invariant
            i <= records.len(),
            forall|k: int| 0 <= k < i ==> (#[trigger] output_view(records@)[k]).wf(),
        decreases records.len() - i,
    {
        if !records[i].is_wf() {
            assert(!output_view(records@)[i as int].wf());
            return false;
        }
        i = i + 1;
    }
    true
}

impl View for ResultOrOOB {
    type V = ResultOrOOBView;

    open spec fn view(&self) -> ResultOrOOBView {
        match self {
            ResultOrOOB::Result(r) => ResultOrOOBView::Result(r@),
            ResultOrOOB::OOB(o) => ResultOrOOBView::OOB(o@),
        }
    }
}

/// The records of a message, as the contracts see them.
pub open spec fn output_view(records: Seq<ResultOrOOB>) -> Seq<ResultOrOOBView> {
    Seq::new(records.len(), |i: int| records[i]@)
}

/// The answer to a command.
#[derive(Debug, PartialEq, Eq)]
pub struct Result {
    pub token: Option<Token>,
    pub class: ResultClass,
    pub results: Vec<(Var, Value)>,
}

pub ghost struct ResultView {
    pub token: Option<Seq<char>>,
    pub class: ResultClass,
    pub results: Seq<FieldView>,
}

impl ResultView {
    /// Every value of the record is well formed.
    pub open spec fn wf(self) -> bool {
        fields_wf(self.results)
    }
}

impl View for Result {
    type V = ResultView;

    open spec fn view(&self) -> ResultView {
        ResultView {
            token: token_view(self.token),
            class: self.class,
            results: fields_view(self.results@),
        }
    }
}

/// The class of a result record, fixed by the keyword that follows `^`.
#[derive(Debug, PartialEq, Eq, Structural, Clone, Copy)]
pub enum ResultClass {
    Done,
    Running,
    Connected,
    Error,
    Exit,
}

/// A record that no command asked for: a notification, or streamed text.
#[derive(Debug, PartialEq, Eq)]
pub enum OutOfBandResult {
    ExecAsyncRecord(AsyncRecord),
    StatusAsyncRecord(AsyncRecord),
    NotifyAsyncRecord(AsyncRecord),
    ConsoleStreamRecord(String),
    TargetStreamRecord(String),
    LogStreamRecord(String),
}

pub ghost enum OutOfBandView {
    ExecAsyncRecord(AsyncRecordView),
    StatusAsyncRecord(AsyncRecordView),
    NotifyAsyncRecord(AsyncRecordView),
    ConsoleStreamRecord(Seq<char>),
    TargetStreamRecord(Seq<char>),
    LogStreamRecord(Seq<char>),
}

impl OutOfBandResult {
    /// Whether every value of the record is well formed.
    pub fn is_wf(&self) -> (b: bool)
        ensures
            b == self@.wf(),
    {
        match self {
            OutOfBandResult::ExecAsyncRecord(r) => fields_are_wf(&r.results),
            OutOfBandResult::StatusAsyncRecord(r) => fields_are_wf(&r.results),
            OutOfBandResult::NotifyAsyncRecord(r) => fields_are_wf(&r.results),
            _ => true,
        }
    }
}

impl OutOfBandView {
    /// A notification is well formed as [`AsyncRecordView::wf`] says; a
    /// stream record holds any text.
    pub open spec fn wf(self) -> bool {
        match self {
            OutOfBandView::ExecAsyncRecord(r) => r.wf(),
            OutOfBandView::StatusAsyncRecord(r) => r.wf(),
            OutOfBandView::NotifyAsyncRecord(r) => r.wf(),
            _ => true,
        }
    }

    /// The token of a notification is made of digits, and its class holds
    /// neither a comma nor a line end.
    pub open spec fn head_wf(self) -> bool {
        match self {
            OutOfBandView::ExecAsyncRecord(r) => token_wf(r.token) && class_wf(r.class),
            OutOfBandView::StatusAsyncRecord(r) => token_wf(r.token) && class_wf(r.class),
            OutOfBandView::NotifyAsyncRecord(r) => token_wf(r.token) && class_wf(r.class),
            _ => true,
        }
    }
}

impl View for OutOfBandResult {
    type V = OutOfBandView;

    open spec fn view(&self) -> OutOfBandView {
        match self {
            OutOfBandResult::ExecAsyncRecord(r) => OutOfBandView::ExecAsyncRecord(r@),
            OutOfBandResult::StatusAsyncRecord(r) => OutOfBandView::StatusAsyncRecord(r@),
            OutOfBandResult::NotifyAsyncRecord(r) => OutOfBandView::NotifyAsyncRecord(r@),
            OutOfBandResult::ConsoleStreamRecord(s) => OutOfBandView::ConsoleStreamRecord(s@),
            OutOfBandResult::TargetStreamRecord(s) => OutOfBandView::TargetStreamRecord(s@),
            OutOfBandResult::LogStreamRecord(s) => OutOfBandView::LogStreamRecord(s@),
        }
    }
}

/// A notification: its class and its fields, which may repeat a name.
#[derive(Debug, PartialEq, Eq)]
pub struct AsyncRecord {
    pub token: Option<Token>,
    pub class: String,
    pub results: Vec<(Var, Value)>,
}

pub ghost struct AsyncRecordView {
    pub token: Option<Seq<char>>,
    pub class: Seq<char>,
    pub results: Seq<FieldView>,
}

impl AsyncRecordView {
    /// Every value of the record is well formed.
    pub open spec fn wf(self) -> bool {
        fields_wf(self.results)
    }
}

impl View for AsyncRecord {
    type V = AsyncRecordView;

    open spec fn view(&self) -> AsyncRecordView {
        AsyncRecordView {
            token: token_view(self.token),
            class: self.class@,
            results: fields_view(self.results@),
        }
    }
}

} // verus!
