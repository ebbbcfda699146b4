//! The expressions that are watched, as a tree: an expression, and under it
//! the members that were asked for.
//!
//! The debugger names a member by the names on the way to it, with dots
//! between them: `var1.x.y` is the member `y` of the member `x` of `var1`.

use crate::mi::text::{chars_of, same_text};
use vstd::prelude::*;

verus! {

/// An expression or a member of one.
#[derive(Debug, PartialEq, Eq)]
pub struct Expression {
    /// The name by which the debugger knows it, such as `x.y.z`.
    pub full_name: String,
    /// Its name under its parent: `y` for `x.y`.
    pub name: String,
    /// The expression as it is shown.
    pub expr: String,
    pub value: Option<String>,
    pub type_: Option<String>,
    /// The members that were asked for.
    pub children: Vec<Expression>,
}

pub ghost struct ExpressionView {
    pub full_name: Seq<char>,
    pub name: Seq<char>,
    pub expr: Seq<char>,
    pub value: Option<Seq<char>>,
    pub type_: Option<Seq<char>>,
    pub children: Seq<ExpressionView>,
}

/// The expressions of a list, as the contracts see them.
pub open spec fn expressions_view(nodes: Seq<Expression>) -> Seq<ExpressionView>
    decreases nodes,
{
    Seq::new(
        nodes.len(),
        |i: int|
            if 0 <= i < nodes.len() {
                nodes[i].view()
            } else {
                arbitrary()
            },
    )
}

impl View for Expression {
    type V = ExpressionView;

    open spec fn view(&self) -> ExpressionView
        decreases self,
    {
        ExpressionView {
            full_name: self.full_name@,
            name: self.name@,
            expr: self.expr@,
            value: match self.value {
                Some(t) => Some(t@),
                None => None,
            },
            type_: match self.type_ {
                Some(t) => Some(t@),
                None => None,
            },
            children: expressions_view(self.children@),
        }
    }
}

/// What the debugger says of an expression.
#[derive(Debug, PartialEq, Eq)]
pub struct Report {
    pub full_name: String,
    pub expr: String,
    pub value: String,
    pub type_: String,
}

pub ghost struct ReportView {
    pub full_name: Seq<char>,
    pub expr: Seq<char>,
    pub value: Seq<char>,
    pub type_: Seq<char>,
}

impl View for Report {
    type V = ReportView;

    open spec fn view(&self) -> ReportView {
        ReportView {
            full_name: self.full_name@,
            expr: self.expr@,
            value: self.value@,
            type_: self.type_@,
        }
    }
}

/// Where a report went. A place in the tree is the way to it: the index of
/// the expression, then that of the member under it, and so on.
#[derive(Debug, PartialEq, Eq)]
pub enum Placed {
    /// It is a new expression, the last of all.
    Top,
    /// It is a new member, the last under the parent at this place.
    Child(Vec<usize>),
    /// It replaced what was known of the node at this place.
    Update(Vec<usize>),
    /// Its name begins with no expression of the tree: nothing was done.
    Unknown,
    /// Its name lies more than one step below what the tree holds: nothing
    /// was done.
    TooDeep,
}

pub ghost enum PlacedView {
    Top,
    Child(Seq<int>),
    Update(Seq<int>),
    Unknown,
    TooDeep,
}

/// A place, as the contracts see it.
pub open spec fn place_ints(at: Seq<usize>) -> Seq<int> {
    Seq::new(at.len(), |k: int| at[k] as int)
}

impl View for Placed {
    type V = PlacedView;

    open spec fn view(&self) -> PlacedView {
        match self {
            Placed::Top => PlacedView::Top,
            Placed::Child(at) => PlacedView::Child(place_ints(at@)),
            Placed::Update(at) => PlacedView::Update(place_ints(at@)),
            Placed::Unknown => PlacedView::Unknown,
            Placed::TooDeep => PlacedView::TooDeep,
        }
    }
}

/// The pieces of `s` between its dots, where `pieces` are those that are
/// complete and `current` is the beginning of the one that `s` goes on
/// with.
pub open spec fn spec_split_from(s: Seq<char>, pieces: Seq<Seq<char>>, current: Seq<char>) -> Seq<
    Seq<char>,
>
    decreases s.len(),
{
    if s.len() == 0 {
        pieces.push(current)
    } else if s[0] == '.' {
        spec_split_from(s.skip(1), pieces.push(current), Seq::empty())
    } else {
        spec_split_from(s.skip(1), pieces, current.push(s[0]))
    }
}

/// The names on the way to a member: the pieces of its full name between
/// the dots. A name without a dot is one piece, the empty name too.
pub open spec fn spec_split_name(s: Seq<char>) -> Seq<Seq<char>> {
    spec_split_from(s, Seq::empty(), Seq::empty())
}

/// The names of a path, as the contracts see them.
pub open spec fn names_view(names: Seq<String>) -> Seq<Seq<char>> {
    Seq::new(names.len(), |i: int| names[i]@)
}

/// Splits a full name at its dots.
pub fn split_name(name: &str) -> (path: Vec<String>)
    ensures
        names_view(path@) == spec_split_name(name@),
        path.len() >= 1,
{
    let chars = chars_of(name);
    let mut path: Vec<String> = Vec::new();
    let mut current = String::new();
    let mut i: usize = 0;
    assert(names_view(path@) =~= Seq::empty());
    assert(chars@.skip(0) =~= chars@);
    while i < chars.len()
        invariant
            i <= chars.len(),
            chars@ == name@,
            spec_split_name(name@) == spec_split_from(
                chars@.skip(i as int),
                names_view(path@),
                current@,
            ),
        decreases chars.len() - i,
    {
        let ghost before = names_view(path@);
        assert(chars@.skip(i as int).skip(1) =~= chars@.skip(i + 1));
        if chars[i] == '.' {
            let ghost piece = current@;
            path.push(current);
            current = String::new();
            assert(names_view(path@) =~= before.push(piece));
        } else {
            current.push(chars[i]);
        }
        i = i + 1;
    }
    let ghost before = names_view(path@);
    let ghost last = current@;
    path.push(current);
    assert(names_view(path@) =~= before.push(last));
    path
}

/// Whether `i` is the first of `nodes` that is called `name`.
pub open spec fn is_first_named(nodes: Seq<ExpressionView>, name: Seq<char>, i: int) -> bool {
    &&& 0 <= i < nodes.len()
    &&& nodes[i].name == name
    &&& forall|k: int| 0 <= k < i ==> nodes[k].name != name
}

/// The first of `nodes` that is called `name`, if there is one.
pub open spec fn spec_first_named(nodes: Seq<ExpressionView>, name: Seq<char>) -> Option<int> {
    if exists|i: int| is_first_named(nodes, name, i) {
        Some(choose|i: int| is_first_named(nodes, name, i))
    } else {
        None
    }
}

/// Finds the first of `nodes` that is called `name`.
fn first_named(nodes: &Vec<Expression>, name: &str) -> (r: Option<usize>)
    ensures
        match r {
            Some(i) => spec_first_named(expressions_view(nodes@), name@) == Some(i as int) && i
                < nodes.len(),
            None => spec_first_named(expressions_view(nodes@), name@) is None,
        },
{
    let ghost all = expressions_view(nodes@);
    let mut i: usize = 0;
    while i < nodes.len()
        invariant
            i <= nodes.len(),
            all == expressions_view(nodes@),
            forall|k: int| 0 <= k < i ==> all[k].name != name@,
        decreases nodes.len() - i,
    {
        if same_text(nodes[i].name.as_str(), name) {
            proof {
                assert(is_first_named(all, name@, i as int));
                let k = choose|k: int| is_first_named(all, name@, k);
                assert(k == i);
            }
            return Some(i);
        }
        i = i + 1;
    }
    None
}

/// What is known of a new node.
pub open spec fn spec_leaf(report: ReportView, name: Seq<char>) -> ExpressionView {
    ExpressionView {
        full_name: report.full_name,
        name,
        expr: report.expr,
        value: Some(report.value),
        type_: Some(report.type_),
        children: Seq::empty(),
    }
}

/// A node after a report on it: the node keeps its members.
pub open spec fn spec_updated(node: ExpressionView, report: ReportView, name: Seq<char>)
    -> ExpressionView {
    ExpressionView { children: node.children, ..spec_leaf(report, name) }
}

/// Puts a report where `path` leads to from `node`, which lies at `at`.
///
/// Each name of the path but the last must be that of a member that is
/// known. Where the last is known too, the report replaces what was known
/// of that member; where it is not, the report becomes a new member, the
/// last.
pub open spec fn spec_add_child(
    node: ExpressionView,
    path: Seq<Seq<char>>,
    report: ReportView,
    at: Seq<int>,
) -> (ExpressionView, PlacedView)
    decreases path.len(),
{
    if path.len() == 0 {
        (node, PlacedView::TooDeep)
    } else {
        match spec_first_named(node.children, path[0]) {
            None => if path.len() == 1 {
                (
                    ExpressionView {
                        children: node.children.push(spec_leaf(report, path[0])),
                        ..node
                    },
                    PlacedView::Child(at),
                )
            } else {
                (node, PlacedView::TooDeep)
            },
            Some(i) => if path.len() == 1 {
                (
                    ExpressionView {
                        children: node.children.update(
                            i,
                            spec_updated(node.children[i], report, path[0]),
                        ),
                        ..node
                    },
                    PlacedView::Update(at.push(i)),
                )
            } else {
                let (child, placed) = spec_add_child(
                    node.children[i],
                    path.skip(1),
                    report,
                    at.push(i),
                );
                (ExpressionView { children: node.children.update(i, child), ..node }, placed)
            },
        }
    }
}

/// Puts a report into the tree.
///
/// A full name without a dot is a new expression, whatever the tree holds.
/// Else the first name must be that of an expression of the tree, the first
/// of that name, and the rest leads on from there as [`spec_add_child`]
/// says.
pub open spec fn spec_add(roots: Seq<ExpressionView>, report: ReportView) -> (
    Seq<ExpressionView>,
    PlacedView,
) {
    let path = spec_split_name(report.full_name);
    if path.len() == 1 {
        (roots.push(spec_leaf(report, report.full_name)), PlacedView::Top)
    } else {
        match spec_first_named(roots, path[0]) {
            None => (roots, PlacedView::Unknown),
            Some(i) => {
                let (node, placed) = spec_add_child(roots[i], path.skip(1), report, seq![i]);
                (roots.update(i, node), placed)
            },
        }
    }
}

/// Makes a new node out of a report.
fn leaf(report: Report, name: String) -> (node: Expression)
    ensures
        node@ == spec_leaf(report@, name@),
{
    let node = Expression {
        full_name: report.full_name,
        name,
        expr: report.expr,
        value: Some(report.value),
        type_: Some(report.type_),
        children: Vec::new(),
    };
    assert(expressions_view(node.children@) =~= Seq::empty());
    node
}

/// Puts a report where the names of `path` from `depth` on lead to.
fn add_child(node: Expression, path: &Vec<String>, depth: usize, report: Report, at: Vec<usize>)
    -> (r: (Expression, Placed))
    requires
        depth < path.len(),
    ensures
        (r.0@, r.1@) == spec_add_child(
            node@,
            names_view(path@).skip(depth as int),
            report@,
            place_ints(at@),
        ),
    decreases path.len() - depth,
{
    let ghost names = names_view(path@).skip(depth as int);
    let ghost before = expressions_view(node.children@);
    assert(names[0] == path[depth as int]@);
    assert(names.skip(1) =~= names_view(path@).skip(depth + 1));
    let mut node = node;
    let mut at = at;
    match first_named(&node.children, path[depth].as_str()) {
        None => {
            if depth + 1 == path.len() {
                let name = path[depth].clone();
                node.children.push(leaf(report, name));
                assert(expressions_view(node.children@) =~= before.push(
                    spec_leaf(report@, names[0]),
                ));
                (node, Placed::Child(at))
            } else {
                (node, Placed::TooDeep)
            }
        },
        Some(i) => {
            let child = node.children.remove(i);
            let ghost above = place_ints(at@);
            at.push(i);
            assert(place_ints(at@) =~= above.push(i as int));
            let (child, placed) = if depth + 1 == path.len() {
                let name = path[depth].clone();
                let members = child.children;
                let mut child = leaf(report, name);
                child.children = members;
                (child, Placed::Update(at))
            } else {
                add_child(child, path, depth + 1, report, at)
            };
            node.children.insert(i, child);
            assert(expressions_view(node.children@) =~= before.update(i as int, child@));
            (node, placed)
        },
    }
}

/// Puts a report into the tree, and says where it went.
pub fn add(roots: &mut Vec<Expression>, report: Report) -> (placed: Placed)
    ensures
        (expressions_view(final(roots)@), placed@) == spec_add(
            expressions_view(old(roots)@),
            report@,
        ),
{
    let ghost before = expressions_view(roots@);
    let path = split_name(report.full_name.as_str());
    if path.len() == 1 {
        let name = report.full_name.clone();
        roots.push(leaf(report, name));
        assert(expressions_view(roots@) =~= before.push(spec_leaf(report@, report.full_name@)));
        return Placed::Top;
    }
    assert(names_view(path@)[0] == path[0]@);
    match first_named(roots, path[0].as_str()) {
        None => Placed::Unknown,
        Some(i) => {
            let node = roots.remove(i);
            let mut at: Vec<usize> = Vec::new();
            at.push(i);
            assert(place_ints(at@) =~= seq![i as int]);
            let (node, placed) = add_child(node, &path, 1, report, at);
            roots.insert(i, node);
            assert(expressions_view(roots@) =~= before.update(i as int, node@));
            placed
        },
    }
}

/// Gives the node that `path` leads to from `node`, which lies at `at`, a
/// new value, and says where that node lies. Where a name of the path is
/// that of no member, nothing changes.
pub open spec fn spec_set_value(
    node: ExpressionView,
    path: Seq<Seq<char>>,
    value: Seq<char>,
    at: Seq<int>,
) -> (ExpressionView, Option<Seq<int>>)
    decreases path.len(),
{
    if path.len() == 0 {
        (ExpressionView { value: Some(value), ..node }, Some(at))
    } else {
        match spec_first_named(node.children, path[0]) {
            None => (node, None),
            Some(i) => {
                let (child, place) = spec_set_value(
                    node.children[i],
                    path.skip(1),
                    value,
                    at.push(i),
                );
                (ExpressionView { children: node.children.update(i, child), ..node }, place)
            },
        }
    }
}

/// Gives the node of the given full name a new value, and says where that
/// node lies. Where the tree holds no node of that name, nothing changes.
pub open spec fn spec_update_value(
    roots: Seq<ExpressionView>,
    full_name: Seq<char>,
    value: Seq<char>,
) -> (Seq<ExpressionView>, Option<Seq<int>>) {
    let path = spec_split_name(full_name);
    match spec_first_named(roots, path[0]) {
        None => (roots, None),
        Some(i) => {
            let (node, place) = spec_set_value(roots[i], path.skip(1), value, seq![i]);
            (roots.update(i, node), place)
        },
    }
}

/// What a place stands for in contracts.
pub open spec fn place_view(place: Option<Vec<usize>>) -> Option<Seq<int>> {
    match place {
        Some(at) => Some(place_ints(at@)),
        None => None,
    }
}

/// Gives the node that the names of `path` from `depth` on lead to a new
/// value.
fn set_value(node: Expression, path: &Vec<String>, depth: usize, value: String, at: Vec<usize>)
    -> (r: (Expression, Option<Vec<usize>>))
    requires
        depth <= path.len(),
    ensures
        (r.0@, place_view(r.1)) == spec_set_value(
            node@,
            names_view(path@).skip(depth as int),
            value@,
            place_ints(at@),
        ),
    decreases path.len() - depth,
{
    let ghost names = names_view(path@).skip(depth as int);
    let ghost before = expressions_view(node.children@);
    let mut node = node;
    let mut at = at;
    if depth == path.len() {
        node.value = Some(value);
        return (node, Some(at));
    }
    assert(names[0] == path[depth as int]@);
    assert(names.skip(1) =~= names_view(path@).skip(depth + 1));
    match first_named(&node.children, path[depth].as_str()) {
        None => (node, None),
        Some(i) => {
            let child = node.children.remove(i);
            let ghost above = place_ints(at@);
            at.push(i);
            assert(place_ints(at@) =~= above.push(i as int));
            let (child, place) = set_value(child, path, depth + 1, value, at);
            node.children.insert(i, child);
            assert(expressions_view(node.children@) =~= before.update(i as int, child@));
            (node, place)
        },
    }
}

/// Gives the node of the given full name a new value, and says where that
/// node lies.
pub fn update_value(roots: &mut Vec<Expression>, full_name: &str, value: String) -> (place:
    Option<Vec<usize>>)
    ensures
        (expressions_view(final(roots)@), place_view(place)) == spec_update_value(
            expressions_view(old(roots)@),
            full_name@,
            value@,
        ),
{
    let ghost before = expressions_view(roots@);
    let path = split_name(full_name);
    assert(names_view(path@)[0] == path[0]@);
    match first_named(roots, path[0].as_str()) {
        None => None,
        Some(i) => {
            let node = roots.remove(i);
            let mut at: Vec<usize> = Vec::new();
            at.push(i);
            assert(place_ints(at@) =~= seq![i as int]);
            let (node, place) = set_value(node, &path, 1, value, at);
            roots.insert(i, node);
            assert(expressions_view(roots@) =~= before.update(i as int, node@));
            place
        },
    }
}

/// The node at a place, if the place is in the tree.
pub open spec fn spec_node_at(nodes: Seq<ExpressionView>, at: Seq<int>) -> Option<
    ExpressionView,
>
    decreases at.len(),
{
    if at.len() == 0 || at[0] < 0 || at[0] >= nodes.len() {
        None
    } else if at.len() == 1 {
        Some(nodes[at[0]])
    } else {
        spec_node_at(nodes[at[0]].children, at.skip(1))
    }
}

/// Finds the node at a place.
pub fn node_at<'a>(roots: &'a Vec<Expression>, at: &Vec<usize>) -> (r: Option<&'a Expression>)
    ensures
        match r {
            Some(node) => spec_node_at(expressions_view(roots@), place_ints(at@)) == Some(node@),
            None => spec_node_at(expressions_view(roots@), place_ints(at@)) is None,
        },
{
    if at.len() == 0 {
        return None;
    }
    let ghost place = place_ints(at@);
    let mut nodes: &Vec<Expression> = roots;
    let mut depth: usize = 0;
    assert(place.skip(0) =~= place);
    loop
        invariant
            depth < at.len(),
            place == place_ints(at@),
            spec_node_at(expressions_view(roots@), place) == spec_node_at(
                expressions_view(nodes@),
                place.skip(depth as int),
            ),
        decreases at.len() - depth,
    {
        let i = at[depth];
        assert(place.skip(depth as int)[0] == i);
        assert(place.skip(depth as int).skip(1) =~= place.skip(depth + 1));
        if i >= nodes.len() {
            return None;
        }
        if depth + 1 == at.len() {
            return Some(&nodes[i]);
        }
        nodes = &nodes[i].children;
        depth = depth + 1;
    }
}

/// The node that a way leads to from `node`: the node itself where the way
/// is empty, else a member, a member of that member, and so on.
pub open spec fn spec_descend(node: ExpressionView, way: Seq<int>) -> Option<ExpressionView>
    decreases way.len(),
{
    if way.len() == 0 {
        Some(node)
    } else if way[0] < 0 || way[0] >= node.children.len() {
        None
    } else {
        spec_descend(node.children[way[0]], way.skip(1))
    }
}

/// The node at a place is the one that the rest of the place leads to from
/// the expression that the place begins with.
pub proof fn lemma_node_at_descends(nodes: Seq<ExpressionView>, at: Seq<int>)
    ensures
        spec_node_at(nodes, at) == if at.len() > 0 && 0 <= at[0] < nodes.len() {
            spec_descend(nodes[at[0]], at.skip(1))
        } else {
            None
        },
    decreases at.len(),
{
    if at.len() > 1 && 0 <= at[0] < nodes.len() {
        let node = nodes[at[0]];
        let rest = at.skip(1);
        lemma_node_at_descends(node.children, rest);
        if 0 <= rest[0] < node.children.len() {
            assert(spec_descend(node, rest) == spec_descend(
                node.children[rest[0]],
                rest.skip(1),
            ));
        }
    } else if at.len() == 1 && 0 <= at[0] < nodes.len() {
        assert(at.skip(1).len() == 0);
    }
}

/// What a report does to the node that it is put under: the place that is
/// returned lies below `at`, and the node at that place is as the report
/// says. Nothing else is said of the tree here.
pub proof fn lemma_add_child_places(
    node: ExpressionView,
    path: Seq<Seq<char>>,
    report: ReportView,
    at: Seq<int>,
)
    requires
        path.len() > 0,
    ensures
        ({
            let (after, placed) = spec_add_child(node, path, report, at);
            match placed {
                PlacedView::Child(parent) => {
                    let way = parent.skip(at.len() as int);
                    &&& parent.len() >= at.len()
                    &&& parent.take(at.len() as int) == at
                    &&& spec_descend(node, way) matches Some(before)
                    &&& spec_descend(after, way) == Some(
                        ExpressionView {
                            children: before.children.push(spec_leaf(report, path.last())),
                            ..before
                        },
                    )
                },
                PlacedView::Update(place) => {
                    let way = place.skip(at.len() as int);
                    &&& place.len() > at.len()
                    &&& place.take(at.len() as int) == at
                    &&& spec_descend(node, way) matches Some(before)
                    &&& spec_descend(after, way) == Some(
                        spec_updated(before, report, path.last()),
                    )
                },
                PlacedView::TooDeep => after == node,
                _ => false,
            }
        }),
    decreases path.len(),
{
    let (after, placed) = spec_add_child(node, path, report, at);
    match spec_first_named(node.children, path[0]) {
        None => {
            if path.len() == 1 {
                assert(at.skip(at.len() as int) =~= Seq::<int>::empty());
                assert(at.take(at.len() as int) =~= at);
            }
        },
        Some(i) => {
            assert(is_first_named(node.children, path[0], i));
            let below = at.push(i);
            if path.len() == 1 {
                let way = below.skip(at.len() as int);
                assert(way =~= seq![i]);
                assert(below.take(at.len() as int) =~= at);
                assert(way.skip(1) =~= Seq::<int>::empty());
                assert(spec_descend(node, way) == spec_descend(node.children[i], way.skip(1)));
                assert(spec_descend(after, way) == spec_descend(after.children[i], way.skip(1)));
            } else {
                lemma_add_child_places(node.children[i], path.skip(1), report, below);
                assert(path.skip(1).last() == path.last());
                let place = match placed {
                    PlacedView::Child(p) => p,
                    PlacedView::Update(p) => p,
                    _ => below,
                };
                if !(placed is TooDeep) {
                    let way = place.skip(at.len() as int);
                    let inner = place.skip(below.len() as int);
                    assert(place.take(below.len() as int) == below);
                    assert(place.take(at.len() as int) =~= place.take(below.len() as int).take(
                        at.len() as int,
                    ));
                    assert(below.take(at.len() as int) =~= at);
                    assert(way[0] == place.take(below.len() as int)[at.len() as int]);
                    assert(way.skip(1) =~= inner);
                    assert(spec_descend(node, way) == spec_descend(node.children[i], inner));
                    assert(spec_descend(after, way) == spec_descend(after.children[i], inner));
                } else {
                    assert(after.children =~= node.children);
                }
            }
        },
    }
}

/// Where a report went is where it is found: behind a new expression it is
/// the last of all; behind a new member it is the last under its parent;
/// behind a known member it stands in that member's place, with the
/// member's own members; and where it went nowhere the tree is as it was.
pub proof fn theorem_report_is_found(roots: Seq<ExpressionView>, report: ReportView)
    ensures
        ({
            let (after, placed) = spec_add(roots, report);
            let name = spec_split_name(report.full_name).last();
            match placed {
                PlacedView::Top => after == roots.push(spec_leaf(report, report.full_name)),
                PlacedView::Child(parent) => {
                    &&& spec_node_at(roots, parent) matches Some(before)
                    &&& spec_node_at(after, parent) == Some(
                        ExpressionView {
                            children: before.children.push(spec_leaf(report, name)),
                            ..before
                        },
                    )
                },
                PlacedView::Update(place) => {
                    &&& spec_node_at(roots, place) matches Some(before)
                    &&& spec_node_at(after, place) == Some(spec_updated(before, report, name))
                },
                PlacedView::Unknown => after == roots,
                PlacedView::TooDeep => after == roots,
            }
        }),
{
    let (after, placed) = spec_add(roots, report);
    let path = spec_split_name(report.full_name);
    lemma_split_is_not_empty(report.full_name);
    if path.len() != 1 {
        if let Some(i) = spec_first_named(roots, path[0]) {
            assert(is_first_named(roots, path[0], i));
            let at = seq![i];
            lemma_add_child_places(roots[i], path.skip(1), report, at);
            assert(path.skip(1).last() == path.last());
            let place = match placed {
                PlacedView::Child(p) => p,
                PlacedView::Update(p) => p,
                _ => at,
            };
            if placed is TooDeep {
                assert(after =~= roots);
            } else {
                assert(place[0] == place.take(1)[0]);
                lemma_node_at_descends(roots, place);
                lemma_node_at_descends(after, place);
            }
        }
    }
}

/// A name has one piece at least.
pub proof fn lemma_split_is_not_empty(s: Seq<char>)
    ensures
        spec_split_name(s).len() >= 1,
{
    lemma_split_from_grows(s, Seq::empty(), Seq::empty());
}

/// Splitting adds pieces and takes none away.
pub proof fn lemma_split_from_grows(s: Seq<char>, pieces: Seq<Seq<char>>, current: Seq<char>)
    ensures
        spec_split_from(s, pieces, current).len() > pieces.len(),
    decreases s.len(),
{
    if s.len() > 0 {
        if s[0] == '.' {
            lemma_split_from_grows(s.skip(1), pieces.push(current), Seq::empty());
        } else {
            lemma_split_from_grows(s.skip(1), pieces, current.push(s[0]));
        }
    }
}

} // verus!
