//! What an application tells of one element, and the node that is made of it.

use crate::ax_macos::{Node, NodeView};
use crate::capture::{ScreenPoint, ScreenRect};
use crate::text::{copy_of, decimal_int, decimal_int_text, opt_view, same, texts};
use vstd::prelude::*;

verus! {

/// All node attributes the extraction walk consumes, fetched in one batch.
#[derive(Debug)]
pub struct NodeAttrs {
    pub role: Option<String>,
    pub subrole: Option<String>,
    pub title: Option<String>,
    pub description: Option<String>,
    pub label: Option<String>,
    pub value: Option<String>,
    pub identifier: Option<String>,
    pub role_description: Option<String>,
    pub position: Option<ScreenPoint>,
    pub size: Option<(i64, i64)>,
    pub focused: Option<bool>,
    pub selected: Option<bool>,
    pub enabled: Option<bool>,
    pub expanded: Option<bool>,
    /// The bits of a double.
    pub min_value: Option<u64>,
    /// The bits of a double.
    pub max_value: Option<u64>,
}

/// The attributes that are fetched one by one where the batch cannot be had.
#[derive(Debug)]
pub struct SingleAttrs {
    pub role: Option<String>,
    pub subrole: Option<String>,
    pub title: Option<String>,
    pub description: Option<String>,
    pub label: Option<String>,
    pub value: Option<String>,
    pub identifier: Option<String>,
    pub role_description: Option<String>,
    pub rect: Option<ScreenRect>,
}

/// What an application tells of one element.
#[derive(Debug)]
pub enum Fetched {
    Batch(NodeAttrs),
    Single(SingleAttrs),
}

/// `s` where it is not empty.
pub open spec fn filled(s: Option<Seq<char>>) -> Option<Seq<char>> {
    match s {
        Some(t) if t.len() > 0 => Some(t),
        _ => None,
    }
}

/// The first of four that is there, empty where none is.
pub open spec fn first_of(
    a: Option<Seq<char>>,
    b: Option<Seq<char>>,
    c: Option<Seq<char>>,
    d: Option<Seq<char>>,
) -> Seq<char> {
    if a is Some {
        a->0
    } else if b is Some {
        b->0
    } else if c is Some {
        c->0
    } else if d is Some {
        d->0
    } else {
        Seq::empty()
    }
}

/// A role whose value is a state.
pub open spec fn two_state(role: Seq<char>) -> bool {
    role == "AXCheckBox"@ || role == "AXRadioButton"@ || role == "AXToggleButton"@ || role
        == "AXDisclosureTriangle"@
}

/// An element's value: not empty, not a repetition of the name, and in words for the
/// roles whose value is a state.
pub open spec fn shown_value(role: Seq<char>, name: Seq<char>, value: Option<Seq<char>>) -> Option<
    Seq<char>,
> {
    match value {
        Some(v) if v.len() > 0 && v != name => Some(
            if two_state(role) {
                if v == "0"@ {
                    "off"@
                } else if v == "1"@ {
                    "on"@
                } else if v == "2"@ {
                    "mixed"@
                } else {
                    v
                }
            } else {
                v
            },
        ),
        _ => None,
    }
}

/// The role, where it is reported.
pub open spec fn role_or_unknown(role: Option<Seq<char>>) -> Seq<char> {
    match role {
        Some(r) => r,
        None => "AXUnknown"@,
    }
}

/// The name of a flag in a list of its own, where the flag has the value.
pub open spec fn flag(value: Option<bool>, wanted: bool, name: Seq<char>) -> Seq<Seq<char>> {
    if value == Some(wanted) {
        seq![name]
    } else {
        Seq::empty()
    }
}

/// The UI-state flags of an element.
pub open spec fn state_flags(a: NodeAttrs) -> Seq<Seq<char>> {
    flag(a.focused, true, "focused"@) + flag(a.selected, true, "selected"@) + flag(
        a.expanded,
        true,
        "expanded"@,
    ) + flag(a.enabled, false, "disabled"@)
}

/// The rectangle of a position and a size.
pub open spec fn rect_of(position: Option<ScreenPoint>, size: Option<(i64, i64)>) -> Option<
    ScreenRect,
> {
    match (position, size) {
        (Some(p), Some(s)) => Some(ScreenRect { x: p.x, y: p.y, w: s.0, h: s.1 }),
        _ => None,
    }
}

/// The role that a walk goes by.
pub open spec fn fetched_role(f: Fetched) -> Seq<char> {
    match f {
        Fetched::Batch(a) => role_or_unknown(opt_view(a.role)),
        Fetched::Single(a) => role_or_unknown(opt_view(a.role)),
    }
}

/// The node for an element, without what is below it. The name is the title, else
/// the description, the label or the value.
pub open spec fn bare_node(f: Fetched) -> NodeView {
    let role = fetched_role(f);
    match f {
        Fetched::Batch(a) => {
            let name = first_of(
                opt_view(a.title),
                opt_view(a.description),
                opt_view(a.label),
                opt_view(a.value),
            );
            NodeView {
                role,
                subrole: filled(opt_view(a.subrole)),
                name,
                identifier: filled(opt_view(a.identifier)),
                value: shown_value(role, name, opt_view(a.value)),
                role_description: filled(opt_view(a.role_description)),
                bounds: rect_of(a.position, a.size),
                bg: None,
                state: state_flags(a),
                min_value: a.min_value,
                max_value: a.max_value,
                truncated: false,
                child_source: None,
                children: Seq::empty(),
            }
        },
        Fetched::Single(a) => {
            let name = first_of(
                opt_view(a.title),
                opt_view(a.description),
                opt_view(a.label),
                opt_view(a.value),
            );
            NodeView {
                role,
                subrole: filled(opt_view(a.subrole)),
                name,
                identifier: filled(opt_view(a.identifier)),
                value: shown_value(role, name, opt_view(a.value)),
                role_description: filled(opt_view(a.role_description)),
                bounds: a.rect,
                bg: None,
                state: Seq::empty(),
                min_value: None,
                max_value: None,
                truncated: false,
                child_source: None,
                children: Seq::empty(),
            }
        },
    }
}

/// `s` where it is not empty.
pub fn copy_filled(s: &Option<String>) -> (r: Option<String>)
    ensures
        opt_view(r) == filled(opt_view(*s)),
{
    match s {
        Some(t) => {
            if t.as_str().is_empty() {
                None
            } else {
                Some(copy_of(t.as_str()))
            }
        },
        None => None,
    }
}

/// The best name for an element: title, description, label, value.
pub fn best_name(
    title: &Option<String>,
    description: &Option<String>,
    label: &Option<String>,
    value: &Option<String>,
) -> (r: String)
    ensures
        r@ == first_of(
            opt_view(*title),
            opt_view(*description),
            opt_view(*label),
            opt_view(*value),
        ),
{
    if let Some(t) = title {
        return copy_of(t.as_str());
    }
    if let Some(t) = description {
        return copy_of(t.as_str());
    }
    if let Some(t) = label {
        return copy_of(t.as_str());
    }
    if let Some(t) = value {
        return copy_of(t.as_str());
    }
    String::new()
}

fn value_to_show(role: &str, name: &str, value: &Option<String>) -> (r: Option<String>)
    ensures
        opt_view(r) == shown_value(role@, name@, opt_view(*value)),
{
    let v = match value {
        Some(v) => v.as_str(),
        None => {
            return None;
        },
    };
    if v.is_empty() || same(v, name) {
        return None;
    }
    if same(role, "AXCheckBox") || same(role, "AXRadioButton") || same(role, "AXToggleButton")
        || same(role, "AXDisclosureTriangle") {
        if same(v, "0") {
            return Some(copy_of("off"));
        }
        if same(v, "1") {
            return Some(copy_of("on"));
        }
        if same(v, "2") {
            return Some(copy_of("mixed"));
        }
    }
    Some(copy_of(v))
}

fn push_flag(state: &mut Vec<String>, value: Option<bool>, wanted: bool, name: &str)
    ensures
        texts(final(state)@) == texts(old(state)@) + flag(value, wanted, name@),
{
    let ghost before = state@;
    let set = match value {
        Some(v) => v == wanted,
        None => false,
    };
    if set {
        state.push(copy_of(name));
    }
    assert(texts(state@) =~= texts(before) + flag(value, wanted, name@));
}

fn role_text(role: &Option<String>) -> (r: String)
    ensures
        r@ == role_or_unknown(opt_view(*role)),
{
    match role {
        Some(t) => copy_of(t.as_str()),
        None => copy_of("AXUnknown"),
    }
}

impl Fetched {
    /// The role that a walk goes by: relations and caps depend on it.
    pub fn role(&self) -> (r: String)
        ensures
            r@ == fetched_role(*self),
    {
        match self {
            Fetched::Batch(a) => role_text(&a.role),
            Fetched::Single(a) => role_text(&a.role),
        }
    }

    /// The node for an element, without what is below it.
    pub fn node(&self) -> (r: Node)
        ensures
            r@ == bare_node(*self),
            r.children@.len() == 0,
    {
        match self {
            Fetched::Batch(a) => {
                let role = role_text(&a.role);
                let name = best_name(&a.title, &a.description, &a.label, &a.value);
                let value = value_to_show(role.as_str(), name.as_str(), &a.value);
                let bounds = match (a.position, a.size) {
                    (Some(p), Some(s)) => Some(ScreenRect { x: p.x, y: p.y, w: s.0, h: s.1 }),
                    _ => None,
                };
                let mut state: Vec<String> = Vec::new();
                push_flag(&mut state, a.focused, true, "focused");
                push_flag(&mut state, a.selected, true, "selected");
                push_flag(&mut state, a.expanded, true, "expanded");
                push_flag(&mut state, a.enabled, false, "disabled");
                assert(texts(state@) =~= state_flags(*a));
                let r = Node {
                    role,
                    subrole: copy_filled(&a.subrole),
                    name,
                    identifier: copy_filled(&a.identifier),
                    value,
                    role_description: copy_filled(&a.role_description),
                    bounds,
                    bg: None,
                    state,
                    min_value: a.min_value,
                    max_value: a.max_value,
                    truncated: false,
                    child_source: None,
                    children: Vec::new(),
                };
                assert(r@ =~= bare_node(*self));
                r
            },
            Fetched::Single(a) => {
                let role = role_text(&a.role);
                let name = best_name(&a.title, &a.description, &a.label, &a.value);
                let value = value_to_show(role.as_str(), name.as_str(), &a.value);
                let r = Node {
                    role,
                    subrole: copy_filled(&a.subrole),
                    name,
                    identifier: copy_filled(&a.identifier),
                    value,
                    role_description: copy_filled(&a.role_description),
                    bounds: a.rect,
                    bg: None,
                    state: Vec::new(),
                    min_value: None,
                    max_value: None,
                    truncated: false,
                    child_source: None,
                    children: Vec::new(),
                };
                assert(r@.state =~= Seq::<Seq<char>>::empty());
                assert(r@ =~= bare_node(*self));
                r
            },
        }
    }
}

/// A value as the application reports it.
#[derive(Debug)]
pub enum RawValue {
    Text(String),
    /// A toggle.
    Flag(bool),
    /// A whole number.
    Whole(i64),
    /// Any other number, as it is written.
    Decimal(String),
    /// Anything else.
    Other,
}

/// A value in text: checkboxes, sliders and steppers report numbers, toggles report
/// flags.
pub fn value_text(v: RawValue) -> (r: Option<String>)
    ensures
        opt_view(r) == (match v {
            RawValue::Text(s) => Some(s@),
            RawValue::Flag(b) => Some(
                if b {
                    "1"@
                } else {
                    "0"@
                },
            ),
            RawValue::Whole(n) => Some(decimal_int(n as int)),
            RawValue::Decimal(s) => Some(s@),
            RawValue::Other => None,
        }),
{
    match v {
        RawValue::Text(s) => Some(s),
        RawValue::Flag(b) => {
            if b {
                Some(copy_of("1"))
            } else {
                Some(copy_of("0"))
            }
        },
        RawValue::Whole(n) => Some(decimal_int_text(n)),
        RawValue::Decimal(s) => Some(s),
        RawValue::Other => None,
    }
}

/// An element's rectangle: its frame, else its position and size.
pub fn element_rect(
    frame: Option<ScreenRect>,
    position: Option<ScreenPoint>,
    size: Option<(i64, i64)>,
) -> (r: Option<ScreenRect>)
    ensures
        r == (if frame is Some {
            frame
        } else {
            rect_of(position, size)
        }),
{
    if frame.is_some() {
        return frame;
    }
    match (position, size) {
        (Some(p), Some(s)) => Some(ScreenRect { x: p.x, y: p.y, w: s.0, h: s.1 }),
        _ => None,
    }
}

// ---------------------------------------------------------------------------
// What a node tells of its element
// ---------------------------------------------------------------------------

/// What is told of an element, however it was asked for.
pub struct Told {
    pub role: Option<Seq<char>>,
    pub subrole: Option<Seq<char>>,
    pub title: Option<Seq<char>>,
    pub description: Option<Seq<char>>,
    pub label: Option<Seq<char>>,
    pub value: Option<Seq<char>>,
    pub identifier: Option<Seq<char>>,
    pub role_description: Option<Seq<char>>,
}

/// What is told of an element.
pub open spec fn told(f: Fetched) -> Told {
    match f {
        Fetched::Batch(a) => Told {
            role: opt_view(a.role),
            subrole: opt_view(a.subrole),
            title: opt_view(a.title),
            description: opt_view(a.description),
            label: opt_view(a.label),
            value: opt_view(a.value),
            identifier: opt_view(a.identifier),
            role_description: opt_view(a.role_description),
        },
        Fetched::Single(a) => Told {
            role: opt_view(a.role),
            subrole: opt_view(a.subrole),
            title: opt_view(a.title),
            description: opt_view(a.description),
            label: opt_view(a.label),
            value: opt_view(a.value),
            identifier: opt_view(a.identifier),
            role_description: opt_view(a.role_description),
        },
    }
}

/// `name` is the best name there is: the title where one is told, else the description,
/// the label, the value, and empty where nothing is.
pub open spec fn best_of(t: Told, name: Seq<char>) -> bool {
    &&& t.title matches Some(s) ==> name == s
    &&& t.title is None ==> (t.description matches Some(s) ==> name == s)
    &&& t.title is None && t.description is None ==> (t.label matches Some(s) ==> name == s)
    &&& t.title is None && t.description is None && t.label is None ==> (t.value matches Some(s)
        ==> name == s)
    &&& t.title is None && t.description is None && t.label is None && t.value is None
        ==> name.len() == 0
}

/// A node has the role, the names and the texts that are told of its element, however
/// they were asked for; a text that is empty counts as none, and so does a value that
/// only repeats the name.
pub proof fn a_node_is_what_is_told(f: Fetched)
    ensures
        ({
            let (n, t) = (bare_node(f), told(f));
            &&& t.role matches Some(r) ==> n.role == r
            &&& t.role is None ==> n.role == "AXUnknown"@
            &&& best_of(t, n.name)
            &&& t.subrole matches Some(s) ==> s.len() > 0 ==> n.subrole == Some(s)
            &&& t.identifier matches Some(s) ==> s.len() > 0 ==> n.identifier == Some(s)
            &&& t.role_description matches Some(s) ==> s.len() > 0 ==> n.role_description == Some(s)
            &&& n.subrole matches Some(s) ==> s.len() > 0 && t.subrole == Some(s)
            &&& n.identifier matches Some(s) ==> s.len() > 0 && t.identifier == Some(s)
            &&& n.role_description matches Some(s) ==> s.len() > 0 && t.role_description == Some(s)
            &&& n.value is Some <==> (t.value matches Some(v) && v.len() > 0 && v != n.name)
            &&& n.bg is None && !n.truncated && n.child_source is None && n.children.len() == 0
        }),
{
}

/// A value is shown as it is told, but for what can only be on or off: there 0, 1 and 2
/// are off, on and mixed.
pub proof fn states_are_put_in_words(f: Fetched)
    ensures
        ({
            let n = bare_node(f);
            let switch = n.role == "AXCheckBox"@ || n.role == "AXRadioButton"@ || n.role
                == "AXToggleButton"@ || n.role == "AXDisclosureTriangle"@;
            n.value matches Some(shown) ==> {
                let v = told(f).value->0;
                &&& !switch ==> shown == v
                &&& switch && v == "0"@ ==> shown == "off"@
                &&& switch && v == "1"@ ==> shown == "on"@
                &&& switch && v == "2"@ ==> shown == "mixed"@
                &&& switch && v != "0"@ && v != "1"@ && v != "2"@ ==> shown == v
            }
        }),
{
    reveal_strlit("0");
    reveal_strlit("1");
    reveal_strlit("2");
    assert("0"@[0] == '0' && "1"@[0] == '1' && "2"@[0] == '2');
}

/// A node stands where its element does: at the position and with the size that are told,
/// or in the rectangle, and nowhere where either is missing.
pub proof fn a_node_stands_where_its_element_does(f: Fetched)
    ensures
        match f {
            Fetched::Batch(a) => match bare_node(f).bounds {
                Some(b) => {
                    &&& a.position matches Some(p) && b.x == p.x && b.y == p.y
                    &&& a.size matches Some(s) && b.w == s.0 && b.h == s.1
                },
                None => a.position is None || a.size is None,
            },
            Fetched::Single(a) => bare_node(f).bounds == a.rect,
        },
{
}

/// A node is marked focused, selected, expanded or disabled exactly where its element is
/// told to be, and by nothing else; its range is the one that is told.
pub proof fn a_node_is_in_the_state_of_its_element(a: NodeAttrs, mark: Seq<char>)
    ensures
        ({
            let n = bare_node(Fetched::Batch(a));
            &&& n.state.contains("focused"@) <==> a.focused == Some(true)
            &&& n.state.contains("selected"@) <==> a.selected == Some(true)
            &&& n.state.contains("expanded"@) <==> a.expanded == Some(true)
            &&& n.state.contains("disabled"@) <==> a.enabled == Some(false)
            &&& n.state.contains(mark) ==> mark == "focused"@ || mark == "selected"@ || mark
                == "expanded"@ || mark == "disabled"@
            &&& n.min_value == a.min_value && n.max_value == a.max_value
        }),
{
    reveal_strlit("focused");
    reveal_strlit("selected");
    reveal_strlit("expanded");
    reveal_strlit("disabled");
    assert("focused"@.len() == 7 && "selected"@[0] == 's' && "expanded"@[0] == 'e'
        && "disabled"@[0] == 'd');
    let f = flag(a.focused, true, "focused"@);
    let s = flag(a.selected, true, "selected"@);
    let e = flag(a.expanded, true, "expanded"@);
    let d = flag(a.enabled, false, "disabled"@);
    let all = f + s + e + d;
    assert(bare_node(Fetched::Batch(a)).state == all);
    if f.len() > 0 {
        assert(all[0] == "focused"@);
    }
    if s.len() > 0 {
        assert(all[f.len() as int] == "selected"@);
    }
    if e.len() > 0 {
        assert(all[(f.len() + s.len()) as int] == "expanded"@);
    }
    if d.len() > 0 {
        assert(all[(f.len() + s.len() + e.len()) as int] == "disabled"@);
    }
    assert forall|i: int| 0 <= i < all.len() implies (#[trigger] all[i] == "focused"@ && f.len() > 0)
        || (all[i] == "selected"@ && s.len() > 0) || (all[i] == "expanded"@ && e.len() > 0) || (
    all[i] == "disabled"@ && d.len() > 0) by {}
}

} // verus!
