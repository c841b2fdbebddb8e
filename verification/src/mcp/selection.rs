//! The selection as it is kept for the selection tool: a list with one object for
//! each selected element. Coordinates keep the units of [`crate::capture`].

use crate::capture::{PickedElement, PickedView, ScreenPoint, ScreenRect};
use crate::json::{
    a_member_is_the_first_with_its_key, field, list_view, list_view_pointwise, members_view, text,
    Json, JsonNumber, JsonView,
};
use crate::mcp::answers::{count_of, kept, number_or_null, selection_view, text_or_null};
use crate::session::{committed, crops, picks, ClickError, PickSession, SessionView};
use crate::text::{opt_view, texts};
use vstd::prelude::*;

verus! {

/// A coordinate.
pub open spec fn unit_value(v: i64) -> JsonView {
    JsonView::Number(JsonNumber::Units(v))
}

/// A whole number.
pub open spec fn int_value(v: i32) -> JsonView {
    if v >= 0 {
        JsonView::Number(JsonNumber::Whole(v as u64))
    } else {
        JsonView::Number(JsonNumber::Negative(v as i64))
    }
}

/// A rectangle.
pub open spec fn rect_value(r: ScreenRect) -> JsonView {
    JsonView::Object(
        seq![
            ("x"@, unit_value(r.x)),
            ("y"@, unit_value(r.y)),
            ("w"@, unit_value(r.w)),
            ("h"@, unit_value(r.h)),
        ],
    )
}

/// A point.
pub open spec fn point_value(p: ScreenPoint) -> JsonView {
    JsonView::Object(seq![("x"@, unit_value(p.x)), ("y"@, unit_value(p.y))])
}

/// A selected element.
pub open spec fn picked_value(p: PickedView) -> JsonView {
    JsonView::Object(
        seq![
            ("role"@, JsonView::Text(p.role)),
            ("subrole"@, text_or_null(p.subrole)),
            ("name"@, JsonView::Text(p.name)),
            ("identifier"@, text_or_null(p.identifier)),
            ("bounds"@, rect_value(p.bounds)),
            ("pid"@, int_value(p.pid)),
            ("app_path"@, text_or_null(p.app_path)),
            ("window_title"@, text_or_null(p.window_title)),
            (
                "window_bounds"@,
                match p.window_bounds {
                    Some(r) => rect_value(r),
                    None => JsonView::Null,
                },
            ),
            (
                "click"@,
                match p.click {
                    Some(c) => point_value(c),
                    None => JsonView::Null,
                },
            ),
            ("ax_shallow"@, JsonView::Bool(p.ax_shallow)),
            ("crop_path"@, text_or_null(p.crop_path)),
            ("ax_tree"@, text_or_null(p.ax_tree)),
        ],
    )
}

/// The selected elements, in their order.
pub open spec fn selection_value(selected: Seq<PickedView>) -> JsonView {
    JsonView::List(selected.map_values(|p: PickedView| picked_value(p)))
}

fn unit(v: i64) -> (r: Json)
    ensures
        r@ == unit_value(v),
{
    Json::Number(JsonNumber::Units(v))
}

fn opt_text(t: &Option<String>) -> (r: Json)
    ensures
        r@ == text_or_null(opt_view(*t)),
{
    match t {
        Some(s) => text(s.as_str()),
        None => Json::Null,
    }
}

fn rect_json(rect: &ScreenRect) -> (r: Json)
    ensures
        r@ == rect_value(*rect),
{
    let mut members: Vec<(String, Json)> = Vec::new();
    field(&mut members, "x", unit(rect.x));
    field(&mut members, "y", unit(rect.y));
    field(&mut members, "w", unit(rect.w));
    field(&mut members, "h", unit(rect.h));
    assert(members_view(members@) =~= rect_value(*rect)->Object_0);
    Json::Object(members)
}

fn point_json(p: &ScreenPoint) -> (r: Json)
    ensures
        r@ == point_value(*p),
{
    let mut members: Vec<(String, Json)> = Vec::new();
    field(&mut members, "x", unit(p.x));
    field(&mut members, "y", unit(p.y));
    assert(members_view(members@) =~= point_value(*p)->Object_0);
    Json::Object(members)
}

/// A selected element as it is kept.
pub fn picked_json(p: &PickedElement) -> (r: Json)
    ensures
        r@ == picked_value(p@),
{
    let pid = if p.pid >= 0 {
        Json::Number(JsonNumber::Whole(p.pid as u64))
    } else {
        Json::Number(JsonNumber::Negative(p.pid as i64))
    };
    let window_bounds = match &p.window_bounds {
        Some(rect) => rect_json(rect),
        None => Json::Null,
    };
    let click = match &p.click {
        Some(c) => point_json(c),
        None => Json::Null,
    };
    let mut members: Vec<(String, Json)> = Vec::new();
    field(&mut members, "role", text(p.role.as_str()));
    field(&mut members, "subrole", opt_text(&p.subrole));
    field(&mut members, "name", text(p.name.as_str()));
    field(&mut members, "identifier", opt_text(&p.identifier));
    field(&mut members, "bounds", rect_json(&p.bounds));
    field(&mut members, "pid", pid);
    field(&mut members, "app_path", opt_text(&p.app_path));
    field(&mut members, "window_title", opt_text(&p.window_title));
    field(&mut members, "window_bounds", window_bounds);
    field(&mut members, "click", click);
    field(&mut members, "ax_shallow", Json::Bool(p.ax_shallow));
    field(&mut members, "crop_path", opt_text(&p.crop_path));
    field(&mut members, "ax_tree", opt_text(&p.ax_tree));
    assert(members_view(members@) =~= picked_value(p@)->Object_0);
    Json::Object(members)
}

/// The selection as it is kept.
pub fn selection_json(selected: &Vec<PickedElement>) -> (r: Json)
    ensures
        r@ == selection_value(picks(selected@)),
{
    let mut out: Vec<Json> = Vec::new();
    for i in 0..selected.len()
        invariant
            out@.len() == i,
            forall|k: int| 0 <= k < i ==> #[trigger] out@[k]@ == picked_value(selected@[k]@),
    {
        out.push(picked_json(&selected[i]));
    }
    proof {
        list_view_pointwise(out@);
        assert(list_view(out@) =~= selection_value(picks(selected@))->List_0);
    }
    Json::List(out)
}

/// What a committed pick leaves to be done.
#[derive(Debug)]
pub struct Committed {
    /// The crop files of the elements that were dropped.
    pub dropped: Vec<String>,
    /// The selection, to be kept for the selection tool.
    pub stored: Json,
}

/// Take a picked element into the selection, and give the selection as it is to be
/// kept.
pub fn commit_pick(session: &mut PickSession, picked: PickedElement, shift: bool) -> (r: Result<
    Committed,
    ClickError,
>)
    requires
        old(session)@.wf(),
    ensures
        final(session)@.wf(),
        match committed(old(session)@, picked@, shift) {
            Err(e) => r == Err::<Committed, ClickError>(e) && final(session)@ == old(session)@,
            Ok(s) => final(session)@ == s && (r matches Ok(c) && c.stored@ == selection_value(
                s.selected,
            ) && texts(c.dropped@) == (if shift {
                Seq::empty()
            } else {
                crops(old(session)@.selected)
            })),
        },
{
    match session.commit(picked, shift) {
        Ok(dropped) => {
            assert(shift ==> texts(dropped@) =~= Seq::empty());
            let selected = session.selection();
            Ok(Committed { dropped, stored: selection_json(&selected) })
        },
        Err(e) => Err(e),
    }
}

/// What the selection tool answers where a kept selection is read back: as many
/// elements as are selected, each as it was picked and in their order.
pub proof fn the_selection_is_reported(selected: Seq<PickedView>, age: Option<u64>)
    requires
        selected.len() <= u64::MAX,
    ensures
        selection_view(true, Some(selection_value(selected)), age) == JsonView::Object(
            seq![
                ("present"@, JsonView::Bool(selected.len() > 0)),
                ("count"@, JsonView::Number(JsonNumber::Whole(selected.len() as u64))),
                ("age_seconds"@, number_or_null(age)),
                (
                    "elements"@,
                    JsonView::List(selected.map_values(|p: PickedView| picked_value(p))),
                ),
            ],
        ),
{
}

/// A pick that was taken is reported: after it, the tool counts one element without
/// shift and one more than before with it, and the pick is the last of them.
pub proof fn a_taken_pick_is_reported(
    s: SessionView,
    picked: PickedView,
    shift: bool,
    age: Option<u64>,
)
    requires
        s.selected.len() < u64::MAX,
        committed(s, picked, shift) is Ok,
    ensures
        ({
            let after = committed(s, picked, shift)->Ok_0.selected;
            let n: nat = if shift {
                s.selected.len() + 1
            } else {
                1
            };
            let elements = after.map_values(|p: PickedView| picked_value(p));
            &&& selection_view(true, Some(selection_value(after)), age) == JsonView::Object(
                seq![
                    ("present"@, JsonView::Bool(true)),
                    ("count"@, JsonView::Number(JsonNumber::Whole(n as u64))),
                    ("age_seconds"@, number_or_null(age)),
                    ("elements"@, JsonView::List(elements)),
                ],
            )
            &&& elements.len() == n
            &&& elements.last() == picked_value(picked)
            &&& shift ==> elements.drop_last() == s.selected.map_values(
                |p: PickedView| picked_value(p),
            )
        }),
{
    let after = committed(s, picked, shift)->Ok_0.selected;
    let elements = after.map_values(|p: PickedView| picked_value(p));
    if shift {
        assert(elements.drop_last() =~= s.selected.map_values(|p: PickedView| picked_value(p)));
    }
}

/// The tool says that a selection is present exactly where it counts an element, and
/// where no file was read, or what it holds is no JSON, it counts none and lists none.
pub proof fn present_means_counted(read: bool, parsed: Option<JsonView>, age: Option<u64>)
    requires
        count_of(kept(parsed)) <= u64::MAX,
    ensures
        ({
            let members = selection_view(read, parsed, age)->Object_0;
            let n: u64 = if read {
                count_of(kept(parsed)) as u64
            } else {
                0
            };
            &&& members[0] == ("present"@, JsonView::Bool(n > 0))
            &&& members[1] == ("count"@, JsonView::Number(JsonNumber::Whole(n)))
            &&& !read || parsed is None ==> {
                &&& n == 0
                &&& members.last() == ("elements"@, JsonView::List(Seq::empty()))
            }
        }),
{
}

// ---------------------------------------------------------------------------
// What is kept of an element
// ---------------------------------------------------------------------------

proof fn place_keys_differ()
    ensures
        "x"@ != "y"@,
        "x"@ != "w"@,
        "x"@ != "h"@,
        "y"@ != "w"@,
        "y"@ != "h"@,
        "w"@ != "h"@,
{
    reveal_strlit("x");
    reveal_strlit("y");
    reveal_strlit("w");
    reveal_strlit("h");
    assert("x"@.len() == 1 && "y"@.len() == 1 && "w"@.len() == 1 && "h"@.len() == 1);
    assert("h"@[0] == 'h' && "w"@[0] == 'w' && "x"@[0] == 'x' && "y"@[0] == 'y');
}

proof fn element_keys_differ()
    ensures
        "role"@ != "subrole"@,
        "role"@ != "name"@,
        "role"@ != "identifier"@,
        "role"@ != "bounds"@,
        "role"@ != "pid"@,
        "role"@ != "app_path"@,
        "role"@ != "window_title"@,
        "role"@ != "window_bounds"@,
        "role"@ != "click"@,
        "role"@ != "ax_shallow"@,
        "role"@ != "crop_path"@,
        "role"@ != "ax_tree"@,
        "subrole"@ != "name"@,
        "subrole"@ != "identifier"@,
        "subrole"@ != "bounds"@,
        "subrole"@ != "pid"@,
        "subrole"@ != "app_path"@,
        "subrole"@ != "window_title"@,
        "subrole"@ != "window_bounds"@,
        "subrole"@ != "click"@,
        "subrole"@ != "ax_shallow"@,
        "subrole"@ != "crop_path"@,
        "subrole"@ != "ax_tree"@,
        "name"@ != "identifier"@,
        "name"@ != "bounds"@,
        "name"@ != "pid"@,
        "name"@ != "app_path"@,
        "name"@ != "window_title"@,
        "name"@ != "window_bounds"@,
        "name"@ != "click"@,
        "name"@ != "ax_shallow"@,
        "name"@ != "crop_path"@,
        "name"@ != "ax_tree"@,
        "identifier"@ != "bounds"@,
        "identifier"@ != "pid"@,
        "identifier"@ != "app_path"@,
        "identifier"@ != "window_title"@,
        "identifier"@ != "window_bounds"@,
        "identifier"@ != "click"@,
        "identifier"@ != "ax_shallow"@,
        "identifier"@ != "crop_path"@,
        "identifier"@ != "ax_tree"@,
        "bounds"@ != "pid"@,
        "bounds"@ != "app_path"@,
        "bounds"@ != "window_title"@,
        "bounds"@ != "window_bounds"@,
        "bounds"@ != "click"@,
        "bounds"@ != "ax_shallow"@,
        "bounds"@ != "crop_path"@,
        "bounds"@ != "ax_tree"@,
        "pid"@ != "app_path"@,
        "pid"@ != "window_title"@,
        "pid"@ != "window_bounds"@,
        "pid"@ != "click"@,
        "pid"@ != "ax_shallow"@,
        "pid"@ != "crop_path"@,
        "pid"@ != "ax_tree"@,
        "app_path"@ != "window_title"@,
        "app_path"@ != "window_bounds"@,
        "app_path"@ != "click"@,
        "app_path"@ != "ax_shallow"@,
        "app_path"@ != "crop_path"@,
        "app_path"@ != "ax_tree"@,
        "window_title"@ != "window_bounds"@,
        "window_title"@ != "click"@,
        "window_title"@ != "ax_shallow"@,
        "window_title"@ != "crop_path"@,
        "window_title"@ != "ax_tree"@,
        "window_bounds"@ != "click"@,
        "window_bounds"@ != "ax_shallow"@,
        "window_bounds"@ != "crop_path"@,
        "window_bounds"@ != "ax_tree"@,
        "click"@ != "ax_shallow"@,
        "click"@ != "crop_path"@,
        "click"@ != "ax_tree"@,
        "ax_shallow"@ != "crop_path"@,
        "ax_shallow"@ != "ax_tree"@,
        "crop_path"@ != "ax_tree"@,
{
    reveal_strlit("role");
    reveal_strlit("subrole");
    reveal_strlit("name");
    reveal_strlit("identifier");
    reveal_strlit("bounds");
    reveal_strlit("pid");
    reveal_strlit("app_path");
    reveal_strlit("window_title");
    reveal_strlit("window_bounds");
    reveal_strlit("click");
    reveal_strlit("ax_shallow");
    reveal_strlit("crop_path");
    reveal_strlit("ax_tree");
    assert("role"@.len() == 4 && "subrole"@.len() == 7 && "name"@.len() == 4 && "identifier"@.len() == 10 && "bounds"@.len() == 6 && "pid"@.len() == 3 && "app_path"@.len() == 8 && "window_title"@.len() == 12 && "window_bounds"@.len() == 13 && "click"@.len() == 5 && "ax_shallow"@.len() == 10 && "crop_path"@.len() == 9 && "ax_tree"@.len() == 7);
    assert("ax_shallow"@[0] == 'a' && "ax_tree"@[0] == 'a' && "identifier"@[0] == 'i' && "name"@[0] == 'n' && "role"@[0] == 'r' && "subrole"@[0] == 's');
}

/// A value tells a rectangle: its left edge, its top, its width and its height by name.
pub open spec fn tells_rect(v: JsonView, r: ScreenRect) -> bool {
    &&& v.member("x"@) == Some(JsonView::Number(JsonNumber::Units(r.x)))
    &&& v.member("y"@) == Some(JsonView::Number(JsonNumber::Units(r.y)))
    &&& v.member("w"@) == Some(JsonView::Number(JsonNumber::Units(r.w)))
    &&& v.member("h"@) == Some(JsonView::Number(JsonNumber::Units(r.h)))
}

/// What is kept of a rectangle tells it, and what is kept of a point tells where it is.
pub proof fn places_are_kept_by_name(r: ScreenRect, p: ScreenPoint)
    ensures
        tells_rect(rect_value(r), r),
        point_value(p).member("x"@) == Some(JsonView::Number(JsonNumber::Units(p.x))),
        point_value(p).member("y"@) == Some(JsonView::Number(JsonNumber::Units(p.y))),
{
    place_keys_differ();
    let m = rect_value(r)->Object_0;
    a_member_is_the_first_with_its_key(m, "x"@, 0);
    a_member_is_the_first_with_its_key(m, "y"@, 1);
    a_member_is_the_first_with_its_key(m, "w"@, 2);
    a_member_is_the_first_with_its_key(m, "h"@, 3);
    let m = point_value(p)->Object_0;
    a_member_is_the_first_with_its_key(m, "x"@, 0);
    a_member_is_the_first_with_its_key(m, "y"@, 1);
}

/// A value tells an optional text: the text, or null where there is none.
pub open spec fn tells_text(v: Option<JsonView>, t: Option<Seq<char>>) -> bool {
    v == Some(
        match t {
            Some(s) => JsonView::Text(s),
            None => JsonView::Null,
        },
    )
}

/// Everything of a selected element is kept by its name: what it is called, where it is,
/// whose it is, where it was clicked, and what was taken of it.
pub proof fn an_element_is_kept_by_name(p: PickedView)
    ensures
        ({
            let v = picked_value(p);
            &&& tells_text(v.member("role"@), Some(p.role))
            &&& tells_text(v.member("subrole"@), p.subrole)
            &&& tells_text(v.member("name"@), Some(p.name))
            &&& tells_text(v.member("identifier"@), p.identifier)
            &&& v.member("bounds"@) matches Some(b) && tells_rect(b, p.bounds)
            &&& p.pid >= 0 ==> v.member("pid"@) == Some(
                JsonView::Number(JsonNumber::Whole(p.pid as u64)),
            )
            &&& p.pid < 0 ==> v.member("pid"@) == Some(
                JsonView::Number(JsonNumber::Negative(p.pid as i64)),
            )
            &&& tells_text(v.member("app_path"@), p.app_path)
            &&& tells_text(v.member("window_title"@), p.window_title)
            &&& p.window_bounds matches Some(r) ==> (v.member("window_bounds"@) matches Some(b)
                && tells_rect(b, r))
            &&& p.window_bounds is None ==> v.member("window_bounds"@) == Some(JsonView::Null)
            &&& p.click matches Some(c) ==> v.member("click"@) == Some(point_value(c))
            &&& p.click is None ==> v.member("click"@) == Some(JsonView::Null)
            &&& v.member("ax_shallow"@) == Some(JsonView::Bool(p.ax_shallow))
            &&& tells_text(v.member("crop_path"@), p.crop_path)
            &&& tells_text(v.member("ax_tree"@), p.ax_tree)
        }),
{
    element_keys_differ();
    places_are_kept_by_name(p.bounds, ScreenPoint { x: 0, y: 0 });
    if let Some(r) = p.window_bounds {
        places_are_kept_by_name(r, ScreenPoint { x: 0, y: 0 });
    }
    let m = picked_value(p)->Object_0;
    a_member_is_the_first_with_its_key(m, "role"@, 0);
    a_member_is_the_first_with_its_key(m, "subrole"@, 1);
    a_member_is_the_first_with_its_key(m, "name"@, 2);
    a_member_is_the_first_with_its_key(m, "identifier"@, 3);
    a_member_is_the_first_with_its_key(m, "bounds"@, 4);
    a_member_is_the_first_with_its_key(m, "pid"@, 5);
    a_member_is_the_first_with_its_key(m, "app_path"@, 6);
    a_member_is_the_first_with_its_key(m, "window_title"@, 7);
    a_member_is_the_first_with_its_key(m, "window_bounds"@, 8);
    a_member_is_the_first_with_its_key(m, "click"@, 9);
    a_member_is_the_first_with_its_key(m, "ax_shallow"@, 10);
    a_member_is_the_first_with_its_key(m, "crop_path"@, 11);
    a_member_is_the_first_with_its_key(m, "ax_tree"@, 12);
}

/// The kept selection holds every element in its place, and no other.
pub proof fn the_selection_is_kept_in_order(selected: Seq<PickedView>, i: int)
    requires
        0 <= i < selected.len(),
    ensures
        selection_value(selected) matches JsonView::List(l) && l.len() == selected.len() && l[i]
            == picked_value(selected[i]),
{
}

} // verus!
