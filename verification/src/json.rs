//! JSON values as the protocol logic reads and builds them.

use crate::text::{copy_of, same};
use vstd::prelude::*;

verus! {

/// A JSON number.
#[derive(Debug, Clone, Copy, PartialEq, Eq, Structural)]
pub enum JsonNumber {
    /// A whole number from zero on.
    Whole(u64),
    /// A whole number below zero.
    Negative(i64),
    /// Any other number, as the bits of a double.
    Double(u64),
    /// A coordinate in the units of [`crate::capture`].
    Units(i64),
}

/// A JSON value. An object is the list of its members; the first of a key counts.
#[derive(Debug)]
pub enum Json {
    Null,
    Bool(bool),
    Number(JsonNumber),
    Text(String),
    List(Vec<Json>),
    Object(Vec<(String, Json)>),
}

/// What a [`Json`] holds.
pub enum JsonView {
    Null,
    Bool(bool),
    Number(JsonNumber),
    Text(Seq<char>),
    List(Seq<JsonView>),
    Object(Seq<(Seq<char>, JsonView)>),
}

impl View for Json {
    type V = JsonView;

    open spec fn view(&self) -> JsonView {
        json_view(*self)
    }
}

/// What a value holds.
pub open spec fn json_view(j: Json) -> JsonView
    decreases j,
{
    match j {
        Json::Null => JsonView::Null,
        Json::Bool(b) => JsonView::Bool(b),
        Json::Number(n) => JsonView::Number(n),
        Json::Text(s) => JsonView::Text(s@),
        Json::List(v) => JsonView::List(list_view(v@)),
        Json::Object(v) => JsonView::Object(members_view(v@)),
    }
}

/// What the values of a list hold.
pub open spec fn list_view(s: Seq<Json>) -> Seq<JsonView>
    decreases s,
{
    if s.len() == 0 {
        Seq::empty()
    } else {
        list_view(s.drop_last()).push(json_view(s.last()))
    }
}

/// What the members of an object hold.
pub open spec fn members_view(s: Seq<(String, Json)>) -> Seq<(Seq<char>, JsonView)>
    decreases s,
{
    if s.len() == 0 {
        Seq::empty()
    } else {
        members_view(s.drop_last()).push((s.last().0@, json_view(s.last().1)))
    }
}

/// A list and what it holds correspond one to one.
pub proof fn list_view_pointwise(s: Seq<Json>)
    ensures
        list_view(s).len() == s.len(),
        forall|i: int| 0 <= i < s.len() ==> #[trigger] list_view(s)[i] == s[i]@,
    decreases s.len(),
{
    if s.len() > 0 {
        list_view_pointwise(s.drop_last());
        assert forall|i: int| 0 <= i < s.len() implies #[trigger] list_view(s)[i] == s[i]@ by {
            if i < s.len() - 1 {
                assert(list_view(s.drop_last())[i] == s.drop_last()[i]@);
            }
        }
    }
}

/// Members and what they hold correspond one to one.
pub proof fn members_view_pointwise(s: Seq<(String, Json)>)
    ensures
        members_view(s).len() == s.len(),
        forall|i: int|
            0 <= i < s.len() ==> #[trigger] members_view(s)[i] == (s[i].0@, s[i].1@),
    decreases s.len(),
{
    if s.len() > 0 {
        members_view_pointwise(s.drop_last());
        assert forall|i: int| 0 <= i < s.len() implies #[trigger] members_view(s)[i] == (
            s[i].0@,
            s[i].1@,
        ) by {
            if i < s.len() - 1 {
                assert(members_view(s.drop_last())[i] == (s.drop_last()[i].0@, s.drop_last()[i].1@));
            }
        }
    }
}

/// The place of the first member with the key, at or after `i`.
pub open spec fn place_of(members: Seq<(Seq<char>, JsonView)>, key: Seq<char>, i: int) -> Option<
    int,
>
    decreases members.len() - i,
{
    if i < 0 || i >= members.len() {
        None
    } else if members[i].0 == key {
        Some(i)
    } else {
        place_of(members, key, i + 1)
    }
}

impl JsonView {
    /// The value of a member, where this is an object that has it.
    pub open spec fn member(self, key: Seq<char>) -> Option<JsonView> {
        match self {
            JsonView::Object(members) => match place_of(members, key, 0) {
                Some(i) => Some(members[i].1),
                None => None,
            },
            _ => None,
        }
    }

    /// The text that this is.
    pub open spec fn text(self) -> Option<Seq<char>> {
        match self {
            JsonView::Text(s) => Some(s),
            _ => None,
        }
    }

    /// The text of a member.
    pub open spec fn member_text(self, key: Seq<char>) -> Option<Seq<char>> {
        match self.member(key) {
            Some(v) => v.text(),
            None => None,
        }
    }

    /// The whole number that this is, where it is one from zero on.
    pub open spec fn whole(self) -> Option<u64> {
        match self {
            JsonView::Number(JsonNumber::Whole(n)) => Some(n),
            _ => None,
        }
    }
}

impl Json {
    /// The value of a member, where this is an object that has it.
    pub fn get(&self, key: &str) -> (r: Option<&Json>)
        ensures
            match r {
                Some(v) => self@.member(key@) == Some(v@),
                None => self@.member(key@) is None,
            },
    {
        match self {
            Json::Object(members) => {
                let ghost views = members_view(members@);
                proof {
                    members_view_pointwise(members@);
                }
                for i in 0..members.len()
                    invariant
                        views == members_view(members@),
                        views.len() == members@.len(),
                        forall|k: int|
                            0 <= k < members@.len() ==> #[trigger] views[k] == (
                                members@[k].0@,
                                members@[k].1@,
                            ),
                        self@ == JsonView::Object(views),
                        place_of(views, key@, 0) == place_of(views, key@, i as int),
                {
                    assert(views[i as int] == (members@[i as int].0@, members@[i as int].1@));
                    if same(members[i].0.as_str(), key) {
                        return Some(&members[i].1);
                    }
                }
                None
            },
            _ => None,
        }
    }

    /// The text that this is.
    pub fn as_str(&self) -> (r: Option<&str>)
        ensures
            match r {
                Some(s) => self@.text() == Some(s@),
                None => self@.text() is None,
            },
    {
        match self {
            Json::Text(s) => Some(s.as_str()),
            _ => None,
        }
    }

    /// The text of a member.
    pub fn get_str(&self, key: &str) -> (r: Option<&str>)
        ensures
            match r {
                Some(s) => self@.member_text(key@) == Some(s@),
                None => self@.member_text(key@) is None,
            },
    {
        match self.get(key) {
            Some(v) => v.as_str(),
            None => None,
        }
    }

    /// The whole number that this is, where it is one from zero on.
    pub fn as_u64(&self) -> (r: Option<u64>)
        ensures
            r == self@.whole(),
    {
        match self {
            Json::Number(JsonNumber::Whole(n)) => Some(*n),
            _ => None,
        }
    }
}

/// Add a member.
pub fn field(members: &mut Vec<(String, Json)>, key: &str, value: Json)
    ensures
        members_view(final(members)@) == members_view(old(members)@).push((key@, value@)),
{
    let ghost before = members@;
    members.push((copy_of(key), value));
    assert(members@.drop_last() =~= before);
}

/// A text.
pub fn text(s: &str) -> (r: Json)
    ensures
        r@ == JsonView::Text(s@),
{
    Json::Text(copy_of(s))
}

impl Clone for Json {
    fn clone(&self) -> (r: Self)
        ensures
            r@ == self@,
        decreases self,
    {
        match self {
            Json::Null => Json::Null,
            Json::Bool(b) => Json::Bool(*b),
            Json::Number(n) => Json::Number(*n),
            Json::Text(s) => Json::Text(copy_of(s.as_str())),
            Json::List(v) => {
                let mut out: Vec<Json> = Vec::new();
                for i in 0..v.len()
                    invariant
                        out@.len() == i,
                        forall|k: int| 0 <= k < i ==> #[trigger] out@[k]@ == v@[k]@,
                        decreases_to!(*self => v@),
                {
                    let item = v[i].clone();
                    out.push(item);
                }
                proof {
                    list_view_pointwise(out@);
                    list_view_pointwise(v@);
                    assert(list_view(out@) =~= list_view(v@));
                }
                Json::List(out)
            },
            Json::Object(v) => {
                let mut out: Vec<(String, Json)> = Vec::new();
                for i in 0..v.len()
                    invariant
                        out@.len() == i,
                        forall|k: int|
                            0 <= k < i ==> (#[trigger] out@[k]).0@ == v@[k].0@ && out@[k].1@
                                == v@[k].1@,
                        decreases_to!(*self => v@),
                {
                    let item = v[i].1.clone();
                    out.push((copy_of(v[i].0.as_str()), item));
                }
                proof {
                    members_view_pointwise(out@);
                    members_view_pointwise(v@);
                    assert forall|k: int| 0 <= k < out@.len() implies members_view(out@)[k]
                        == members_view(v@)[k] by {
                        assert(members_view(out@)[k] == (out@[k].0@, out@[k].1@));
                        assert(members_view(v@)[k] == (v@[k].0@, v@[k].1@));
                    }
                    assert(members_view(out@) =~= members_view(v@));
                }
                Json::Object(out)
            },
        }
    }
}

// ---------------------------------------------------------------------------
// What members come to
// ---------------------------------------------------------------------------

proof fn place_is_first(members: Seq<(Seq<char>, JsonView)>, key: Seq<char>, i: int)
    requires
        0 <= i,
    ensures
        match place_of(members, key, i) {
            Some(k) => i <= k < members.len() && members[k].0 == key && forall|j: int|
                i <= j < k ==> (#[trigger] members[j]).0 != key,
            None => forall|j: int| i <= j < members.len() ==> (#[trigger] members[j]).0 != key,
        },
    decreases members.len() - i,
{
    if i < members.len() && members[i].0 != key {
        place_is_first(members, key, i + 1);
    }
}

/// The value of a member is that of the first member with the key: the one at `i`, where
/// no other before it has the key.
pub proof fn a_member_is_the_first_with_its_key(
    members: Seq<(Seq<char>, JsonView)>,
    key: Seq<char>,
    i: int,
)
    requires
        0 <= i < members.len(),
        members[i].0 == key,
        forall|j: int| 0 <= j < i ==> (#[trigger] members[j]).0 != key,
    ensures
        JsonView::Object(members).member(key) == Some(members[i].1),
{
    place_is_first(members, key, 0);
    let k = place_of(members, key, 0)->0;
    if k < i {
        assert(members[k].0 != key);
    }
}

/// A key that no member has gives nothing, and neither does what is no object.
pub proof fn a_missing_member_is_none(members: Seq<(Seq<char>, JsonView)>, key: Seq<char>)
    ensures
        (forall|j: int| 0 <= j < members.len() ==> (#[trigger] members[j]).0 != key)
            ==> JsonView::Object(members).member(key) is None,
        JsonView::Null.member(key) is None,
        JsonView::List(seq![JsonView::Object(members)]).member(key) is None,
{
    place_is_first(members, key, 0);
}

/// The place that is found holds the key, and no place before it does.
pub proof fn a_place_is_where_the_key_is(members: Seq<(Seq<char>, JsonView)>, key: Seq<char>)
    ensures
        match place_of(members, key, 0) {
            Some(k) => 0 <= k < members.len() && members[k].0 == key && forall|j: int|
                0 <= j < k ==> (#[trigger] members[j]).0 != key,
            None => forall|j: int| 0 <= j < members.len() ==> (#[trigger] members[j]).0 != key,
        },
{
    place_is_first(members, key, 0);
}

} // verus!
