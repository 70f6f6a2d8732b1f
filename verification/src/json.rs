//! JSON values as plain data.
use vstd::prelude::*;

use crate::text::same_text;

verus! {

/// A JSON value. Members of an object stand in the order in which they were
/// written, and no key occurs twice.
#[derive(Debug, PartialEq)]
pub enum JsonValue {
    Null,
    Bool(bool),
    /// A whole number that is not negative.
    Unsigned(u64),
    /// A negative whole number.
    Negative(i64),
    /// Any other number, as the bits of its double.
    Real(u64),
    Text(String),
    List(Vec<JsonValue>),
    Object(Vec<(String, JsonValue)>),
}

/// What a JSON value says.
pub enum JsonView {
    Null,
    Bool(bool),
    Number(int),
    Real(u64),
    Text(Seq<char>),
    List(Seq<JsonView>),
    Object(Seq<(Seq<char>, JsonView)>),
}

impl View for JsonValue {
    type V = JsonView;

    open spec fn view(&self) -> JsonView {
        json_view(*self)
    }
}

/// The value that a JSON value holds.
pub open spec fn json_view(j: JsonValue) -> JsonView
    decreases j,
{
    match j {
        JsonValue::Null => JsonView::Null,
        JsonValue::Bool(b) => JsonView::Bool(b),
        JsonValue::Unsigned(n) => JsonView::Number(n as int),
        JsonValue::Negative(n) => JsonView::Number(n as int),
        JsonValue::Real(bits) => JsonView::Real(bits),
        JsonValue::Text(s) => JsonView::Text(s@),
        JsonValue::List(v) => JsonView::List(
            Seq::new(
                v@.len(),
                |i: int|
                    if 0 <= i < v@.len() {
                        json_view(v@[i])
                    } else {
                        JsonView::Null
                    },
            ),
        ),
        JsonValue::Object(v) => JsonView::Object(
            Seq::new(
                v@.len(),
                |i: int|
                    if 0 <= i < v@.len() {
                        (v@[i].0@, json_view(v@[i].1))
                    } else {
                        (Seq::empty(), JsonView::Null)
                    },
            ),
        ),
    }
}

/// The first member of the list `members` whose key is `key`.
pub open spec fn lookup(members: Seq<(Seq<char>, JsonView)>, key: Seq<char>) -> Option<JsonView>
    decreases members.len(),
{
    if members.len() == 0 {
        None
    } else if members[0].0 == key {
        Some(members[0].1)
    } else {
        lookup(members.drop_first(), key)
    }
}

impl JsonView {
    /// An object without members.
    pub open spec fn object() -> JsonView {
        JsonView::Object(Seq::empty())
    }

    /// An object with one more member at its end. Any other value stays as it is.
    pub open spec fn with(self, key: Seq<char>, value: JsonView) -> JsonView {
        match self {
            JsonView::Object(members) => JsonView::Object(members.push((key, value))),
            other => other,
        }
    }

    /// The member `key` of an object; nothing for any other value.
    pub open spec fn member(self, key: Seq<char>) -> Option<JsonView> {
        match self {
            JsonView::Object(members) => lookup(members, key),
            _ => None,
        }
    }

    /// The first element of a list; nothing for an empty list or any other value.
    pub open spec fn head(self) -> Option<JsonView> {
        match self {
            JsonView::List(items) => if items.len() > 0 {
                Some(items[0])
            } else {
                None
            },
            _ => None,
        }
    }

    /// The characters of a text; nothing for any other value.
    pub open spec fn characters(self) -> Option<Seq<char>> {
        match self {
            JsonView::Text(s) => Some(s),
            _ => None,
        }
    }

    /// A whole number between the bounds of `i64`; nothing for any other value.
    pub open spec fn integer(self) -> Option<int> {
        match self {
            JsonView::Number(n) => if i64::MIN <= n <= i64::MAX {
                Some(n)
            } else {
                None
            },
            _ => None,
        }
    }
}

/// The view of an optional reference to a JSON value.
pub open spec fn opt_json_view(o: Option<&JsonValue>) -> Option<JsonView> {
    match o {
        Some(v) => Some(v@),
        None => None,
    }
}

/// The view of an optional reference to a string.
pub open spec fn opt_str_view(o: Option<&str>) -> Option<Seq<char>> {
    match o {
        Some(s) => Some(s@),
        None => None,
    }
}

impl JsonValue {
    /// The member `key` of an object.
    pub fn get(&self, key: &str) -> (r: Option<&JsonValue>)
        ensures
            opt_json_view(r) == self@.member(key@),
    {
        match self {
            JsonValue::Object(members) => {
                let ghost all = self@->Object_0;
                let mut i: usize = 0;
                assert(all.skip(0) =~= all);
                while i < members.len()
                    invariant
                        i <= members.len(),
                        *self == JsonValue::Object(*members),
                        all == self@->Object_0,
                        all.len() == members@.len(),
                        lookup(all.skip(i as int), key@) == lookup(all, key@),
                    decreases members.len() - i,
                {
                    assert(all.skip(i as int)[0] == all[i as int]);
                    assert(all[i as int] == (members@[i as int].0@, members@[i as int].1@));
                    if same_text(members[i].0.as_str(), key) {
                        return Some(&members[i].1);
                    }
                    assert(all.skip(i as int).drop_first() =~= all.skip(i + 1));
                    i += 1;
                }
                None
            },
            _ => None,
        }
    }

    /// The first element of a list.
    pub fn first(&self) -> (r: Option<&JsonValue>)
        ensures
            opt_json_view(r) == self@.head(),
    {
        match self {
            JsonValue::List(items) => {
                if items.len() > 0 {
                    assert(self@->List_0[0] == items@[0]@);
                    Some(&items[0])
                } else {
                    None
                }
            },
            _ => None,
        }
    }

    /// The string in a text.
    pub fn as_str(&self) -> (r: Option<&str>)
        ensures
            opt_str_view(r) == self@.characters(),
    {
        match self {
            JsonValue::Text(s) => Some(s.as_str()),
            _ => None,
        }
    }

    /// The number in a whole number that fits.
    pub fn as_i64(&self) -> (r: Option<i64>)
        ensures
            self@.integer() is None ==> r is None,
            self@.integer() matches Some(n) ==> r matches Some(m) && m == n,
    {
        match self {
            JsonValue::Unsigned(n) => if *n <= 0x7fff_ffff_ffff_ffff {
                Some(*n as i64)
            } else {
                None
            },
            JsonValue::Negative(n) => Some(*n),
            _ => None,
        }
    }

    /// A whole number.
    pub fn integer(n: i64) -> (r: JsonValue)
        ensures
            r@ == JsonView::Number(n as int),
    {
        if n >= 0 {
            JsonValue::Unsigned(n as u64)
        } else {
            JsonValue::Negative(n)
        }
    }

    /// A text.
    pub fn text(s: &str) -> (r: JsonValue)
        ensures
            r@ == JsonView::Text(s@),
    {
        JsonValue::Text(s.to_string())
    }

    /// A list of one element.
    pub fn singleton(item: JsonValue) -> (r: JsonValue)
        ensures
            r@ == JsonView::List(seq![item@]),
    {
        let mut items: Vec<JsonValue> = Vec::new();
        items.push(item);
        let r = JsonValue::List(items);
        assert(r@->List_0 =~= seq![item@]);
        r
    }

    /// An object without members.
    pub fn object() -> (r: JsonValue)
        ensures
            r@ == JsonView::object(),
    {
        let r = JsonValue::Object(Vec::new());
        assert(r@->Object_0 =~= Seq::empty());
        r
    }

    /// An object with one more member at its end. Any other value stays as it is.
    pub fn with(self, key: &str, value: JsonValue) -> (r: JsonValue)
        ensures
            r@ == self@.with(key@, value@),
    {
        match self {
            JsonValue::Object(members) => {
                let ghost before = self@->Object_0;
                let mut members = members;
                members.push((key.to_string(), value));
                let r = JsonValue::Object(members);
                assert(r@->Object_0 =~= before.push((key@, value@)));
                r
            },
            other => other,
        }
    }
}

// ---------------------------------------------------------------------------
// Laws
// ---------------------------------------------------------------------------

proof fn lemma_lookup_pushed(
    members: Seq<(Seq<char>, JsonView)>,
    key: Seq<char>,
    value: JsonView,
    other: Seq<char>,
)
    ensures
        lookup(members.push((key, value)), other) == if lookup(members, other) is Some {
            lookup(members, other)
        } else if other == key {
            Some(value)
        } else {
            None
        },
    decreases members.len(),
{
    let all = members.push((key, value));
    if members.len() == 0 {
        assert(all.drop_first() =~= Seq::empty());
        reveal_with_fuel(lookup, 2);
    } else if members[0].0 != other {
        assert(all.drop_first() =~= members.drop_first().push((key, value)));
        lemma_lookup_pushed(members.drop_first(), key, value, other);
    }
}

/// A member that is added under a new key is found there, and every other
/// member is found as before.
pub proof fn a_member_is_found(object: JsonView, key: Seq<char>, value: JsonView, other: Seq<char>)
    requires
        object is Object,
    ensures
        object.with(key, value) is Object,
        object.member(key) is None ==> object.with(key, value).member(key) == Some(value),
        other != key || object.member(other) is Some ==> object.with(key, value).member(other)
            == object.member(other),
        JsonView::object().member(other) is None,
{
    lemma_lookup_pushed(object->Object_0, key, value, other);
    lemma_lookup_pushed(object->Object_0, key, value, key);
}

/// The member under a key of an object is that of the first entry with the key.
pub proof fn members_are_found_by_key(
    before: Seq<(Seq<char>, JsonView)>,
    key: Seq<char>,
    value: JsonView,
    behind: Seq<(Seq<char>, JsonView)>,
)
    requires
        forall|i: int| 0 <= i < before.len() ==> (#[trigger] before[i]).0 != key,
    ensures
        JsonView::Object(before.push((key, value)) + behind).member(key) == Some(value),
        JsonView::Object(before).member(key) is None,
    decreases before.len(),
{
    let all = before.push((key, value)) + behind;
    if before.len() > 0 {
        let rest = before.drop_first();
        assert(before[0].0 != key);
        assert forall|i: int| 0 <= i < rest.len() implies (#[trigger] rest[i]).0 != key by {
            assert(rest[i] == before[i + 1]);
        }
        members_are_found_by_key(rest, key, value, behind);
        assert(all.drop_first() =~= rest.push((key, value)) + behind);
        assert(all[0] == before[0]);
    } else {
        assert(all[0] == (key, value));
    }
}

/// What can be read of a value: the first element of a list, the characters of
/// a text, a whole number.
pub proof fn values_are_read_by_their_kind(items: Seq<JsonView>, text: Seq<char>, n: i64)
    ensures
        JsonView::List(items).head() == if items.len() > 0 {
            Some(items[0])
        } else {
            None
        },
        JsonView::Text(text).characters() == Some(text),
        JsonView::Number(n as int).integer() == Some(n as int),
        JsonView::Null.characters() is None,
        JsonView::Null.head() is None,
        JsonView::Null.integer() is None,
        JsonView::Text(text).integer() is None,
        JsonView::Text(text).head() is None,
        JsonView::List(items).characters() is None,
        JsonView::Number(n as int).characters() is None,
{
}

} // verus!
