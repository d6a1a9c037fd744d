//! JSON documents as plain data.
//!
//! [`Json`] is what the client's logic reads and builds; its view is
//! [`JsonView`], in which every string is a `Seq<char>`.

use vstd::prelude::*;

use crate::text::same;

verus! {

/// A JSON document.
#[derive(Debug, PartialEq, Eq)]
pub enum Json {
    /// `null`
    Null,
    /// `true` or `false`
    Bool(bool),
    /// A whole number.
    Int(i128),
    /// Any other number, in its decimal form.
    Fraction(String),
    /// A string.
    Text(String),
    /// An array.
    Array(Vec<Json>),
    /// An object: its members, each key once.
    Object(Vec<(String, Json)>),
}

/// What a [`Json`] value stands for.
pub enum JsonView {
    /// `null`
    Null,
    /// `true` or `false`
    Bool(bool),
    /// A whole number.
    Int(int),
    /// Any other number, in its decimal form.
    Fraction(Seq<char>),
    /// A string.
    Text(Seq<char>),
    /// An array.
    Array(Seq<JsonView>),
    /// An object: its members, in order.
    Object(Seq<(Seq<char>, JsonView)>),
}

/// The views of the items of an array.
pub open spec fn items_view(items: Seq<Json>) -> Seq<JsonView>
    decreases items,
{
    if items.len() == 0 {
        Seq::empty()
    } else {
        items_view(items.drop_last()).push(items.last().view())
    }
}

/// The views of the members of an object.
pub open spec fn members_view(members: Seq<(String, Json)>) -> Seq<(Seq<char>, JsonView)>
    decreases members,
{
    if members.len() == 0 {
        Seq::empty()
    } else {
        members_view(members.drop_last()).push((members.last().0@, members.last().1.view()))
    }
}

impl Json {
    /// What the value stands for.
    pub open spec fn view(&self) -> JsonView
        decreases self,
    {
        match self {
            Json::Null => JsonView::Null,
            Json::Bool(b) => JsonView::Bool(*b),
            Json::Int(n) => JsonView::Int(*n as int),
            Json::Fraction(s) => JsonView::Fraction(s@),
            Json::Text(s) => JsonView::Text(s@),
            Json::Array(items) => JsonView::Array(items_view(items@)),
            Json::Object(members) => JsonView::Object(members_view(members@)),
        }
    }
}

/// [`items_view`] maps item by item.
pub proof fn lemma_items_view(items: Seq<Json>)
    ensures
        items_view(items).len() == items.len(),
        forall|i: int| 0 <= i < items.len() ==> #[trigger] items_view(items)[i] == items[i]@,
    decreases items.len(),
{
    if items.len() > 0 {
        lemma_items_view(items.drop_last());
        assert forall|i: int| 0 <= i < items.len() implies #[trigger] items_view(items)[i]
            == items[i]@ by {
            if i < items.len() - 1 {
                assert(items_view(items.drop_last())[i] == items.drop_last()[i]@);
            }
        }
    }
}

/// [`members_view`] maps member by member.
pub proof fn lemma_members_view(members: Seq<(String, Json)>)
    ensures
        members_view(members).len() == members.len(),
        forall|i: int|
            0 <= i < members.len() ==> #[trigger] members_view(members)[i] == (
                members[i].0@,
                members[i].1@,
            ),
    decreases members.len(),
{
    if members.len() > 0 {
        lemma_members_view(members.drop_last());
        assert forall|i: int| 0 <= i < members.len() implies #[trigger] members_view(members)[i]
            == (members[i].0@, members[i].1@) by {
            if i < members.len() - 1 {
                let head = members.drop_last();
                assert(members_view(head)[i] == (head[i].0@, head[i].1@));
            }
        }
    }
}

/// The value of the first member called `key`.
pub open spec fn member_of(members: Seq<(Seq<char>, JsonView)>, key: Seq<char>) -> Option<JsonView>
    decreases members.len(),
{
    if members.len() == 0 {
        None
    } else if members[0].0 == key {
        Some(members[0].1)
    } else {
        member_of(members.drop_first(), key)
    }
}

/// A member found at `i`, with no earlier one of that name, is the one meant.
proof fn lemma_member_at(members: Seq<(Seq<char>, JsonView)>, key: Seq<char>, i: int)
    requires
        0 <= i < members.len(),
        members[i].0 == key,
        forall|j: int| 0 <= j < i ==> (#[trigger] members[j]).0 != key,
    ensures
        member_of(members, key) == Some(members[i].1),
    decreases members.len(),
{
    if i > 0 {
        assert(members[0].0 != key);
        let rest = members.drop_first();
        assert forall|j: int| 0 <= j < i - 1 implies (#[trigger] rest[j]).0 != key by {
            assert(members[j + 1].0 != key);
        }
        lemma_member_at(rest, key, i - 1);
    }
}

/// With no member of that name there is nothing to find.
proof fn lemma_member_absent(members: Seq<(Seq<char>, JsonView)>, key: Seq<char>)
    requires
        forall|j: int| 0 <= j < members.len() ==> (#[trigger] members[j]).0 != key,
    ensures
        member_of(members, key) is None,
    decreases members.len(),
{
    if members.len() > 0 {
        assert(members[0].0 != key);
        let rest = members.drop_first();
        assert forall|j: int| 0 <= j < rest.len() implies (#[trigger] rest[j]).0 != key by {
            assert(members[j + 1].0 != key);
        }
        lemma_member_absent(rest, key);
    }
}

/// In two lists of members, one after the other, the first one is searched first.
pub proof fn lemma_members_joined(
    a: Seq<(Seq<char>, JsonView)>,
    b: Seq<(Seq<char>, JsonView)>,
)
    ensures
        forall|key: Seq<char>| #[trigger]
            member_of(a + b, key) == (match member_of(a, key) {
                Some(value) => Some(value),
                None => member_of(b, key),
            }),
    decreases a.len(),
{
    if a.len() == 0 {
        assert(a + b =~= b);
    } else {
        let rest = a.drop_first();
        lemma_members_joined(rest, b);
        assert((a + b).drop_first() =~= rest + b);
        assert((a + b)[0] == a[0]);
        assert forall|key: Seq<char>| #[trigger] member_of(a + b, key) == (match member_of(a, key) {
            Some(value) => Some(value),
            None => member_of(b, key),
        }) by {
            if a[0].0 != key {
                assert(member_of(a + b, key) == member_of(rest + b, key));
                assert(member_of(a, key) == member_of(rest, key));
            }
        }
    }
}

/// A member that is added last is found unless an earlier one has its name.
pub proof fn lemma_members_pushed(
    members: Seq<(Seq<char>, JsonView)>,
    name: Seq<char>,
    value: JsonView,
)
    ensures
        forall|key: Seq<char>| #[trigger]
            member_of(members.push((name, value)), key) == (match member_of(members, key) {
                Some(found) => Some(found),
                None => if name == key {
                    Some(value)
                } else {
                    None
                },
            }),
{
    let last = seq![(name, value)];
    lemma_members_joined(members, last);
    assert(members.push((name, value)) =~= members + last);
    assert forall|key: Seq<char>| #[trigger] member_of(last, key) == (if name == key {
        Some(value)
    } else {
        None
    }) by {
        assert(last[0] == (name, value));
        assert(last.drop_first().len() == 0);
        assert(member_of(last.drop_first(), key) is None);
    }
}

/// A member is found under its own name: there is one exactly if some member has that name, and
/// it is the first that does.
pub proof fn law_a_member_is_found_by_name(members: Seq<(Seq<char>, JsonView)>, key: Seq<char>)
    ensures
        member_of(members, key) is None <==> forall|i: int|
            0 <= i < members.len() ==> (#[trigger] members[i]).0 != key,
        member_of(members, key) matches Some(value) ==> exists|i: int|
            0 <= i < members.len() && (#[trigger] members[i]).0 == key && members[i].1 == value
                && forall|j: int| 0 <= j < i ==> (#[trigger] members[j]).0 != key,
    decreases members.len(),
{
    if members.len() > 0 {
        if members[0].0 == key {
            assert(member_of(members, key) == Some(members[0].1));
        } else {
            let rest = members.drop_first();
            law_a_member_is_found_by_name(rest, key);
            match member_of(rest, key) {
                Some(value) => {
                    let i = choose|i: int|
                        0 <= i < rest.len() && (#[trigger] rest[i]).0 == key && rest[i].1 == value
                            && forall|j: int| 0 <= j < i ==> (#[trigger] rest[j]).0 != key;
                    assert(members[i + 1] == rest[i]);
                    assert forall|j: int| 0 <= j < i + 1 implies (#[trigger] members[j]).0 != key by {
                        if j > 0 {
                            assert(members[j] == rest[j - 1]);
                        }
                    }
                },
                None => {
                    assert forall|i: int| 0 <= i < members.len() implies (#[trigger] members[i]).0
                        != key by {
                        if i > 0 {
                            assert(members[i] == rest[i - 1]);
                        }
                    }
                },
            }
        }
    }
}

/// A number is read as a whole number of each width exactly if it fits, and as nothing else; a
/// text, a number and a flag are never taken for each other.
pub proof fn law_values_are_read_as_what_they_are(value: JsonView)
    ensures
        value matches JsonView::Int(n) ==> {
            &&& value.int64() == (if -0x8000_0000_0000_0000 <= n < 0x8000_0000_0000_0000 {
                Some(n)
            } else {
                None
            })
            &&& value.uint64() == (if 0 <= n < 0x1_0000_0000_0000_0000 {
                Some(n)
            } else {
                None
            })
        },
        value.int64() is Some || value.uint64() is Some ==> value is Int,
        value.text() is Some <==> value is Text,
        value.boolean() is Some <==> value is Bool,
        value matches JsonView::Text(text) ==> value.text() == Some(text),
        value matches JsonView::Bool(flag) ==> value.boolean() == Some(flag),
{
}

impl JsonView {
    /// The member called `key`; a value that is no object has none.
    pub open spec fn member(self, key: Seq<char>) -> Option<JsonView> {
        match self {
            JsonView::Object(members) => member_of(members, key),
            _ => None,
        }
    }

    /// The characters of a string value.
    pub open spec fn text(self) -> Option<Seq<char>> {
        match self {
            JsonView::Text(s) => Some(s),
            _ => None,
        }
    }

    /// A whole number that fits in an `i64`.
    pub open spec fn int64(self) -> Option<int> {
        match self {
            JsonView::Int(n) => if i64::MIN <= n <= i64::MAX {
                Some(n)
            } else {
                None
            },
            _ => None,
        }
    }

    /// A whole number that fits in a `u64`.
    pub open spec fn uint64(self) -> Option<int> {
        match self {
            JsonView::Int(n) => if 0 <= n <= u64::MAX {
                Some(n)
            } else {
                None
            },
            _ => None,
        }
    }

    /// A boolean value.
    pub open spec fn boolean(self) -> Option<bool> {
        match self {
            JsonView::Bool(b) => Some(b),
            _ => None,
        }
    }

    /// The member called `key`, when it is a string.
    pub open spec fn member_text(self, key: Seq<char>) -> Option<Seq<char>> {
        match self.member(key) {
            Some(value) => value.text(),
            None => None,
        }
    }

    /// The member called `key`, when it is a whole number in `i64` range.
    pub open spec fn member_int64(self, key: Seq<char>) -> Option<int> {
        match self.member(key) {
            Some(value) => value.int64(),
            None => None,
        }
    }

    /// The member called `key`, when it is a whole number in `u64` range.
    pub open spec fn member_uint64(self, key: Seq<char>) -> Option<int> {
        match self.member(key) {
            Some(value) => value.uint64(),
            None => None,
        }
    }

    /// The member called `key`, when it is a boolean.
    pub open spec fn member_boolean(self, key: Seq<char>) -> Option<bool> {
        match self.member(key) {
            Some(value) => value.boolean(),
            None => None,
        }
    }
}

/// The view of an optional value.
pub open spec fn option_view(value: Option<Json>) -> Option<JsonView> {
    match value {
        Some(v) => Some(v@),
        None => None,
    }
}

impl Json {
    /// The member called `key`; a value that is no object has none.
    pub fn get(&self, key: &str) -> (result: Option<&Json>)
        ensures
            match result {
                Some(value) => self@.member(key@) == Some(value@),
                None => self@.member(key@) is None,
            },
    {
        match self {
            Json::Object(members) => {
                proof {
                    lemma_members_view(members@);
                }
                let mut i: usize = 0;
                while i < members.len()
                    invariant
                        i <= members@.len(),
                        members_view(members@).len() == members@.len(),
                        forall|j: int|
                            0 <= j < members@.len() ==> #[trigger] members_view(members@)[j] == (
                                members@[j].0@,
                                members@[j].1@,
                            ),
                        forall|j: int|
                            0 <= j < i ==> (#[trigger] members_view(members@)[j]).0 != key@,
                        self@ == JsonView::Object(members_view(members@)),
                    decreases members@.len() - i,
                {
                    let member = &members[i];
                    assert(members_view(members@)[i as int] == (member.0@, member.1@));
                    if same(member.0.as_str(), key) {
                        proof {
                            lemma_member_at(members_view(members@), key@, i as int);
                        }
                        return Some(&member.1);
                    }
                    i = i + 1;
                }
                proof {
                    lemma_member_absent(members_view(members@), key@);
                }
                None
            },
            _ => None,
        }
    }

    /// The string inside, when the value is one.
    pub fn as_str(&self) -> (result: Option<&str>)
        ensures
            match result {
                Some(s) => self@.text() == Some(s@),
                None => self@.text() is None,
            },
    {
        match self {
            Json::Text(s) => Some(s.as_str()),
            _ => None,
        }
    }

    /// The whole number inside, when it fits in an `i64`.
    pub fn as_i64(&self) -> (result: Option<i64>)
        ensures
            match result {
                Some(n) => self@.int64() == Some(n as int),
                None => self@.int64() is None,
            },
    {
        match self {
            Json::Int(n) => if i64::MIN as i128 <= *n && *n <= i64::MAX as i128 {
                Some(*n as i64)
            } else {
                None
            },
            _ => None,
        }
    }

    /// The whole number inside, when it fits in a `u64`.
    pub fn as_u64(&self) -> (result: Option<u64>)
        ensures
            match result {
                Some(n) => self@.uint64() == Some(n as int),
                None => self@.uint64() is None,
            },
    {
        match self {
            Json::Int(n) => if 0 <= *n && *n <= u64::MAX as i128 {
                Some(*n as u64)
            } else {
                None
            },
            _ => None,
        }
    }

    /// The boolean inside, when the value is one.
    pub fn as_bool(&self) -> (result: Option<bool>)
        ensures
            result == self@.boolean(),
    {
        match self {
            Json::Bool(b) => Some(*b),
            _ => None,
        }
    }

    /// The member called `key`, when it is a string.
    pub fn text_at(&self, key: &str) -> (result: Option<String>)
        ensures
            match result {
                Some(s) => self@.member_text(key@) == Some(s@),
                None => self@.member_text(key@) is None,
            },
    {
        match self.get(key) {
            Some(value) => match value.as_str() {
                Some(s) => Some(s.to_owned()),
                None => None,
            },
            None => None,
        }
    }

    /// The member called `key`, when it is a whole number in `i64` range.
    pub fn int_at(&self, key: &str) -> (result: Option<i64>)
        ensures
            match result {
                Some(n) => self@.member_int64(key@) == Some(n as int),
                None => self@.member_int64(key@) is None,
            },
    {
        match self.get(key) {
            Some(value) => value.as_i64(),
            None => None,
        }
    }

    /// The member called `key`, when it is a whole number in `u64` range.
    pub fn uint_at(&self, key: &str) -> (result: Option<u64>)
        ensures
            match result {
                Some(n) => self@.member_uint64(key@) == Some(n as int),
                None => self@.member_uint64(key@) is None,
            },
    {
        match self.get(key) {
            Some(value) => value.as_u64(),
            None => None,
        }
    }

    /// The member called `key`, when it is a boolean.
    pub fn bool_at(&self, key: &str) -> (result: Option<bool>)
        ensures
            result == self@.member_boolean(key@),
    {
        match self.get(key) {
            Some(value) => value.as_bool(),
            None => None,
        }
    }

    /// A copy of the value.
    pub fn copy(&self) -> (result: Json)
        ensures
            result@ == self@,
        decreases self,
    {
        match self {
            Json::Null => Json::Null,
            Json::Bool(b) => Json::Bool(*b),
            Json::Int(n) => Json::Int(*n),
            Json::Fraction(s) => Json::Fraction(s.clone()),
            Json::Text(s) => Json::Text(s.clone()),
            Json::Array(items) => {
                let mut out: Vec<Json> = Vec::new();
                let mut i: usize = 0;
                while i < items.len()
                    invariant
                        i <= items@.len(),
                        self == Json::Array(*items),
                        out@.len() == i,
                        forall|j: int| 0 <= j < i ==> (#[trigger] out@[j])@ == items@[j]@,
                    decreases items@.len() - i,
                {
                    assert(decreases_to!(self => self->Array_0));
                    assert(decreases_to!(items => items@));
                    assert(decreases_to!(items@ => items@[i as int]));
                    out.push(items[i].copy());
                    i = i + 1;
                }
                proof {
                    lemma_items_view(items@);
                    lemma_items_view(out@);
                    assert(items_view(out@) =~= items_view(items@));
                }
                Json::Array(out)
            },
            Json::Object(members) => {
                let mut out: Vec<(String, Json)> = Vec::new();
                let mut i: usize = 0;
                while i < members.len()
                    invariant
                        i <= members@.len(),
                        self == Json::Object(*members),
                        out@.len() == i,
                        forall|j: int|
                            0 <= j < i ==> (#[trigger] out@[j]).0@ == members@[j].0@
                                && out@[j].1@ == members@[j].1@,
                    decreases members@.len() - i,
                {
                    let member = &members[i];
                    assert(decreases_to!(self => self->Object_0));
                    assert(decreases_to!(members => members@));
                    assert(decreases_to!(members@ => members@[i as int]));
                    assert(decreases_to!(members@[i as int] => members@[i as int].1));
                    out.push((member.0.clone(), member.1.copy()));
                    i = i + 1;
                }
                proof {
                    lemma_members_view(members@);
                    lemma_members_view(out@);
                    assert(members_view(out@) =~= members_view(members@));
                }
                Json::Object(out)
            },
        }
    }
}

impl Clone for Json {
    fn clone(&self) -> (result: Json)
        ensures
            result@ == self@,
    {
        self.copy()
    }
}

// -- reading JSON text -----------------------------------------------------

/// `serde_json::Value`, the parsed form that `serde_json` hands out.
#[verifier::external_type_specification]
#[verifier::external_body]
pub struct ExValue(serde_json::Value);

/// What a `serde_json::Value` holds.
pub uninterp spec fn value_view(value: serde_json::Value) -> JsonView;

/// The outermost layer of a parsed value.
pub enum Layer {
    /// `null`
    Null,
    /// `true` or `false`
    Bool(bool),
    /// A whole number.
    Int(i128),
    /// Any other number, in its decimal form.
    Fraction(String),
    /// A string.
    Text(String),
    /// The items of an array.
    Array(Vec<serde_json::Value>),
    /// The members of an object.
    Object(Vec<(String, serde_json::Value)>),
}

/// Whether `layer` is the outermost layer of a value that holds `view`.
pub open spec fn layer_of(layer: Layer, view: JsonView) -> bool {
    match layer {
        Layer::Null => view == JsonView::Null,
        Layer::Bool(b) => view == JsonView::Bool(b),
        Layer::Int(n) => view == JsonView::Int(n as int),
        Layer::Fraction(s) => view == JsonView::Fraction(s@),
        Layer::Text(s) => view == JsonView::Text(s@),
        Layer::Array(items) => {
            &&& view is Array
            &&& view->Array_0.len() == items@.len()
            &&& forall|i: int|
                0 <= i < items@.len() ==> #[trigger] view->Array_0[i] == value_view(items@[i])
        },
        Layer::Object(members) => {
            &&& view is Object
            &&& view->Object_0.len() == members@.len()
            &&& forall|i: int|
                0 <= i < members@.len() ==> #[trigger] view->Object_0[i] == (
                    members@[i].0@,
                    value_view(members@[i].1),
                )
        },
    }
}

/// Takes a `serde_json::Value` apart by its variants: the layer that comes back
/// holds the same scalar, the same items in order, or the same members in the
/// order in which `serde_json::Map` hands them out. `Number::as_i128` is `Some` for
/// exactly the numbers that are held as integers; a number that is held as a float is
/// written out by its `Display`.
#[verifier::external_body]
fn open_value(value: serde_json::Value) -> (result: Layer)
    ensures
        layer_of(result, value_view(value)),
{
    match value {
        serde_json::Value::Null => Layer::Null,
        serde_json::Value::Bool(b) => Layer::Bool(b),
        serde_json::Value::Number(n) => match n.as_i128() {
            Some(i) => Layer::Int(i),
            None => Layer::Fraction(n.to_string()),
        },
        serde_json::Value::String(s) => Layer::Text(s),
        serde_json::Value::Array(items) => Layer::Array(items),
        serde_json::Value::Object(map) => Layer::Object(map.into_iter().collect()),
    }
}

/// A parsed value as plain data.
pub fn from_value(value: serde_json::Value) -> (result: Json)
    ensures
        result@ == value_view(value),
    decreases value_view(value),
{
    let ghost whole = value_view(value);
    match open_value(value) {
        Layer::Null => Json::Null,
        Layer::Bool(b) => Json::Bool(b),
        Layer::Int(n) => Json::Int(n),
        Layer::Fraction(s) => Json::Fraction(s),
        Layer::Text(s) => Json::Text(s),
        Layer::Array(items) => {
            let ghost views = whole->Array_0;
            let ghost all = items@;
            let mut rest = items;
            let mut out: Vec<Json> = Vec::new();
            while rest.len() > 0
                invariant
                    whole == value_view(value),
                    whole is Array,
                    views == whole->Array_0,
                    views.len() == all.len(),
                    forall|i: int|
                        0 <= i < all.len() ==> #[trigger] views[i] == value_view(all[i]),
                    out@.len() + rest@.len() == all.len(),
                    rest@ == all.subrange(out@.len() as int, all.len() as int),
                    forall|i: int| 0 <= i < out@.len() ==> (#[trigger] out@[i])@ == views[i],
                decreases rest@.len(),
            {
                let ghost k = out@.len() as int;
                proof {
                    assert(decreases_to!(whole => whole->Array_0));
                    assert(decreases_to!(views => views[k]));
                    assert(rest@[0] == all[k]);
                }
                let item = rest.remove(0);
                proof {
                    assert(rest@ =~= all.subrange(k + 1, all.len() as int));
                }
                out.push(from_value(item));
            }
            proof {
                lemma_items_view(out@);
                assert(items_view(out@) =~= views);
            }
            Json::Array(out)
        },
        Layer::Object(members) => {
            let ghost views = whole->Object_0;
            let ghost all = members@;
            let mut rest = members;
            let mut out: Vec<(String, Json)> = Vec::new();
            while rest.len() > 0
                invariant
                    whole == value_view(value),
                    whole is Object,
                    views == whole->Object_0,
                    views.len() == all.len(),
                    forall|i: int|
                        0 <= i < all.len() ==> #[trigger] views[i] == (
                            all[i].0@,
                            value_view(all[i].1),
                        ),
                    out@.len() + rest@.len() == all.len(),
                    rest@ == all.subrange(out@.len() as int, all.len() as int),
                    forall|i: int|
                        0 <= i < out@.len() ==> (#[trigger] out@[i]).0@ == views[i].0
                            && out@[i].1@ == views[i].1,
                decreases rest@.len(),
            {
                let ghost k = out@.len() as int;
                proof {
                    assert(decreases_to!(whole => whole->Object_0));
                    assert(decreases_to!(views => views[k]));
                    assert(decreases_to!(views[k] => views[k].1));
                    assert(rest@[0] == all[k]);
                }
                let (key, item) = rest.remove(0);
                proof {
                    assert(rest@ =~= all.subrange(k + 1, all.len() as int));
                }
                out.push((key, from_value(item)));
            }
            proof {
                lemma_members_view(out@);
                assert(members_view(out@) =~= views);
            }
            Json::Object(out)
        },
    }
}

/// What `serde_json` reads from a text: the value, or its message on why the
/// text is no JSON.
pub uninterp spec fn json_read(text: Seq<char>) -> Result<JsonView, Seq<char>>;

/// `serde_json::from_str` into a `serde_json::Value`. What it reads from a text
/// is called [`json_read`]; the message of its error is the error's `Display`.
#[verifier::external_body]
fn read_value(text: &str) -> (result: Result<serde_json::Value, String>)
    ensures
        match result {
            Ok(value) => json_read(text@) == Ok::<JsonView, Seq<char>>(value_view(value)),
            Err(message) => json_read(text@) == Err::<JsonView, Seq<char>>(message@),
        },
{
    serde_json::from_str(text).map_err(|e: serde_json::Error| e.to_string())
}

/// Read a JSON document from text.
pub fn parse_json(text: &str) -> (result: Result<Json, String>)
    ensures
        match result {
            Ok(value) => json_read(text@) == Ok::<JsonView, Seq<char>>(value@),
            Err(message) => json_read(text@) == Err::<JsonView, Seq<char>>(message@),
        },
{
    match read_value(text) {
        Ok(value) => Ok(from_value(value)),
        Err(message) => Err(message),
    }
}

// -- building JSON ---------------------------------------------------------

/// An object under construction.
pub struct Members {
    members: Vec<(String, Json)>,
}

impl Members {
    /// The members so far, in order.
    pub closed spec fn view(&self) -> Seq<(Seq<char>, JsonView)> {
        members_view(self.members@)
    }

    /// No members yet.
    pub fn new() -> (result: Members)
        ensures
            result@ == Seq::<(Seq<char>, JsonView)>::empty(),
    {
        Members { members: Vec::new() }
    }

    /// Add one member at the end.
    pub fn put(&mut self, key: &str, value: Json)
        ensures
            final(self)@ == old(self)@.push((key@, value@)),
    {
        let ghost before = self.members@;
        self.members.push((key.to_owned(), value));
        proof {
            assert(self.members@.drop_last() =~= before);
        }
    }

    /// Add a string member at the end.
    pub fn put_text(&mut self, key: &str, value: &str)
        ensures
            final(self)@ == old(self)@.push((key@, JsonView::Text(value@))),
    {
        self.put(key, Json::Text(value.to_owned()));
    }

    /// Add a string member at the end, unless there is none.
    pub fn put_text_if(&mut self, key: &str, value: &Option<String>)
        ensures
            final(self)@ == old(self)@ + text_member_if(key@, *value),
    {
        match value {
            Some(s) => {
                self.put_text(key, s.as_str());
                proof {
                    assert(self@ =~= old(self)@ + text_member_if(key@, *value));
                }
            },
            None => {
                proof {
                    assert(self@ =~= old(self)@ + text_member_if(key@, *value));
                }
            },
        }
    }

    /// Add a whole-number member at the end.
    pub fn put_int(&mut self, key: &str, value: i64)
        ensures
            final(self)@ == old(self)@.push((key@, JsonView::Int(value as int))),
    {
        self.put(key, Json::Int(value as i128));
    }

    /// Add a whole-number member at the end, unless there is none.
    pub fn put_int_if(&mut self, key: &str, value: Option<i64>)
        ensures
            final(self)@ == old(self)@ + int_member_if(key@, value),
    {
        match value {
            Some(n) => {
                self.put_int(key, n);
                proof {
                    assert(self@ =~= old(self)@ + int_member_if(key@, value));
                }
            },
            None => {
                proof {
                    assert(self@ =~= old(self)@ + int_member_if(key@, value));
                }
            },
        }
    }

    /// Add a boolean member at the end, unless there is none.
    pub fn put_bool_if(&mut self, key: &str, value: Option<bool>)
        ensures
            final(self)@ == old(self)@ + bool_member_if(key@, value),
    {
        match value {
            Some(b) => {
                self.put(key, Json::Bool(b));
                proof {
                    assert(self@ =~= old(self)@ + bool_member_if(key@, value));
                }
            },
            None => {
                proof {
                    assert(self@ =~= old(self)@ + bool_member_if(key@, value));
                }
            },
        }
    }

    /// The finished object.
    pub fn finish(self) -> (result: Json)
        ensures
            result@ == JsonView::Object(self@),
    {
        Json::Object(self.members)
    }
}

/// The member for an optional string: none at all when there is no value.
pub open spec fn text_member_if(key: Seq<char>, value: Option<String>) -> Seq<
    (Seq<char>, JsonView),
> {
    match value {
        Some(s) => seq![(key, JsonView::Text(s@))],
        None => Seq::empty(),
    }
}

/// The member for an optional whole number.
pub open spec fn int_member_if(key: Seq<char>, value: Option<i64>) -> Seq<(Seq<char>, JsonView)> {
    match value {
        Some(n) => seq![(key, JsonView::Int(n as int))],
        None => Seq::empty(),
    }
}

/// The member for an optional boolean.
pub open spec fn bool_member_if(key: Seq<char>, value: Option<bool>) -> Seq<(Seq<char>, JsonView)> {
    match value {
        Some(b) => seq![(key, JsonView::Bool(b))],
        None => Seq::empty(),
    }
}

/// The array of a list of strings.
pub open spec fn texts_view(texts: Seq<String>) -> JsonView {
    JsonView::Array(texts.map_values(|s: String| JsonView::Text(s@)))
}

/// The array of a list of whole numbers.
pub open spec fn ints_view(numbers: Seq<i64>) -> JsonView {
    JsonView::Array(numbers.map_values(|n: i64| JsonView::Int(n as int)))
}

/// A list is written item by item, in its order, texts as texts and numbers as numbers.
pub proof fn law_lists_keep_their_order(texts: Seq<String>, numbers: Seq<i64>, i: int)
    ensures
        texts_view(texts) matches JsonView::Array(items) && items.len() == texts.len() && (0 <= i
            < texts.len() ==> items[i] == JsonView::Text(texts[i]@)),
        ints_view(numbers) matches JsonView::Array(items) && items.len() == numbers.len() && (0 <= i
            < numbers.len() ==> items[i] == JsonView::Int(numbers[i] as int)),
{
}

/// A list of strings as an array.
pub fn json_texts(texts: &Vec<String>) -> (result: Json)
    ensures
        result@ == texts_view(texts@),
{
    let mut out: Vec<Json> = Vec::new();
    let mut i: usize = 0;
    while i < texts.len()
        invariant
            i <= texts@.len(),
            out@.len() == i,
            forall|j: int| 0 <= j < i ==> (#[trigger] out@[j])@ == JsonView::Text(texts@[j]@),
        decreases texts@.len() - i,
    {
        out.push(Json::Text(texts[i].clone()));
        i = i + 1;
    }
    proof {
        lemma_items_view(out@);
        assert(items_view(out@) =~= texts@.map_values(|s: String| JsonView::Text(s@)));
    }
    Json::Array(out)
}

/// A list of whole numbers as an array.
pub fn json_ints(numbers: &Vec<i64>) -> (result: Json)
    ensures
        result@ == ints_view(numbers@),
{
    let mut out: Vec<Json> = Vec::new();
    let mut i: usize = 0;
    while i < numbers.len()
        invariant
            i <= numbers@.len(),
            out@.len() == i,
            forall|j: int|
                0 <= j < i ==> (#[trigger] out@[j])@ == JsonView::Int(numbers@[j] as int),
        decreases numbers@.len() - i,
    {
        out.push(Json::Int(numbers[i] as i128));
        i = i + 1;
    }
    proof {
        lemma_items_view(out@);
        assert(items_view(out@) =~= numbers@.map_values(|n: i64| JsonView::Int(n as int)));
    }
    Json::Array(out)
}

} // verus!
