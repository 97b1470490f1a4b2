//! The values that queries extract from a request and that predicates test.

use vstd::prelude::*;

use crate::decimal::{Decimal, DecimalView};

verus! {

/// A JSON-like value. An object is the list of its entries: two objects
/// are equal when they hold the same entries in the same order. No test of
/// the library depends on that order: the operand of a test is never a list
/// or an object, and a key is looked up wherever it stands.
#[derive(Debug, PartialEq, Eq)]
pub enum Json {
    Null,
    Bool(bool),
    Integer(i64),
    Float(Decimal),
    String(String),
    Array(Vec<Json>),
    Object(Vec<(String, Json)>),
}

/// What a [`Json`] holds, as plain sequences.
pub enum JsonView {
    Null,
    Bool(bool),
    Integer(i64),
    Float(DecimalView),
    String(Seq<char>),
    Array(Seq<JsonView>),
    Object(Seq<(Seq<char>, JsonView)>),
}

/// The view of a value: the same shape over plain sequences.
pub open spec fn view_of(value: Json) -> JsonView
    decreases value,
{
    match value {
        Json::Null => JsonView::Null,
        Json::Bool(b) => JsonView::Bool(b),
        Json::Integer(i) => JsonView::Integer(i),
        Json::Float(d) => JsonView::Float(d@),
        Json::String(s) => JsonView::String(s@),
        Json::Array(items) => JsonView::Array(
            Seq::new(
                items@.len(),
                |i: int|
                    if 0 <= i < items@.len() {
                        view_of(items@[i])
                    } else {
                        JsonView::Null
                    },
            ),
        ),
        Json::Object(entries) => JsonView::Object(
            Seq::new(
                entries@.len(),
                |i: int|
                    if 0 <= i < entries@.len() {
                        (entries@[i].0@, view_of(entries@[i].1))
                    } else {
                        (Seq::empty(), JsonView::Null)
                    },
            ),
        ),
    }
}

impl View for Json {
    type V = JsonView;

    open spec fn view(&self) -> JsonView {
        view_of(*self)
    }
}

impl JsonView {
    pub open spec fn is_number(self) -> bool {
        self is Integer || self is Float
    }

    pub open spec fn is_collection(self) -> bool {
        self is Array || self is Object
    }

    /// Whether the object has an entry under `key`; false for any other value.
    pub open spec fn has_key(self, key: Seq<char>) -> bool {
        match self {
            JsonView::Object(entries) => exists|i: int|
                0 <= i < entries.len() && (#[trigger] entries[i]).0 == key,
            _ => false,
        }
    }

    /// Whether the array has an element equal to `item`; false for any other
    /// value.
    pub open spec fn has_element(self, item: JsonView) -> bool {
        match self {
            JsonView::Array(items) => items.contains(item),
            _ => false,
        }
    }
}

/// The value of the first entry named `key`, or `Null` when there is none.
pub open spec fn first_under(entries: Seq<(Seq<char>, JsonView)>, key: Seq<char>) -> JsonView
    decreases entries.len(),
{
    if entries.len() == 0 {
        JsonView::Null
    } else if entries[0].0 == key {
        entries[0].1
    } else {
        first_under(entries.skip(1), key)
    }
}

/// The view of an array holds the views of its elements.
pub proof fn lemma_array_view(items: Vec<Json>)
    ensures
        Json::Array(items)@ is Array,
        Json::Array(items)@->Array_0.len() == items@.len(),
        forall|i: int|
            0 <= i < items@.len() ==> (#[trigger] Json::Array(items)@->Array_0[i]) == items@[i]@,
{
}

/// The view of an object holds the keys and the views of its entries.
pub proof fn lemma_object_view(entries: Vec<(String, Json)>)
    ensures
        Json::Object(entries)@ is Object,
        Json::Object(entries)@->Object_0.len() == entries@.len(),
        forall|i: int|
            0 <= i < entries@.len() ==> (#[trigger] Json::Object(entries)@->Object_0[i]) == (
                entries@[i].0@,
                entries@[i].1@,
            ),
{
}

impl Json {
    /// Whether the two values are equal: of the same kind and holding the
    /// same things.
    pub fn equals(&self, other: &Json) -> (r: bool)
        ensures
            r == (self@ == other@),
        decreases self,
    {
        match self {
            Json::Null => {
                let r = matches!(other, Json::Null);
                r
            },
            Json::Bool(a) => {
                let r = match other {
                    Json::Bool(b) => *a == *b,
                    _ => false,
                };
                r
            },
            Json::Integer(a) => {
                let r = match other {
                    Json::Integer(b) => *a == *b,
                    _ => false,
                };
                r
            },
            Json::Float(a) => {
                let r = match other {
                    Json::Float(b) => a.equals(b),
                    _ => false,
                };
                r
            },
            Json::String(a) => {
                let r = match other {
                    Json::String(b) => *a == *b,
                    _ => false,
                };
                r
            },
            Json::Array(a) => match other {
                Json::Array(b) => {
                    proof {
                        lemma_array_view(*a);
                        lemma_array_view(*b);
                    }
                    if a.len() != b.len() {
                        return false;
                    }
                    let mut i: usize = 0;
                    while i < a.len()
                        invariant
                            i <= a.len(),
                            a.len() == b.len(),
                            *self == Json::Array(*a),
                            *other == Json::Array(*b),
                            forall|k: int| 0 <= k < i ==> (#[trigger] a@[k])@ == b@[k]@,
                        decreases a.len() - i,
                    {
                        if !a[i].equals(&b[i]) {
                            proof {
                                lemma_array_view(*a);
                                lemma_array_view(*b);
                                assert(self@->Array_0[i as int] != other@->Array_0[i as int]);
                            }
                            return false;
                        }
                        i += 1;
                    }
                    proof {
                        lemma_array_view(*a);
                        lemma_array_view(*b);
                        assert(self@->Array_0 =~= other@->Array_0);
                    }
                    true
                },
                _ => false,
            },
            Json::Object(a) => match other {
                Json::Object(b) => {
                    proof {
                        lemma_object_view(*a);
                        lemma_object_view(*b);
                    }
                    if a.len() != b.len() {
                        return false;
                    }
                    let mut i: usize = 0;
                    while i < a.len()
                        invariant
                            i <= a.len(),
                            a.len() == b.len(),
                            *self == Json::Object(*a),
                            *other == Json::Object(*b),
                            forall|k: int|
                                0 <= k < i ==> (#[trigger] a@[k]).0@ == b@[k].0@ && a@[k].1@
                                    == b@[k].1@,
                        decreases a.len() - i,
                    {
                        if a[i].0 != b[i].0 || !a[i].1.equals(&b[i].1) {
                            proof {
                                lemma_object_view(*a);
                                lemma_object_view(*b);
                                assert(self@->Object_0[i as int] != other@->Object_0[i as int]);
                            }
                            return false;
                        }
                        i += 1;
                    }
                    proof {
                        lemma_object_view(*a);
                        lemma_object_view(*b);
                        assert(self@->Object_0 =~= other@->Object_0);
                    }
                    true
                },
                _ => false,
            },
        }
    }
}

} // verus!
