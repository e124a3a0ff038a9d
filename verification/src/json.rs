//! Structured documents: the body of every object is a tree of these values.

use crate::text::{compare_text, Order};
use vstd::prelude::*;

verus! {

/// A number of a document.
///
/// Integers are kept exactly. A fractional number is kept as the bit pattern
/// of its IEEE-754 double.
#[derive(Clone, Copy, Debug)]
pub enum Number {
    /// A non-negative integer.
    PosInt(u64),
    /// A negative integer.
    NegInt(i64),
    /// The bits of a finite double.
    Float(u64),
}

/// The bit pattern is one of the two zeros of the double format.
pub open spec fn is_zero_bits(bits: u64) -> bool {
    bits == 0 || bits == 0x8000_0000_0000_0000
}

/// The bit pattern is neither an infinity nor a NaN.
pub open spec fn is_finite_bits(bits: u64) -> bool {
    (bits >> 52) & 0x7ff != 0x7ff
}

impl Number {
    /// Numeric equality. An integer never equals a fractional number; two
    /// fractional numbers are equal when their bits are, or when both are
    /// zero, whatever the sign.
    pub open spec fn same(self, other: Number) -> bool {
        match (self, other) {
            (Number::PosInt(a), Number::PosInt(b)) => a == b,
            (Number::NegInt(a), Number::NegInt(b)) => a == b,
            (Number::Float(a), Number::Float(b)) => a == b || (is_zero_bits(a) && is_zero_bits(
                b,
            )),
            _ => false,
        }
    }

    /// A negative integer is below zero and a fractional number is finite.
    pub open spec fn wf(self) -> bool {
        match self {
            Number::PosInt(_) => true,
            Number::NegInt(i) => i < 0,
            Number::Float(bits) => is_finite_bits(bits),
        }
    }

    /// Tells whether two numbers are equal as numbers.
    pub fn equals(&self, other: &Number) -> (r: bool)
        ensures
            r == self.same(*other),
    {
        match (self, other) {
            (Number::PosInt(a), Number::PosInt(b)) => *a == *b,
            (Number::NegInt(a), Number::NegInt(b)) => *a == *b,
            (Number::Float(a), Number::Float(b)) => {
                *a == *b || ((*a == 0 || *a == 0x8000_0000_0000_0000) && (*b == 0 || *b
                    == 0x8000_0000_0000_0000))
            },
            _ => false,
        }
    }

    /// Tells whether the number is well formed.
    pub fn is_wf(&self) -> (r: bool)
        ensures
            r == self.wf(),
    {
        match self {
            Number::PosInt(_) => true,
            Number::NegInt(i) => *i < 0,
            Number::Float(bits) => (*bits >> 52) & 0x7ff != 0x7ff,
        }
    }
}

/// A document value.
///
/// The members of an object are kept in the order in which they were given.
/// Reading a key finds its first member.
#[derive(Debug)]
pub enum Value {
    Null,
    Bool(bool),
    Number(Number),
    String(String),
    Array(Vec<Value>),
    Object(Vec<(String, Value)>),
}

/// The mathematical content of a [`Value`].
pub enum ValueView {
    Null,
    Bool(bool),
    Number(Number),
    String(Seq<char>),
    Array(Seq<ValueView>),
    Object(Seq<(Seq<char>, ValueView)>),
}

/// The members of an object, as a sequence of keys and values.
pub type Members = Seq<(Seq<char>, ValueView)>;

/// The content of a value: strings by their characters, lists by the
/// contents of their items.
pub open spec fn value_view(v: Value) -> ValueView
    decreases v,
{
    match v {
        Value::Null => ValueView::Null,
        Value::Bool(b) => ValueView::Bool(b),
        Value::Number(n) => ValueView::Number(n),
        Value::String(s) => ValueView::String(s@),
        Value::Array(items) => ValueView::Array(
            Seq::new(
                items@.len(),
                |i: int|
                    if 0 <= i < items@.len() {
                        value_view(items@[i])
                    } else {
                        ValueView::Null
                    },
            ),
        ),
        Value::Object(members) => ValueView::Object(
            Seq::new(
                members@.len(),
                |i: int|
                    if 0 <= i < members@.len() {
                        (members@[i].0@, value_view(members@[i].1))
                    } else {
                        (Seq::empty(), ValueView::Null)
                    },
            ),
        ),
    }
}

impl View for Value {
    type V = ValueView;

    open spec fn view(&self) -> ValueView {
        value_view(*self)
    }
}

/// The content of a list of values.
pub open spec fn items_view(items: Seq<Value>) -> Seq<ValueView> {
    Seq::new(items.len(), |i: int| items[i]@)
}

/// The content of a list of members.
pub open spec fn members_view(members: Seq<(String, Value)>) -> Members {
    Seq::new(members.len(), |i: int| (members[i].0@, members[i].1@))
}

/// Some member has the key.
pub open spec fn has_key(members: Members, key: Seq<char>) -> bool {
    exists|i: int| 0 <= i < members.len() && #[trigger] members[i].0 == key
}

/// The member at `i` is the first with the key.
pub open spec fn is_first_at(members: Members, key: Seq<char>, i: int) -> bool {
    &&& 0 <= i < members.len()
    &&& members[i].0 == key
    &&& forall|j: int| 0 <= j < i ==> #[trigger] members[j].0 != key
}

/// The index of the first member with the key, where there is one.
pub open spec fn index_of(members: Members, key: Seq<char>) -> int {
    choose|i: int| is_first_at(members, key, i)
}

/// The value of the first member with the key.
pub open spec fn lookup(members: Members, key: Seq<char>) -> Option<ValueView> {
    if has_key(members, key) {
        Some(members[index_of(members, key)].1)
    } else {
        None
    }
}

/// No key occurs twice among the members.
pub open spec fn distinct_keys(members: Members) -> bool {
    forall|i: int, j: int|
        0 <= i < j < members.len() ==> #[trigger] members[i].0 != #[trigger] members[j].0
}

/// A first member with the key settles what `lookup` finds.
pub proof fn lemma_lookup_first(members: Members, key: Seq<char>, i: int)
    requires
        is_first_at(members, key, i),
    ensures
        has_key(members, key),
        index_of(members, key) == i,
        lookup(members, key) == Some(members[i].1),
{
    let k = index_of(members, key);
    assert(is_first_at(members, key, k));
    if k < i {
        assert(members[k].0 != key);
    } else if i < k {
        assert(members[i].0 != key);
    }
}

/// Where a key occurs, it has a first member.
pub proof fn lemma_has_key_first(members: Members, key: Seq<char>)
    requires
        has_key(members, key),
    ensures
        is_first_at(members, key, index_of(members, key)),
{
    let w = choose|i: int| 0 <= i < members.len() && #[trigger] members[i].0 == key;
    lemma_first_upto(members, key, w);
}

proof fn lemma_first_upto(members: Members, key: Seq<char>, w: int)
    requires
        0 <= w < members.len(),
        members[w].0 == key,
    ensures
        exists|i: int| is_first_at(members, key, i),
    decreases w,
{
    if forall|j: int| 0 <= j < w ==> #[trigger] members[j].0 != key {
        assert(is_first_at(members, key, w));
    } else {
        let j = choose|j: int| 0 <= j < w && #[trigger] members[j].0 == key;
        lemma_first_upto(members, key, j);
    }
}

/// Among members with distinct keys, every member is the first of its key.
pub proof fn lemma_distinct_lookup(members: Members, i: int)
    requires
        distinct_keys(members),
        0 <= i < members.len(),
    ensures
        lookup(members, members[i].0) == Some(members[i].1),
{
    assert forall|j: int| 0 <= j < i implies #[trigger] members[j].0 != members[i].0 by {}
    lemma_lookup_first(members, members[i].0, i);
}

/// No object of the document has a key twice, and every number is well
/// formed.
pub open spec fn well_formed(v: ValueView) -> bool
    decreases v,
{
    match v {
        ValueView::Number(n) => n.wf(),
        ValueView::Array(items) => forall|i: int|
            0 <= i < items.len() ==> well_formed(#[trigger] items[i]),
        ValueView::Object(members) => {
            &&& distinct_keys(members)
            &&& forall|i: int| 0 <= i < members.len() ==> well_formed((#[trigger] members[i]).1)
        },
        _ => true,
    }
}

impl ValueView {
    /// No object of the document has a key twice, and every number is well
    /// formed.
    pub open spec fn wf(self) -> bool {
        well_formed(self)
    }

    /// The member of an object under a key; nothing for any other value.
    pub open spec fn member(self, key: Seq<char>) -> Option<ValueView> {
        match self {
            ValueView::Object(members) => lookup(members, key),
            _ => None,
        }
    }
}

/// Tells whether two strings hold the same text.
pub fn same_text(a: &str, b: &str) -> (r: bool)
    ensures
        r == (a@ == b@),
{
    compare_text(a, b) == Order::Same
}

impl Value {
    /// The content of an array value is the content of its items.
    pub proof fn lemma_view_array(items: Vec<Value>)
        ensures
            Value::Array(items)@ == ValueView::Array(items_view(items@)),
    {
        assert(Value::Array(items)@->Array_0 =~= items_view(items@));
    }

    /// The content of an object value is the content of its members.
    pub proof fn lemma_view_object(members: Vec<(String, Value)>)
        ensures
            Value::Object(members)@ == ValueView::Object(members_view(members@)),
    {
        assert(Value::Object(members)@->Object_0 =~= members_view(members@));
    }

    /// Finds the member of an object under `key`.
    #[verifier::loop_isolation(false)]
    pub fn get(&self, key: &str) -> (r: Option<&Value>)
        ensures
            match self@.member(key@) {
                Some(v) => r is Some && r->Some_0@ == v,
                None => r is None,
            },
    {
        match self {
            Value::Object(members) => {
                proof {
                    Value::lemma_view_object(*members);
                }
                let ghost view = members_view(members@);
                let mut i: usize = 0;
                while i < members.len()
                    invariant
                        i <= members.len(),
                        view == members_view(members@),
                        forall|j: int| 0 <= j < i ==> #[trigger] view[j].0 != key@,
                    decreases members.len() - i,
                {
                    if same_text(members[i].0.as_str(), key) {
                        proof {
                            lemma_lookup_first(view, key@, i as int);
                        }
                        return Some(&members[i].1);
                    }
                    i += 1;
                }
                None
            },
            _ => None,
        }
    }

    /// Tells whether the document is well formed: no object of it has a
    /// key twice, and every number is well formed.
    #[verifier::loop_isolation(false)]
    pub fn is_wf(&self) -> (r: bool)
        ensures
            r == self@.wf(),
        decreases self,
    {
        match self {
            Value::Number(n) => n.is_wf(),
            Value::Array(items) => {
                proof {
                    Value::lemma_view_array(*items);
                }
                let ghost views = self@->Array_0;
                assert(views == items_view(items@));
                let mut i: usize = 0;
                while i < items.len()
                    invariant
                        i <= items.len(),
                        forall|j: int| 0 <= j < i ==> well_formed(#[trigger] views[j]),
                    decreases items.len() - i,
                {
                    assert(decreases_to!(*items => items@[i as int]));
                    if !items[i].is_wf() {
                        assert(views[i as int] == items@[i as int]@);
                        assert(!well_formed(views[i as int]));
                        return false;
                    }
                    i += 1;
                }
                true
            },
            Value::Object(members) => {
                proof {
                    Value::lemma_view_object(*members);
                }
                let ghost views = self@->Object_0;
                assert(views == members_view(members@));
                let mut i: usize = 0;
                while i < members.len()
                    invariant
                        i <= members.len(),
                        forall|j: int| 0 <= j < i ==> well_formed((#[trigger] views[j]).1),
                        forall|a: int, b: int|
                            0 <= a < b < i ==> (#[trigger] views[a]).0 != (#[trigger] views[b]).0,
                    decreases members.len() - i,
                {
                    assert(decreases_to!(*members => members@[i as int]));
                    if !members[i].1.is_wf() {
                        assert(views[i as int].1 == members@[i as int].1@);
                        assert(!well_formed(views[i as int].1));
                        return false;
                    }
                    let mut k: usize = 0;
                    while k < i
                        invariant
                            k <= i,
                            i < members.len(),
                            forall|a: int| 0 <= a < k ==> (#[trigger] views[a]).0 != views[i as int].0,
                        decreases i - k,
                    {
                        if same_text(members[k].0.as_str(), members[i].0.as_str()) {
                            assert(views[k as int].0 == views[i as int].0);
                            return false;
                        }
                        k += 1;
                    }
                    i += 1;
                }
                true
            },
            _ => true,
        }
    }

    /// The text of a string value.
    pub fn as_str(&self) -> (r: Option<&String>)
        ensures
            match self@ {
                ValueView::String(s) => r is Some && r->Some_0@ == s,
                _ => r is None,
            },
    {
        match self {
            Value::String(s) => Some(s),
            _ => None,
        }
    }
}

impl Clone for Value {
    #[verifier::loop_isolation(false)]
    fn clone(&self) -> (r: Value)
        ensures
            r@ == self@,
        decreases self,
    {
        match self {
            Value::Null => Value::Null,
            Value::Bool(b) => Value::Bool(*b),
            Value::Number(n) => Value::Number(*n),
            Value::String(s) => Value::String(s.clone()),
            Value::Array(items) => {
                let mut copy: Vec<Value> = Vec::new();
                let mut i: usize = 0;
                while i < items.len()
                    invariant
                        i <= items.len(),
                        copy.len() == i,
                        forall|j: int| 0 <= j < i ==> copy@[j]@ == items@[j]@,
                    decreases items.len() - i,
                {
                    assert(decreases_to!(*items => items@[i as int]));
                    copy.push(items[i].clone());
                    i += 1;
                }
                proof {
                    Value::lemma_view_array(*items);
                    Value::lemma_view_array(copy);
                    assert(items_view(copy@) =~= items_view(items@));
                }
                Value::Array(copy)
            },
            Value::Object(members) => {
                let mut copy: Vec<(String, Value)> = Vec::new();
                let mut i: usize = 0;
                while i < members.len()
                    invariant
                        i <= members.len(),
                        copy.len() == i,
                        forall|j: int|
                            0 <= j < i ==> copy@[j].0@ == members@[j].0@ && copy@[j].1@
                                == members@[j].1@,
                    decreases members.len() - i,
                {
                    assert(decreases_to!(*members => members@[i as int]));
                    copy.push((members[i].0.clone(), members[i].1.clone()));
                    i += 1;
                }
                proof {
                    Value::lemma_view_object(*members);
                    Value::lemma_view_object(copy);
                    assert(members_view(copy@) =~= members_view(members@));
                }
                Value::Object(copy)
            },
        }
    }
}

} // verus!
