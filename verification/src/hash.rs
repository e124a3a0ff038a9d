//! Content hashes: a canonical byte encoding of values, and a 64-bit hash
//! of it. Equal content gives equal bytes and so equal hashes, in every run.

use crate::identifier::{Identifier, IdentifierView};
use crate::json::{items_view, members_view, Members, Number, Value, ValueView};
use crate::k8s::api_resource::{ApiResource, ApiResourceView, TypeMeta, TypeMetaView};
use crate::objects::{
    Object, ObjectMeta, ObjectMetaView, ObjectView,
};
use crate::sorted_map::{sorted_entries, SortedMap};
use vstd::prelude::*;
use vstd::string::*;
use vstd::utf8::*;

verus! {

/// The offset basis of the 64-bit FNV-1a hash.
pub const FNV_OFFSET: u64 = 0xcbf2_9ce4_8422_2325;

/// The prime of the 64-bit FNV-1a hash.
pub const FNV_PRIME: u64 = 0x0000_0100_0000_01b3;

/// The 64-bit FNV-1a hash of a sequence of bytes.
pub open spec fn fnv1a(bytes: Seq<u8>) -> u64
    decreases bytes.len(),
{
    if bytes.len() == 0 {
        FNV_OFFSET
    } else {
        (fnv1a(bytes.drop_last()) ^ (bytes.last() as u64)).wrapping_mul(FNV_PRIME)
    }
}

/// Byte `k` of a number, counted from its low end.
pub open spec fn byte_of(x: u64, k: u64) -> u8 {
    ((x >> (8 * k)) & 0xff) as u8
}

/// The eight bytes of a number, high end first.
pub open spec fn u64_bytes(x: u64) -> Seq<u8> {
    seq![
        byte_of(x, 7),
        byte_of(x, 6),
        byte_of(x, 5),
        byte_of(x, 4),
        byte_of(x, 3),
        byte_of(x, 2),
        byte_of(x, 1),
        byte_of(x, 0),
    ]
}

/// A text: the number of its UTF-8 bytes, then the bytes.
pub open spec fn text_bytes(s: Seq<char>) -> Seq<u8> {
    u64_bytes(encode_utf8(s).len() as u64) + encode_utf8(s)
}

/// A text that may be absent: a byte that says whether it is there, then
/// the text.
pub open spec fn opt_text_bytes(o: Option<Seq<char>>) -> Seq<u8> {
    match o {
        None => seq![0u8],
        Some(s) => seq![1u8] + text_bytes(s),
    }
}

/// The first `upto` pairs of texts, one after the other.
pub open spec fn pairs_bytes(entries: Seq<(Seq<char>, Seq<char>)>, upto: nat) -> Seq<u8>
    decreases upto,
{
    if upto == 0 || upto > entries.len() {
        Seq::empty()
    } else {
        pairs_bytes(entries, (upto - 1) as nat) + text_bytes(entries[upto - 1].0) + text_bytes(
            entries[upto - 1].1,
        )
    }
}

/// A map of texts: the number of its entries, then the entries in ascending
/// order of their names.
pub open spec fn map_bytes(m: Map<Seq<char>, Seq<char>>) -> Seq<u8> {
    let entries = sorted_entries::<String, Seq<char>>(m);
    u64_bytes(entries.len() as u64) + pairs_bytes(entries, entries.len())
}

/// A number of a document: a byte for its kind, then its eight bytes.
pub open spec fn number_bytes(n: Number) -> Seq<u8> {
    match n {
        Number::PosInt(u) => seq![2u8] + u64_bytes(u),
        Number::NegInt(i) => seq![3u8] + u64_bytes(i as u64),
        Number::Float(bits) => seq![4u8] + u64_bytes(bits),
    }
}

/// A document: a byte for its kind, then its content. Lists and objects
/// tell how many items or members follow.
pub open spec fn value_bytes(v: ValueView) -> Seq<u8>
    decreases v, 0nat,
{
    match v {
        ValueView::Null => seq![0u8],
        ValueView::Bool(b) => seq![1u8, if b { 1u8 } else { 0u8 }],
        ValueView::Number(n) => number_bytes(n),
        ValueView::String(s) => seq![5u8] + text_bytes(s),
        ValueView::Array(items) => seq![6u8] + u64_bytes(items.len() as u64) + items_bytes(
            items,
            items.len(),
        ),
        ValueView::Object(members) => seq![7u8] + u64_bytes(members.len() as u64) + members_bytes(
            members,
            members.len(),
        ),
    }
}

/// The first `upto` items of a list, one after the other.
pub open spec fn items_bytes(items: Seq<ValueView>, upto: nat) -> Seq<u8>
    decreases items, upto,
{
    if upto == 0 || upto > items.len() {
        Seq::empty()
    } else {
        items_bytes(items, (upto - 1) as nat) + value_bytes(items[upto - 1])
    }
}

/// The first `upto` members of an object, one after the other, each its key
/// and then its value.
pub open spec fn members_bytes(members: Members, upto: nat) -> Seq<u8>
    decreases members, upto,
{
    if upto == 0 || upto > members.len() {
        Seq::empty()
    } else {
        members_bytes(members, (upto - 1) as nat) + text_bytes(members[upto - 1].0) + value_bytes(
            members[upto - 1].1,
        )
    }
}

/// A resource descriptor: its five texts.
pub open spec fn api_resource_bytes(a: ApiResourceView) -> Seq<u8> {
    text_bytes(a.group) + text_bytes(a.version) + text_bytes(a.api_version) + text_bytes(a.kind)
        + text_bytes(a.plural)
}

/// Type information that may be absent.
pub open spec fn types_bytes(t: Option<TypeMetaView>) -> Seq<u8> {
    match t {
        None => seq![0u8],
        Some(t) => seq![1u8] + text_bytes(t.api_version) + text_bytes(t.kind),
    }
}

/// Metadata: name, namespace, labels, annotations, and the rest.
pub open spec fn meta_bytes(m: ObjectMetaView) -> Seq<u8> {
    opt_text_bytes(m.name) + opt_text_bytes(m.namespace) + map_bytes(m.labels) + map_bytes(
        m.annotations,
    ) + value_bytes(m.other)
}

/// An object: its descriptor, then its type information, metadata and
/// data.
pub open spec fn object_bytes(o: ObjectView) -> Seq<u8> {
    api_resource_bytes(o.api_resource) + types_bytes(o.dyn_object.types) + meta_bytes(
        o.dyn_object.metadata,
    ) + value_bytes(o.dyn_object.data)
}

/// An identifier: its four texts.
pub open spec fn identifier_bytes(i: IdentifierView) -> Seq<u8> {
    text_bytes(i.group) + text_bytes(i.version) + text_bytes(i.kind) + text_bytes(i.name)
}

/// A running hash: it takes bytes and tells the hash of all it has taken.
pub struct Hasher {
    state: u64,
    fed: Ghost<Seq<u8>>,
}

impl Hasher {
    #[verifier::type_invariant]
    spec fn consistent(&self) -> bool {
        self.state == fnv1a(self.fed@)
    }

    /// The bytes taken so far.
    pub closed spec fn fed(&self) -> Seq<u8> {
        self.fed@
    }

    /// A hash that has taken nothing.
    pub fn new() -> (r: Hasher)
        ensures
            r.fed() == Seq::<u8>::empty(),
    {
        Hasher { state: FNV_OFFSET, fed: Ghost(Seq::empty()) }
    }

    /// The hash of the bytes taken so far.
    pub fn finish(&self) -> (r: u64)
        ensures
            r == fnv1a(self.fed()),
    {
        proof {
            use_type_invariant(self);
        }
        self.state
    }

    /// Takes one byte.
    pub fn write_u8(self, b: u8) -> (r: Hasher)
        ensures
            r.fed() == self.fed().push(b),
    {
        proof {
            use_type_invariant(&self);
            assert(self.fed@.push(b).drop_last() =~= self.fed@);
        }
        Hasher {
            state: (self.state ^ (b as u64)).wrapping_mul(FNV_PRIME),
            fed: Ghost(self.fed@.push(b)),
        }
    }

    /// Takes some bytes.
    pub fn write(self, bytes: &[u8]) -> (r: Hasher)
        ensures
            r.fed() == self.fed() + bytes@,
    {
        let ghost start = self.fed();
        let mut h = self;
        let mut i: usize = 0;
        assert(start + bytes@.take(0) =~= start);
        while i < bytes.len()
            invariant
                i <= bytes.len(),
                h.fed() == start + bytes@.take(i as int),
            decreases bytes.len() - i,
        {
            h = h.write_u8(bytes[i]);
            assert(start + bytes@.take(i as int + 1) =~= (start + bytes@.take(i as int)).push(
                bytes@[i as int],
            ));
            i += 1;
        }
        assert(bytes@.take(i as int) =~= bytes@);
        h
    }

    /// Takes the eight bytes of a number.
    pub fn write_u64(self, x: u64) -> (r: Hasher)
        ensures
            r.fed() == self.fed() + u64_bytes(x),
    {
        let h = self.write_u8(byte(x, 7)).write_u8(byte(x, 6)).write_u8(byte(x, 5)).write_u8(
            byte(x, 4),
        ).write_u8(byte(x, 3)).write_u8(byte(x, 2)).write_u8(byte(x, 1)).write_u8(byte(x, 0));
        assert(h.fed() =~= self.fed() + u64_bytes(x));
        h
    }

    /// Takes a text.
    pub fn write_str(self, s: &str) -> (r: Hasher)
        ensures
            r.fed() == self.fed() + text_bytes(s@),
    {
        let bytes = s.as_bytes();
        let h = self.write_u64(bytes.len() as u64).write(bytes);
        assert(h.fed() =~= self.fed() + text_bytes(s@));
        h
    }

    /// Takes a text that may be absent.
    pub fn write_opt_str(self, o: &Option<String>) -> (r: Hasher)
        ensures
            r.fed() == self.fed() + opt_text_bytes(crate::objects::text_of(*o)),
    {
        match o {
            None => {
                let h = self.write_u8(0);
                assert(h.fed() =~= self.fed() + seq![0u8]);
                h
            },
            Some(s) => {
                let h = self.write_u8(1).write_str(s.as_str());
                assert(h.fed() =~= self.fed() + (seq![1u8] + text_bytes(s@)));
                h
            },
        }
    }

    /// Takes a map of texts.
    pub fn write_map(self, m: &SortedMap<String, String>) -> (r: Hasher)
        ensures
            r.fed() == self.fed() + map_bytes(m@),
    {
        let n = m.len();
        let ghost entries = m.entries();
        let ghost start = self.fed() + u64_bytes(n as u64);
        let mut h = self.write_u64(n as u64);
        let mut i: usize = 0;
        assert(start + pairs_bytes(entries, 0) =~= start);
        while i < n
            invariant
                i <= n,
                n == entries.len(),
                entries == m.entries(),
                h.fed() == start + pairs_bytes(entries, i as nat),
            decreases n - i,
        {
            let ghost before = h.fed();
            h = h.write_str(m.key_at(i).as_str()).write_str(m.value_at(i).as_str());
            assert(h.fed() =~= start + pairs_bytes(entries, (i + 1) as nat));
            i += 1;
        }
        assert(h.fed() =~= self.fed() + map_bytes(m@));
        h
    }

    /// Takes a document.
    #[verifier::loop_isolation(false)]
    pub fn write_value(self, v: &Value) -> (r: Hasher)
        ensures
            r.fed() == self.fed() + value_bytes(v@),
        decreases v,
    {
        match v {
            Value::Null => {
                let h = self.write_u8(0);
                assert(h.fed() =~= self.fed() + seq![0u8]);
                h
            },
            Value::Bool(b) => {
                let h = self.write_u8(1).write_u8(if *b { 1 } else { 0 });
                assert(h.fed() =~= self.fed() + seq![1u8, if *b { 1u8 } else { 0u8 }]);
                h
            },
            Value::Number(n) => {
                let h = match n {
                    Number::PosInt(u) => self.write_u8(2).write_u64(*u),
                    Number::NegInt(i) => self.write_u8(3).write_u64(*i as u64),
                    Number::Float(bits) => self.write_u8(4).write_u64(*bits),
                };
                assert(h.fed() =~= self.fed() + number_bytes(*n));
                h
            },
            Value::String(s) => {
                let h = self.write_u8(5).write_str(s.as_str());
                assert(h.fed() =~= self.fed() + (seq![5u8] + text_bytes(s@)));
                h
            },
            Value::Array(items) => {
                proof {
                    Value::lemma_view_array(*items);
                }
                let ghost views = items_view(items@);
                let n = items.len();
                let ghost start = self.fed() + seq![6u8] + u64_bytes(n as u64);
                let mut h = self.write_u8(6).write_u64(n as u64);
                let mut i: usize = 0;
                assert(h.fed() =~= start + items_bytes(views, 0));
                while i < n
                    invariant
                        i <= n,
                        h.fed() == start + items_bytes(views, i as nat),
                    decreases n - i,
                {
                    assert(decreases_to!(*items => items@[i as int]));
                    h = h.write_value(&items[i]);
                    assert(h.fed() =~= start + items_bytes(views, (i + 1) as nat));
                    i += 1;
                }
                assert(h.fed() =~= self.fed() + value_bytes(v@));
                h
            },
            Value::Object(members) => {
                proof {
                    Value::lemma_view_object(*members);
                }
                let ghost views = members_view(members@);
                let n = members.len();
                let ghost start = self.fed() + seq![7u8] + u64_bytes(n as u64);
                let mut h = self.write_u8(7).write_u64(n as u64);
                let mut i: usize = 0;
                assert(h.fed() =~= start + members_bytes(views, 0));
                while i < n
                    invariant
                        i <= n,
                        h.fed() == start + members_bytes(views, i as nat),
                    decreases n - i,
                {
                    assert(decreases_to!(*members => members@[i as int]));
                    h = h.write_str(members[i].0.as_str()).write_value(&members[i].1);
                    assert(h.fed() =~= start + members_bytes(views, (i + 1) as nat));
                    i += 1;
                }
                assert(h.fed() =~= self.fed() + value_bytes(v@));
                h
            },
        }
    }

    /// Takes a resource descriptor.
    pub fn write_api_resource(self, a: &ApiResource) -> (r: Hasher)
        ensures
            r.fed() == self.fed() + api_resource_bytes(a@),
    {
        let h = self.write_str(a.group.as_str()).write_str(a.version.as_str()).write_str(
            a.api_version.as_str(),
        ).write_str(a.kind.as_str()).write_str(a.plural.as_str());
        assert(h.fed() =~= self.fed() + api_resource_bytes(a@));
        h
    }

    /// Takes an identifier.
    pub fn write_identifier(self, i: &Identifier) -> (r: Hasher)
        ensures
            r.fed() == self.fed() + identifier_bytes(i@),
    {
        let h = self.write_str(i.group().as_str()).write_str(i.version().as_str()).write_str(
            i.kind().as_str(),
        ).write_str(i.name().as_str());
        assert(h.fed() =~= self.fed() + identifier_bytes(i@));
        h
    }

    /// Takes type information that may be absent.
    pub fn write_types(self, types: &Option<TypeMeta>) -> (r: Hasher)
        ensures
            r.fed() == self.fed() + types_bytes(crate::objects::types_of(*types)),
    {
        match types {
            None => {
                let h = self.write_u8(0);
                assert(h.fed() =~= self.fed() + seq![0u8]);
                h
            },
            Some(types) => {
                let h = self.write_u8(1).write_str(types.api_version.as_str()).write_str(
                    types.kind.as_str(),
                );
                assert(h.fed() =~= self.fed() + (seq![1u8] + text_bytes(types@.api_version)
                    + text_bytes(types@.kind)));
                h
            },
        }
    }

    /// Takes metadata.
    pub fn write_meta(self, meta: &ObjectMeta) -> (r: Hasher)
        ensures
            r.fed() == self.fed() + meta_bytes(meta@),
    {
        let a = self.write_opt_str(&meta.name);
        let b = a.write_opt_str(&meta.namespace);
        let c = b.write_map(&meta.labels);
        let d = c.write_map(&meta.annotations);
        let e = d.write_value(&meta.other);
        assert(e.fed() =~= self.fed() + meta_bytes(meta@));
        e
    }

    /// Takes an object.
    pub fn write_object(self, o: &Object) -> (r: Hasher)
        ensures
            r.fed() == self.fed() + object_bytes(o@),
    {
        let a = self.write_api_resource(&o.api_resource);
        let b = a.write_types(&o.dyn_object.types);
        let c = b.write_meta(&o.dyn_object.metadata);
        let d = c.write_value(&o.dyn_object.data);
        assert(d.fed() =~= self.fed() + object_bytes(o@));
        d
    }
}

/// Byte `k` of a number, counted from its low end.
fn byte(x: u64, k: u64) -> (b: u8)
    requires
        k < 8,
    ensures
        b == byte_of(x, k),
{
    let shifted: u64 = (x >> (8 * k)) & 0xff;
    assert(shifted <= 0xff) by (bit_vector)
        requires
            shifted == (x >> (8 * k)) & 0xff,
    ;
    shifted as u8
}

} // verus!
