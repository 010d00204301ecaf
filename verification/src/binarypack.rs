//! BinaryPack: the msgpack-derived serialization that peerjs uses on data channels.
//!
//! It is not standard msgpack. Strings are marked `0xb0 + len`, `0xd8` and
//! `0xd9`; the ranges `0xa0`, `0xda` and `0xdb` are binary instead.
use crate::binary64::{finite, is_finite, widen, widened};
use crate::json::{entries, group_json_views, items, put, with_entry, Json, JsonView, Number};
use crate::text::{dec, decimal};
use vstd::prelude::*;
use vstd::utf8::*;

verus! {

/// A value on the wire. `Float` holds the bits of a double.
#[derive(Debug, PartialEq)]
pub enum Packed {
    Null,
    Bool(bool),
    Int(i64),
    UInt(u64),
    Float(u64),
    Str(String),
    Bytes(Vec<u8>),
    Array(Vec<Packed>),
    Dict(Vec<(String, Packed)>),
}

/// What a wire value is.
pub enum PackedView {
    Null,
    Bool(bool),
    Int(i64),
    UInt(u64),
    Float(u64),
    Str(Seq<char>),
    Bytes(Seq<u8>),
    Array(Seq<PackedView>),
    Dict(Seq<(Seq<char>, PackedView)>),
}

impl View for Packed {
    type V = PackedView;

    open spec fn view(&self) -> PackedView
        decreases self,
    {
        match self {
            Packed::Null => PackedView::Null,
            Packed::Bool(b) => PackedView::Bool(*b),
            Packed::Int(i) => PackedView::Int(*i),
            Packed::UInt(u) => PackedView::UInt(*u),
            Packed::Float(f) => PackedView::Float(*f),
            Packed::Str(s) => PackedView::Str(s@),
            Packed::Bytes(b) => PackedView::Bytes(b@),
            Packed::Array(v) => PackedView::Array(
                Seq::new(
                    v@.len(),
                    |i: int|
                        if 0 <= i < v@.len() {
                            v@[i].view()
                        } else {
                            PackedView::Null
                        },
                ),
            ),
            Packed::Dict(v) => PackedView::Dict(
                Seq::new(
                    v@.len(),
                    |i: int|
                        if 0 <= i < v@.len() {
                            (v@[i].0@, v@[i].1.view())
                        } else {
                            (Seq::empty(), PackedView::Null)
                        },
                ),
            ),
        }
    }
}

/// The views of a list of values.
pub open spec fn elements(s: Seq<Packed>) -> Seq<PackedView> {
    Seq::new(s.len(), |i: int| s[i]@)
}

/// The views of a list of entries.
pub open spec fn pairs(s: Seq<(String, Packed)>) -> Seq<(Seq<char>, PackedView)> {
    Seq::new(s.len(), |i: int| (s[i].0@, s[i].1@))
}

/// The view of an array, by its elements.
pub broadcast proof fn lemma_packed_array_view(v: Vec<Packed>)
    ensures
        #[trigger] Packed::Array(v)@ == PackedView::Array(elements(v@)),
{
    reveal_with_fuel(<Packed as View>::view, 2);
    assert(Packed::Array(v)@->Array_0 =~= elements(v@));
}

/// The view of a map, by its pairs.
pub broadcast proof fn lemma_packed_map_view(v: Vec<(String, Packed)>)
    ensures
        #[trigger] Packed::Dict(v)@ == PackedView::Dict(pairs(v@)),
{
    reveal_with_fuel(<Packed as View>::view, 2);
    assert(Packed::Dict(v)@->Dict_0 =~= pairs(v@));
}

pub broadcast group group_packed_views {
    lemma_packed_array_view,
    lemma_packed_map_view,
}

// ---------------------------------------------------------------------------
// JSON
// ---------------------------------------------------------------------------
/// The JSON value of a wire value.
///
/// Binary data shows only its length, a number that is no finite number shows
/// as null, and of entries with one key the last one counts.
pub open spec fn json(v: PackedView) -> JsonView
    decreases v,
{
    match v {
        PackedView::Null => JsonView::Null,
        PackedView::Bool(b) => JsonView::Bool(b),
        PackedView::Int(i) => JsonView::Number(
            if i < 0 {
                Number::NegInt(i)
            } else {
                Number::PosInt(i as u64)
            },
        ),
        PackedView::UInt(u) => JsonView::Number(Number::PosInt(u)),
        PackedView::Float(f) => if finite(f) {
            JsonView::Number(Number::Float(f))
        } else {
            JsonView::Null
        },
        PackedView::Str(s) => JsonView::Str(s),
        PackedView::Bytes(b) => JsonView::Object(
            seq![("__bytes_len"@, JsonView::Number(Number::PosInt(b.len() as u64)))],
        ),
        PackedView::Array(a) => JsonView::Array(
            Seq::new(
                a.len(),
                |i: int|
                    if 0 <= i < a.len() {
                        json(a[i])
                    } else {
                        JsonView::Null
                    },
            ),
        ),
        PackedView::Dict(m) => JsonView::Object(object(m)),
    }
}

/// The object that results when the pairs are put into it one after another.
pub open spec fn object(m: Seq<(Seq<char>, PackedView)>) -> Seq<(Seq<char>, JsonView)>
    decreases m,
{
    if m.len() == 0 {
        Seq::empty()
    } else {
        with_entry(object(m.drop_last()), m.last().0, json(m.last().1))
    }
}

/// The wire value of a JSON value.
pub open spec fn unjson(v: JsonView) -> PackedView
    decreases v,
{
    match v {
        JsonView::Null => PackedView::Null,
        JsonView::Bool(b) => PackedView::Bool(b),
        JsonView::Number(Number::PosInt(u)) => PackedView::UInt(u),
        JsonView::Number(Number::NegInt(i)) => PackedView::Int(i),
        JsonView::Number(Number::Float(f)) => PackedView::Float(f),
        JsonView::Str(s) => PackedView::Str(s),
        JsonView::Array(a) => PackedView::Array(
            Seq::new(
                a.len(),
                |i: int|
                    if 0 <= i < a.len() {
                        unjson(a[i])
                    } else {
                        PackedView::Null
                    },
            ),
        ),
        JsonView::Object(o) => PackedView::Dict(
            Seq::new(
                o.len(),
                |i: int|
                    if 0 <= i < o.len() {
                        (o[i].0, unjson(o[i].1))
                    } else {
                        (Seq::empty(), PackedView::Null)
                    },
            ),
        ),
    }
}

impl Packed {
    /// The JSON value of a wire value.
    pub fn to_json(&self) -> (r: Json)
        ensures
            r@ == json(self@),
        decreases self,
    {
        proof {
            broadcast use group_json_views, group_packed_views;

        }
        match self {
            Packed::Null => Json::Null,
            Packed::Bool(b) => Json::Bool(*b),
            Packed::Int(i) => if *i < 0 {
                Json::Number(Number::NegInt(*i))
            } else {
                Json::Number(Number::PosInt(*i as u64))
            },
            Packed::UInt(u) => Json::Number(Number::PosInt(*u)),
            Packed::Float(f) => if is_finite(*f) {
                Json::Number(Number::Float(*f))
            } else {
                Json::Null
            },
            Packed::Str(s) => Json::Str(s.clone()),
            Packed::Bytes(b) => {
                let mut o: Vec<(String, Json)> = Vec::new();
                o.push(("__bytes_len".to_owned(), Json::Number(Number::PosInt(b.len() as u64))));
                assert(entries(o@) =~= seq![
                    ("__bytes_len"@, JsonView::Number(Number::PosInt(b@.len() as u64))),
                ]);
                Json::Object(o)
            },
            Packed::Array(v) => {
                let mut out: Vec<Json> = Vec::new();
                let n: usize = v.len();
                let mut i: usize = 0;
                while i < n
                    invariant
                        n == v@.len(),
                        i <= n,
                        out@.len() == i,
                        forall|k: int| 0 <= k < i ==> out@[k]@ == json(v@[k]@),
                        decreases_to!(self => v@),
                    decreases n - i,
                {
                    assert(decreases_to!(v@ => v@[i as int]));
                    out.push(v[i].to_json());
                    i = i + 1;
                }
                proof {
                    reveal_with_fuel(json, 2);
                    assert(items(out@) =~= json(self@)->Array_0);
                }
                Json::Array(out)
            },
            Packed::Dict(m) => {
                let mut o: Vec<(String, Json)> = Vec::new();
                let n: usize = m.len();
                let mut i: usize = 0;
                assert(entries(o@) =~= Seq::empty());
                assert(pairs(m@).take(0) =~= Seq::empty());
                while i < n
                    invariant
                        n == m@.len(),
                        i <= n,
                        entries(o@) == object(pairs(m@).take(i as int)),
                        decreases_to!(self => m@),
                    decreases n - i,
                {
                    assert(decreases_to!(m@ => m@[i as int]));
                    let e = &m[i];
                    let v = e.1.to_json();
                    put(&mut o, e.0.clone(), v);
                    proof {
                        let t = pairs(m@).take(i as int + 1);
                        assert(t.drop_last() =~= pairs(m@).take(i as int));
                        assert(t.last() == pairs(m@)[i as int]);
                    }
                    i = i + 1;
                }
                assert(pairs(m@).take(n as int) =~= pairs(m@));
                Json::Object(o)
            },
        }
    }

    /// The wire value of a JSON value.
    pub fn from_json(v: &Json) -> (r: Packed)
        ensures
            r@ == unjson(v@),
        decreases v,
    {
        proof {
            broadcast use group_json_views, group_packed_views;

        }
        match v {
            Json::Null => Packed::Null,
            Json::Bool(b) => Packed::Bool(*b),
            Json::Number(n) => match *n {
                Number::PosInt(u) => Packed::UInt(u),
                Number::NegInt(i) => Packed::Int(i),
                Number::Float(f) => Packed::Float(f),
            },
            Json::Str(s) => Packed::Str(s.clone()),
            Json::Array(a) => {
                let mut out: Vec<Packed> = Vec::new();
                let n: usize = a.len();
                let mut i: usize = 0;
                while i < n
                    invariant
                        n == a@.len(),
                        i <= n,
                        out@.len() == i,
                        forall|k: int| 0 <= k < i ==> out@[k]@ == unjson(a@[k]@),
                        decreases_to!(v => a@),
                    decreases n - i,
                {
                    assert(decreases_to!(a@ => a@[i as int]));
                    out.push(Packed::from_json(&a[i]));
                    i = i + 1;
                }
                proof {
                    reveal_with_fuel(unjson, 2);
                    assert(elements(out@) =~= unjson(v@)->Array_0);
                }
                Packed::Array(out)
            },
            Json::Object(o) => {
                let mut out: Vec<(String, Packed)> = Vec::new();
                let n: usize = o.len();
                let mut i: usize = 0;
                while i < n
                    invariant
                        n == o@.len(),
                        i <= n,
                        out@.len() == i,
                        forall|k: int|
                            0 <= k < i ==> out@[k].0@ == o@[k].0@ && out@[k].1@ == unjson(
                                o@[k].1@,
                            ),
                        decreases_to!(v => o@),
                    decreases n - i,
                {
                    assert(decreases_to!(o@ => o@[i as int]));
                    let e = &o[i];
                    out.push((e.0.clone(), Packed::from_json(&e.1)));
                    i = i + 1;
                }
                proof {
                    reveal_with_fuel(unjson, 2);
                    assert(pairs(out@) =~= unjson(v@)->Dict_0);
                }
                Packed::Dict(out)
            },
        }
    }
}

/// The JSON value of a JSON value's wire value is that JSON value.
pub proof fn law_json_survives_packing(v: JsonView)
    requires
        v.wf(),
    ensures
        json(unjson(v)) == v,
    decreases v,
{
    reveal_with_fuel(json, 2);
    reveal_with_fuel(unjson, 2);
    match v {
        JsonView::Array(a) => {
            let p = unjson(v)->Array_0;
            assert forall|i: int| 0 <= i < a.len() implies json(p[i]) == a[i] by {
                assert(a[i].wf());
                law_json_survives_packing(a[i]);
            }
            assert(json(unjson(v))->Array_0 =~= a);
        },
        JsonView::Object(o) => {
            lemma_object_survives(v, o.len());
            let m = unjson(v)->Dict_0;
            assert(m.take(o.len() as int) =~= m);
            assert(o.take(o.len() as int) =~= o);
        },
        _ => {},
    }
}

/// The first `n` entries of an object survive packing.
proof fn lemma_object_survives(v: JsonView, n: nat)
    requires
        v.wf(),
        v is Object,
        n <= v->Object_0.len(),
    ensures
        object(unjson(v)->Dict_0.take(n as int)) == v->Object_0.take(n as int),
    decreases v, n,
{
    reveal_with_fuel(unjson, 2);
    let o = v->Object_0;
    let m = unjson(v)->Dict_0;
    if n == 0 {
        assert(o.take(0) =~= Seq::empty());
    } else {
        let k = (n - 1) as nat;
        lemma_object_survives(v, k);
        let t = m.take(n as int);
        assert(t.drop_last() =~= m.take(k as int));
        assert(t.last() == (o[k as int].0, unjson(o[k as int].1)));
        assert(o[k as int].1.wf());
        law_json_survives_packing(o[k as int].1);
        let front = o.take(k as int);
        assert forall|i: int| 0 <= i < front.len() implies crate::json::before(
            (#[trigger] front[i]).0,
            o[k as int].0,
        ) by {
            assert(crate::json::before(o[i].0, o[k as int].0));
        }
        crate::json::lemma_with_entry_at_end(front, o[k as int].0, o[k as int].1);
        assert(front.push(o[k as int]) =~= o.take(n as int));
    }
}

/// What comes off the wire is a JSON value with its keys in order.
pub proof fn law_json_is_well_formed(v: PackedView)
    ensures
        json(v).wf(),
    decreases v,
{
    reveal_with_fuel(json, 2);
    reveal_with_fuel(JsonView::wf, 2);
    match v {
        PackedView::Array(a) => {
            assert forall|i: int| 0 <= i < a.len() implies json(a[i]).wf() by {
                law_json_is_well_formed(a[i]);
            }
            let j = json(v)->Array_0;
            assert forall|i: int| 0 <= i < j.len() implies (#[trigger] j[i]).wf() by {
                assert(j[i] == json(a[i]));
            }
        },
        PackedView::Dict(m) => {
            lemma_object_is_well_formed(m);
        },
        _ => {},
    }
}

/// The object of some pairs is well formed.
proof fn lemma_object_is_well_formed(m: Seq<(Seq<char>, PackedView)>)
    ensures
        JsonView::Object(object(m)).wf(),
    decreases m,
{
    reveal_with_fuel(JsonView::wf, 2);
    if m.len() > 0 {
        lemma_object_is_well_formed(m.drop_last());
        law_json_is_well_formed(m.last().1);
        let o = object(m.drop_last());
        let w = object(m);
        crate::json::lemma_with_entry_ascends(o, m.last().0, json(m.last().1));
        assert forall|i: int| 0 <= i < w.len() implies (#[trigger] w[i]).1.wf() by {
            if w[i].1 != json(m.last().1) {
                let j = choose|j: int| 0 <= j < o.len() && #[trigger] o[j] == w[i];
                assert(o[j].1.wf());
            }
        }
    }
}

// ---------------------------------------------------------------------------
// Packing
// ---------------------------------------------------------------------------
/// The last `w` base-256 digits of `n`, the highest first.
pub open spec fn big_endian(n: nat, w: nat) -> Seq<u8>
    decreases w,
{
    if w == 0 {
        Seq::empty()
    } else {
        big_endian(n / 256, (w - 1) as nat).push((n % 256) as u8)
    }
}

/// The number that a byte string writes, the highest byte first.
pub open spec fn number(s: Seq<u8>) -> nat
    decreases s.len(),
{
    if s.len() == 0 {
        0
    } else {
        number(s.drop_last()) * 256 + s.last() as nat
    }
}

/// The marker of a counted value: the count in the marker itself, in two bytes, or in four.
pub open spec fn header(len: nat, fix: u8, sixteen: u8, thirtytwo: u8) -> Seq<u8> {
    if len < 16 {
        seq![fix | len as u8]
    } else if len < 0x1_0000 {
        seq![sixteen] + big_endian(len, 2)
    } else {
        seq![thirtytwo] + big_endian(len, 4)
    }
}

/// The bytes of a string.
pub open spec fn packed_text(s: Seq<char>) -> Seq<u8> {
    header(encode_utf8(s).len(), 0xb0, 0xd8, 0xd9) + encode_utf8(s)
}

/// The bytes of binary data.
pub open spec fn packed_bytes(b: Seq<u8>) -> Seq<u8> {
    header(b.len(), 0xa0, 0xda, 0xdb) + b
}

/// The bytes of an unsigned integer, as few as will do.
pub open spec fn packed_uint(u: nat) -> Seq<u8> {
    if u < 128 {
        seq![u as u8]
    } else if u < 0x100 {
        seq![0xccu8] + big_endian(u, 1)
    } else if u < 0x1_0000 {
        seq![0xcdu8] + big_endian(u, 2)
    } else if u < 0x1_0000_0000 {
        seq![0xceu8] + big_endian(u, 4)
    } else {
        seq![0xcfu8] + big_endian(u, 8)
    }
}

/// The bytes of a signed integer: a negative one in as few as will do, in
/// two's complement; any other in eight.
pub open spec fn packed_int(i: int) -> Seq<u8> {
    if -32 <= i < 0 {
        seq![(0x100 + i) as u8]
    } else if -0x80 <= i < 0 {
        seq![0xd0u8] + big_endian((0x100 + i) as nat, 1)
    } else if -0x8000 <= i < 0 {
        seq![0xd1u8] + big_endian((0x1_0000 + i) as nat, 2)
    } else if -0x8000_0000 <= i < 0 {
        seq![0xd2u8] + big_endian((0x1_0000_0000 + i) as nat, 4)
    } else if i < 0 {
        seq![0xd3u8] + big_endian((0x1_0000_0000_0000_0000 + i) as nat, 8)
    } else {
        seq![0xd3u8] + big_endian(i as nat, 8)
    }
}

/// The bytes of a value.
pub open spec fn packed(v: PackedView) -> Seq<u8>
    decreases v,
{
    match v {
        PackedView::Null => seq![0xc0u8],
        PackedView::Bool(b) => seq![if b { 0xc3u8 } else { 0xc2u8 }],
        PackedView::UInt(u) => packed_uint(u as nat),
        PackedView::Int(i) => packed_int(i as int),
        PackedView::Float(f) => seq![0xcbu8] + big_endian(f as nat, 8),
        PackedView::Str(s) => packed_text(s),
        PackedView::Bytes(b) => packed_bytes(b),
        PackedView::Array(a) => header(a.len(), 0x90, 0xdc, 0xdd) + packed_all(a),
        PackedView::Dict(m) => header(m.len(), 0x80, 0xde, 0xdf) + packed_pairs(m),
    }
}

/// The bytes of values, one after another.
pub open spec fn packed_all(a: Seq<PackedView>) -> Seq<u8>
    decreases a,
{
    if a.len() == 0 {
        Seq::empty()
    } else {
        packed(a[0]) + packed_all(a.drop_first())
    }
}

/// The bytes of keys and values, one pair after another.
pub open spec fn packed_pairs(m: Seq<(Seq<char>, PackedView)>) -> Seq<u8>
    decreases m,
{
    if m.len() == 0 {
        Seq::empty()
    } else {
        packed_text(m[0].0) + packed(m[0].1) + packed_pairs(m.drop_first())
    }
}

/// Appends the last `w` base-256 digits of `v`.
fn push_digits(out: &mut Vec<u8>, v: u64, w: usize)
    ensures
        final(out)@ == old(out)@ + big_endian(v as nat, w as nat),
    decreases w,
{
    if w > 0 {
        push_digits(out, v / 256, w - 1);
        out.push((v % 256) as u8);
    }
    assert(out@ =~= old(out)@ + big_endian(v as nat, w as nat));
}

/// Appends two bytes.
pub fn push_u16(out: &mut Vec<u8>, v: u16)
    ensures
        final(out)@ == old(out)@ + big_endian(v as nat, 2),
{
    push_digits(out, v as u64, 2)
}

/// Appends four bytes.
pub fn push_u32(out: &mut Vec<u8>, v: u32)
    ensures
        final(out)@ == old(out)@ + big_endian(v as nat, 4),
{
    push_digits(out, v as u64, 4)
}

/// Appends eight bytes.
pub fn push_u64(out: &mut Vec<u8>, v: u64)
    ensures
        final(out)@ == old(out)@ + big_endian(v as nat, 8),
{
    push_digits(out, v, 8)
}

/// Appends the marker of a counted value.
pub fn push_len(out: &mut Vec<u8>, len: usize, fix: u8, sixteen: u8, thirtytwo: u8)
    ensures
        final(out)@ == old(out)@ + header(len as nat, fix, sixteen, thirtytwo),
{
    if len < 16 {
        out.push(fix | len as u8);
    } else if len < 0x1_0000 {
        out.push(sixteen);
        push_u16(out, len as u16);
    } else {
        out.push(thirtytwo);
        push_digits(out, len as u64, 4);
    }
    assert(out@ =~= old(out)@ + header(len as nat, fix, sixteen, thirtytwo));
}

/// Appends bytes.
pub fn push_all(out: &mut Vec<u8>, b: &[u8])
    ensures
        final(out)@ == old(out)@ + b@,
{
    let n: usize = b.len();
    let ghost start = out@;
    let mut i: usize = 0;
    assert(out@ =~= start + b@.take(0));
    while i < n
        invariant
            n == b@.len(),
            i <= n,
            out@ == start + b@.take(i as int),
        decreases n - i,
    {
        out.push(b[i]);
        assert(out@ =~= start + b@.take(i as int + 1));
        i = i + 1;
    }
    assert(b@.take(n as int) =~= b@);
}

/// Appends a string.
pub fn push_str(out: &mut Vec<u8>, s: &str)
    ensures
        final(out)@ == old(out)@ + packed_text(s@),
{
    let b = s.as_bytes();
    push_len(out, b.len(), 0xb0, 0xd8, 0xd9);
    push_all(out, b);
    assert(out@ =~= old(out)@ + packed_text(s@));
}

/// Appends binary data.
pub fn pack_bytes_payload(b: &[u8], out: &mut Vec<u8>)
    ensures
        final(out)@ == old(out)@ + packed_bytes(b@),
{
    push_len(out, b.len(), 0xa0, 0xda, 0xdb);
    push_all(out, b);
    assert(out@ =~= old(out)@ + packed_bytes(b@));
}

/// The bytes of a value.
pub fn pack(v: &Packed) -> (out: Vec<u8>)
    ensures
        out@ == packed(v@),
{
    let mut out: Vec<u8> = Vec::with_capacity(64);
    pack_into(v, &mut out);
    assert(out@ =~= packed(v@));
    out
}

/// Appends an unsigned integer.
fn pack_uint(u: u64, out: &mut Vec<u8>)
    ensures
        final(out)@ == old(out)@ + packed_uint(u as nat),
{
    if u < 128 {
        out.push(u as u8);
    } else if u < 0x100 {
        out.push(0xcc);
        push_digits(out, u, 1);
    } else if u < 0x1_0000 {
        out.push(0xcd);
        push_u16(out, u as u16);
    } else if u < 0x1_0000_0000 {
        out.push(0xce);
        push_u32(out, u as u32);
    } else {
        out.push(0xcf);
        push_u64(out, u);
    }
    assert(out@ =~= old(out)@ + packed_uint(u as nat));
}

/// Appends a signed integer.
fn pack_int(i: i64, out: &mut Vec<u8>)
    ensures
        final(out)@ == old(out)@ + packed_int(i as int),
{
    if -32 <= i && i < 0 {
        out.push((0x100 + i) as u8);
    } else if -0x80 <= i && i < 0 {
        out.push(0xd0);
        push_digits(out, (0x100 + i) as u64, 1);
    } else if -0x8000 <= i && i < 0 {
        out.push(0xd1);
        push_u16(out, (0x1_0000 + i) as u16);
    } else if -0x8000_0000 <= i && i < 0 {
        out.push(0xd2);
        push_u32(out, (0x1_0000_0000 + i) as u32);
    } else if i < 0 {
        out.push(0xd3);
        push_u64(out, (0x1_0000_0000_0000_0000i128 + i as i128) as u64);
    } else {
        out.push(0xd3);
        push_u64(out, i as u64);
    }
    assert(out@ =~= old(out)@ + packed_int(i as int));
}

/// Appends a value. What was there stays in front of it.
pub fn pack_into(v: &Packed, out: &mut Vec<u8>)
    ensures
        final(out)@ == old(out)@ + packed(v@),
    decreases v,
{
    proof {
        broadcast use group_packed_views;

    }
    match v {
        Packed::Null => out.push(0xc0),
        Packed::Bool(b) => out.push(if *b { 0xc3u8 } else { 0xc2u8 }),
        Packed::UInt(u) => pack_uint(*u, out),
        Packed::Int(i) => pack_int(*i, out),
        Packed::Float(f) => {
            out.push(0xcb);
            push_u64(out, *f);
        },
        Packed::Str(s) => push_str(out, s.as_str()),
        Packed::Bytes(b) => pack_bytes_payload(b.as_slice(), out),
        Packed::Array(a) => {
            push_len(out, a.len(), 0x90, 0xdc, 0xdd);
            let n: usize = a.len();
            let mut i: usize = 0;
            let ghost all = elements(a@);
            assert(all.skip(0) =~= all);
            let ghost done = out@ + packed_all(all);
            while i < n
                invariant
                    n == a@.len(),
                    i <= n,
                    all == elements(a@),
                    out@ + packed_all(all.skip(i as int)) == done,
                    decreases_to!(v => a@),
                decreases n - i,
            {
                assert(decreases_to!(a@ => a@[i as int]));
                let ghost before = out@;
                pack_into(&a[i], out);
                proof {
                    let rest = all.skip(i as int);
                    assert(rest.drop_first() =~= all.skip(i as int + 1));
                    assert(rest[0] == a@[i as int]@);
                    assert(out@ + packed_all(all.skip(i as int + 1)) =~= before + packed_all(rest));
                }
                i = i + 1;
            }
            assert(all.skip(n as int) =~= Seq::empty());
            assert(out@ =~= done);
        },
        Packed::Dict(m) => {
            push_len(out, m.len(), 0x80, 0xde, 0xdf);
            let n: usize = m.len();
            let mut i: usize = 0;
            let ghost all = pairs(m@);
            assert(all.skip(0) =~= all);
            let ghost done = out@ + packed_pairs(all);
            while i < n
                invariant
                    n == m@.len(),
                    i <= n,
                    all == pairs(m@),
                    out@ + packed_pairs(all.skip(i as int)) == done,
                    decreases_to!(v => m@),
                decreases n - i,
            {
                assert(decreases_to!(m@ => m@[i as int]));
                let ghost before = out@;
                let e = &m[i];
                push_str(out, e.0.as_str());
                pack_into(&e.1, out);
                proof {
                    let rest = all.skip(i as int);
                    assert(rest.drop_first() =~= all.skip(i as int + 1));
                    assert(rest[0] == (m@[i as int].0@, m@[i as int].1@));
                    assert(out@ + packed_pairs(all.skip(i as int + 1)) =~= before + packed_pairs(
                        rest,
                    ));
                }
                i = i + 1;
            }
            assert(all.skip(n as int) =~= Seq::empty());
            assert(out@ =~= done);
        },
    }
    assert(out@ =~= old(out)@ + packed(v@));
}

// ---------------------------------------------------------------------------
// Text of bytes
// ---------------------------------------------------------------------------
/// What `String::from_utf8_lossy` makes of bytes that are not UTF-8.
pub uninterp spec fn repaired(b: Seq<u8>) -> Seq<char>;

/// The text of some bytes: their UTF-8 characters, or, where they are not
/// UTF-8, what is left of them with the bad parts replaced.
pub open spec fn text_of(b: Seq<u8>) -> Seq<char> {
    if valid_utf8(b) {
        decode_utf8(b)
    } else {
        repaired(b)
    }
}

/// `String::from_utf8_lossy`: the text of UTF-8 bytes is their characters; of
/// other bytes it is a function of the bytes, which is only named here.
#[verifier::external_body]
fn lossy(b: &[u8]) -> (s: String)
    ensures
        s@ == (if valid_utf8(b@) {
            decode_utf8(b@)
        } else {
            repaired(b@)
        }),
{
    String::from_utf8_lossy(b).into_owned()
}

/// A string between quotes with its special characters escaped.
pub uninterp spec fn quoted(s: Seq<char>) -> Seq<char>;

/// The `Debug` output of a `str`, a function of its characters that is only
/// named here.
#[verifier::external_body]
pub(crate) fn quote(s: &str) -> (r: String)
    ensures
        r@ == quoted(s@),
{
    format!("{:?}", s)
}

/// A value written out, as a key that is not a string is.
pub open spec fn shown(v: PackedView) -> Seq<char>
    decreases v,
{
    match v {
        PackedView::Null => "Null"@,
        PackedView::Bool(b) => if b {
            "Bool(true)"@
        } else {
            "Bool(false)"@
        },
        PackedView::Int(i) => if i < 0 {
            "Int(-"@ + dec((-i) as nat) + ")"@
        } else {
            "Int("@ + dec(i as nat) + ")"@
        },
        PackedView::UInt(u) => "UInt("@ + dec(u as nat) + ")"@,
        PackedView::Float(f) => "Float("@ + dec(f as nat) + ")"@,
        PackedView::Str(s) => "Str("@ + quoted(s) + ")"@,
        PackedView::Bytes(b) => "Bytes(["@ + shown_bytes(b) + "])"@,
        PackedView::Array(a) => "Array(["@ + shown_all(a) + "])"@,
        PackedView::Dict(m) => "Map(["@ + shown_pairs(m) + "])"@,
    }
}

/// What separates the item at `i` from the one before it.
pub open spec fn comma(i: int) -> Seq<char> {
    if i == 0 {
        ""@
    } else {
        ", "@
    }
}

/// Bytes written out.
pub open spec fn shown_bytes(b: Seq<u8>) -> Seq<char>
    decreases b.len(),
{
    if b.len() == 0 {
        ""@
    } else {
        shown_bytes(b.drop_last()) + comma(b.len() - 1) + dec(b.last() as nat)
    }
}

/// Values written out.
pub open spec fn shown_all(a: Seq<PackedView>) -> Seq<char>
    decreases a,
{
    if a.len() == 0 {
        ""@
    } else {
        shown_all(a.drop_last()) + comma(a.len() - 1) + shown(a.last())
    }
}

/// Pairs written out.
pub open spec fn shown_pairs(m: Seq<(Seq<char>, PackedView)>) -> Seq<char>
    decreases m,
{
    if m.len() == 0 {
        ""@
    } else {
        shown_pairs(m.drop_last()) + comma(m.len() - 1) + "("@ + quoted(m.last().0) + ", "@ + shown(
            m.last().1,
        ) + ")"@
    }
}

/// The text of a map's key.
pub open spec fn key_text(v: PackedView) -> Seq<char> {
    match v {
        PackedView::Str(s) => s,
        _ => shown(v),
    }
}

/// What separates the item at `i` from the one before it.
fn separator(i: usize) -> (s: &'static str)
    ensures
        s@ == comma(i as int),
{
    if i == 0 {
        ""
    } else {
        ", "
    }
}

/// A value written out.
fn show(v: &Packed) -> (r: String)
    ensures
        r@ == shown(v@),
    decreases v,
{
    proof {
        broadcast use group_packed_views;

    }
    match v {
        Packed::Null => "Null".to_owned(),
        Packed::Bool(b) => if *b {
            "Bool(true)".to_owned()
        } else {
            "Bool(false)".to_owned()
        },
        Packed::Int(i) => {
            if *i < 0 {
                let mut s = "Int(-".to_owned();
                s.append(decimal((-(*i as i128)) as u64).as_str());
                s.append(")");
                s
            } else {
                let mut s = "Int(".to_owned();
                s.append(decimal(*i as u64).as_str());
                s.append(")");
                s
            }
        },
        Packed::UInt(u) => {
            let mut s = "UInt(".to_owned();
            s.append(decimal(*u).as_str());
            s.append(")");
            s
        },
        Packed::Float(f) => {
            let mut s = "Float(".to_owned();
            s.append(decimal(*f).as_str());
            s.append(")");
            s
        },
        Packed::Str(t) => {
            let mut s = "Str(".to_owned();
            s.append(quote(t.as_str()).as_str());
            s.append(")");
            s
        },
        Packed::Bytes(b) => {
            let mut inner = "".to_owned();
            let n: usize = b.len();
            let mut i: usize = 0;
            assert(b@.take(0) =~= Seq::empty());
            while i < n
                invariant
                    n == b@.len(),
                    i <= n,
                    inner@ == shown_bytes(b@.take(i as int)),
                decreases n - i,
            {
                inner.append(separator(i));
                inner.append(decimal(b[i] as u64).as_str());
                assert(b@.take(i as int + 1).drop_last() =~= b@.take(i as int));
                i = i + 1;
            }
            assert(b@.take(n as int) =~= b@);
            let mut s = "Bytes([".to_owned();
            s.append(inner.as_str());
            s.append("])");
            s
        },
        Packed::Array(a) => {
            let mut inner = "".to_owned();
            let n: usize = a.len();
            let mut i: usize = 0;
            let ghost all = elements(a@);
            assert(all.take(0) =~= Seq::empty());
            while i < n
                invariant
                    n == a@.len(),
                    i <= n,
                    all == elements(a@),
                    inner@ == shown_all(all.take(i as int)),
                    decreases_to!(v => a@),
                decreases n - i,
            {
                assert(decreases_to!(a@ => a@[i as int]));
                inner.append(separator(i));
                inner.append(show(&a[i]).as_str());
                assert(all.take(i as int + 1).drop_last() =~= all.take(i as int));
                i = i + 1;
            }
            assert(all.take(n as int) =~= all);
            let mut s = "Array([".to_owned();
            s.append(inner.as_str());
            s.append("])");
            s
        },
        Packed::Dict(m) => {
            let mut inner = "".to_owned();
            let n: usize = m.len();
            let mut i: usize = 0;
            let ghost all = pairs(m@);
            assert(all.take(0) =~= Seq::empty());
            while i < n
                invariant
                    n == m@.len(),
                    i <= n,
                    all == pairs(m@),
                    inner@ == shown_pairs(all.take(i as int)),
                    decreases_to!(v => m@),
                decreases n - i,
            {
                assert(decreases_to!(m@ => m@[i as int]));
                let e = &m[i];
                inner.append(separator(i));
                inner.append("(");
                inner.append(quote(e.0.as_str()).as_str());
                inner.append(", ");
                inner.append(show(&e.1).as_str());
                inner.append(")");
                assert(all.take(i as int + 1).drop_last() =~= all.take(i as int));
                i = i + 1;
            }
            assert(all.take(n as int) =~= all);
            let mut s = "Map([".to_owned();
            s.append(inner.as_str());
            s.append("])");
            s
        },
    }
}

// ---------------------------------------------------------------------------
// Unpacking
// ---------------------------------------------------------------------------
/// `n` bytes from `at`, where there are as many.
pub open spec fn field(b: Seq<u8>, at: nat, n: nat) -> Option<Seq<u8>> {
    if at + n <= b.len() {
        Some(b.subrange(at as int, (at + n) as int))
    } else {
        None
    }
}

/// The number in the `w` bytes behind the marker.
pub open spec fn argument(b: Seq<u8>, w: nat) -> Option<nat> {
    match field(b, 1, w) {
        Some(s) => Some(number(s)),
        None => None,
    }
}

/// The count of a counted value: in the marker, or in the `w` bytes behind it.
pub open spec fn count(b: Seq<u8>, w: nat) -> Option<nat> {
    if w == 0 {
        Some((b[0] % 16) as nat)
    } else {
        argument(b, w)
    }
}

/// As many bytes as the count says, and how far they reach.
pub open spec fn payload(b: Seq<u8>, w: nat) -> Option<(Seq<u8>, nat)> {
    match count(b, w) {
        Some(n) => match field(b, 1 + w, n) {
            Some(s) => Some((s, 1 + w + n)),
            None => None,
        },
        None => None,
    }
}

/// `n`, a number of `bits` bits, read in two's complement.
pub open spec fn twos_complement(n: nat, w: nat) -> int {
    let top = if w == 1 {
        0x100int
    } else if w == 2 {
        0x1_0000
    } else if w == 4 {
        0x1_0000_0000
    } else {
        0x1_0000_0000_0000_0000
    };
    if 2 * n < top {
        n as int
    } else {
        n - top
    }
}

/// The unsigned integer in the `w` bytes behind the marker.
pub open spec fn unsigned_behind(b: Seq<u8>, w: nat) -> Option<(PackedView, nat)> {
    match argument(b, w) {
        Some(n) => Some((PackedView::UInt(n as u64), 1 + w)),
        None => None,
    }
}

/// The signed integer in the `w` bytes behind the marker.
pub open spec fn signed_behind(b: Seq<u8>, w: nat) -> Option<(PackedView, nat)> {
    match argument(b, w) {
        Some(n) => Some((PackedView::Int(twos_complement(n, w) as i64), 1 + w)),
        None => None,
    }
}

/// The value at the front of `b`, and how many bytes it takes.
pub open spec fn parsed(b: Seq<u8>) -> Option<(PackedView, nat)>
    decreases b.len(), 0nat,
{
    if b.len() == 0 {
        None
    } else {
        let m = b[0];
        if m < 0x80 {
            Some((PackedView::UInt(m as u64), 1))
        } else if m >= 0xe0 {
            Some((PackedView::Int((m - 0x100) as i64), 1))
        } else if m < 0x90 || m == 0xde || m == 0xdf {
            let w: nat = if m < 0x90 {
                0
            } else if m == 0xde {
                2
            } else {
                4
            };
            match count(b, w) {
                Some(n) => match parsed_pairs(b.skip(1 + w as int), n) {
                    Some((s, k)) => Some((PackedView::Dict(s), 1 + w + k)),
                    None => None,
                },
                None => None,
            }
        } else if m < 0xa0 || m == 0xdc || m == 0xdd {
            let w: nat = if m < 0xa0 {
                0
            } else if m == 0xdc {
                2
            } else {
                4
            };
            match count(b, w) {
                Some(n) => match parsed_items(b.skip(1 + w as int), n) {
                    Some((s, k)) => Some((PackedView::Array(s), 1 + w + k)),
                    None => None,
                },
                None => None,
            }
        } else if m < 0xb0 || m == 0xda || m == 0xdb {
            let w: nat = if m < 0xb0 {
                0
            } else if m == 0xda {
                2
            } else {
                4
            };
            match payload(b, w) {
                Some((s, k)) => Some((PackedView::Bytes(s), k)),
                None => None,
            }
        } else if m < 0xc0 || m == 0xd8 || m == 0xd9 {
            let w: nat = if m < 0xc0 {
                0
            } else if m == 0xd8 {
                2
            } else {
                4
            };
            match payload(b, w) {
                Some((s, k)) => Some((PackedView::Str(text_of(s)), k)),
                None => None,
            }
        } else if m == 0xc0 || m == 0xc1 || 0xd4 <= m <= 0xd7 {
            Some((PackedView::Null, 1))
        } else if m == 0xc2 {
            Some((PackedView::Bool(false), 1))
        } else if m == 0xc3 {
            Some((PackedView::Bool(true), 1))
        } else if m == 0xca {
            match argument(b, 4) {
                Some(n) => Some((PackedView::Float(widened(n as u32) as u64), 5)),
                None => None,
            }
        } else if m == 0xcb {
            match argument(b, 8) {
                Some(n) => Some((PackedView::Float(n as u64), 9)),
                None => None,
            }
        } else if m == 0xcc {
            unsigned_behind(b, 1)
        } else if m == 0xcd {
            unsigned_behind(b, 2)
        } else if m == 0xce {
            unsigned_behind(b, 4)
        } else if m == 0xcf {
            unsigned_behind(b, 8)
        } else if m == 0xd0 {
            signed_behind(b, 1)
        } else if m == 0xd1 {
            signed_behind(b, 2)
        } else if m == 0xd2 {
            signed_behind(b, 4)
        } else if m == 0xd3 {
            signed_behind(b, 8)
        } else {
            None
        }
    }
}

/// `n` values at the front of `b`, and how many bytes they take.
pub open spec fn parsed_items(b: Seq<u8>, n: nat) -> Option<(Seq<PackedView>, nat)>
    decreases b.len(), n + 1,
{
    if n == 0 {
        Some((Seq::empty(), 0))
    } else {
        match parsed(b) {
            Some((v, k)) if k <= b.len() => match parsed_items(b.skip(k as int), (n - 1) as nat) {
                Some((s, j)) => Some((seq![v] + s, k + j)),
                None => None,
            },
            _ => None,
        }
    }
}

/// `n` keys with their values at the front of `b`, and how many bytes they take.
pub open spec fn parsed_pairs(b: Seq<u8>, n: nat) -> Option<(Seq<(Seq<char>, PackedView)>, nat)>
    decreases b.len(), n + 1,
{
    if n == 0 {
        Some((Seq::empty(), 0))
    } else {
        match parsed(b) {
            Some((key, k)) if 0 < k <= b.len() => match parsed(b.skip(k as int)) {
                Some((v, j)) if k + j <= b.len() => match parsed_pairs(
                    b.skip((k + j) as int),
                    (n - 1) as nat,
                ) {
                    Some((s, i)) => Some((seq![(key_text(key), v)] + s, k + j + i)),
                    None => None,
                },
                _ => None,
            },
            _ => None,
        }
    }
}

/// `256^w`.
pub open spec fn span(w: nat) -> nat
    decreases w,
{
    if w == 0 {
        1
    } else {
        256 * span((w - 1) as nat)
    }
}

/// The powers of 256 that the widths of the format have.
proof fn lemma_spans()
    ensures
        span(1) == 0x100,
        span(2) == 0x1_0000,
        span(3) == 0x100_0000,
        span(4) == 0x1_0000_0000,
        span(5) == 0x100_0000_0000,
        span(6) == 0x1_0000_0000_0000,
        span(7) == 0x100_0000_0000_0000,
        span(8) == 0x1_0000_0000_0000_0000,
{
    reveal_with_fuel(span, 9);
}

/// A byte string writes a number below the power of its length.
proof fn lemma_number_bound(s: Seq<u8>)
    ensures
        number(s) < span(s.len()),
    decreases s.len(),
{
    if s.len() > 0 {
        lemma_number_bound(s.drop_last());
    }
}

/// A buffer and how much of it was read.
pub struct Reader<'a> {
    buf: &'a [u8],
    pos: usize,
}

impl<'a> Reader<'a> {
    /// The position lies within the buffer.
    pub closed spec fn wf(&self) -> bool {
        self.pos <= self.buf@.len()
    }

    /// What is still to be read.
    pub closed spec fn rest(&self) -> Seq<u8> {
        self.buf@.skip(self.pos as int)
    }

    /// The whole buffer.
    pub closed spec fn all(&self) -> Seq<u8> {
        self.buf@
    }

    /// How many bytes were read.
    pub closed spec fn at(&self) -> nat {
        self.pos as nat
    }

    /// What is still to be read is the buffer without what was read.
    pub proof fn lemma_rest(&self)
        ensures
            self.rest() == self.all().skip(self.at() as int),
            self.wf() == (self.at() <= self.all().len()),
    {
    }

    /// A buffer of which nothing was read.
    pub fn new(buf: &'a [u8]) -> (r: Reader<'a>)
        ensures
            r.wf(),
            r.all() == buf@,
            r.rest() == buf@,
            r.at() == 0,
    {
        let r = Reader { buf, pos: 0 };
        assert(r.rest() =~= buf@);
        r
    }

    /// Reads one byte.
    pub fn u8(&mut self) -> (r: Option<u8>)
        requires
            old(self).wf(),
        ensures
            final(self).wf(),
            final(self).all() == old(self).all(),
            match r {
                Some(v) => old(self).rest().len() > 0 && v == old(self).rest()[0]
                    && final(self).rest() == old(self).rest().skip(1) && final(self).at() == old(
                    self,
                ).at() + 1,
                None => old(self).rest().len() == 0 && final(self).at() == old(self).at(),
            },
    {
        if self.pos < self.buf.len() {
            let v: u8 = self.buf[self.pos];
            self.pos = self.pos + 1;
            assert(self.rest() =~= old(self).rest().skip(1));
            Some(v)
        } else {
            None
        }
    }

    /// Reads `n` bytes.
    pub fn take(&mut self, n: usize) -> (r: Option<&'a [u8]>)
        requires
            old(self).wf(),
        ensures
            final(self).wf(),
            final(self).all() == old(self).all(),
            match r {
                Some(s) => field(old(self).rest(), 0, n as nat) == Some(s@)
                    && final(self).rest() == old(self).rest().skip(n as int) && final(self).at()
                    == old(self).at() + n,
                None => field(old(self).rest(), 0, n as nat) is None && final(self).at() == old(
                    self,
                ).at(),
            },
    {
        if n <= self.buf.len() - self.pos {
            let s = vstd::slice::slice_subrange(self.buf, self.pos, self.pos + n);
            assert(s@ =~= self.rest().subrange(0, n as int));
            self.pos = self.pos + n;
            assert(self.rest() =~= old(self).rest().skip(n as int));
            Some(s)
        } else {
            None
        }
    }

    /// Reads a number of `w` bytes.
    fn digits(&mut self, w: usize) -> (r: Option<u64>)
        requires
            old(self).wf(),
            1 <= w <= 8,
        ensures
            final(self).wf(),
            final(self).all() == old(self).all(),
            match r {
                Some(n) => w <= old(self).rest().len() && n == number(
                    old(self).rest().take(w as int),
                ) && n < span(w as nat) && final(self).rest() == old(self).rest().skip(w as int)
                    && final(self).at() == old(self).at() + w,
                None => w > old(self).rest().len() && final(self).at() == old(self).at(),
            },
    {
        match self.take(w) {
            None => None,
            Some(s) => {
                let mut n: u64 = 0;
                let mut i: usize = 0;
                proof {
                    lemma_spans();
                    assert(s@.take(0) =~= Seq::empty());
                    assert(old(self).rest().subrange(0, w as int) =~= old(self).rest().take(
                        w as int,
                    ));
                }
                while i < w
                    invariant
                        w == s@.len(),
                        i <= w <= 8,
                        n == number(s@.take(i as int)),
                    decreases w - i,
                {
                    proof {
                        lemma_spans();
                        lemma_number_bound(s@.take(i as int));
                        assert(s@.take(i as int + 1).drop_last() =~= s@.take(i as int));
                    }
                    n = n * 256 + s[i] as u64;
                    i = i + 1;
                }
                proof {
                    assert(s@.take(w as int) =~= s@);
                    lemma_number_bound(s@);
                }
                Some(n)
            },
        }
    }

    /// Reads two bytes.
    pub fn u16(&mut self) -> (r: Option<u16>)
        requires
            old(self).wf(),
        ensures
            final(self).wf(),
            final(self).all() == old(self).all(),
            match r {
                Some(n) => 2 <= old(self).rest().len() && n == number(old(self).rest().take(2))
                    && final(self).rest() == old(self).rest().skip(2) && final(self).at() == old(
                    self,
                ).at() + 2,
                None => 2 > old(self).rest().len() && final(self).at() == old(self).at(),
            },
    {
        proof {
            lemma_spans();
        }
        match self.digits(2) {
            Some(n) => Some(n as u16),
            None => None,
        }
    }

    /// Reads four bytes.
    pub fn u32(&mut self) -> (r: Option<u32>)
        requires
            old(self).wf(),
        ensures
            final(self).wf(),
            final(self).all() == old(self).all(),
            match r {
                Some(n) => 4 <= old(self).rest().len() && n == number(old(self).rest().take(4))
                    && final(self).rest() == old(self).rest().skip(4) && final(self).at() == old(
                    self,
                ).at() + 4,
                None => 4 > old(self).rest().len() && final(self).at() == old(self).at(),
            },
    {
        proof {
            lemma_spans();
        }
        match self.digits(4) {
            Some(n) => Some(n as u32),
            None => None,
        }
    }

    /// Reads eight bytes.
    pub fn u64(&mut self) -> (r: Option<u64>)
        requires
            old(self).wf(),
        ensures
            final(self).wf(),
            final(self).all() == old(self).all(),
            match r {
                Some(n) => 8 <= old(self).rest().len() && n == number(old(self).rest().take(8))
                    && final(self).rest() == old(self).rest().skip(8) && final(self).at() == old(
                    self,
                ).at() + 8,
                None => 8 > old(self).rest().len() && final(self).at() == old(self).at(),
            },
    {
        self.digits(8)
    }

    /// Reads the count of a counted value whose marker `m` was just read.
    fn counted(&mut self, m: u8, w: usize, Ghost(b): Ghost<Seq<u8>>) -> (r: Option<usize>)
        requires
            old(self).wf(),
            w == 0 || w == 2 || w == 4,
            b.len() > 0,
            b[0] == m,
            b.skip(1) == old(self).rest(),
        ensures
            final(self).wf(),
            final(self).at() >= old(self).at(),
            final(self).all() == old(self).all(),
            match r {
                Some(n) => count(b, w as nat) == Some(n as nat) && final(self).rest() == b.skip(
                    1 + w as int,
                ) && final(self).at() == old(self).at() + w && 1 + w <= b.len(),
                None => count(b, w as nat) is None,
            },
    {
        proof {
            lemma_spans();
            if b.len() >= 1 + w {
                assert(b.subrange(1, 1 + w as int) =~= b.skip(1).take(w as int));
                assert(b.skip(1).skip(w as int) =~= b.skip(1 + w as int));
            }
        }
        if w == 0 {
            Some((m % 16) as usize)
        } else {
            match self.digits(w) {
                Some(n) => Some(n as usize),
                None => None,
            }
        }
    }

    /// Reads the bytes of a counted value whose marker `m` was just read.
    fn counted_bytes(&mut self, m: u8, w: usize, Ghost(b): Ghost<Seq<u8>>) -> (r: Option<&'a [u8]>)
        requires
            old(self).wf(),
            w == 0 || w == 2 || w == 4,
            b.len() > 0,
            b[0] == m,
            b.skip(1) == old(self).rest(),
        ensures
            final(self).wf(),
            final(self).at() >= old(self).at(),
            final(self).all() == old(self).all(),
            match r {
                Some(s) => payload(b, w as nat) == Some(
                    (s@, (final(self).at() - old(self).at() + 1) as nat),
                ) && final(self).at() >= old(self).at(),
                None => payload(b, w as nat) is None,
            },
    {
        match self.counted(m, w, Ghost(b)) {
            None => None,
            Some(n) => {
                let ghost mid = self.rest();
                match self.take(n) {
                    Some(s) => {
                        assert(b.subrange(1 + w as int, 1 + w + n) =~= mid.subrange(0, n as int));
                        Some(s)
                    },
                    None => None,
                }
            },
        }
    }

    /// Reads the number of `w` bytes behind the marker that was just read.
    fn behind(&mut self, w: usize, Ghost(b): Ghost<Seq<u8>>) -> (r: Option<u64>)
        requires
            old(self).wf(),
            1 <= w <= 8,
            b.len() > 0,
            b.skip(1) == old(self).rest(),
        ensures
            final(self).wf(),
            final(self).at() >= old(self).at(),
            final(self).all() == old(self).all(),
            match r {
                Some(n) => argument(b, w as nat) == Some(n as nat) && n < span(w as nat)
                    && final(self).at() == old(self).at() + w,
                None => argument(b, w as nat) is None,
            },
    {
        proof {
            if b.len() >= 1 + w {
                assert(b.subrange(1, 1 + w as int) =~= b.skip(1).take(w as int));
            }
        }
        self.digits(w)
    }

    /// Reads one value.
    pub fn value(&mut self) -> (r: Option<Packed>)
        requires
            old(self).wf(),
        ensures
            final(self).wf(),
            final(self).all() == old(self).all(),
            final(self).at() >= old(self).at(),
            match r {
                Some(v) => final(self).at() > old(self).at() && parsed(old(self).rest()) == Some(
                    (v@, (final(self).at() - old(self).at()) as nat),
                ),
                None => parsed(old(self).rest()) is None,
            },
        decreases old(self).rest().len(), 0nat,
    {
        proof {
            broadcast use group_packed_views;

            lemma_spans();
        }
        let ghost b = self.rest();
        let m: u8 = match self.u8() {
            Some(m) => m,
            None => return None,
        };
        if m < 0x80 {
            Some(Packed::UInt(m as u64))
        } else if m >= 0xe0 {
            Some(Packed::Int(m as i64 - 0x100))
        } else if m < 0x90 || m == 0xde || m == 0xdf {
            let w: usize = if m < 0x90 {
                0
            } else if m == 0xde {
                2
            } else {
                4
            };
            match self.counted(m, w, Ghost(b)) {
                Some(n) => match self.value_pairs(n) {
                    Some(v) => Some(Packed::Dict(v)),
                    None => None,
                },
                None => None,
            }
        } else if m < 0xa0 || m == 0xdc || m == 0xdd {
            let w: usize = if m < 0xa0 {
                0
            } else if m == 0xdc {
                2
            } else {
                4
            };
            match self.counted(m, w, Ghost(b)) {
                Some(n) => match self.value_items(n) {
                    Some(v) => Some(Packed::Array(v)),
                    None => None,
                },
                None => None,
            }
        } else if m < 0xb0 || m == 0xda || m == 0xdb {
            let w: usize = if m < 0xb0 {
                0
            } else if m == 0xda {
                2
            } else {
                4
            };
            match self.counted_bytes(m, w, Ghost(b)) {
                Some(s) => {
                    let v = vstd::slice::slice_to_vec(s);
                    Some(Packed::Bytes(v))
                },
                None => None,
            }
        } else if m < 0xc0 || m == 0xd8 || m == 0xd9 {
            let w: usize = if m < 0xc0 {
                0
            } else if m == 0xd8 {
                2
            } else {
                4
            };
            match self.counted_bytes(m, w, Ghost(b)) {
                Some(s) => Some(Packed::Str(lossy(s))),
                None => None,
            }
        } else if m == 0xc0 || m == 0xc1 || (0xd4 <= m && m <= 0xd7) {
            Some(Packed::Null)
        } else if m == 0xc2 {
            Some(Packed::Bool(false))
        } else if m == 0xc3 {
            Some(Packed::Bool(true))
        } else if m == 0xca {
            match self.behind(4, Ghost(b)) {
                Some(n) => Some(Packed::Float(widen(n as u32))),
                None => None,
            }
        } else if m == 0xcb {
            match self.behind(8, Ghost(b)) {
                Some(n) => Some(Packed::Float(n)),
                None => None,
            }
        } else if 0xcc <= m && m <= 0xcf {
            let w: usize = if m == 0xcc {
                1
            } else if m == 0xcd {
                2
            } else if m == 0xce {
                4
            } else {
                8
            };
            match self.behind(w, Ghost(b)) {
                Some(n) => Some(Packed::UInt(n)),
                None => None,
            }
        } else if 0xd0 <= m && m <= 0xd3 {
            let w: usize = if m == 0xd0 {
                1
            } else if m == 0xd1 {
                2
            } else if m == 0xd2 {
                4
            } else {
                8
            };
            match self.behind(w, Ghost(b)) {
                Some(n) => Some(Packed::Int(to_signed(n, w))),
                None => None,
            }
        } else {
            None
        }
    }

    /// Reads `n` values.
    fn value_items(&mut self, n: usize) -> (r: Option<Vec<Packed>>)
        requires
            old(self).wf(),
        ensures
            final(self).wf(),
            final(self).all() == old(self).all(),
            final(self).at() >= old(self).at(),
            match r {
                Some(v) => parsed_items(old(self).rest(), n as nat) == Some(
                    (elements(v@), (final(self).at() - old(self).at()) as nat),
                ),
                None => parsed_items(old(self).rest(), n as nat) is None,
            },
        decreases old(self).rest().len(), 1nat,
    {
        let ghost start = self.rest();
        let ghost p0 = self.at();
        let mut out: Vec<Packed> = Vec::new();
        let mut i: usize = 0;
        assert(elements(out@) =~= Seq::empty());
        proof {
            if let Some((s, j)) = parsed_items(start, n as nat) {
                assert(elements(out@) + s =~= s);
            }
        }
        while i < n
            invariant
                self.wf(),
                self.all() == old(self).all(),
                old(self).wf(),
                self.at() >= p0,
                p0 == old(self).at(),
                i <= n,
                start == old(self).rest(),
                parsed_items(start, n as nat) == (match parsed_items(
                    self.rest(),
                    (n - i) as nat,
                ) {
                    Some((s, j)) => Some((elements(out@) + s, (self.at() - p0 + j) as nat)),
                    None => None,
                }),
            decreases n - i,
        {
            let ghost here = self.rest();
            let ghost at0 = self.at();
            let ghost out0 = out@;
            proof {
                lemma_rest(*old(self), *self);
            }
            match self.value() {
                None => return None,
                Some(v) => {
                    out.push(v);
                    proof {
                        let k = (self.at() - at0) as nat;
                        assert(here.skip(k as int) =~= self.rest());
                        if let Some((s, j)) = parsed_items(self.rest(), (n - i - 1) as nat) {
                            assert(elements(out0) + (seq![v@] + s) =~= elements(out@) + s);
                        }
                    }
                },
            }
            i = i + 1;
        }
        assert(elements(out@) + Seq::empty() =~= elements(out@));
        Some(out)
    }

    /// Reads `n` keys with their values.
    #[verifier::spinoff_prover]
    #[verifier::rlimit(40)]
    fn value_pairs(&mut self, n: usize) -> (r: Option<Vec<(String, Packed)>>)
        requires
            old(self).wf(),
        ensures
            final(self).wf(),
            final(self).all() == old(self).all(),
            final(self).at() >= old(self).at(),
            match r {
                Some(v) => parsed_pairs(old(self).rest(), n as nat) == Some(
                    (pairs(v@), (final(self).at() - old(self).at()) as nat),
                ),
                None => parsed_pairs(old(self).rest(), n as nat) is None,
            },
        decreases old(self).rest().len(), 1nat,
    {
        let ghost start = self.rest();
        let ghost p0 = self.at();
        let mut out: Vec<(String, Packed)> = Vec::new();
        let mut i: usize = 0;
        assert(pairs(out@) =~= Seq::empty());
        proof {
            if let Some((s, j)) = parsed_pairs(start, n as nat) {
                assert(pairs(out@) + s =~= s);
            }
        }
        while i < n
            invariant
                self.wf(),
                self.all() == old(self).all(),
                old(self).wf(),
                self.at() >= p0,
                p0 == old(self).at(),
                i <= n,
                start == old(self).rest(),
                parsed_pairs(start, n as nat) == (match parsed_pairs(
                    self.rest(),
                    (n - i) as nat,
                ) {
                    Some((s, j)) => Some((pairs(out@) + s, (self.at() - p0 + j) as nat)),
                    None => None,
                }),
            decreases n - i,
        {
            let ghost here = self.rest();
            let ghost at0 = self.at();
            let ghost out0 = out@;
            proof {
                lemma_rest(*old(self), *self);
            }
            let key = match self.value() {
                None => return None,
                Some(key) => key,
            };
            let ghost k = (self.at() - at0) as nat;
            proof {
                assert(here.skip(k as int) =~= self.rest());
                lemma_rest(*old(self), *self);
            }
            let v = match self.value() {
                None => return None,
                Some(v) => v,
            };
            let ghost kv = key@;
            let name = match key {
                Packed::Str(s) => s,
                other => show(&other),
            };
            let ghost vv = v@;
            out.push((name, v));
            proof {
                let j = (self.at() - at0) as nat;
                assert(here.skip(j as int) =~= self.rest());
                if let Some((s, q)) = parsed_pairs(self.rest(), (n - i - 1) as nat) {
                    assert(pairs(out0) + (seq![(key_text(kv), vv)] + s) =~= pairs(out@) + s);
                }
            }
            i = i + 1;
        }
        assert(pairs(out@) + Seq::empty() =~= pairs(out@));
        Some(out)
    }
}

/// A later position leaves no more to read.
proof fn lemma_rest(a: Reader, b: Reader)
    requires
        a.wf(),
        b.wf(),
        a.all() == b.all(),
        a.at() <= b.at(),
    ensures
        b.rest().len() <= a.rest().len(),
{
}

/// `n`, a number of `w` bytes, read in two's complement.
fn to_signed(n: u64, w: usize) -> (r: i64)
    requires
        w == 1 || w == 2 || w == 4 || w == 8,
        n < span(w as nat),
    ensures
        r == twos_complement(n as nat, w as nat),
{
    proof {
        lemma_spans();
    }
    let top: i128 = if w == 1 {
        0x100
    } else if w == 2 {
        0x1_0000
    } else if w == 4 {
        0x1_0000_0000
    } else {
        0x1_0000_0000_0000_0000
    };
    if 2 * (n as i128) < top {
        n as i64
    } else {
        (n as i128 - top) as i64
    }
}

/// The value at the front of `buf`, and how many bytes it takes.
pub fn unpack(buf: &[u8]) -> (r: Option<(Packed, usize)>)
    ensures
        match r {
            Some((v, n)) => parsed(buf@) == Some((v@, n as nat)),
            None => parsed(buf@) is None,
        },
{
    let mut r = Reader::new(buf);
    match r.value() {
        Some(v) => Some((v, r.pos)),
        None => None,
    }
}

// ---------------------------------------------------------------------------
// Laws
// ---------------------------------------------------------------------------
/// An array is packed as its marker and its items one after another: between those before it
/// and those behind it stands each item as it is packed by itself.
pub proof fn law_array_layout(a: Seq<PackedView>, i: int)
    requires
        0 <= i < a.len() <= u32::MAX,
    ensures
        packed(PackedView::Array(a)) == (if a.len() <= 15 {
            seq![(0x90 + a.len()) as u8]
        } else if a.len() <= 0xffff {
            seq![0xdcu8] + big_endian(a.len(), 2)
        } else {
            seq![0xddu8] + big_endian(a.len(), 4)
        }) + packed_all(a.take(i)) + packed(a[i]) + packed_all(a.skip(i + 1)),
{
    lemma_packed_all_split(a, i);
    if a.len() <= 15 {
        lemma_marker(0x90, a.len() as u8);
    }
    assert(packed(PackedView::Array(a)) =~= header(a.len(), 0x90, 0xdc, 0xdd) + packed_all(
        a.take(i),
    ) + packed(a[i]) + packed_all(a.skip(i + 1)));
}

/// A map is packed as its marker and its entries one after another, each as its key, packed as
/// a string, and its value: none is moved, and none is merged with another.
pub proof fn law_map_layout(m: Seq<(Seq<char>, PackedView)>, i: int)
    requires
        0 <= i < m.len() <= u32::MAX,
    ensures
        packed(PackedView::Dict(m)) == (if m.len() <= 15 {
            seq![(0x80 + m.len()) as u8]
        } else if m.len() <= 0xffff {
            seq![0xdeu8] + big_endian(m.len(), 2)
        } else {
            seq![0xdfu8] + big_endian(m.len(), 4)
        }) + packed_pairs(m.take(i)) + packed(PackedView::Str(m[i].0)) + packed(m[i].1)
            + packed_pairs(m.skip(i + 1)),
{
    lemma_packed_pairs_split(m, i);
    if m.len() <= 15 {
        lemma_marker(0x80, m.len() as u8);
    }
    assert(packed(PackedView::Dict(m)) =~= header(m.len(), 0x80, 0xde, 0xdf) + packed_pairs(
        m.take(i),
    ) + packed_text(m[i].0) + packed(m[i].1) + packed_pairs(m.skip(i + 1)));
}

/// Packed values, cut at one of them.
proof fn lemma_packed_all_split(a: Seq<PackedView>, i: int)
    requires
        0 <= i < a.len(),
    ensures
        packed_all(a) == packed_all(a.take(i)) + packed(a[i]) + packed_all(a.skip(i + 1)),
    decreases i,
{
    if i == 0 {
        assert(a.take(0) =~= Seq::empty());
        assert(a.drop_first() =~= a.skip(1));
        assert(packed_all(a) =~= packed_all(a.take(0)) + packed(a[0]) + packed_all(a.skip(1)));
    } else {
        let b = a.drop_first();
        lemma_packed_all_split(b, i - 1);
        assert(a.take(i).drop_first() =~= b.take(i - 1));
        assert(a.skip(i + 1) =~= b.skip(i));
        assert(packed_all(a) =~= packed_all(a.take(i)) + packed(a[i]) + packed_all(
            a.skip(i + 1),
        ));
    }
}

/// Packed pairs, cut at one of them.
proof fn lemma_packed_pairs_split(m: Seq<(Seq<char>, PackedView)>, i: int)
    requires
        0 <= i < m.len(),
    ensures
        packed_pairs(m) == packed_pairs(m.take(i)) + packed_text(m[i].0) + packed(m[i].1)
            + packed_pairs(m.skip(i + 1)),
    decreases i,
{
    if i == 0 {
        assert(m.take(0) =~= Seq::empty());
        assert(m.drop_first() =~= m.skip(1));
        assert(packed_pairs(m) =~= packed_pairs(m.take(0)) + packed_text(m[0].0) + packed(m[0].1)
            + packed_pairs(m.skip(1)));
    } else {
        let b = m.drop_first();
        lemma_packed_pairs_split(b, i - 1);
        assert(m.take(i).drop_first() =~= b.take(i - 1));
        assert(m.skip(i + 1) =~= b.skip(i));
        assert(packed_pairs(m) =~= packed_pairs(m.take(i)) + packed_text(m[i].0) + packed(m[i].1)
            + packed_pairs(m.skip(i + 1)));
    }
}

/// The digits of a number write its remainder by the power of their count.
proof fn lemma_digits(n: nat, w: nat)
    ensures
        big_endian(n, w).len() == w,
        number(big_endian(n, w)) == n % span(w),
        span(w) > 0,
    decreases w,
{
    if w == 0 {
        assert(n % 1 == 0);
    } else {
        let v = (w - 1) as nat;
        lemma_digits(n / 256, v);
        let s = big_endian(n, w);
        assert(s.drop_last() =~= big_endian(n / 256, v));
        vstd::arithmetic::div_mod::lemma_mod_breakdown(n as int, 256, span(v) as int);
    }
}

/// A counted value of fewer than `2^32` units.
pub open spec fn countable(n: nat) -> bool {
    n < 0x1_0000_0000
}

/// Every string, binary, array and map in the value has a length that the format can count.
pub open spec fn packable(v: PackedView) -> bool
    decreases v,
{
    match v {
        PackedView::Str(s) => countable(encode_utf8(s).len()),
        PackedView::Bytes(b) => countable(b.len()),
        PackedView::Array(a) => countable(a.len()) && forall|i: int|
            0 <= i < a.len() ==> packable(#[trigger] a[i]),
        PackedView::Dict(m) => countable(m.len()) && forall|i: int|
            0 <= i < m.len() ==> countable(encode_utf8((#[trigger] m[i]).0).len()) && packable(
                m[i].1,
            ),
        _ => true,
    }
}

/// A count that is put into a marker with free low bits is added to it.
pub proof fn lemma_marker(fix: u8, n: u8)
    requires
        fix % 16 == 0,
        n < 16,
    ensures
        fix | n == fix + n,
{
    assert(fix % 16 == 0 && n < 16 ==> fix | n == fix + n) by (bit_vector);
}

/// The count of a header is read back.
proof fn lemma_header(n: nat, fix: u8, sixteen: u8, thirtytwo: u8, rest: Seq<u8>)
    requires
        countable(n),
        fix % 16 == 0,
        fix <= 0xf0,
    ensures
        ({
            let h = header(n, fix, sixteen, thirtytwo);
            let w: nat = if n < 16 {
                0
            } else if n < 0x1_0000 {
                2
            } else {
                4
            };
            let b = h + rest;
            &&& h.len() == 1 + w
            &&& b[0] == (if n < 16 {
                (fix + n) as u8
            } else if n < 0x1_0000 {
                sixteen
            } else {
                thirtytwo
            })
            &&& count(b, w) == Some(n)
            &&& b.skip(1 + w as int) == rest
        }),
{
    lemma_spans();
    lemma_digits(n, 2);
    lemma_digits(n, 4);
    let b = header(n, fix, sixteen, thirtytwo) + rest;
    if n < 16 {
        lemma_marker(fix, n as u8);
        assert(b.skip(1) =~= rest);
    } else if n < 0x1_0000 {
        assert(b.subrange(1, 3) =~= big_endian(n, 2));
        assert(b.skip(3) =~= rest);
    } else {
        assert(b.subrange(1, 5) =~= big_endian(n, 4));
        assert(b.skip(5) =~= rest);
    }
}

/// Counted bytes are read back.
proof fn lemma_payload(s: Seq<u8>, fix: u8, sixteen: u8, thirtytwo: u8, rest: Seq<u8>)
    requires
        countable(s.len()),
        fix % 16 == 0,
        fix <= 0xf0,
    ensures
        ({
            let h = header(s.len(), fix, sixteen, thirtytwo);
            let w: nat = if s.len() < 16 {
                0
            } else if s.len() < 0x1_0000 {
                2
            } else {
                4
            };
            payload(h + s + rest, w) == Some((s, (h + s).len()))
        }),
{
    let h = header(s.len(), fix, sixteen, thirtytwo);
    lemma_header(s.len(), fix, sixteen, thirtytwo, s + rest);
    assert(h + (s + rest) =~= h + s + rest);
    assert((h + s + rest).subrange(h.len() as int, (h.len() + s.len()) as int) =~= s);
}

/// A string is read back, whatever follows it.
proof fn lemma_text(s: Seq<char>, rest: Seq<u8>)
    requires
        countable(encode_utf8(s).len()),
    ensures
        parsed(packed_text(s) + rest) == Some((PackedView::Str(s), packed_text(s).len())),
        packed_text(s).len() > 0,
{
    let b = encode_utf8(s);
    encode_utf8_valid_utf8(s);
    encode_utf8_decode_utf8(s);
    lemma_payload(b, 0xb0, 0xd8, 0xd9, rest);
    lemma_header(b.len(), 0xb0, 0xd8, 0xd9, b + rest);
    assert(header(b.len(), 0xb0, 0xd8, 0xd9) + (b + rest) =~= packed_text(s) + rest);
}

/// The number of `w` bytes behind a marker is read back.
proof fn lemma_argument(m: u8, n: nat, w: nat, rest: Seq<u8>)
    requires
        n < span(w),
    ensures
        ({
            let p = seq![m] + big_endian(n, w);
            &&& p.len() == 1 + w
            &&& (p + rest)[0] == m
            &&& argument(p + rest, w) == Some(n)
        }),
{
    lemma_digits(n, w);
    let p = seq![m] + big_endian(n, w);
    assert((p + rest).subrange(1, 1 + w as int) =~= big_endian(n, w));
    vstd::arithmetic::div_mod::lemma_small_mod(n, span(w));
}

/// An unsigned integer is read back, whatever follows it.
proof fn lemma_uint(u: u64, rest: Seq<u8>)
    ensures
        parsed(packed_uint(u as nat) + rest) == Some(
            (PackedView::UInt(u), packed_uint(u as nat).len()),
        ),
        packed_uint(u as nat).len() > 0,
{
    lemma_spans();
    let n = u as nat;
    if n < 128 {
    } else if n < 0x100 {
        lemma_argument(0xcc, n, 1, rest);
    } else if n < 0x1_0000 {
        lemma_argument(0xcd, n, 2, rest);
    } else if n < 0x1_0000_0000 {
        lemma_argument(0xce, n, 4, rest);
    } else {
        lemma_argument(0xcf, n, 8, rest);
    }
}

/// A signed integer is read back, whatever follows it.
proof fn lemma_int(i: i64, rest: Seq<u8>)
    ensures
        parsed(packed_int(i as int) + rest) == Some(
            (PackedView::Int(i), packed_int(i as int).len()),
        ),
        packed_int(i as int).len() > 0,
{
    lemma_spans();
    if -32 <= i < 0 {
    } else if -0x80 <= i < 0 {
        lemma_argument(0xd0, (0x100 + i) as nat, 1, rest);
    } else if -0x8000 <= i < 0 {
        lemma_argument(0xd1, (0x1_0000 + i) as nat, 2, rest);
    } else if -0x8000_0000 <= i < 0 {
        lemma_argument(0xd2, (0x1_0000_0000 + i) as nat, 4, rest);
    } else if i < 0 {
        lemma_argument(0xd3, (0x1_0000_0000_0000_0000 + i) as nat, 8, rest);
    } else {
        lemma_argument(0xd3, i as nat, 8, rest);
    }
}

/// Unpacking gives back what was packed, and takes exactly the packed bytes,
/// whatever follows them.
#[verifier::spinoff_prover]
#[verifier::rlimit(40)]
pub proof fn law_unpack_pack(v: PackedView, rest: Seq<u8>)
    requires
        packable(v),
    ensures
        parsed(packed(v) + rest) == Some((v, packed(v).len())),
        packed(v).len() > 0,
    decreases v,
{
    lemma_spans();
    let p = packed(v);
    match v {
        PackedView::UInt(u) => {
            lemma_uint(u, rest);
        },
        PackedView::Int(i) => {
            lemma_int(i, rest);
        },
        PackedView::Float(f) => {
            lemma_argument(0xcb, f as nat, 8, rest);
        },
        PackedView::Str(s) => {
            lemma_text(s, rest);
        },
        PackedView::Bytes(s) => {
            lemma_payload(s, 0xa0, 0xda, 0xdb, rest);
            lemma_header(s.len(), 0xa0, 0xda, 0xdb, s + rest);
            assert(header(s.len(), 0xa0, 0xda, 0xdb) + (s + rest) =~= p + rest);
        },
        PackedView::Array(a) => {
            let h = header(a.len(), 0x90, 0xdc, 0xdd);
            lemma_header(a.len(), 0x90, 0xdc, 0xdd, packed_all(a) + rest);
            assert(h + (packed_all(a) + rest) =~= p + rest);
            lemma_unpack_all(a, rest);
        },
        PackedView::Dict(m) => {
            let h = header(m.len(), 0x80, 0xde, 0xdf);
            lemma_header(m.len(), 0x80, 0xde, 0xdf, packed_pairs(m) + rest);
            assert(h + (packed_pairs(m) + rest) =~= p + rest);
            lemma_unpack_pairs(m, rest);
        },
        _ => {},
    }
}

/// Values packed one after another are read back.
proof fn lemma_unpack_all(a: Seq<PackedView>, rest: Seq<u8>)
    requires
        forall|i: int| 0 <= i < a.len() ==> packable(#[trigger] a[i]),
    ensures
        parsed_items(packed_all(a) + rest, a.len()) == Some((a, packed_all(a).len())),
    decreases a,
{
    if a.len() == 0 {
        assert(a =~= Seq::empty());
    } else {
        let t = a.drop_first();
        let f = packed(a[0]);
        let b = packed_all(a) + rest;
        assert(packable(a[0]));
        law_unpack_pack(a[0], packed_all(t) + rest);
        assert(f + (packed_all(t) + rest) =~= b);
        assert forall|i: int| 0 <= i < t.len() implies packable(#[trigger] t[i]) by {
            assert(packable(a[i + 1]));
        }
        lemma_unpack_all(t, rest);
        assert(b.skip(f.len() as int) =~= packed_all(t) + rest);
        assert(seq![a[0]] + t =~= a);
    }
}

/// Pairs packed one after another are read back.
proof fn lemma_unpack_pairs(m: Seq<(Seq<char>, PackedView)>, rest: Seq<u8>)
    requires
        forall|i: int|
            0 <= i < m.len() ==> countable(encode_utf8((#[trigger] m[i]).0).len()) && packable(
                m[i].1,
            ),
    ensures
        parsed_pairs(packed_pairs(m) + rest, m.len()) == Some((m, packed_pairs(m).len())),
    decreases m,
{
    if m.len() == 0 {
        assert(m =~= Seq::empty());
    } else {
        let t = m.drop_first();
        let k = packed_text(m[0].0);
        let f = packed(m[0].1);
        let b = packed_pairs(m) + rest;
        let tail = packed_pairs(t) + rest;
        assert(packable(m[0].1));
        lemma_text(m[0].0, f + tail);
        assert(k + (f + tail) =~= b);
        law_unpack_pack(m[0].1, tail);
        assert(b.skip(k.len() as int) =~= f + tail);
        assert forall|i: int| 0 <= i < t.len() implies countable(
            encode_utf8((#[trigger] t[i]).0).len(),
        ) && packable(t[i].1) by {
            assert(packable(m[i + 1].1));
        }
        lemma_unpack_pairs(t, rest);
        assert(b.skip((k.len() + f.len()) as int) =~= tail);
        assert(seq![m[0]] + t =~= m);
    }
}

/// Unpacking takes at least one byte and never more than there are, and every
/// binary value at the top level of a map is shorter than what was taken.
pub proof fn law_unpack_consumes(b: Seq<u8>)
    ensures
        match parsed(b) {
            Some((v, k)) => 0 < k <= b.len() && (v is Bytes ==> v->Bytes_0.len() < k) && (v is Dict
                ==> forall|i: int|
                0 <= i < v->Dict_0.len() && (#[trigger] v->Dict_0[i]).1 is Bytes
                    ==> v->Dict_0[i].1->Bytes_0.len() < k),
            None => true,
        },
    decreases b.len(), 0nat,
{
    if b.len() > 0 {
        let m = b[0];
        if 0x80 <= m < 0x90 || m == 0xde || m == 0xdf {
            let w: nat = if m < 0x90 {
                0
            } else if m == 0xde {
                2
            } else {
                4
            };
            if let Some(n) = count(b, w) {
                lemma_pairs_consume(b.skip(1 + w as int), n);
            }
        } else if 0x90 <= m < 0xa0 || m == 0xdc || m == 0xdd {
            let w: nat = if m < 0xa0 {
                0
            } else if m == 0xdc {
                2
            } else {
                4
            };
            if let Some(n) = count(b, w) {
                lemma_items_consume(b.skip(1 + w as int), n);
            }
        }
    }
}

/// Reading values never takes more bytes than there are.
proof fn lemma_items_consume(b: Seq<u8>, n: nat)
    ensures
        match parsed_items(b, n) {
            Some((s, k)) => k <= b.len(),
            None => true,
        },
    decreases b.len(), n + 1,
{
    if n > 0 {
        law_unpack_consumes(b);
        if let Some((v, k)) = parsed(b) {
            lemma_items_consume(b.skip(k as int), (n - 1) as nat);
        }
    }
}

/// Reading pairs never takes more bytes than there are, and binary values are
/// shorter than what was taken.
proof fn lemma_pairs_consume(b: Seq<u8>, n: nat)
    ensures
        match parsed_pairs(b, n) {
            Some((s, k)) => k <= b.len() && forall|i: int|
                0 <= i < s.len() && (#[trigger] s[i]).1 is Bytes ==> s[i].1->Bytes_0.len() < k,
            None => true,
        },
    decreases b.len(), n + 1,
{
    if n > 0 {
        law_unpack_consumes(b);
        if let Some((key, k)) = parsed(b) {
            law_unpack_consumes(b.skip(k as int));
            if let Some((v, j)) = parsed(b.skip(k as int)) {
                lemma_pairs_consume(b.skip((k + j) as int), (n - 1) as nat);
                if let Some((t, i)) = parsed_pairs(b.skip((k + j) as int), (n - 1) as nat) {
                    let s = seq![(key_text(key), v)] + t;
                    assert forall|x: int|
                        0 <= x < s.len() && (#[trigger] s[x]).1 is Bytes
                    implies s[x].1->Bytes_0.len() < k + j + i by {
                        if x > 0 {
                            assert(s[x] == t[x - 1]);
                        }
                    }
                }
            }
        }
    }
}

} // verus!
