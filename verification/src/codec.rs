//! The Jam wire codec: JSON messages to BinaryPack frames and back, with
//! peerjs's chunking of large payloads.
use crate::binarypack::{
    group_packed_views, json, law_json_survives_packing, law_unpack_consumes, law_unpack_pack, pack,
    packable, packed, pairs, parsed, push_all, unjson, unpack, Packed, PackedView,
};
use crate::json::{Json, JsonView};
use crate::text::same;
use std::collections::HashMap;
use vstd::prelude::*;
use vstd::utf8::*;

verus! {

/// peerjs chunks payloads larger than this.
pub const CHUNKED_MTU: usize = 16300;

/// The chunks that have arrived of one message, by their place in it.
pub struct Partial {
    /// How many chunks the message has.
    total: u64,
    /// The chunks so far, ascending.
    parts: Vec<(u64, Vec<u8>)>,
}

/// The chunks that have arrived of one message, by their place in it.
pub struct PartialView {
    pub total: u64,
    pub parts: Seq<(u64, Seq<u8>)>,
}

/// The views of a list of chunks.
pub open spec fn chunks(s: Seq<(u64, Vec<u8>)>) -> Seq<(u64, Seq<u8>)> {
    Seq::new(s.len(), |i: int| (s[i].0, s[i].1@))
}

impl View for Partial {
    type V = PartialView;

    closed spec fn view(&self) -> PartialView {
        PartialView { total: self.total, parts: chunks(self.parts@) }
    }
}

/// How many chunks at the front stand before place `n`.
pub open spec fn place(s: Seq<(u64, Seq<u8>)>, n: u64) -> nat
    decreases s.len(),
{
    if s.len() > 0 && s[0].0 < n {
        1 + place(s.drop_first(), n)
    } else {
        0
    }
}

/// The chunks with `data` at place `n`, in place of what stood there.
pub open spec fn placed(s: Seq<(u64, Seq<u8>)>, n: u64, data: Seq<u8>) -> Seq<(u64, Seq<u8>)> {
    let i = place(s, n) as int;
    if i < s.len() && s[i].0 == n {
        s.update(i, (n, data))
    } else {
        s.insert(i, (n, data))
    }
}

/// The chunks one after another.
pub open spec fn joined(s: Seq<(u64, Seq<u8>)>) -> Seq<u8>
    decreases s.len(),
{
    if s.len() == 0 {
        Seq::empty()
    } else {
        joined(s.drop_last()) + s.last().1
    }
}

/// Every chunk of the message is there, and no other.
pub open spec fn complete(p: PartialView) -> bool {
    p.parts.len() == p.total && forall|i: int|
        0 <= i < p.parts.len() ==> (#[trigger] p.parts[i]).0 == i
}

/// The value of the first pair with key `k`.
pub open spec fn pair(m: Seq<(Seq<char>, PackedView)>, k: Seq<char>) -> Option<PackedView>
    decreases m.len(),
{
    if m.len() == 0 {
        None
    } else if m[0].0 == k {
        Some(m[0].1)
    } else {
        pair(m.drop_first(), k)
    }
}

/// A map with an unsigned `__peerData` belongs to the transport, as a chunk, and so does the
/// notice that the other side closes, whose `__peerData` is a map with the `type` `close`.
pub open spec fn internal(m: Seq<(Seq<char>, PackedView)>) -> bool {
    match pair(m, "__peerData"@) {
        Some(PackedView::UInt(_)) => true,
        Some(PackedView::Dict(d)) => closing(d),
        _ => false,
    }
}

/// The `__peerData` of the notice that the other side closes.
pub open spec fn closing(d: Seq<(Seq<char>, PackedView)>) -> bool {
    pair(d, "type"@) == Some(PackedView::Str("close"@))
}

/// One chunk of a message.
pub struct ChunkView {
    pub id: u64,
    pub n: u64,
    pub total: u64,
    pub data: Seq<u8>,
}

/// The chunk that a map describes, where it has all four fields.
pub open spec fn chunk(m: Seq<(Seq<char>, PackedView)>) -> Option<ChunkView> {
    match (pair(m, "__peerData"@), pair(m, "n"@), pair(m, "total"@), pair(m, "data"@)) {
        (
            Some(PackedView::UInt(id)),
            Some(PackedView::UInt(n)),
            Some(PackedView::UInt(total)),
            Some(PackedView::Bytes(data)),
        ) => Some(ChunkView { id, n, total, data }),
        _ => None,
    }
}

/// What became of some bytes.
pub enum Absorbed {
    /// They were a message.
    Message(JsonView),
    /// They were no message: a chunk that is not the last one, the notice that the other side
    /// closes, or nothing readable.
    Nothing,
    /// They were the last missing chunk: this is what the chunks make together.
    Whole(Seq<u8>),
}

/// The partial message with chunk `c` added.
pub open spec fn extended(t: Map<u64, PartialView>, c: ChunkView) -> PartialView {
    if t.dom().contains(c.id) {
        PartialView { parts: placed(t[c.id].parts, c.n, c.data), ..t[c.id] }
    } else {
        PartialView { total: c.total, parts: placed(Seq::empty(), c.n, c.data) }
    }
}

/// The table of partial messages after some bytes, and what became of these.
pub open spec fn absorbed(
    t: Map<u64, PartialView>,
    b: Seq<u8>,
) -> (Map<u64, PartialView>, Absorbed) {
    match parsed(b) {
        None => (t, Absorbed::Nothing),
        Some((v, _)) => match v {
            PackedView::Dict(m) => if !internal(m) {
                (t, Absorbed::Message(json(v)))
            } else {
                match chunk(m) {
                    None => (t, Absorbed::Nothing),
                    Some(c) => {
                        let p = extended(t, c);
                        if complete(p) {
                            (t.remove(c.id), Absorbed::Whole(joined(p.parts)))
                        } else {
                            (t.insert(c.id, p), Absorbed::Nothing)
                        }
                    },
                }
            },
            _ => (t, Absorbed::Message(json(v))),
        },
    }
}

/// How many bytes the partial messages below `n` hold.
pub open spec fn weight_below(t: Map<u64, PartialView>, n: nat) -> nat
    decreases n,
{
    if n == 0 {
        0
    } else {
        weight_below(t, (n - 1) as nat) + weight_at(t, (n - 1) as nat)
    }
}

/// How many bytes the partial message `n` holds.
pub open spec fn weight_at(t: Map<u64, PartialView>, n: nat) -> nat {
    if n <= u64::MAX && t.dom().contains(n as u64) {
        joined(t[n as u64].parts).len()
    } else {
        0
    }
}

/// How many bytes all partial messages hold.
pub open spec fn weight(t: Map<u64, PartialView>) -> nat {
    weight_below(t, 0x1_0000_0000_0000_0000)
}

/// The table of partial messages after some bytes, and the message they bring, if any.
///
/// Chunks that are complete make bytes in turn, which are taken like any others.
pub open spec fn delivered(t: Map<u64, PartialView>, b: Seq<u8>) -> (
    Map<u64, PartialView>,
    Option<JsonView>,
)
    decreases weight(t) + b.len(),
{
    proof {
        lemma_absorbing_shrinks(t, b);
    }
    match absorbed(t, b) {
        (u, Absorbed::Message(v)) => (u, Some(v)),
        (u, Absorbed::Nothing) => (u, None),
        (u, Absorbed::Whole(w)) => delivered(u, w),
    }
}

/// Changing one partial message changes the weight by as much.
proof fn lemma_weight_change(t: Map<u64, PartialView>, u: Map<u64, PartialView>, id: u64, n: nat)
    requires
        forall|k: u64| k != id ==> t.dom().contains(k) == u.dom().contains(k),
        forall|k: u64| k != id && #[trigger] t.dom().contains(k) ==> t[k] == u[k],
    ensures
        id < n ==> weight_below(u, n) + weight_at(t, id as nat) == weight_below(t, n) + weight_at(
            u,
            id as nat,
        ),
        id >= n ==> weight_below(u, n) == weight_below(t, n),
    decreases n,
{
    if n > 0 {
        let m = (n - 1) as nat;
        lemma_weight_change(t, u, id, m);
        if m <= u64::MAX && m as u64 != id {
            assert(t.dom().contains(m as u64) == u.dom().contains(m as u64));
        }
    }
}

/// Placing a chunk adds at most its length.
proof fn lemma_placed_length(s: Seq<(u64, Seq<u8>)>, n: u64, data: Seq<u8>)
    ensures
        joined(placed(s, n, data)).len() <= joined(s).len() + data.len(),
{
    let i = place(s, n) as int;
    lemma_place_bound(s, n);
    if i < s.len() && s[i].0 == n {
        lemma_joined_update(s, i, (n, data));
    } else {
        lemma_joined_insert(s, i, (n, data));
    }
}

/// A place lies within the list or at its end.
proof fn lemma_place_bound(s: Seq<(u64, Seq<u8>)>, n: u64)
    ensures
        place(s, n) <= s.len(),
    decreases s.len(),
{
    if s.len() > 0 && s[0].0 < n {
        lemma_place_bound(s.drop_first(), n);
    }
}

/// The length of joined chunks with one replaced.
proof fn lemma_joined_update(s: Seq<(u64, Seq<u8>)>, i: int, c: (u64, Seq<u8>))
    requires
        0 <= i < s.len(),
    ensures
        joined(s.update(i, c)).len() + s[i].1.len() == joined(s).len() + c.1.len(),
    decreases s.len(),
{
    let u = s.update(i, c);
    if i == s.len() - 1 {
        assert(u.drop_last() =~= s.drop_last());
    } else {
        assert(u.drop_last() =~= s.drop_last().update(i, c));
        lemma_joined_update(s.drop_last(), i, c);
    }
}

/// The length of joined chunks with one more.
proof fn lemma_joined_insert(s: Seq<(u64, Seq<u8>)>, i: int, c: (u64, Seq<u8>))
    requires
        0 <= i <= s.len(),
    ensures
        joined(s.insert(i, c)).len() == joined(s).len() + c.1.len(),
    decreases s.len(),
{
    let u = s.insert(i, c);
    if i == s.len() {
        assert(u.drop_last() =~= s);
    } else {
        assert(u.drop_last() =~= s.drop_last().insert(i, c));
        lemma_joined_insert(s.drop_last(), i, c);
    }
}

/// A pair that is found is among the pairs.
proof fn lemma_pair_found(m: Seq<(Seq<char>, PackedView)>, k: Seq<char>)
    ensures
        pair(m, k) is Some ==> exists|i: int|
            0 <= i < m.len() && (#[trigger] m[i]) == (k, pair(m, k)->0),
    decreases m.len(),
{
    if m.len() > 0 {
        if m[0].0 == k {
            assert(m[0] == (k, pair(m, k)->0));
        } else {
            lemma_pair_found(m.drop_first(), k);
            if pair(m, k) is Some {
                let i = choose|i: int|
                    0 <= i < m.drop_first().len() && (#[trigger] m.drop_first()[i]) == (
                        k,
                        pair(m, k)->0,
                    );
                assert(m[i + 1] == (k, pair(m, k)->0));
            }
        }
    }
}

/// When chunks turn out complete, fewer bytes are left to deal with.
pub proof fn lemma_absorbing_shrinks(t: Map<u64, PartialView>, b: Seq<u8>)
    ensures
        absorbed(t, b).1 is Whole ==> weight(absorbed(t, b).0) + absorbed(
            t,
            b,
        ).1->Whole_0.len() < weight(t) + b.len(),
{
    if let Some((v, k)) = parsed(b) {
        if let PackedView::Dict(m) = v {
            if let Some(c) = chunk(m) {
                law_unpack_consumes(b);
                lemma_pair_found(m, "data"@);
                let i = choose|i: int|
                    0 <= i < m.len() && (#[trigger] m[i]) == ("data"@, PackedView::Bytes(c.data));
                assert(m[i].1->Bytes_0.len() < k);
                let p = extended(t, c);
                let old = if t.dom().contains(c.id) {
                    t[c.id].parts
                } else {
                    Seq::empty()
                };
                assert(joined(Seq::<(u64, Seq<u8>)>::empty()).len() == 0);
                lemma_placed_length(old, c.n, c.data);
                lemma_weight_change(t, t.remove(c.id), c.id, 0x1_0000_0000_0000_0000);
            }
        }
    }
}

/// The codec of one peer.
pub struct JamCodec {
    chunks: HashMap<u64, Partial>,
    chunk_counter: u64,
}

/// The codec of one peer: its partial messages, and how many chunked messages it has sent.
pub struct CodecView {
    pub table: Map<u64, PartialView>,
    pub sent: u64,
}

impl View for JamCodec {
    type V = CodecView;

    closed spec fn view(&self) -> CodecView {
        CodecView { table: partials(self.chunks@), sent: self.chunk_counter }
    }
}

/// The views of a table of partial messages.
pub closed spec fn partials(t: Map<u64, Partial>) -> Map<u64, PartialView> {
    Map::new(|k: u64| t.dom().contains(k), |k: u64| t[k]@)
}

/// The piece of a payload that chunk `n` carries.
pub open spec fn piece(blob: Seq<u8>, n: int) -> Seq<u8> {
    let end = (n + 1) * CHUNKED_MTU;
    blob.subrange(
        n * CHUNKED_MTU,
        if end < blob.len() {
            end
        } else {
            blob.len() as int
        },
    )
}

/// How many chunks a payload needs.
pub open spec fn chunk_count(blob: Seq<u8>) -> nat {
    (blob.len() + CHUNKED_MTU - 1) as nat / CHUNKED_MTU as nat
}

/// Chunk `n` of `total` of message `id`.
pub open spec fn chunk_value(id: u64, n: u64, total: u64, data: Seq<u8>) -> PackedView {
    PackedView::Dict(
        seq![
            ("__peerData"@, PackedView::UInt(id)),
            ("n"@, PackedView::UInt(n)),
            ("total"@, PackedView::UInt(total)),
            ("data"@, PackedView::Bytes(data)),
        ],
    )
}

/// The frames of a payload: the payload itself, or its chunks under the number `id`.
pub open spec fn frames(blob: Seq<u8>, id: u64) -> Seq<Seq<u8>> {
    if blob.len() <= CHUNKED_MTU {
        seq![blob]
    } else {
        Seq::new(
            chunk_count(blob),
            |n: int| packed(chunk_value(id, n as u64, chunk_count(blob) as u64, piece(blob, n))),
        )
    }
}

/// The bytes of a message.
pub open spec fn message_bytes(msg: JsonView) -> Seq<u8> {
    packed(unjson(msg))
}

/// The views of a list of frames.
pub open spec fn frame_views(s: Seq<Vec<u8>>) -> Seq<Seq<u8>> {
    Seq::new(s.len(), |i: int| s[i]@)
}

impl JamCodec {
    /// A codec with no partial message.
    pub fn new() -> (r: JamCodec)
        ensures
            r@.table == Map::<u64, PartialView>::empty(),
            r@.sent == 0,
    {
        let r = JamCodec { chunks: HashMap::new(), chunk_counter: 0 };
        assert(r@.table =~= Map::<u64, PartialView>::empty());
        r
    }

    /// The frames that carry a message.
    ///
    /// A message that needs chunks takes the next number.
    pub fn encode(&mut self, msg: &Json) -> (r: Vec<Vec<u8>>)
        ensures
            final(self)@.table == old(self)@.table,
            message_bytes(msg@).len() <= CHUNKED_MTU ==> final(self)@.sent == old(self)@.sent,
            message_bytes(msg@).len() > CHUNKED_MTU ==> final(self)@.sent == old(
                self,
            )@.sent.wrapping_add(1),
            frame_views(r@) == frames(message_bytes(msg@), old(self)@.sent.wrapping_add(1)),
    {
        let value = Packed::from_json(msg);
        let blob = pack(&value);
        if blob.len() <= CHUNKED_MTU {
            let mut r: Vec<Vec<u8>> = Vec::new();
            r.push(blob);
            assert(frame_views(r@) =~= frames(
                message_bytes(msg@),
                old(self)@.sent.wrapping_add(1),
            ));
            return r;
        }
        let len: usize = blob.len();
        let total: usize = (len - 1) / CHUNKED_MTU + 1;
        self.chunk_counter = self.chunk_counter.wrapping_add(1);
        let id: u64 = self.chunk_counter;
        proof {
            assert((len - 1) / CHUNKED_MTU as int + 1 == (len + CHUNKED_MTU - 1)
                / CHUNKED_MTU as int);
        }
        let mut r: Vec<Vec<u8>> = Vec::new();
        let mut n: usize = 0;
        while n < total
            invariant
                len == blob@.len(),
                len > CHUNKED_MTU,
                total == chunk_count(blob@),
                total == (len - 1) / CHUNKED_MTU as int + 1,
                n <= total,
                r@.len() == n,
                forall|k: int|
                    0 <= k < n ==> (#[trigger] r@[k])@ == packed(
                        chunk_value(id, k as u64, total as u64, piece(blob@, k)),
                    ),
            decreases total - n,
        {
            let from: usize = n * CHUNKED_MTU;
            let to: usize = if len - from > CHUNKED_MTU {
                from + CHUNKED_MTU
            } else {
                len
            };
            let part = vstd::slice::slice_subrange(blob.as_slice(), from, to);
            assert(part@ =~= piece(blob@, n as int));
            r.push(chunk_frame(id, n as u64, total as u64, part));
            n = n + 1;
        }
        assert(frame_views(r@) =~= frames(message_bytes(msg@), old(self)@.sent.wrapping_add(1)));
        r
    }

    /// Takes in some bytes; gives back a message where they complete one.
    pub fn decode(&mut self, bytes: &[u8]) -> (r: Option<Json>)
        ensures
            final(self)@.sent == old(self)@.sent,
            final(self)@.table == delivered(old(self)@.table, bytes@).0,
            match r {
                Some(v) => delivered(old(self)@.table, bytes@).1 == Some(v@),
                None => delivered(old(self)@.table, bytes@).1 is None,
            },
        decreases weight(old(self)@.table) + bytes@.len(),
    {
        proof {
            lemma_absorbing_shrinks(self@.table, bytes@);
        }
        let v = match unpack(bytes) {
            Some((v, _)) => v,
            None => return None,
        };
        let c = match &v {
            Packed::Dict(m) => {
                proof {
                    broadcast use group_packed_views;

                    assert(v@ == PackedView::Dict(pairs(m@)));
                }
                let id: u64 = match find_pair(m, "__peerData") {
                    Some(Packed::UInt(id)) => *id,
                    Some(Packed::Dict(d)) => {
                        proof {
                            broadcast use group_packed_views;

                        }
                        if is_closing(d) {
                            return None;
                        }
                        return Some(v.to_json());
                    },
                    _ => return Some(v.to_json()),
                };
                let n: u64 = match find_pair(m, "n") {
                    Some(Packed::UInt(n)) => *n,
                    _ => return None,
                };
                let total: u64 = match find_pair(m, "total") {
                    Some(Packed::UInt(total)) => *total,
                    _ => return None,
                };
                let data: Vec<u8> = match find_pair(m, "data") {
                    Some(Packed::Bytes(b)) => vstd::slice::slice_to_vec(b.as_slice()),
                    _ => return None,
                };
                (id, n, total, data)
            },
            _ => return Some(v.to_json()),
        };
        let (id, n, total, data) = c;
        let ghost cv = ChunkView { id, n, total, data: data@ };
        let ghost t0 = self@.table;
        let ghost h0 = self.chunks@;
        proof {
            broadcast use vstd::std_specs::hash::group_hash_axioms;

            assert(chunk(v@->Dict_0) == Some(cv));
        }
        let mut p = match self.chunks.remove(&id) {
            Some(p) => p,
            None => Partial { total, parts: Vec::new() },
        };
        assert(self@.table =~= t0.remove(id));
        proof {
            assert(chunks(Seq::<(u64, Vec<u8>)>::empty()) =~= Seq::empty());
            if h0.dom().contains(id) {
                assert(p@ == t0[id]);
            } else {
                assert(p@ == PartialView { total, parts: Seq::empty() });
            }
        }
        put_chunk(&mut p, n, data);
        assert(p@ == extended(t0, cv));
        if is_complete(&p) {
            let blob = join(&p);
            self.decode(blob.as_slice())
        } else {
            let ghost pv = p@;
            self.chunks.insert(id, p);
            assert(self@.table =~= t0.insert(id, pv));
            None
        }
    }
}

/// The frame of one chunk.
fn chunk_frame(id: u64, n: u64, total: u64, data: &[u8]) -> (r: Vec<u8>)
    ensures
        r@ == packed(chunk_value(id, n, total, data@)),
{
    let mut m: Vec<(String, Packed)> = Vec::new();
    m.push(("__peerData".to_owned(), Packed::UInt(id)));
    m.push(("n".to_owned(), Packed::UInt(n)));
    m.push(("total".to_owned(), Packed::UInt(total)));
    m.push(("data".to_owned(), Packed::Bytes(vstd::slice::slice_to_vec(data))));
    proof {
        broadcast use group_packed_views;

        assert(pairs(m@) =~= chunk_value(id, n, total, data@)->Dict_0);
    }
    pack(&Packed::Dict(m))
}

/// The value of the first pair with key `key`.
fn find_pair<'a>(m: &'a Vec<(String, Packed)>, key: &str) -> (r: Option<&'a Packed>)
    ensures
        match r {
            Some(v) => pair(pairs(m@), key@) == Some(v@),
            None => pair(pairs(m@), key@) is None,
        },
{
    let n: usize = m.len();
    let mut i: usize = 0;
    assert(pairs(m@).skip(0) =~= pairs(m@));
    while i < n
        invariant
            n == m@.len(),
            i <= n,
            pair(pairs(m@), key@) == pair(pairs(m@).skip(i as int), key@),
        decreases n - i,
    {
        let e = &m[i];
        if same(e.0.as_str(), key) {
            return Some(&e.1);
        }
        assert(pairs(m@).skip(i as int).drop_first() =~= pairs(m@).skip(i as int + 1));
        i = i + 1;
    }
    None
}

/// Whether this is the `__peerData` of the notice that the other side closes.
fn is_closing(d: &Vec<(String, Packed)>) -> (r: bool)
    ensures
        r == closing(pairs(d@)),
{
    match find_pair(d, "type") {
        Some(Packed::Str(s)) => same(s.as_str(), "close"),
        _ => false,
    }
}

/// Adds a chunk at place `n`, in place of what stood there.
fn put_chunk(p: &mut Partial, n: u64, data: Vec<u8>)
    ensures
        final(p)@.total == old(p)@.total,
        final(p)@.parts == placed(old(p)@.parts, n, data@),
{
    let ghost s = p@.parts;
    let len: usize = p.parts.len();
    let mut i: usize = 0;
    assert(s.skip(0) =~= s);
    while i < len && p.parts[i].0 < n
        invariant
            len == p.parts@.len(),
            i <= len,
            s == chunks(p.parts@),
            p.total == old(p).total,
            place(s, n) == i + place(s.skip(i as int), n),
        decreases len - i,
    {
        assert(s.skip(i as int).drop_first() =~= s.skip(i as int + 1));
        i = i + 1;
    }
    assert(place(s, n) == i);
    if i < len && p.parts[i].0 == n {
        p.parts.set(i, (n, data));
    } else {
        p.parts.insert(i, (n, data));
    }
    assert(p@.parts =~= placed(s, n, data@));
}

/// Whether every chunk of the message is there, and no other.
fn is_complete(p: &Partial) -> (r: bool)
    ensures
        r == complete(p@),
{
    let len: usize = p.parts.len();
    if len as u64 != p.total {
        return false;
    }
    let mut i: usize = 0;
    while i < len
        invariant
            len == p.parts@.len(),
            i <= len,
            forall|k: int| 0 <= k < i ==> (#[trigger] p@.parts[k]).0 == k,
        decreases len - i,
    {
        if p.parts[i].0 != i as u64 {
            assert(p@.parts[i as int].0 != i);
            return false;
        }
        i = i + 1;
    }
    true
}

/// The chunks one after another.
fn join(p: &Partial) -> (r: Vec<u8>)
    ensures
        r@ == joined(p@.parts),
{
    let len: usize = p.parts.len();
    let mut r: Vec<u8> = Vec::new();
    let mut i: usize = 0;
    let ghost s = p@.parts;
    assert(s.take(0) =~= Seq::empty());
    while i < len
        invariant
            len == p.parts@.len(),
            i <= len,
            s == p@.parts,
            r@ == joined(s.take(i as int)),
        decreases len - i,
    {
        push_all(&mut r, p.parts[i].1.as_slice());
        assert(s.take(i as int + 1).drop_last() =~= s.take(i as int));
        i = i + 1;
    }
    assert(s.take(len as int) =~= s);
    r
}

/// What arrives when frames are taken in one after another: the table of partial messages
/// after them, and what each of them brought.
pub open spec fn received(t: Map<u64, PartialView>, f: Seq<Seq<u8>>) -> (
    Map<u64, PartialView>,
    Seq<Option<JsonView>>,
)
    decreases f.len(),
{
    if f.len() == 0 {
        (t, Seq::empty())
    } else {
        let (u, s) = received(t, f.drop_last());
        let (w, r) = delivered(u, f.last());
        (w, s.push(r))
    }
}

/// A message of the application, as against one that belongs to the transport.
pub open spec fn plain(msg: JsonView) -> bool {
    unjson(msg) matches PackedView::Dict(m) ==> !internal(m)
}

/// The first `k` chunks of a payload.
spec fn first_chunks(blob: Seq<u8>, k: nat) -> Seq<(u64, Seq<u8>)> {
    Seq::new(k, |n: int| (n as u64, piece(blob, n)))
}

/// A character takes at most four bytes.
proof fn lemma_encoded_length(s: Seq<char>)
    ensures
        encode_utf8(s).len() <= 4 * s.len(),
    decreases s.len(),
{
    if s.len() > 0 {
        lemma_encoded_length(s.drop_first());
    }
}

/// A chunk's frame is read as that chunk.
proof fn lemma_chunk_frame(id: u64, n: u64, total: u64, data: Seq<u8>)
    requires
        data.len() <= CHUNKED_MTU,
    ensures
        parsed(packed(chunk_value(id, n, total, data))) matches Some((v, _)) && v == chunk_value(
            id,
            n,
            total,
            data,
        ),
        internal(chunk_value(id, n, total, data)->Dict_0),
        chunk(chunk_value(id, n, total, data)->Dict_0) == Some(ChunkView { id, n, total, data }),
{
    reveal_strlit("__peerData");
    reveal_strlit("n");
    reveal_strlit("total");
    reveal_strlit("data");
    let v = chunk_value(id, n, total, data);
    let m = v->Dict_0;
    assert("__peerData"@.len() == 10);
    assert("n"@.len() == 1);
    assert("total"@.len() == 5);
    assert("data"@.len() == 4);
    reveal_with_fuel(pair, 5);
    reveal_with_fuel(packable, 2);
    assert(m.drop_first() =~= m.skip(1));
    assert(m.skip(1).drop_first() =~= m.skip(2));
    assert(m.skip(2).drop_first() =~= m.skip(3));
    lemma_encoded_length("__peerData"@);
    lemma_encoded_length("n"@);
    lemma_encoded_length("total"@);
    lemma_encoded_length("data"@);
    law_unpack_pack(v, Seq::empty());
    assert(packed(v) + Seq::<u8>::empty() =~= packed(v));
}

/// Chunks that all stand before place `k` are followed by the one at `k`.
proof fn lemma_place_behind(s: Seq<(u64, Seq<u8>)>, k: u64)
    requires
        forall|i: int| 0 <= i < s.len() ==> (#[trigger] s[i]).0 < k,
    ensures
        place(s, k) == s.len(),
    decreases s.len(),
{
    if s.len() > 0 {
        assert forall|i: int| 0 <= i < s.drop_first().len() implies (
        #[trigger] s.drop_first()[i]).0 < k by {
            assert(s.drop_first()[i] == s[i + 1]);
        }
        lemma_place_behind(s.drop_first(), k);
    }
}

/// The first chunks make the front of the payload.
proof fn lemma_joined_chunks(blob: Seq<u8>, k: nat)
    requires
        k * CHUNKED_MTU <= blob.len() || k == chunk_count(blob),
        k <= chunk_count(blob),
    ensures
        joined(first_chunks(blob, k)) == blob.take(
            if k * CHUNKED_MTU < blob.len() {
                k * CHUNKED_MTU
            } else {
                blob.len() as int
            },
        ),
    decreases k,
{
    let c = first_chunks(blob, k);
    if k == 0 {
        assert(joined(c) =~= Seq::empty());
        assert(blob.take(0) =~= Seq::empty());
    } else {
        let j = (k - 1) as nat;
        assert(j * CHUNKED_MTU <= blob.len());
        lemma_joined_chunks(blob, j);
        assert(c.drop_last() =~= first_chunks(blob, j));
        assert(c.last().1 == piece(blob, j as int));
        assert(joined(c) =~= blob.take(
            if k * CHUNKED_MTU < blob.len() {
                k * CHUNKED_MTU
            } else {
                blob.len() as int
            },
        ));
    }
}

/// Taking in the first `k` chunks of a payload leaves them in the table, and brings nothing.
proof fn lemma_first_chunks(t: Map<u64, PartialView>, blob: Seq<u8>, id: u64, k: nat)
    requires
        CHUNKED_MTU < blob.len() <= u64::MAX,
        0 < k < chunk_count(blob),
        !t.dom().contains(id),
    ensures
        ({
            let (u, s) = received(t, frames(blob, id).take(k as int));
            &&& u == t.insert(
                id,
                PartialView {
                    total: chunk_count(blob) as u64,
                    parts: first_chunks(blob, k),
                },
            )
            &&& s.len() == k
            &&& forall|i: int| 0 <= i < k ==> (#[trigger] s[i]) is None
        }),
    decreases k,
{
    let total = chunk_count(blob) as u64;
    let f = frames(blob, id).take(k as int);
    let j = (k - 1) as nat;
    assert(f.drop_last() =~= frames(blob, id).take(j as int));
    let (u, s) = received(t, f.drop_last());
    if j > 0 {
        lemma_first_chunks(t, blob, id, j);
    } else {
        assert(first_chunks(blob, 0) =~= Seq::empty());
    }
    let c = ChunkView { id, n: j as u64, total, data: piece(blob, j as int) };
    assert(f.last() == packed(chunk_value(id, c.n, total, c.data)));
    lemma_chunk_frame(id, c.n, total, c.data);
    lemma_place_behind(first_chunks(blob, j), c.n);
    assert(placed(first_chunks(blob, j), c.n, c.data) =~= first_chunks(blob, k));
    let p = PartialView { total, parts: first_chunks(blob, k) };
    assert(extended(u, c) == p);
    assert(absorbed(u, f.last()) == (u.insert(id, p), Absorbed::Nothing));
    assert(u.insert(id, p) =~= t.insert(id, p));
}

/// Decoding the frames of a message, in the order in which they were encoded, brings that
/// message with the last of them and nothing before, and leaves no partial message behind.
///
/// The number of a chunked message is not in use by another one that is still incomplete.
pub proof fn law_decode_encode(t: Map<u64, PartialView>, msg: JsonView, id: u64)
    requires
        msg.wf(),
        packable(unjson(msg)),
        plain(msg),
        message_bytes(msg).len() <= u64::MAX,
        message_bytes(msg).len() > CHUNKED_MTU ==> !t.dom().contains(id),
    ensures
        ({
            let f = frames(message_bytes(msg), id);
            let (u, s) = received(t, f);
            &&& u == t
            &&& s.len() == f.len()
            &&& s.last() == Some(msg)
            &&& forall|i: int| 0 <= i < f.len() - 1 ==> (#[trigger] s[i]) is None
        }),
{
    let blob = message_bytes(msg);
    let f = frames(blob, id);
    lemma_whole_message(t, msg);
    if blob.len() <= CHUNKED_MTU {
        assert(f.drop_last() =~= Seq::empty());
        reveal_with_fuel(received, 2);
    } else {
        let total = chunk_count(blob);
        let j = (total - 1) as nat;
        lemma_first_chunks(t, blob, id, j);
        assert(f.drop_last() =~= f.take(j as int));
        let (u, s) = received(t, f.drop_last());
        let c = ChunkView { id, n: j as u64, total: total as u64, data: piece(blob, j as int) };
        lemma_chunk_frame(id, c.n, c.total, c.data);
        lemma_place_behind(first_chunks(blob, j), c.n);
        assert(placed(first_chunks(blob, j), c.n, c.data) =~= first_chunks(blob, total));
        lemma_joined_chunks(blob, total);
        assert(blob.take(blob.len() as int) =~= blob);
        assert(u.remove(id) =~= t);
        assert(absorbed(u, f.last()) == (t, Absorbed::Whole(blob)));
        lemma_absorbing_shrinks(u, f.last());
        assert(delivered(u, f.last()) == delivered(t, blob));
    }
}

/// Taking in some bytes leaves the partial message `id` alone: neither they nor what their chunk
/// completes are a chunk of it.
pub open spec fn spares(t: Map<u64, PartialView>, b: Seq<u8>, id: u64) -> bool
    decreases weight(t) + b.len(),
{
    proof {
        lemma_absorbing_shrinks(t, b);
    }
    &&& match parsed(b) {
        Some((PackedView::Dict(m), _)) => match chunk(m) {
            Some(c) => c.id != id,
            None => true,
        },
        _ => true,
    }
    &&& match absorbed(t, b) {
        (u, Absorbed::Whole(w)) => spares(u, w, id),
        _ => true,
    }
}

/// Bytes that leave a partial message alone change nothing of it.
proof fn lemma_spared(t: Map<u64, PartialView>, b: Seq<u8>, id: u64)
    requires
        spares(t, b, id),
    ensures
        ({
            let u = delivered(t, b).0;
            &&& u.dom().contains(id) == t.dom().contains(id)
            &&& t.dom().contains(id) ==> u[id] == t[id]
        }),
    decreases weight(t) + b.len(),
{
    lemma_absorbing_shrinks(t, b);
    if let (u, Absorbed::Whole(w)) = absorbed(t, b) {
        lemma_spared(u, w, id);
    }
}

/// The first `m` chunks of a payload without those that arrive only after `k` frames, where chunk
/// `n` is frame `own[n]`.
spec fn arrived(blob: Seq<u8>, own: Seq<int>, k: int, m: nat) -> Seq<(u64, Seq<u8>)>
    decreases m,
{
    if m == 0 {
        Seq::empty()
    } else {
        let n = m - 1;
        let front = arrived(blob, own, k, n as nat);
        if own[n] < k {
            front.push((n as u64, piece(blob, n)))
        } else {
            front
        }
    }
}

/// How many of the first `m` chunks have arrived; all of them are the first chunks.
proof fn lemma_arrived(blob: Seq<u8>, own: Seq<int>, k: int, m: nat)
    requires
        m <= u64::MAX,
    ensures
        ({
            let a = arrived(blob, own, k, m);
            &&& a.len() <= m
            &&& forall|i: int| 0 <= i < a.len() ==> (#[trigger] a[i]).0 < m
            &&& (forall|n: int| 0 <= n < m ==> (#[trigger] own[n]) < k) ==> a == first_chunks(
                blob,
                m,
            )
            &&& (exists|n: int| 0 <= n < m && (#[trigger] own[n]) >= k) ==> a.len() < m
            &&& (exists|n: int| 0 <= n < m && (#[trigger] own[n]) < k) ==> a.len() > 0
            &&& (forall|n: int| 0 <= n < m ==> (#[trigger] own[n]) >= k) ==> a.len() == 0
        }),
    decreases m,
{
    let a = arrived(blob, own, k, m);
    if m == 0 {
        assert(a =~= first_chunks(blob, 0));
    } else {
        let n = (m - 1) as nat;
        lemma_arrived(blob, own, k, n);
        let f = arrived(blob, own, k, n);
        if forall|i: int| 0 <= i < m ==> (#[trigger] own[i]) < k {
            assert(own[n as int] < k);
            assert(a =~= first_chunks(blob, m));
        }
        if exists|i: int| 0 <= i < m && (#[trigger] own[i]) >= k {
            let i = choose|i: int| 0 <= i < m && (#[trigger] own[i]) >= k;
            assert(i < n || i == n);
        }
        if exists|i: int| 0 <= i < m && (#[trigger] own[i]) < k {
            let i = choose|i: int| 0 <= i < m && (#[trigger] own[i]) < k;
            assert(i < n || i == n);
        }
        if forall|i: int| 0 <= i < m ==> (#[trigger] own[i]) >= k {
            assert(own[n as int] >= k);
        }
    }
}

/// A chunk behind place `n` does not change that place.
proof fn lemma_place_before(s: Seq<(u64, Seq<u8>)>, x: (u64, Seq<u8>), n: u64)
    requires
        x.0 > n,
    ensures
        place(s.push(x), n) == place(s, n),
    decreases s.len(),
{
    if s.len() > 0 {
        assert(s.push(x).drop_first() =~= s.drop_first().push(x));
        lemma_place_before(s.drop_first(), x, n);
    } else {
        assert(s.push(x)[0] == x);
    }
}

/// When frame `k` is chunk `n`, it is placed among those that have arrived.
proof fn lemma_arrives(blob: Seq<u8>, own: Seq<int>, k: int, n: int, m: nat)
    requires
        0 <= n < m <= own.len(),
        m <= u64::MAX,
        own[n] == k,
        own.no_duplicates(),
    ensures
        arrived(blob, own, k + 1, m) == placed(
            arrived(blob, own, k, m),
            n as u64,
            piece(blob, n),
        ),
    decreases m,
{
    let l = (m - 1) as nat;
    let a = arrived(blob, own, k, m);
    if l == n {
        lemma_same_arrived(blob, own, k, l);
        lemma_arrived(blob, own, k, l);
        lemma_place_behind(a, n as u64);
        assert(placed(a, n as u64, piece(blob, n)) =~= a.push((n as u64, piece(blob, n))));
    } else {
        lemma_arrives(blob, own, k, n, l);
        assert(own[l as int] != k);
        if own[l as int] < k {
            let s = arrived(blob, own, k, l);
            let x = (l as u64, piece(blob, l as int));
            assert(a == s.push(x));
            lemma_place_before(s, x, n as u64);
            lemma_place_bound(s, n as u64);
            assert(placed(a, n as u64, piece(blob, n)) =~= placed(
                s,
                n as u64,
                piece(blob, n),
            ).push(x));
        }
    }
}

/// A frame that is none of the first `m` chunks changes nothing of what has arrived of them.
proof fn lemma_same_arrived(blob: Seq<u8>, own: Seq<int>, k: int, m: nat)
    requires
        forall|n: int| 0 <= n < m ==> (#[trigger] own[n]) != k,
    ensures
        arrived(blob, own, k + 1, m) == arrived(blob, own, k, m),
    decreases m,
{
    if m > 0 {
        lemma_same_arrived(blob, own, k, (m - 1) as nat);
        assert(own[m - 1] != k);
    }
}

/// Where the frames of a message stand among others: frame `n` of `f` is the one at `own[n]` of
/// `g`, and no two are at one place.
pub open spec fn stand_at(f: Seq<Seq<u8>>, g: Seq<Seq<u8>>, own: Seq<int>) -> bool {
    &&& own.len() == f.len()
    &&& own.no_duplicates()
    &&& forall|n: int|
        0 <= n < own.len() ==> 0 <= (#[trigger] own[n]) < g.len() && g[own[n]] == f[n]
}

/// The frames among `g` that are not at the places `own` leave the partial message `id` alone.
pub open spec fn others_spare(
    t: Map<u64, PartialView>,
    g: Seq<Seq<u8>>,
    own: Seq<int>,
    id: u64,
) -> bool {
    forall|i: int|
        0 <= i < g.len() && !own.contains(i) ==> spares(
            received(t, g.take(i)).0,
            #[trigger] g[i],
            id,
        )
}

/// What frame `n` of a message brings: the last of the frames to come the message, and each other
/// one nothing.
pub open spec fn brings(s: Seq<Option<JsonView>>, own: Seq<int>, n: int, msg: JsonView) -> bool {
    s[own[n]] == if forall|m: int| 0 <= m < own.len() ==> (#[trigger] own[m]) <= own[n] {
        Some(msg)
    } else {
        None
    }
}

/// Each frame brings one thing, and frames that follow do not change what it brought.
proof fn lemma_received_prefix(t: Map<u64, PartialView>, g: Seq<Seq<u8>>, k: int)
    requires
        0 <= k < g.len(),
    ensures
        received(t, g).1.len() == g.len(),
        received(t, g).1[k] == delivered(received(t, g.take(k)).0, g[k]).1,
    decreases g.len(),
{
    let h = g.drop_last();
    if k < g.len() - 1 {
        lemma_received_prefix(t, h, k);
        assert(h.take(k) =~= g.take(k));
    } else {
        assert(h =~= g.take(k));
        if h.len() > 0 {
            lemma_received_prefix(t, h, 0);
        }
    }
}

/// What the table holds of a chunked message after the first `k` frames: the chunks that have
/// arrived, while some have and some have not.
spec fn holds_arrived(
    u: Map<u64, PartialView>,
    blob: Seq<u8>,
    own: Seq<int>,
    id: u64,
    k: int,
) -> bool {
    let a = arrived(blob, own, k, own.len());
    if 0 < a.len() < own.len() {
        u.dom().contains(id) && u[id] == (PartialView { total: own.len() as u64, parts: a })
    } else {
        !u.dom().contains(id)
    }
}

/// A frame of a chunked message, with what has arrived before it.
proof fn lemma_own_frame(
    u: Map<u64, PartialView>,
    msg: JsonView,
    id: u64,
    own: Seq<int>,
    n: int,
)
    requires
        msg.wf(),
        packable(unjson(msg)),
        plain(msg),
        CHUNKED_MTU < message_bytes(msg).len() <= u64::MAX,
        own.len() == chunk_count(message_bytes(msg)),
        own.no_duplicates(),
        0 <= n < own.len(),
        holds_arrived(u, message_bytes(msg), own, id, own[n]),
    ensures
        ({
            let (w, r) = delivered(u, frames(message_bytes(msg), id)[n]);
            &&& holds_arrived(w, message_bytes(msg), own, id, own[n] + 1)
            &&& r == if forall|m: int| 0 <= m < own.len() ==> (#[trigger] own[m]) <= own[n] {
                Some(msg)
            } else {
                None
            }
        }),
{
    let blob = message_bytes(msg);
    let total = chunk_count(blob);
    let k = own[n];
    let b = frames(blob, id)[n];
    let c = ChunkView { id, n: n as u64, total: total as u64, data: piece(blob, n) };
    assert(total <= u64::MAX);
    assert(b == packed(chunk_value(id, c.n, c.total, c.data)));
    lemma_chunk_frame(id, c.n, c.total, c.data);
    let a = arrived(blob, own, k, total);
    let z = arrived(blob, own, k + 1, total);
    lemma_arrived(blob, own, k, total);
    lemma_arrived(blob, own, k + 1, total);
    lemma_arrives(blob, own, k, n, total);
    assert(own[n] >= k);
    assert(a.len() < total);
    assert(own[n] < k + 1);
    assert(z.len() > 0);
    let p = extended(u, c);
    assert(a.len() == 0 ==> a =~= Seq::empty());
    assert(p.total == total && p.parts == z);
    lemma_absorbing_shrinks(u, b);
    if forall|m: int| 0 <= m < own.len() ==> (#[trigger] own[m]) <= k {
        assert(forall|m: int| 0 <= m < total ==> (#[trigger] own[m]) < k + 1);
        assert(z == first_chunks(blob, total));
        assert(complete(p));
        lemma_joined_chunks(blob, total);
        assert(blob.take(blob.len() as int) =~= blob);
        assert(joined(p.parts) == blob);
        assert(absorbed(u, b) == (u.remove(id), Absorbed::Whole(blob)));
        lemma_whole_message(u.remove(id), msg);
        assert(delivered(u, b) == delivered(u.remove(id), blob));
        assert(z.len() == total);
    } else {
        let m = choose|m: int| 0 <= m < own.len() && (#[trigger] own[m]) > k;
        assert(own[m] >= k + 1);
        assert(z.len() < total);
        assert(!complete(p));
        assert(absorbed(u, b) == (u.insert(id, p), Absorbed::Nothing));
    }
}

/// The bytes of a message bring that message.
proof fn lemma_whole_message(t: Map<u64, PartialView>, msg: JsonView)
    requires
        msg.wf(),
        packable(unjson(msg)),
        plain(msg),
    ensures
        delivered(t, message_bytes(msg)) == (t, Some(msg)),
{
    let blob = message_bytes(msg);
    law_unpack_pack(unjson(msg), Seq::empty());
    assert(blob + Seq::<u8>::empty() =~= blob);
    law_json_survives_packing(msg);
    assert(absorbed(t, blob) == (t, Absorbed::Message(msg)));
}

/// What the table holds of a chunked message among other frames.
proof fn lemma_prefix_holds(
    t: Map<u64, PartialView>,
    msg: JsonView,
    id: u64,
    g: Seq<Seq<u8>>,
    own: Seq<int>,
    k: int,
)
    requires
        msg.wf(),
        packable(unjson(msg)),
        plain(msg),
        CHUNKED_MTU < message_bytes(msg).len() <= u64::MAX,
        !t.dom().contains(id),
        stand_at(frames(message_bytes(msg), id), g, own),
        others_spare(t, g, own, id),
        0 <= k <= g.len(),
    ensures
        holds_arrived(received(t, g.take(k)).0, message_bytes(msg), own, id, k),
    decreases k,
{
    let blob = message_bytes(msg);
    let total = chunk_count(blob);
    assert(own.len() == total);
    if k == 0 {
        assert(g.take(0) =~= Seq::empty());
        lemma_arrived(blob, own, 0, total);
        assert(forall|n: int| 0 <= n < total ==> (#[trigger] own[n]) >= 0);
    } else {
        let j = k - 1;
        lemma_prefix_holds(t, msg, id, g, own, j);
        assert(g.take(k).drop_last() =~= g.take(j));
        assert(g.take(k).last() == g[j]);
        let u = received(t, g.take(j)).0;
        if own.contains(j) {
            let n = choose|n: int| 0 <= n < own.len() && own[n] == j;
            lemma_own_frame(u, msg, id, own, n);
        } else {
            assert(spares(u, g[j], id));
            lemma_spared(u, g[j], id);
            assert forall|n: int| 0 <= n < total implies (#[trigger] own[n]) != j by {
                if own[n] == j {
                    assert(own.contains(j));
                }
            }
            lemma_same_arrived(blob, own, j, total);
        }
    }
}

/// Decoding the frames of a message in any order, with other frames in between, brings the
/// message with the last of them and nothing with each other one, and leaves no part of it
/// behind.
///
/// The number of a chunked message is not in use when its first frame comes, and the frames in
/// between leave it alone.
pub proof fn law_frames_may_come_in_any_order(
    t: Map<u64, PartialView>,
    msg: JsonView,
    id: u64,
    g: Seq<Seq<u8>>,
    own: Seq<int>,
)
    requires
        msg.wf(),
        packable(unjson(msg)),
        plain(msg),
        message_bytes(msg).len() <= u64::MAX,
        stand_at(frames(message_bytes(msg), id), g, own),
        message_bytes(msg).len() > CHUNKED_MTU ==> !t.dom().contains(id) && others_spare(
            t,
            g,
            own,
            id,
        ),
    ensures
        ({
            let (u, s) = received(t, g);
            &&& s.len() == g.len()
            &&& forall|n: int| 0 <= n < own.len() ==> #[trigger] brings(s, own, n, msg)
            &&& message_bytes(msg).len() > CHUNKED_MTU ==> !u.dom().contains(id)
        }),
{
    let blob = message_bytes(msg);
    let f = frames(blob, id);
    let (u, s) = received(t, g);
    assert(f.len() > 0);
    assert(0 <= own[0] < g.len());
    lemma_received_prefix(t, g, own[0]);
    assert forall|n: int| 0 <= n < own.len() implies #[trigger] brings(s, own, n, msg) by {
        let k = own[n];
        lemma_received_prefix(t, g, k);
        if blob.len() <= CHUNKED_MTU {
            lemma_whole_message(received(t, g.take(k)).0, msg);
            assert(own.len() == 1);
        } else {
            lemma_prefix_holds(t, msg, id, g, own, k);
            lemma_own_frame(received(t, g.take(k)).0, msg, id, own, n);
        }
    }
    if blob.len() > CHUNKED_MTU {
        let total = chunk_count(blob);
        lemma_prefix_holds(t, msg, id, g, own, g.len() as int);
        assert(g.take(g.len() as int) =~= g);
        lemma_arrived(blob, own, g.len() as int, total);
        assert(forall|n: int| 0 <= n < total ==> (#[trigger] own[n]) < g.len());
    }
}

} // verus!
