//! What stands on the wire, byte by byte.
use crate::binarypack::{
    big_endian, json, law_unpack_pack, lemma_marker, number, packable, packed, packed_text, parsed,
    PackedView,
};
use crate::codec::{absorbed, chunk_count, delivered, frames, pair, piece, Absorbed, PartialView};
use crate::jam::goodbye;
use crate::json::{JsonView, Number};
use vstd::prelude::*;
use vstd::utf8::*;

verus! {

/// Numbers are written with the highest byte first.
pub proof fn law_highest_byte_comes_first(n: nat)
    ensures
        big_endian(n, 1) == seq![(n % 256) as u8],
        big_endian(n, 2) == seq![(n / 256 % 256) as u8, (n % 256) as u8],
        big_endian(n, 4) == seq![
            (n / 256 / 256 / 256 % 256) as u8,
            (n / 256 / 256 % 256) as u8,
            (n / 256 % 256) as u8,
            (n % 256) as u8,
        ],
        big_endian(n, 8) == big_endian(n / 256 / 256 / 256 / 256, 4) + big_endian(n, 4),
{
    reveal_with_fuel(big_endian, 9);
    assert(big_endian(n, 1) =~= seq![(n % 256) as u8]);
    assert(big_endian(n, 2) =~= seq![(n / 256 % 256) as u8, (n % 256) as u8]);
    assert(big_endian(n, 4) =~= seq![
        (n / 256 / 256 / 256 % 256) as u8,
        (n / 256 / 256 % 256) as u8,
        (n / 256 % 256) as u8,
        (n % 256) as u8,
    ]);
    assert(big_endian(n, 8) =~= big_endian(n / 256 / 256 / 256 / 256, 4) + big_endian(n, 4));
}

/// Numbers are read with the highest byte first.
pub proof fn law_highest_byte_is_read_first(a: u8, b: u8, c: u8, d: u8, s: Seq<u8>)
    ensures
        number(seq![a]) == a,
        number(seq![a, b]) == a * 256 + b,
        number(seq![a, b, c, d]) == a * 0x100_0000 + b * 0x1_0000 + c * 256 + d,
        number(s.push(a)) == number(s) * 256 + a,
{
    reveal_with_fuel(number, 5);
    assert(seq![a].drop_last() =~= Seq::empty());
    assert(seq![a, b].drop_last() =~= seq![a]);
    assert(seq![a, b, c].drop_last() =~= seq![a, b]);
    assert(seq![a, b, c, d].drop_last() =~= seq![a, b, c]);
    assert(s.push(a).drop_last() =~= s);
}

/// Nothing, truth values, and numbers stand behind a marker of their own, small integers without
/// one.
pub proof fn law_scalar_layout(u: u64, i: i64, f: u64)
    ensures
        packed(PackedView::Null) == seq![0xc0u8],
        packed(PackedView::Bool(false)) == seq![0xc2u8],
        packed(PackedView::Bool(true)) == seq![0xc3u8],
        packed(PackedView::Float(f)) == seq![0xcbu8] + big_endian(f as nat, 8),
        u <= 0x7f ==> packed(PackedView::UInt(u)) == seq![u as u8],
        0x80 <= u <= 0xff ==> packed(PackedView::UInt(u)) == seq![0xccu8, u as u8],
        0x100 <= u <= 0xffff ==> packed(PackedView::UInt(u)) == seq![
            0xcdu8,
            (u / 256) as u8,
            (u % 256) as u8,
        ],
        0x1_0000 <= u <= 0xffff_ffff ==> packed(PackedView::UInt(u)) == seq![0xceu8] + big_endian(
            u as nat,
            4,
        ),
        0x1_0000_0000 <= u ==> packed(PackedView::UInt(u)) == seq![0xcfu8] + big_endian(
            u as nat,
            8,
        ),
        -0x20 <= i < 0 ==> packed(PackedView::Int(i)) == seq![(i + 0x100) as u8],
        -0x80 <= i < -0x20 ==> packed(PackedView::Int(i)) == seq![0xd0u8, (i + 0x100) as u8],
        -0x8000 <= i < -0x80 ==> packed(PackedView::Int(i)) == seq![0xd1u8] + big_endian(
            (i + 0x1_0000) as nat,
            2,
        ),
        -0x8000_0000 <= i < -0x8000 ==> packed(PackedView::Int(i)) == seq![0xd2u8] + big_endian(
            (i + 0x1_0000_0000) as nat,
            4,
        ),
        i < -0x8000_0000 ==> packed(PackedView::Int(i)) == seq![0xd3u8] + big_endian(
            (i + 0x1_0000_0000_0000_0000) as nat,
            8,
        ),
        0 <= i ==> packed(PackedView::Int(i)) == seq![0xd3u8] + big_endian(i as nat, 8),
{
    law_highest_byte_comes_first(u as nat);
    if -0x80 <= i < -0x20 {
        law_highest_byte_comes_first((i + 0x100) as nat);
        assert(packed(PackedView::Int(i)) =~= seq![0xd0u8, (i + 0x100) as u8]);
    }
    if 0x80 <= u <= 0xff {
        assert(packed(PackedView::UInt(u)) =~= seq![0xccu8, u as u8]);
    }
    if 0x100 <= u <= 0xffff {
        assert(packed(PackedView::UInt(u)) =~= seq![0xcdu8, (u / 256) as u8, (u % 256) as u8]);
    }
}

/// Texts and bytes stand behind a marker and their length in bytes; up to 15 the marker holds the
/// length.
pub proof fn law_text_layout(s: Seq<char>, b: Seq<u8>)
    ensures
        ({
            let t = encode_utf8(s);
            packed(PackedView::Str(s)) == if t.len() <= 15 {
                seq![(0xb0 + t.len()) as u8] + t
            } else if t.len() <= 0xffff {
                seq![0xd8u8] + big_endian(t.len(), 2) + t
            } else {
                seq![0xd9u8] + big_endian(t.len(), 4) + t
            }
        }),
        packed(PackedView::Bytes(b)) == if b.len() <= 15 {
            seq![(0xa0 + b.len()) as u8] + b
        } else if b.len() <= 0xffff {
            seq![0xdau8] + big_endian(b.len(), 2) + b
        } else {
            seq![0xdbu8] + big_endian(b.len(), 4) + b
        },
        packed_text(s) == packed(PackedView::Str(s)),
{
    let t = encode_utf8(s).len();
    let n = b.len();
    if t <= 15 {
        lemma_marker(0xb0, t as u8);
    }
    if n <= 15 {
        lemma_marker(0xa0, n as u8);
    }
}

/// What stands on the wire is read by its marker, whoever has written it; what is cut short is not
/// read at all.
pub proof fn law_scalars_are_read(b: Seq<u8>)
    requires
        b.len() > 0,
    ensures
        b[0] < 0x80 ==> parsed(b) == Some((PackedView::UInt(b[0] as u64), 1nat)),
        b[0] >= 0xe0 ==> parsed(b) == Some((PackedView::Int((b[0] - 0x100) as i64), 1nat)),
        b[0] == 0xc0 || b[0] == 0xc1 || 0xd4 <= b[0] <= 0xd7 ==> parsed(b) == Some(
            (PackedView::Null, 1nat),
        ),
        b[0] == 0xc2 ==> parsed(b) == Some((PackedView::Bool(false), 1nat)),
        b[0] == 0xc3 ==> parsed(b) == Some((PackedView::Bool(true), 1nat)),
        0xc4 <= b[0] <= 0xc9 ==> parsed(b) is None,
        b[0] == 0xcc && b.len() >= 2 ==> parsed(b) == Some((PackedView::UInt(b[1] as u64), 2nat)),
        b[0] == 0xcd && b.len() >= 3 ==> parsed(b) == Some(
            (PackedView::UInt((b[1] * 256 + b[2]) as u64), 3nat),
        ),
        b[0] == 0xce && b.len() >= 5 ==> parsed(b) == Some(
            (
                PackedView::UInt(
                    (b[1] * 0x100_0000 + b[2] * 0x1_0000 + b[3] * 256 + b[4]) as u64,
                ),
                5nat,
            ),
        ),
        b[0] == 0xd0 && b.len() >= 2 ==> parsed(b) == Some(
            (
                PackedView::Int(
                    (if b[1] < 0x80 {
                        b[1] as int
                    } else {
                        b[1] - 0x100
                    }) as i64,
                ),
                2nat,
            ),
        ),
        b[0] == 0xd1 && b.len() >= 3 ==> parsed(b) == Some(
            (
                PackedView::Int(
                    (if b[1] < 0x80 {
                        b[1] * 256 + b[2]
                    } else {
                        b[1] * 256 + b[2] - 0x1_0000
                    }) as i64,
                ),
                3nat,
            ),
        ),
        b[0] == 0xd2 && b.len() >= 5 ==> parsed(b) == Some(
            (
                PackedView::Int(
                    ({
                        let n = b[1] * 0x100_0000 + b[2] * 0x1_0000 + b[3] * 256 + b[4];
                        if b[1] < 0x80 {
                            n
                        } else {
                            n - 0x1_0000_0000
                        }
                    }) as i64,
                ),
                5nat,
            ),
        ),
        b.len() < 2 && (b[0] == 0xcc || b[0] == 0xd0) ==> parsed(b) is None,
        b.len() < 3 && (b[0] == 0xcd || b[0] == 0xd1) ==> parsed(b) is None,
        b.len() < 5 && (b[0] == 0xce || b[0] == 0xd2 || b[0] == 0xca) ==> parsed(b) is None,
        b.len() < 9 && (b[0] == 0xcf || b[0] == 0xd3 || b[0] == 0xcb) ==> parsed(b) is None,
{
    if b.len() >= 2 {
        assert(b.subrange(1, 2) =~= seq![b[1]]);
        law_highest_byte_is_read_first(b[1], 0, 0, 0, b);
    }
    if b.len() >= 3 {
        assert(b.subrange(1, 3) =~= seq![b[1], b[2]]);
        law_highest_byte_is_read_first(b[1], b[2], 0, 0, b);
    }
    if b.len() >= 5 {
        assert(b.subrange(1, 5) =~= seq![b[1], b[2], b[3], b[4]]);
        law_highest_byte_is_read_first(b[1], b[2], b[3], b[4], b);
    }
}

/// Bytes and texts that stand on the wire are read whole, as many as their marker says.
pub proof fn law_counted_bytes_are_read(data: Seq<u8>, rest: Seq<u8>)
    requires
        data.len() <= 15,
    ensures
        parsed(seq![(0xa0 + data.len()) as u8] + data + rest) == Some(
            (PackedView::Bytes(data), 1 + data.len()),
        ),
{
    let b = seq![(0xa0 + data.len()) as u8] + data + rest;
    assert(b.subrange(1, 1 + data.len() as int) =~= data);
}

/// The JSON value of a wire value: numbers and texts as they are, nothing for a number that JSON
/// cannot hold, and of bytes their length.
pub proof fn law_json_of_scalars(u: u64, i: i64, f: u64, s: Seq<char>, b: Seq<u8>)
    ensures
        json(PackedView::Null) == JsonView::Null,
        json(PackedView::Bool(true)) == JsonView::Bool(true),
        json(PackedView::Bool(false)) == JsonView::Bool(false),
        json(PackedView::UInt(u)) == JsonView::Number(Number::PosInt(u)),
        i < 0 ==> json(PackedView::Int(i)) == JsonView::Number(Number::NegInt(i)),
        i >= 0 ==> json(PackedView::Int(i)) == JsonView::Number(Number::PosInt(i as u64)),
        (f / 0x10_0000_0000_0000) % 2048 != 2047 ==> json(PackedView::Float(f))
            == JsonView::Number(Number::Float(f)),
        (f / 0x10_0000_0000_0000) % 2048 == 2047 ==> json(PackedView::Float(f)) == JsonView::Null,
        json(PackedView::Str(s)) == JsonView::Str(s),
        json(PackedView::Bytes(b)) == JsonView::Object(
            seq![("__bytes_len"@, JsonView::Number(Number::PosInt(b.len() as u64)))],
        ),
{
}

/// A message of up to 16300 bytes is one frame, as it is; a larger one is cut into chunks of that
/// size, of which only the last is smaller, and each chunk says which message it belongs to, its
/// place and how many there are.
pub proof fn law_large_messages_are_cut(blob: Seq<u8>, id: u64, n: int)
    requires
        blob.len() <= u64::MAX,
        0 <= n < chunk_count(blob),
    ensures
        blob.len() <= 16_300 ==> frames(blob, id) == seq![blob],
        blob.len() > 16_300 ==> {
            &&& frames(blob, id).len() == chunk_count(blob)
            &&& 16_300 * (chunk_count(blob) - 1) < blob.len() <= 16_300 * chunk_count(blob)
            &&& frames(blob, id)[n] == packed(
                PackedView::Dict(
                    seq![
                        ("__peerData"@, PackedView::UInt(id)),
                        ("n"@, PackedView::UInt(n as u64)),
                        ("total"@, PackedView::UInt(chunk_count(blob) as u64)),
                        (
                            "data"@,
                            PackedView::Bytes(
                                blob.subrange(
                                    16_300 * n,
                                    if n < chunk_count(blob) - 1 {
                                        16_300 * n + 16_300
                                    } else {
                                        blob.len() as int
                                    },
                                ),
                            ),
                        ),
                    ],
                ),
            )
        },
{
    let c = chunk_count(blob);
    assert(16_300 * (c - 1) < blob.len() <= 16_300 * c || blob.len() == 0);
    assert(piece(blob, n) =~= blob.subrange(
        16_300 * n,
        if n < c - 1 {
            16_300 * n + 16_300
        } else {
            blob.len() as int
        },
    ));
}

/// The notice that the other side closes brings no message, and leaves the partial messages alone.
pub proof fn law_goodbye_is_no_message(t: Map<u64, PartialView>)
    ensures
        delivered(t, packed(goodbye())) == (t, None::<JsonView>),
        pair(goodbye()->Dict_0, "__peerData"@) == Some(
            PackedView::Dict(seq![("type"@, PackedView::Str("close"@))]),
        ),
{
    reveal_strlit("__peerData");
    reveal_strlit("type");
    reveal_strlit("close");
    lemma_utf8_length("__peerData"@);
    lemma_utf8_length("type"@);
    lemma_utf8_length("close"@);
    let inner = PackedView::Dict(seq![("type"@, PackedView::Str("close"@))]);
    assert(packable(PackedView::Str("close"@)));
    assert(packable(inner));
    assert(goodbye()->Dict_0[0] == ("__peerData"@, inner));
    assert(packable(goodbye()));
    let b = packed(goodbye());
    law_unpack_pack(goodbye(), Seq::empty());
    assert(b + Seq::<u8>::empty() =~= b);
    lemma_goodbye(t, b);
}

/// Bytes that are read as the notice that the other side closes bring no message.
proof fn lemma_goodbye(t: Map<u64, PartialView>, b: Seq<u8>)
    requires
        parsed(b) == Some((goodbye(), b.len())),
    ensures
        delivered(t, b) == (t, None::<JsonView>),
        pair(goodbye()->Dict_0, "__peerData"@) == Some(
            PackedView::Dict(seq![("type"@, PackedView::Str("close"@))]),
        ),
{
    let d = seq![("type"@, PackedView::Str("close"@))];
    let m = goodbye()->Dict_0;
    assert(m[0] == ("__peerData"@, PackedView::Dict(d)));
    assert(pair(m, "__peerData"@) == Some(PackedView::Dict(d)));
    assert(d[0] == ("type"@, PackedView::Str("close"@)));
    assert(pair(d, "type"@) == Some(PackedView::Str("close"@)));
    assert(absorbed(t, b) == (t, Absorbed::Nothing));
}

/// A character takes up to four bytes.
proof fn lemma_utf8_length(s: Seq<char>)
    ensures
        encode_utf8(s).len() <= 4 * s.len(),
    decreases s.len(),
{
    if s.len() > 0 {
        lemma_utf8_length(s.drop_first());
    }
}

} // verus!
