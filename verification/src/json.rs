//! JSON values as the protocol reads and writes them.
//!
//! An object keeps its entries ordered by key, each key once; a number is an
//! unsigned integer, a negative integer, or a double held as its bits.
use crate::binary64::{finite, held, hold, scale_to_int, scaled};
use crate::text::same;
use vstd::prelude::*;
use vstd::utf8::*;

verus! {

/// A JSON number.
#[derive(Debug, Clone, Copy, PartialEq, Eq, Structural)]
pub enum Number {
    /// Zero or more.
    PosInt(u64),
    /// Less than zero.
    NegInt(i64),
    /// The bits of a finite double.
    Float(u64),
}

/// A JSON value.
#[derive(Debug, PartialEq)]
pub enum Json {
    Null,
    Bool(bool),
    Number(Number),
    Str(String),
    Array(Vec<Json>),
    Object(Vec<(String, Json)>),
}

/// What a JSON value is.
pub enum JsonView {
    Null,
    Bool(bool),
    Number(Number),
    Str(Seq<char>),
    Array(Seq<JsonView>),
    Object(Seq<(Seq<char>, JsonView)>),
}

impl View for Json {
    type V = JsonView;

    open spec fn view(&self) -> JsonView
        decreases self,
    {
        match self {
            Json::Null => JsonView::Null,
            Json::Bool(b) => JsonView::Bool(*b),
            Json::Number(n) => JsonView::Number(*n),
            Json::Str(s) => JsonView::Str(s@),
            Json::Array(v) => JsonView::Array(
                Seq::new(
                    v@.len(),
                    |i: int|
                        if 0 <= i < v@.len() {
                            v@[i].view()
                        } else {
                            JsonView::Null
                        },
                ),
            ),
            Json::Object(v) => JsonView::Object(
                Seq::new(
                    v@.len(),
                    |i: int|
                        if 0 <= i < v@.len() {
                            (v@[i].0@, v@[i].1.view())
                        } else {
                            (Seq::empty(), JsonView::Null)
                        },
                ),
            ),
        }
    }
}

/// The views of a list of values.
pub open spec fn items(s: Seq<Json>) -> Seq<JsonView> {
    Seq::new(s.len(), |i: int| s[i]@)
}

/// The views of a list of entries.
pub open spec fn entries(s: Seq<(String, Json)>) -> Seq<(Seq<char>, JsonView)> {
    Seq::new(s.len(), |i: int| (s[i].0@, s[i].1@))
}

/// The view of an array, by its items.
pub broadcast proof fn lemma_array_view(v: Vec<Json>)
    ensures
        #[trigger] Json::Array(v)@ == JsonView::Array(items(v@)),
{
    reveal_with_fuel(<Json as View>::view, 2);
    assert(Json::Array(v)@->Array_0 =~= items(v@));
}

/// The view of an object, by its entries.
pub broadcast proof fn lemma_object_view(v: Vec<(String, Json)>)
    ensures
        #[trigger] Json::Object(v)@ == JsonView::Object(entries(v@)),
{
    reveal_with_fuel(<Json as View>::view, 2);
    assert(Json::Object(v)@->Object_0 =~= entries(v@));
}

pub broadcast group group_json_views {
    lemma_array_view,
    lemma_object_view,
}

/// The order of byte strings.
pub open spec fn bytes_before(a: Seq<u8>, b: Seq<u8>) -> bool
    decreases a.len(),
{
    if b.len() == 0 {
        false
    } else if a.len() == 0 {
        true
    } else if a[0] != b[0] {
        a[0] < b[0]
    } else {
        bytes_before(a.drop_first(), b.drop_first())
    }
}

/// The order of keys: by the bytes of their text.
pub open spec fn before(a: Seq<char>, b: Seq<char>) -> bool {
    bytes_before(encode_utf8(a), encode_utf8(b))
}

/// How many entries at the front have a key before `k`.
pub open spec fn rank(o: Seq<(Seq<char>, JsonView)>, k: Seq<char>) -> nat
    decreases o.len(),
{
    if o.len() > 0 && before(o[0].0, k) {
        1 + rank(o.drop_first(), k)
    } else {
        0
    }
}

/// The entries with `k` standing for `v`: in its place in the order, or in
/// place of the value that `k` had.
pub open spec fn with_entry(
    o: Seq<(Seq<char>, JsonView)>,
    k: Seq<char>,
    v: JsonView,
) -> Seq<(Seq<char>, JsonView)> {
    let i = rank(o, k) as int;
    if i < o.len() && o[i].0 == k {
        o.update(i, (k, v))
    } else {
        o.insert(i, (k, v))
    }
}

/// The value of the first entry with key `k`.
pub open spec fn entry(o: Seq<(Seq<char>, JsonView)>, k: Seq<char>) -> Option<JsonView>
    decreases o.len(),
{
    if o.len() == 0 {
        None
    } else if o[0].0 == k {
        Some(o[0].1)
    } else {
        entry(o.drop_first(), k)
    }
}

/// Keys in strictly ascending order.
pub open spec fn ascending(o: Seq<(Seq<char>, JsonView)>) -> bool {
    forall|i: int, j: int| 0 <= i < j < o.len() ==> before(o[i].0, o[j].0)
}

impl JsonView {
    /// Keys ascend, and numbers are what their variants say, all the way down.
    pub open spec fn wf(self) -> bool
        decreases self,
    {
        match self {
            JsonView::Number(Number::NegInt(i)) => i < 0,
            JsonView::Number(Number::Float(b)) => finite(b),
            JsonView::Array(a) => forall|i: int| 0 <= i < a.len() ==> (#[trigger] a[i]).wf(),
            JsonView::Object(o) => ascending(o) && forall|i: int|
                0 <= i < o.len() ==> (#[trigger] o[i]).1.wf(),
            _ => true,
        }
    }

    /// The value of a key; nothing where this is no object or has no such key.
    pub open spec fn get(self, k: Seq<char>) -> Option<JsonView> {
        match self {
            JsonView::Object(o) => entry(o, k),
            _ => None,
        }
    }

    /// The text of a string.
    pub open spec fn text(self) -> Option<Seq<char>> {
        match self {
            JsonView::Str(s) => Some(s),
            _ => None,
        }
    }

    /// The text of a key's string.
    pub open spec fn text_at(self, k: Seq<char>) -> Option<Seq<char>> {
        match self.get(k) {
            Some(v) => v.text(),
            None => None,
        }
    }

    /// The text of a key's string, or `default`.
    pub open spec fn text_or(self, k: Seq<char>, default: Seq<char>) -> Seq<char> {
        match self.text_at(k) {
            Some(s) => s,
            None => default,
        }
    }

    /// The truth value of a key.
    pub open spec fn bool_at(self, k: Seq<char>) -> Option<bool> {
        match self.get(k) {
            Some(JsonView::Bool(b)) => Some(b),
            _ => None,
        }
    }

    /// The number of a key.
    pub open spec fn number_at(self, k: Seq<char>) -> Option<Number> {
        match self.get(k) {
            Some(JsonView::Number(n)) => Some(n),
            _ => None,
        }
    }

    /// The items of a key's array.
    pub open spec fn array_at(self, k: Seq<char>) -> Option<Seq<JsonView>> {
        match self.get(k) {
            Some(JsonView::Array(a)) => Some(a),
            _ => None,
        }
    }

    /// The number of a key as a signed integer, where it is one.
    pub open spec fn int_at(self, k: Seq<char>) -> Option<i64> {
        match self.number_at(k) {
            Some(n) => n.signed(),
            None => None,
        }
    }

    /// The number of a key as an unsigned integer, where it is one.
    pub open spec fn uint_at(self, k: Seq<char>) -> Option<u64> {
        match self.number_at(k) {
            Some(Number::PosInt(n)) => Some(n),
            _ => None,
        }
    }

    /// The number of a key times `scale`, as a whole number.
    pub open spec fn scaled_at(self, k: Seq<char>, scale: nat) -> Option<int> {
        match self.number_at(k) {
            Some(n) => Some(n.times(scale)),
            None => None,
        }
    }
}

impl Number {
    /// The number as a signed integer, where it is one.
    pub open spec fn signed(self) -> Option<i64> {
        match self {
            Number::PosInt(n) => if n <= i64::MAX {
                Some(n as i64)
            } else {
                None
            },
            Number::NegInt(n) => Some(n),
            Number::Float(_) => None,
        }
    }

    /// The number times `scale`, rounded to a whole number and held to the limit.
    pub open spec fn times(self, scale: nat) -> int {
        match self {
            Number::PosInt(n) => held(n * scale),
            Number::NegInt(n) => held(n * scale),
            Number::Float(b) => scaled(b, scale),
        }
    }

    /// The number as a signed integer, where it is one.
    pub fn as_i64(&self) -> (r: Option<i64>)
        ensures
            r == self.signed(),
    {
        match *self {
            Number::PosInt(n) => if n <= i64::MAX as u64 {
                Some(n as i64)
            } else {
                None
            },
            Number::NegInt(n) => Some(n),
            Number::Float(_) => None,
        }
    }

    /// The number times `scale`, rounded to a whole number and held to the limit.
    pub fn to_scale(&self, scale: u64) -> (r: i64)
        requires
            1 <= scale <= 1_000_000,
        ensures
            r == self.times(scale as nat),
            -crate::binary64::LIMIT <= r <= crate::binary64::LIMIT,
    {
        match *self {
            Number::PosInt(n) => {
                assert(0 <= n * scale <= 0xffff_ffff_ffff_ffff * 1_000_000) by (nonlinear_arith)
                    requires
                        0 <= n <= 0xffff_ffff_ffff_ffff,
                        1 <= scale <= 1_000_000,
                ;
                hold(n as i128 * scale as i128)
            },
            Number::NegInt(n) => {
                assert(-0x8000_0000_0000_0000 * 1_000_000 <= n * scale <= 0x8000_0000_0000_0000
                    * 1_000_000) by (nonlinear_arith)
                    requires
                        -0x8000_0000_0000_0000 <= n <= 0x8000_0000_0000_0000,
                        1 <= scale <= 1_000_000,
                ;
                hold(n as i128 * scale as i128)
            },
            Number::Float(b) => scale_to_int(b, scale),
        }
    }
}

impl Clone for Json {
    fn clone(&self) -> (r: Self)
        ensures
            r@ == self@,
        decreases self,
    {
        match self {
            Json::Null => Json::Null,
            Json::Bool(b) => Json::Bool(*b),
            Json::Number(n) => Json::Number(*n),
            Json::Str(s) => Json::Str(s.clone()),
            Json::Array(v) => {
                let mut out: Vec<Json> = Vec::new();
                let n: usize = v.len();
                let mut i: usize = 0;
                while i < n
                    invariant
                        n == v@.len(),
                        i <= n,
                        out@.len() == i,
                        forall|k: int| 0 <= k < i ==> out@[k]@ == v@[k]@,
                        decreases_to!(self => v@),
                    decreases n - i,
                {
                    assert(decreases_to!(v@ => v@[i as int]));
                    out.push(v[i].clone());
                    i = i + 1;
                }
                proof {
                    broadcast use group_json_views;

                    assert(items(out@) =~= items(v@));
                }
                Json::Array(out)
            },
            Json::Object(v) => {
                let mut out: Vec<(String, Json)> = Vec::new();
                let n: usize = v.len();
                let mut i: usize = 0;
                while i < n
                    invariant
                        n == v@.len(),
                        i <= n,
                        out@.len() == i,
                        forall|k: int|
                            0 <= k < i ==> out@[k].0@ == v@[k].0@ && out@[k].1@ == v@[k].1@,
                        decreases_to!(self => v@),
                    decreases n - i,
                {
                    assert(decreases_to!(v@ => v@[i as int]));
                    let e = &v[i];
                    out.push((e.0.clone(), e.1.clone()));
                    i = i + 1;
                }
                proof {
                    broadcast use group_json_views;

                    assert(entries(out@) =~= entries(v@));
                }
                Json::Object(out)
            },
        }
    }
}

impl Json {
    /// The value of a key; nothing where this is no object or has no such key.
    pub fn get(&self, key: &str) -> (r: Option<&Json>)
        ensures
            match r {
                Some(v) => self@.get(key@) == Some(v@),
                None => self@.get(key@) is None,
            },
    {
        match self {
            Json::Object(m) => {
                let n: usize = m.len();
                let mut i: usize = 0;
                proof {
                    broadcast use group_json_views;

                    assert(entries(m@).skip(0) =~= entries(m@));
                }
                while i < n
                    invariant
                        n == m@.len(),
                        i <= n,
                        entry(entries(m@), key@) == entry(entries(m@).skip(i as int), key@),
                        self@ == JsonView::Object(entries(m@)),
                    decreases n - i,
                {
                    let e = &m[i];
                    if same(e.0.as_str(), key) {
                        return Some(&e.1);
                    }
                    proof {
                        assert(entries(m@).skip(i as int).drop_first() =~= entries(m@).skip(
                            i as int + 1,
                        ));
                    }
                    i = i + 1;
                }
                None
            },
            _ => None,
        }
    }

    /// The text of a string.
    pub fn as_str(&self) -> (r: Option<&str>)
        ensures
            match r {
                Some(s) => self@.text() == Some(s@),
                None => self@.text() is None,
            },
    {
        match self {
            Json::Str(s) => Some(s.as_str()),
            _ => None,
        }
    }

    /// The text of a key's string.
    pub fn str_at(&self, key: &str) -> (r: Option<&str>)
        ensures
            match r {
                Some(s) => self@.text_at(key@) == Some(s@),
                None => self@.text_at(key@) is None,
            },
    {
        match self.get(key) {
            Some(v) => v.as_str(),
            None => None,
        }
    }

    /// The text of a key's string, or `default`.
    pub fn str_or(&self, key: &str, default: &str) -> (r: String)
        ensures
            r@ == self@.text_or(key@, default@),
    {
        match self.str_at(key) {
            Some(s) => s.to_owned(),
            None => default.to_owned(),
        }
    }

    /// The truth value of a key.
    pub fn bool_at(&self, key: &str) -> (r: Option<bool>)
        ensures
            r == self@.bool_at(key@),
    {
        match self.get(key) {
            Some(v) => match v {
                Json::Bool(b) => Some(*b),
                _ => None,
            },
            None => None,
        }
    }

    /// The number of a key.
    pub fn number_at(&self, key: &str) -> (r: Option<Number>)
        ensures
            r == self@.number_at(key@),
    {
        match self.get(key) {
            Some(v) => match v {
                Json::Number(n) => Some(*n),
                _ => None,
            },
            None => None,
        }
    }

    /// The items of a key's array.
    pub fn array_at(&self, key: &str) -> (r: Option<&Vec<Json>>)
        ensures
            match r {
                Some(a) => self@.array_at(key@) == Some(items(a@)),
                None => self@.array_at(key@) is None,
            },
    {
        match self.get(key) {
            Some(v) => match v {
                Json::Array(a) => {
                    proof {
                        broadcast use group_json_views;

                        assert(v@ == JsonView::Array(items(a@)));
                    }
                    Some(a)
                },
                _ => None,
            },
            None => None,
        }
    }

    /// The number of a key as a signed integer, where it is one.
    pub fn int_at(&self, key: &str) -> (r: Option<i64>)
        ensures
            r == self@.int_at(key@),
    {
        match self.number_at(key) {
            Some(n) => n.as_i64(),
            None => None,
        }
    }

    /// The number of a key as an unsigned integer, where it is one.
    pub fn uint_at(&self, key: &str) -> (r: Option<u64>)
        ensures
            r == self@.uint_at(key@),
    {
        match self.number_at(key) {
            Some(Number::PosInt(n)) => Some(n),
            _ => None,
        }
    }

    /// The number of a key times `scale`, as a whole number.
    pub fn scaled_at(&self, key: &str, scale: u64) -> (r: Option<i64>)
        requires
            1 <= scale <= 1_000_000,
        ensures
            match r {
                Some(n) => self@.scaled_at(key@, scale as nat) == Some(n as int),
                None => self@.scaled_at(key@, scale as nat) is None,
            },
    {
        match self.number_at(key) {
            Some(n) => Some(n.to_scale(scale)),
            None => None,
        }
    }
}

/// Whether the bytes of `a` come before those of `b`.
fn comes_before(a: &str, b: &str) -> (r: bool)
    ensures
        r == before(a@, b@),
{
    let x = a.as_bytes();
    let y = b.as_bytes();
    let n: usize = x.len();
    let m: usize = y.len();
    let mut i: usize = 0;
    proof {
        assert(x@.skip(0) =~= x@);
        assert(y@.skip(0) =~= y@);
    }
    while i < n && i < m
        invariant
            n == x@.len(),
            m == y@.len(),
            i <= n,
            i <= m,
            bytes_before(x@, y@) == bytes_before(x@.skip(i as int), y@.skip(i as int)),
            x@ == encode_utf8(a@),
            y@ == encode_utf8(b@),
        decreases n - i,
    {
        if x[i] != y[i] {
            return x[i] < y[i];
        }
        proof {
            assert(x@.skip(i as int).drop_first() =~= x@.skip(i as int + 1));
            assert(y@.skip(i as int).drop_first() =~= y@.skip(i as int + 1));
        }
        i = i + 1;
    }
    i < m
}

/// Gives `k` the value `v` among the entries of an object.
pub fn put(o: &mut Vec<(String, Json)>, k: String, v: Json)
    ensures
        entries(final(o)@) == with_entry(entries(old(o)@), k@, v@),
{
    let ghost e = entries(o@);
    let ghost o0 = o@;
    let n: usize = o.len();
    let mut i: usize = 0;
    assert(e.skip(0) =~= e);
    while i < n && comes_before(o[i].0.as_str(), k.as_str())
        invariant
            n == o@.len(),
            i <= n,
            o@ == o0,
            e == entries(o0),
            rank(e, k@) == i + rank(e.skip(i as int), k@),
        decreases n - i,
    {
        proof {
            assert(e.skip(i as int).drop_first() =~= e.skip(i as int + 1));
        }
        i = i + 1;
    }
    assert(rank(e, k@) == i);
    if i < n && same(o[i].0.as_str(), k.as_str()) {
        o.set(i, (k, v));
        assert(entries(o@) =~= with_entry(e, k@, v@));
    } else {
        o.insert(i, (k, v));
        assert(entries(o@) =~= with_entry(e, k@, v@));
    }
}

/// The order of byte strings is irreflexive, transitive and total.
proof fn lemma_bytes_before(a: Seq<u8>, b: Seq<u8>, c: Seq<u8>)
    ensures
        !bytes_before(a, a),
        bytes_before(a, b) && bytes_before(b, c) ==> bytes_before(a, c),
        bytes_before(a, b) ==> !bytes_before(b, a),
        !bytes_before(a, b) && !bytes_before(b, a) ==> a == b,
    decreases a.len() + b.len() + c.len(),
{
    if a.len() > 0 && b.len() > 0 && c.len() > 0 {
        lemma_bytes_before(a.drop_first(), b.drop_first(), c.drop_first());
        if a[0] == b[0] && a.drop_first() == b.drop_first() {
            assert(a =~= b) by {
                assert forall|i: int| 0 <= i < a.len() implies a[i] == b[i] by {
                    if i > 0 {
                        assert(a.drop_first()[i - 1] == b.drop_first()[i - 1]);
                    }
                }
            }
        }
    } else if a.len() > 0 && b.len() > 0 {
        lemma_bytes_before(a.drop_first(), b.drop_first(), c);
        if a[0] == b[0] && a.drop_first() == b.drop_first() {
            assert(a =~= b) by {
                assert forall|i: int| 0 <= i < a.len() implies a[i] == b[i] by {
                    if i > 0 {
                        assert(a.drop_first()[i - 1] == b.drop_first()[i - 1]);
                    }
                }
            }
        }
    } else if a.len() > 0 {
        lemma_bytes_before(a.drop_first(), b, c);
    } else {
        assert(b.len() == 0 ==> a =~= b);
    }
}

/// The order of keys is irreflexive, transitive, asymmetric and total.
pub proof fn lemma_before(a: Seq<char>, b: Seq<char>, c: Seq<char>)
    ensures
        !before(a, a),
        before(a, b) && before(b, c) ==> before(a, c),
        before(a, b) ==> !before(b, a),
        !before(a, b) && !before(b, a) ==> a == b,
{
    lemma_bytes_before(encode_utf8(a), encode_utf8(b), encode_utf8(c));
    if encode_utf8(a) == encode_utf8(b) {
        crate::text::lemma_utf8_injective(a, b);
    }
}

/// An entry is put behind all keys that come before it and in front of all others.
pub proof fn lemma_rank(o: Seq<(Seq<char>, JsonView)>, k: Seq<char>)
    requires
        ascending(o),
    ensures
        rank(o, k) <= o.len(),
        forall|i: int| 0 <= i < rank(o, k) ==> before((#[trigger] o[i]).0, k),
        forall|i: int| rank(o, k) <= i < o.len() ==> !before((#[trigger] o[i]).0, k),
    decreases o.len(),
{
    if o.len() > 0 {
        if before(o[0].0, k) {
            let p = o.drop_first();
            assert(ascending(p)) by {
                assert forall|i: int, j: int| 0 <= i < j < p.len() implies before(
                    p[i].0,
                    p[j].0,
                ) by {
                    assert(before(o[i + 1].0, o[j + 1].0));
                }
            }
            lemma_rank(p, k);
            assert forall|i: int| 0 <= i < rank(o, k) implies before((#[trigger] o[i]).0, k) by {
                if i > 0 {
                    assert(before(p[i - 1].0, k));
                }
            }
            assert forall|i: int| rank(o, k) <= i < o.len() implies !before(
                (#[trigger] o[i]).0,
                k,
            ) by {
                assert(!before(p[i - 1].0, k));
            }
        } else {
            assert forall|i: int| 0 <= i < o.len() implies !before((#[trigger] o[i]).0, k) by {
                if i > 0 {
                    assert(before(o[0].0, o[i].0));
                    lemma_before(o[0].0, o[i].0, k);
                }
            }
        }
    }
}

/// Putting an entry keeps the keys ascending.
pub proof fn lemma_with_entry_ascends(o: Seq<(Seq<char>, JsonView)>, k: Seq<char>, v: JsonView)
    requires
        ascending(o),
    ensures
        ascending(with_entry(o, k, v)),
        forall|i: int|
            0 <= i < with_entry(o, k, v).len() ==> (#[trigger] with_entry(o, k, v)[i]).1 == v || (
            exists|j: int| 0 <= j < o.len() && #[trigger] o[j] == with_entry(o, k, v)[i]),
{
    lemma_rank(o, k);
    let r = rank(o, k) as int;
    let w = with_entry(o, k, v);
    assert forall|i: int| 0 <= i < w.len() implies (#[trigger] w[i]).1 == v || (exists|j: int|
        0 <= j < o.len() && #[trigger] o[j] == w[i]) by {
        if r < o.len() && o[r].0 == k {
            if i != r {
                assert(o[i] == w[i]);
            }
        } else if i < r {
            assert(o[i] == w[i]);
        } else if i > r {
            assert(o[i - 1] == w[i]);
        }
    }
    assert forall|i: int, j: int| 0 <= i < j < w.len() implies before(w[i].0, w[j].0) by {
        if r < o.len() && o[r].0 == k {
            assert(w[i].0 == o[i].0 && w[j].0 == o[j].0);
            assert(before(o[i].0, o[j].0));
        } else {
            if i < r && j < r {
                assert(before(o[i].0, o[j].0));
            } else if i < r && j == r {
                assert(before(o[i].0, k));
            } else if i < r {
                assert(before(o[i].0, o[j - 1].0));
            } else if i == r {
                assert(!before(o[j - 1].0, k));
                lemma_before(k, o[j - 1].0, k);
                if o[j - 1].0 == k && j - 1 > r {
                    assert(before(o[r].0, o[j - 1].0));
                    assert(!before(o[r].0, k));
                }
            } else {
                assert(before(o[i - 1].0, o[j - 1].0));
            }
        }
    }
}

/// An entry whose key comes behind all others is put at the end.
pub proof fn lemma_with_entry_at_end(o: Seq<(Seq<char>, JsonView)>, k: Seq<char>, v: JsonView)
    requires
        forall|i: int| 0 <= i < o.len() ==> before((#[trigger] o[i]).0, k),
    ensures
        with_entry(o, k, v) == o.push((k, v)),
    decreases o.len(),
{
    lemma_rank_full(o, k);
    assert(o.insert(o.len() as int, (k, v)) =~= o.push((k, v)));
}

/// All keys before `k`: the rank of `k` is the length.
proof fn lemma_rank_full(o: Seq<(Seq<char>, JsonView)>, k: Seq<char>)
    requires
        forall|i: int| 0 <= i < o.len() ==> before((#[trigger] o[i]).0, k),
    ensures
        rank(o, k) == o.len(),
    decreases o.len(),
{
    if o.len() > 0 {
        let p = o.drop_first();
        assert forall|i: int| 0 <= i < p.len() implies before((#[trigger] p[i]).0, k) by {
            assert(before(o[i + 1].0, k));
        }
        lemma_rank_full(p, k);
    }
}

/// A JSON object with the given fields, in the order of their keys.
pub fn object(fields: Vec<(String, Json)>) -> (r: Json)
    ensures
        r@ == JsonView::Object(entries(fields@)),
{
    proof {
        broadcast use group_json_views;

    }
    Json::Object(fields)
}

/// A JSON string.
pub fn string(s: &str) -> (r: Json)
    ensures
        r@ == JsonView::Str(s@),
{
    Json::Str(s.to_owned())
}

/// The entries of two lists, one behind the other: the first of a key counts.
proof fn lemma_entry_of_both(
    a: Seq<(Seq<char>, JsonView)>,
    b: Seq<(Seq<char>, JsonView)>,
    k: Seq<char>,
)
    ensures
        entry(a + b, k) == if entry(a, k) is Some {
            entry(a, k)
        } else {
            entry(b, k)
        },
    decreases a.len(),
{
    if a.len() == 0 {
        assert(a + b =~= b);
    } else {
        assert((a + b).drop_first() =~= a.drop_first() + b);
        lemma_entry_of_both(a.drop_first(), b, k);
    }
}

/// A key that no entry has is not found.
proof fn lemma_entry_missing(o: Seq<(Seq<char>, JsonView)>, k: Seq<char>)
    requires
        forall|i: int| 0 <= i < o.len() ==> (#[trigger] o[i]).0 != k,
    ensures
        entry(o, k) is None,
    decreases o.len(),
{
    if o.len() > 0 {
        assert(o[0].0 != k);
        let p = o.drop_first();
        assert forall|i: int| 0 <= i < p.len() implies (#[trigger] p[i]).0 != k by {
            assert(p[i] == o[i + 1]);
        }
        lemma_entry_missing(p, k);
    }
}

/// What is put under a key is found there, and what stands under other keys stays.
pub proof fn law_what_is_put_is_found(
    o: Seq<(Seq<char>, JsonView)>,
    k: Seq<char>,
    v: JsonView,
    other: Seq<char>,
)
    requires
        ascending(o),
    ensures
        entry(with_entry(o, k, v), k) == Some(v),
        other != k ==> entry(with_entry(o, k, v), other) == entry(o, other),
{
    lemma_rank(o, k);
    let i = rank(o, k) as int;
    let w = with_entry(o, k, v);
    let a = o.take(i);
    let e = seq![(k, v)];
    let there = i < o.len() && o[i].0 == k;
    let b = if there {
        o.skip(i + 1)
    } else {
        o.skip(i)
    };
    assert(w =~= a + (e + b));
    assert forall|j: int| 0 <= j < a.len() implies (#[trigger] a[j]).0 != k by {
        assert(a[j] == o[j]);
        lemma_before(k, k, k);
    }
    lemma_entry_missing(a, k);
    lemma_entry_of_both(a, e + b, k);
    lemma_entry_of_both(e, b, k);
    assert(e[0].0 == k);
    assert(e.drop_first() =~= Seq::empty());
    assert(entry(e, k) == Some(v));
    if other != k {
        lemma_entry_of_both(a, e + b, other);
        lemma_entry_of_both(e, b, other);
        lemma_entry_missing(e, other);
        if there {
            let f = seq![o[i]];
            assert(o =~= a + (f + b));
            lemma_entry_of_both(a, f + b, other);
            lemma_entry_of_both(f, b, other);
            lemma_entry_missing(f, other);
        } else {
            assert(o =~= a + b);
            lemma_entry_of_both(a, b, other);
        }
    }
}

/// An integer is read as what it is: a signed one within its range, an unsigned one where it is not
/// negative; a number with a fraction is none. A scaled integer is the product, up to the limit.
pub proof fn law_integers_are_read_as_they_are(n: u64, i: i64, b: u64, scale: nat)
    ensures
        n <= i64::MAX ==> Number::PosInt(n).signed() == Some(n as i64),
        n > i64::MAX ==> Number::PosInt(n).signed() is None,
        Number::NegInt(i).signed() == Some(i),
        Number::Float(b).signed() is None,
        n * scale <= 0x1000_0000_0000_0000 ==> Number::PosInt(n).times(scale) == n * scale,
        n * scale > 0x1000_0000_0000_0000 ==> Number::PosInt(n).times(scale)
            == 0x1000_0000_0000_0000,
        -0x1000_0000_0000_0000 <= i * scale <= 0x1000_0000_0000_0000 ==> Number::NegInt(i).times(
            scale,
        ) == i * scale,
{
}

/// A field of a message is found by its key and read by its kind; one of another kind is as good as
/// missing.
pub proof fn law_fields_are_read_by_kind(m: JsonView, k: Seq<char>, v: JsonView, default: Seq<char>)
    requires
        m.get(k) == Some(v),
    ensures
        m.text_at(k) == match v {
            JsonView::Str(s) => Some(s),
            _ => None,
        },
        m.text_or(k, default) == match v {
            JsonView::Str(s) => s,
            _ => default,
        },
        m.bool_at(k) == match v {
            JsonView::Bool(b) => Some(b),
            _ => None,
        },
        m.array_at(k) == match v {
            JsonView::Array(a) => Some(a),
            _ => None,
        },
        m.int_at(k) == match v {
            JsonView::Number(n) => n.signed(),
            _ => None,
        },
        m.uint_at(k) == match v {
            JsonView::Number(Number::PosInt(n)) => Some(n),
            _ => None,
        },
        m is Object,
{
}

/// A field that is missing is missing for every kind.
pub proof fn law_missing_fields_are_missing(m: JsonView, k: Seq<char>, default: Seq<char>)
    requires
        m.get(k) is None,
    ensures
        m.text_at(k) is None,
        m.text_or(k, default) == default,
        m.bool_at(k) is None,
        m.array_at(k) is None,
        m.int_at(k) is None,
        m.uint_at(k) is None,
        m.scaled_at(k, 1000) is None,
{
}

} // verus!
