//! Text helpers: comparing, searching, cutting and printing strings.
//!
//! A string is modelled by its sequence of characters (`s@`).
use vstd::prelude::*;
use vstd::utf8::*;

verus! {

/// `String::push` appends one character.
pub assume_specification[ String::push ](s: &mut String, c: char)
    ensures
        final(s)@ == old(s)@.push(c),
;

/// The view of a value that may be missing.
pub open spec fn option_view<T: View>(o: Option<T>) -> Option<T::V> {
    match o {
        Some(t) => Some(t@),
        None => None,
    }
}

/// `prefix` is the beginning of `s`.
pub open spec fn begins(s: Seq<char>, prefix: Seq<char>) -> bool {
    s.len() >= prefix.len() && s.take(prefix.len() as int) == prefix
}

/// `needle` stands in `s` at character index `i`.
pub open spec fn stands_at(s: Seq<char>, needle: Seq<char>, i: int) -> bool {
    0 <= i && i + needle.len() <= s.len() && s.subrange(i, i + needle.len()) == needle
}

/// `needle` occurs somewhere in `s`.
pub open spec fn occurs(s: Seq<char>, needle: Seq<char>) -> bool {
    exists|i: int| stands_at(s, needle, i)
}

/// `i` is the first place at which `needle` stands in `s`.
pub open spec fn first_at(s: Seq<char>, needle: Seq<char>, i: int) -> bool {
    stands_at(s, needle, i) && forall|k: int| 0 <= k < i ==> !stands_at(s, needle, k)
}

/// The characters of `s` before the first one that `stop` holds.
pub open spec fn until(s: Seq<char>, stop: Seq<char>) -> Seq<char>
    decreases s.len(),
{
    if s.len() == 0 || stop.contains(s[0]) {
        Seq::empty()
    } else {
        seq![s[0]] + until(s.drop_first(), stop)
    }
}

/// Unicode `White_Space`.
pub open spec fn white(c: char) -> bool {
    let u = c as u32;
    9 <= u <= 13 || u == 0x20 || u == 0x85 || u == 0xa0 || u == 0x1680 || 0x2000 <= u <= 0x200a
        || u == 0x2028 || u == 0x2029 || u == 0x202f || u == 0x205f || u == 0x3000
}

/// `s` without its leading white space.
pub open spec fn trimmed_left(s: Seq<char>) -> Seq<char>
    decreases s.len(),
{
    if s.len() > 0 && white(s[0]) {
        trimmed_left(s.drop_first())
    } else {
        s
    }
}

/// `s` without its trailing white space.
pub open spec fn trimmed_right(s: Seq<char>) -> Seq<char>
    decreases s.len(),
{
    if s.len() > 0 && white(s.last()) {
        trimmed_right(s.drop_last())
    } else {
        s
    }
}

/// `s` without white space at either end.
pub open spec fn trimmed(s: Seq<char>) -> Seq<char> {
    trimmed_right(trimmed_left(s))
}

/// An ASCII letter or digit.
pub open spec fn alnum(c: char) -> bool {
    'a' <= c <= 'z' || 'A' <= c <= 'Z' || '0' <= c <= '9'
}

/// An ASCII letter in upper case; any other character as it is.
pub open spec fn upper(c: char) -> char {
    if 'a' <= c <= 'z' {
        ((c as u32) - 32) as char
    } else {
        c
    }
}

/// The character of a digit below ten.
pub open spec fn digit(n: nat) -> char {
    (48 + n) as char
}

/// `n` in decimal.
pub open spec fn dec(n: nat) -> Seq<char>
    decreases n,
{
    if n < 10 {
        seq![digit(n)]
    } else {
        dec(n / 10).push(digit(n % 10))
    }
}

/// `n` in decimal, with a sign where it is negative.
pub open spec fn dec_signed(n: int) -> Seq<char> {
    if n < 0 {
        seq!['-'] + dec((-n) as nat)
    } else {
        dec(n as nat)
    }
}

/// `n` in decimal with at least two digits.
pub open spec fn two(n: nat) -> Seq<char> {
    if n < 10 {
        seq!['0'] + dec(n)
    } else {
        dec(n)
    }
}

/// The character of a lower-case hexadecimal digit.
pub open spec fn hex_digit(n: nat) -> char {
    if n < 10 {
        (48 + n) as char
    } else {
        (87 + n) as char
    }
}

/// A byte as two lower-case hexadecimal digits.
pub open spec fn hex(b: u8) -> Seq<char> {
    seq![hex_digit((b / 16) as nat), hex_digit((b % 16) as nat)]
}

/// The character of an upper-case hexadecimal digit.
pub open spec fn hex_digit_upper(n: nat) -> char {
    if n < 10 {
        (48 + n) as char
    } else {
        (55 + n) as char
    }
}

/// Two strings with the same bytes have the same characters.
pub proof fn lemma_utf8_injective(a: Seq<char>, b: Seq<char>)
    requires
        encode_utf8(a) == encode_utf8(b),
    ensures
        a == b,
{
    encode_utf8_decode_utf8(a);
    encode_utf8_decode_utf8(b);
}

/// Whether two strings are equal.
pub fn same(a: &str, b: &str) -> (r: bool)
    ensures
        r == (a@ == b@),
{
    let x = a.as_bytes();
    let y = b.as_bytes();
    if x.len() != y.len() {
        return false;
    }
    let n: usize = x.len();
    let mut i: usize = 0;
    while i < n
        invariant
            n == x@.len(),
            n == y@.len(),
            i <= n,
            x@ == encode_utf8(a@),
            y@ == encode_utf8(b@),
            forall|k: int| 0 <= k < i ==> x@[k] == y@[k],
        decreases n - i,
    {
        if x[i] != y[i] {
            return false;
        }
        i = i + 1;
    }
    proof {
        assert(x@ =~= y@);
        lemma_utf8_injective(a@, b@);
    }
    true
}

/// Whether a string has no characters.
pub fn is_empty(s: &str) -> (r: bool)
    ensures
        r == (s@.len() == 0),
{
    s.unicode_len() == 0
}

/// The characters of a string.
pub fn chars_of(s: &str) -> (v: Vec<char>)
    ensures
        v@ == s@,
{
    let mut v: Vec<char> = Vec::new();
    for c in it: s.chars()
        invariant
            v@ == s@.take(it.index() as int),
            it.seq() == s@,
    {
        proof {
            assert(s@.take(it.index() as int + 1) =~= s@.take(it.index() as int).push(c));
        }
        v.push(c);
    }
    assert(s@.take(s@.len() as int) =~= s@);
    v
}

/// The string made of `v[from..to]`.
pub fn string_of(v: &Vec<char>, from: usize, to: usize) -> (s: String)
    requires
        from <= to <= v@.len(),
    ensures
        s@ == v@.subrange(from as int, to as int),
{
    let mut s = String::new();
    let mut i: usize = from;
    while i < to
        invariant
            from <= i <= to <= v@.len(),
            s@ == v@.subrange(from as int, i as int),
        decreases to - i,
    {
        proof {
            assert(v@.subrange(from as int, i as int + 1) =~= v@.subrange(
                from as int,
                i as int,
            ).push(v@[i as int]));
        }
        s.push(v[i]);
        i = i + 1;
    }
    s
}

/// Whether `needle` stands in `v` at `at`.
fn stands(v: &Vec<char>, needle: &Vec<char>, at: usize) -> (r: bool)
    ensures
        r == stands_at(v@, needle@, at as int),
{
    if needle.len() > v.len() || at > v.len() - needle.len() {
        return false;
    }
    let n: usize = v.len();
    let mut i: usize = 0;
    while i < needle.len()
        invariant
            n == v@.len(),
            at + needle@.len() <= n,
            i <= needle@.len(),
            forall|k: int| 0 <= k < i ==> v@[at + k] == needle@[k],
        decreases needle@.len() - i,
    {
        if v[at + i] != needle[i] {
            proof {
                assert(v@.subrange(at as int, at + needle@.len())[i as int] != needle@[i as int]);
            }
            return false;
        }
        i = i + 1;
    }
    assert(v@.subrange(at as int, at + needle@.len()) =~= needle@);
    true
}

/// Whether `s` begins with `prefix`.
pub fn begins_with(s: &str, prefix: &str) -> (r: bool)
    ensures
        r == begins(s@, prefix@),
{
    let v = chars_of(s);
    let p = chars_of(prefix);
    let r = stands(&v, &p, 0);
    proof {
        if s@.len() >= prefix@.len() {
            assert(s@.subrange(0, prefix@.len() as int) =~= s@.take(prefix@.len() as int));
        }
    }
    r
}

/// What follows `prefix` in `s`, where `s` begins with it.
pub fn after_prefix(s: &str, prefix: &str) -> (r: Option<String>)
    ensures
        match r {
            Some(t) => begins(s@, prefix@) && t@ == s@.skip(prefix@.len() as int),
            None => !begins(s@, prefix@),
        },
{
    if !begins_with(s, prefix) {
        return None;
    }
    let v = chars_of(s);
    let n: usize = prefix.unicode_len();
    let t = string_of(&v, n, v.len());
    assert(t@ =~= s@.skip(n as int));
    Some(t)
}

/// The first character index at which `needle` stands in `s`.
pub fn find(s: &str, needle: &str) -> (r: Option<usize>)
    ensures
        match r {
            Some(i) => first_at(s@, needle@, i as int),
            None => !occurs(s@, needle@),
        },
{
    let v = chars_of(s);
    let p = chars_of(needle);
    if p.len() > v.len() {
        return None;
    }
    let last: usize = v.len() - p.len();
    let mut i: usize = 0;
    loop
        invariant
            v@ == s@,
            p@ == needle@,
            last == v@.len() - p@.len(),
            i <= last,
            forall|k: int| 0 <= k < i ==> !stands_at(s@, needle@, k),
        decreases last - i,
    {
        if stands(&v, &p, i) {
            return Some(i);
        }
        if i == last {
            return None;
        }
        i = i + 1;
    }
}

/// Whether `needle` occurs in `s`.
pub fn contains(s: &str, needle: &str) -> (r: bool)
    ensures
        r == occurs(s@, needle@),
{
    match find(s, needle) {
        Some(i) => {
            assert(stands_at(s@, needle@, i as int));
            true
        },
        None => false,
    }
}

/// Whether a character is white space.
pub fn is_white(c: char) -> (r: bool)
    ensures
        r == white(c),
{
    let u: u32 = c as u32;
    (9 <= u && u <= 13) || u == 0x20 || u == 0x85 || u == 0xa0 || u == 0x1680 || (0x2000 <= u && u
        <= 0x200a) || u == 0x2028 || u == 0x2029 || u == 0x202f || u == 0x205f || u == 0x3000
}

/// `s` without white space at either end.
pub fn trim(s: &str) -> (r: String)
    ensures
        r@ == trimmed(s@),
{
    let v = chars_of(s);
    let n: usize = v.len();
    let mut i: usize = 0;
    assert(v@.subrange(0, n as int) =~= v@);
    while i < n && is_white(v[i])
        invariant
            n == v@.len(),
            i <= n,
            trimmed_left(v@) == trimmed_left(v@.subrange(i as int, n as int)),
        decreases n - i,
    {
        proof {
            assert(v@.subrange(i as int, n as int).drop_first() =~= v@.subrange(
                i as int + 1,
                n as int,
            ));
        }
        i = i + 1;
    }
    let mut j: usize = n;
    while i < j && is_white(v[j - 1])
        invariant
            n == v@.len(),
            i <= j <= n,
            trimmed_right(v@.subrange(i as int, n as int)) == trimmed_right(
                v@.subrange(i as int, j as int),
            ),
        decreases j - i,
    {
        proof {
            assert(v@.subrange(i as int, j as int).drop_last() =~= v@.subrange(
                i as int,
                j as int - 1,
            ));
        }
        j = j - 1;
    }
    string_of(&v, i, j)
}

/// Whether a character is an ASCII letter or digit.
pub fn is_alnum(c: char) -> (r: bool)
    ensures
        r == alnum(c),
{
    ('a' <= c && c <= 'z') || ('A' <= c && c <= 'Z') || ('0' <= c && c <= '9')
}

/// Whether every character is an ASCII letter or digit.
pub fn all_alnum(s: &str) -> (r: bool)
    ensures
        r == forall|i: int| 0 <= i < s@.len() ==> alnum(s@[i]),
{
    let v = chars_of(s);
    let mut i: usize = 0;
    while i < v.len()
        invariant
            v@ == s@,
            i <= v@.len(),
            forall|k: int| 0 <= k < i ==> alnum(s@[k]),
        decreases v@.len() - i,
    {
        if !is_alnum(v[i]) {
            return false;
        }
        i = i + 1;
    }
    true
}

/// The part of `s` before the first character that occurs in `stop`.
pub fn cut_at(s: &str, stop: &str) -> (r: String)
    ensures
        r@ == until(s@, stop@),
{
    let v = chars_of(s);
    let p = chars_of(stop);
    let n: usize = v.len();
    let mut i: usize = 0;
    assert(v@.subrange(0, 0) + until(v@.skip(0), stop@) =~= until(v@, stop@)) by {
        assert(v@.skip(0) =~= v@);
    }
    while i < n
        invariant
            v@ == s@,
            p@ == stop@,
            n == v@.len(),
            i <= n,
            until(s@, stop@) == v@.subrange(0, i as int) + until(v@.skip(i as int), stop@),
        decreases n - i,
    {
        if holds(&p, v[i]) {
            assert(until(v@.skip(i as int), stop@) =~= Seq::<char>::empty());
            assert(v@.subrange(0, i as int) + Seq::<char>::empty() =~= v@.subrange(0, i as int));
            return string_of(&v, 0, i);
        }
        proof {
            assert(v@.skip(i as int).drop_first() =~= v@.skip(i as int + 1));
            assert(v@.subrange(0, i as int) + (seq![v@[i as int]] + until(
                v@.skip(i as int + 1),
                stop@,
            )) =~= v@.subrange(0, i as int + 1) + until(v@.skip(i as int + 1), stop@));
        }
        i = i + 1;
    }
    assert(v@.skip(n as int) =~= Seq::<char>::empty());
    assert(v@.subrange(0, n as int) + Seq::<char>::empty() =~= v@.subrange(0, n as int));
    string_of(&v, 0, n)
}

/// Whether `c` is among the characters of `set`.
fn holds(set: &Vec<char>, c: char) -> (r: bool)
    ensures
        r == set@.contains(c),
{
    let mut i: usize = 0;
    while i < set.len()
        invariant
            i <= set@.len(),
            forall|k: int| 0 <= k < i ==> set@[k] != c,
        decreases set@.len() - i,
    {
        if set[i] == c {
            return true;
        }
        i = i + 1;
    }
    false
}

/// The character of a digit below ten.
fn digit_char(n: u64) -> (c: char)
    requires
        n < 10,
    ensures
        c == digit(n as nat),
{
    (48u8 + n as u8) as char
}

/// `n` in decimal.
pub fn decimal(n: u64) -> (s: String)
    ensures
        s@ == dec(n as nat),
    decreases n,
{
    if n < 10 {
        let mut s = String::new();
        s.push(digit_char(n));
        assert(s@ =~= seq![digit(n as nat)]);
        s
    } else {
        let mut s = decimal(n / 10);
        s.push(digit_char(n % 10));
        s
    }
}

/// A signed `n` in decimal.
pub fn decimal_signed(n: i64) -> (s: String)
    ensures
        s@ == dec_signed(n as int),
{
    if n >= 0 {
        decimal(n as u64)
    } else {
        let mut s = String::new();
        s.push('-');
        s.append(decimal((-(n as i128)) as u64).as_str());
        assert(s@ =~= dec_signed(n as int));
        s
    }
}

/// `n` in decimal with at least two digits.
pub fn two_digits(n: u64) -> (s: String)
    ensures
        s@ == two(n as nat),
{
    if n < 10 {
        let mut s = String::new();
        s.push('0');
        s.push(digit_char(n));
        assert(s@ =~= two(n as nat));
        s
    } else {
        decimal(n)
    }
}

/// Appends a byte as two lower-case hexadecimal digits.
pub fn push_hex(s: &mut String, b: u8)
    ensures
        final(s)@ == old(s)@ + hex(b),
{
    let hi: u8 = b / 16;
    let lo: u8 = b % 16;
    s.push(if hi < 10 { (48u8 + hi) as char } else { (87u8 + hi) as char });
    s.push(if lo < 10 { (48u8 + lo) as char } else { (87u8 + lo) as char });
    assert(s@ =~= old(s)@ + hex(b));
}

/// What `str::to_lowercase` makes of a text.
pub uninterp spec fn lowered(s: Seq<char>) -> Seq<char>;

/// `str::to_lowercase`: the lower-case form of a text, by Unicode's rules alone.
#[verifier::external_body]
pub(crate) fn lowercase(s: &str) -> (r: String)
    ensures
        r@ == lowered(s@),
{
    s.to_lowercase()
}

/// What `str::to_uppercase` makes of a text.
pub uninterp spec fn raised(s: Seq<char>) -> Seq<char>;

/// `str::to_uppercase`: the upper-case form of a text, by Unicode's rules alone.
#[verifier::external_body]
pub(crate) fn uppercase(s: &str) -> (r: String)
    ensures
        r@ == raised(s@),
{
    s.to_uppercase()
}

/// How many bytes a text takes in UTF-8.
pub fn byte_len(s: &str) -> (r: usize)
    ensures
        r == encode_utf8(s@).len(),
{
    let b = s.as_bytes();
    b.len()
}

/// `s` without `prefix` at its beginning, however often it stands there.
pub open spec fn without_prefixes(s: Seq<char>, prefix: Seq<char>) -> Seq<char>
    decreases s.len(),
{
    if prefix.len() > 0 && begins(s, prefix) {
        without_prefixes(s.skip(prefix.len() as int), prefix)
    } else {
        s
    }
}

/// `s` without `prefix` at its beginning, however often it stands there.
pub fn strip_prefixes(s: &str, prefix: &str) -> (r: String)
    requires
        prefix@.len() > 0,
    ensures
        r@ == without_prefixes(s@, prefix@),
    decreases s@.len(),
{
    match after_prefix(s, prefix) {
        Some(t) => strip_prefixes(t.as_str(), prefix),
        None => s.to_owned(),
    }
}

/// `suffix` is the end of `s`.
pub open spec fn ends(s: Seq<char>, suffix: Seq<char>) -> bool {
    s.len() >= suffix.len() && s.skip(s.len() - suffix.len()) == suffix
}

/// Whether `s` ends with `suffix`.
pub fn ends_with(s: &str, suffix: &str) -> (r: bool)
    ensures
        r == ends(s@, suffix@),
{
    let v = chars_of(s);
    let p = chars_of(suffix);
    if p.len() > v.len() {
        return false;
    }
    let at: usize = v.len() - p.len();
    assert(s@.subrange(at as int, at + suffix@.len()) =~= s@.skip(at as int));
    stands(&v, &p, at)
}

/// `s` without `suffix` at its end, however often it stands there.
pub open spec fn without_suffixes(s: Seq<char>, suffix: Seq<char>) -> Seq<char>
    decreases s.len(),
{
    if suffix.len() > 0 && ends(s, suffix) {
        without_suffixes(s.take(s.len() - suffix.len()), suffix)
    } else {
        s
    }
}

/// `s` without `suffix` at its end, however often it stands there.
pub fn strip_suffixes(s: &str, suffix: &str) -> (r: String)
    requires
        suffix@.len() > 0,
    ensures
        r@ == without_suffixes(s@, suffix@),
    decreases s@.len(),
{
    if !ends_with(s, suffix) {
        return s.to_owned();
    }
    let v = chars_of(s);
    let n: usize = v.len() - suffix.unicode_len();
    let t = string_of(&v, 0, n);
    assert(t@ =~= s@.take(n as int));
    strip_suffixes(t.as_str(), suffix)
}

/// The characters of `s` behind the last one that `stop` holds.
pub open spec fn behind(s: Seq<char>, stop: Seq<char>) -> Seq<char>
    decreases s.len(),
{
    if s.len() == 0 || stop.contains(s.last()) {
        Seq::empty()
    } else {
        behind(s.drop_last(), stop).push(s.last())
    }
}

/// The part of `s` behind the last character that occurs in `stop`.
pub fn after_last(s: &str, stop: &str) -> (r: String)
    ensures
        r@ == behind(s@, stop@),
{
    let v = chars_of(s);
    let p = chars_of(stop);
    let n: usize = v.len();
    let mut i: usize = n;
    assert(v@.take(n as int) =~= v@);
    assert(v@.skip(n as int) =~= Seq::empty());
    assert(behind(v@, stop@) + Seq::<char>::empty() =~= behind(v@, stop@));
    while i > 0
        invariant
            v@ == s@,
            p@ == stop@,
            n == v@.len(),
            i <= n,
            behind(s@, stop@) == behind(v@.take(i as int), stop@) + v@.skip(i as int),
        decreases i,
    {
        if holds(&p, v[i - 1]) {
            assert(v@.take(i as int).last() == v@[i - 1]);
            assert(Seq::<char>::empty() + v@.skip(i as int) =~= v@.skip(i as int));
            return string_of(&v, i, n);
        }
        proof {
            let t = v@.take(i as int);
            assert(t.last() == v@[i - 1]);
            assert(t.drop_last() =~= v@.take(i - 1));
            assert(v@.skip(i - 1) =~= seq![v@[i - 1]] + v@.skip(i as int));
            assert(behind(t.drop_last(), stop@).push(t.last()) + v@.skip(i as int) =~= behind(
                t.drop_last(),
                stop@,
            ) + v@.skip(i - 1));
        }
        i = i - 1;
    }
    assert(behind(v@.take(0), stop@) + v@.skip(0) =~= v@.skip(0));
    string_of(&v, 0, n)
}

/// The parts of `s` between the characters `c`.
pub open spec fn parts(s: Seq<char>, c: char) -> Seq<Seq<char>>
    decreases s.len(),
{
    if s.len() == 0 {
        seq![Seq::empty()]
    } else if s.last() == c {
        parts(s.drop_last(), c).push(Seq::empty())
    } else {
        let p = parts(s.drop_last(), c);
        p.update(p.len() - 1, p.last().push(s.last()))
    }
}

/// The views of a list of texts.
pub open spec fn texts(s: Seq<String>) -> Seq<Seq<char>> {
    Seq::new(s.len(), |i: int| s[i]@)
}

/// There is at least one part.
proof fn lemma_parts(s: Seq<char>, c: char)
    ensures
        parts(s, c).len() > 0,
    decreases s.len(),
{
    if s.len() > 0 {
        lemma_parts(s.drop_last(), c);
    }
}

/// The parts of `s` between the characters `c`.
pub fn split(s: &str, c: char) -> (r: Vec<String>)
    ensures
        texts(r@) == parts(s@, c),
        r@.len() > 0,
{
    let v = chars_of(s);
    let n: usize = v.len();
    let mut done: Vec<String> = Vec::new();
    let mut part = String::new();
    let mut i: usize = 0;
    assert(texts(done@).push(part@) =~= parts(v@.take(0), c));
    while i < n
        invariant
            v@ == s@,
            n == v@.len(),
            i <= n,
            texts(done@).push(part@) == parts(v@.take(i as int), c),
        decreases n - i,
    {
        proof {
            let t = v@.take(i as int + 1);
            assert(t.drop_last() =~= v@.take(i as int));
            assert(t.last() == v@[i as int]);
        }
        let ghost before = texts(done@);
        let ghost pv = part@;
        if v[i] == c {
            done.push(part);
            part = String::new();
            assert(texts(done@) =~= before.push(pv));
            assert(part@ =~= Seq::empty());
        } else {
            part.push(v[i]);
            let ghost longer = pv.push(v@[i as int]);
            assert(before.push(pv).update(before.len() as int, longer) =~= before.push(longer));
        }
        i = i + 1;
    }
    assert(v@.take(n as int) =~= v@);
    let ghost before = texts(done@);
    let ghost pv = part@;
    done.push(part);
    assert(texts(done@) =~= before.push(pv));
    done
}

/// The first line of a text, without its line ending; none of an empty text.
pub open spec fn first_line_of(s: Seq<char>) -> Option<Seq<char>> {
    if s.len() == 0 {
        None
    } else {
        let line = until(s, seq!['\n']);
        if line.len() < s.len() && line.len() > 0 && line.last() == '\r' {
            Some(line.drop_last())
        } else {
            Some(line)
        }
    }
}

/// The first line of a text, without its line ending; none of an empty text.
pub fn first_line(s: &str) -> (r: Option<String>)
    ensures
        option_view(r) == first_line_of(s@),
{
    let n: usize = s.unicode_len();
    if n == 0 {
        return None;
    }
    proof {
        reveal_strlit("\n");
        assert("\n"@ =~= seq!['\n']);
    }
    let line = cut_at(s, "\n");
    let v = chars_of(line.as_str());
    let k: usize = v.len();
    if k < n && k > 0 && v[k - 1] == '\r' {
        let t = string_of(&v, 0, k - 1);
        assert(t@ =~= line@.drop_last());
        Some(t)
    } else {
        Some(line)
    }
}

/// Two texts that differ in the case of ASCII letters at most.
pub open spec fn alike(a: Seq<char>, b: Seq<char>) -> bool {
    a.len() == b.len() && forall|i: int| 0 <= i < a.len() ==> upper(#[trigger] a[i]) == upper(b[i])
}

/// An ASCII letter in upper case; any other character as it is.
pub fn to_upper(c: char) -> (r: char)
    ensures
        r == upper(c),
{
    if 'a' <= c && c <= 'z' {
        (c as u8 - 32u8) as char
    } else {
        c
    }
}

/// Whether two texts differ in the case of ASCII letters at most.
pub fn same_ignoring_case(a: &str, b: &str) -> (r: bool)
    ensures
        r == alike(a@, b@),
{
    let v = chars_of(a);
    let w = chars_of(b);
    let n: usize = v.len();
    if n != w.len() {
        return false;
    }
    let mut i: usize = 0;
    while i < n
        invariant
            v@ == a@,
            w@ == b@,
            n == v@.len(),
            n == w@.len(),
            i <= n,
            forall|k: int| 0 <= k < i ==> upper(#[trigger] a@[k]) == upper(b@[k]),
        decreases n - i,
    {
        if to_upper(v[i]) != to_upper(w[i]) {
            assert(upper(a@[i as int]) != upper(b@[i as int]));
            return false;
        }
        i = i + 1;
    }
    true
}

/// A text up to a stop is the longest beginning that holds none.
pub proof fn law_until_ends_at_the_first_stop(s: Seq<char>, stop: Seq<char>)
    ensures
        ({
            let u = until(s, stop);
            &&& u.len() <= s.len()
            &&& u == s.take(u.len() as int)
            &&& forall|i: int| 0 <= i < u.len() ==> !stop.contains(#[trigger] u[i])
            &&& u.len() < s.len() ==> stop.contains(s[u.len() as int])
        }),
    decreases s.len(),
{
    let u = until(s, stop);
    if s.len() == 0 || stop.contains(s[0]) {
        assert(u =~= s.take(0));
    } else {
        let r = s.drop_first();
        let v = until(r, stop);
        law_until_ends_at_the_first_stop(r, stop);
        assert(u =~= s.take(u.len() as int)) by {
            assert(v =~= r.take(v.len() as int));
            assert forall|i: int| 0 <= i < u.len() implies u[i] == s[i] by {
                if i > 0 {
                    assert(u[i] == v[i - 1]);
                    assert(v[i - 1] == r.take(v.len() as int)[i - 1]);
                }
            }
        }
        assert forall|i: int| 0 <= i < u.len() implies !stop.contains(#[trigger] u[i]) by {
            if i > 0 {
                assert(u[i] == v[i - 1]);
            }
        }
    }
}

/// A text behind a stop is the longest end that holds none.
pub proof fn law_behind_begins_after_the_last_stop(s: Seq<char>, stop: Seq<char>)
    ensures
        ({
            let u = behind(s, stop);
            &&& u.len() <= s.len()
            &&& u == s.skip(s.len() - u.len())
            &&& forall|i: int| 0 <= i < u.len() ==> !stop.contains(#[trigger] u[i])
            &&& u.len() < s.len() ==> stop.contains(s[s.len() - u.len() - 1])
        }),
    decreases s.len(),
{
    let u = behind(s, stop);
    if s.len() == 0 || stop.contains(s.last()) {
        assert(u =~= s.skip(s.len() as int));
    } else {
        let r = s.drop_last();
        let v = behind(r, stop);
        law_behind_begins_after_the_last_stop(r, stop);
        assert(u =~= s.skip(s.len() - u.len())) by {
            assert forall|i: int| 0 <= i < u.len() implies u[i] == s[s.len() - u.len() + i] by {
                if i < v.len() {
                    assert(v[i] == r.skip(r.len() - v.len())[i]);
                }
            }
        }
        assert forall|i: int| 0 <= i < u.len() implies !stop.contains(#[trigger] u[i]) by {
            if i < v.len() {
                assert(u[i] == v[i]);
            }
        }
    }
}

/// Trimming at the left takes away white space, all of it, and nothing else.
pub proof fn law_left_trimming_takes_white_space(s: Seq<char>)
    ensures
        ({
            let t = trimmed_left(s);
            &&& t.len() <= s.len()
            &&& t == s.skip(s.len() - t.len())
            &&& forall|i: int| 0 <= i < s.len() - t.len() ==> white(#[trigger] s[i])
            &&& t.len() > 0 ==> !white(t[0])
        }),
    decreases s.len(),
{
    if s.len() > 0 && white(s[0]) {
        let r = s.drop_first();
        let t = trimmed_left(s);
        law_left_trimming_takes_white_space(r);
        assert(r.skip(r.len() - t.len()) =~= s.skip(s.len() - t.len()));
        assert forall|i: int| 0 <= i < s.len() - t.len() implies white(#[trigger] s[i]) by {
            if i > 0 {
                assert(r[i - 1] == s[i]);
            }
        }
    } else {
        assert(s.skip(0) =~= s);
    }
}

/// Trimming at the right takes away white space, all of it, and nothing else.
pub proof fn law_right_trimming_takes_white_space(s: Seq<char>)
    ensures
        ({
            let t = trimmed_right(s);
            &&& t.len() <= s.len()
            &&& t == s.take(t.len() as int)
            &&& forall|i: int| t.len() <= i < s.len() ==> white(#[trigger] s[i])
            &&& t.len() > 0 ==> !white(t.last())
        }),
    decreases s.len(),
{
    if s.len() > 0 && white(s.last()) {
        let r = s.drop_last();
        let t = trimmed_right(s);
        law_right_trimming_takes_white_space(r);
        assert(r.take(t.len() as int) =~= s.take(t.len() as int));
        assert forall|i: int| t.len() <= i < s.len() implies white(#[trigger] s[i]) by {
            if i < r.len() {
                assert(r[i] == s[i]);
            }
        }
    } else {
        assert(s.take(s.len() as int) =~= s);
    }
}

/// A trimmed text has no white space at either end, and one that has none is left as it is.
pub proof fn law_trimmed_text_has_bare_ends(s: Seq<char>)
    ensures
        trimmed(s).len() > 0 ==> !white(trimmed(s)[0]) && !white(trimmed(s).last()),
        s.len() > 0 && !white(s[0]) && !white(s.last()) ==> trimmed(s) == s,
{
    law_left_trimming_takes_white_space(s);
    law_right_trimming_takes_white_space(trimmed_left(s));
}

/// The number that decimal digits write.
pub open spec fn number_of(s: Seq<char>) -> int
    decreases s.len(),
{
    if s.len() == 0 {
        0
    } else {
        number_of(s.drop_last()) * 10 + (s.last() as u32 - 48)
    }
}

/// A number in decimal is read back as it was; it has no needless zero in front.
pub proof fn law_decimal_is_read_back(n: nat)
    ensures
        number_of(dec(n)) == n,
        dec(n).len() > 0,
        forall|i: int| 0 <= i < dec(n).len() ==> '0' <= #[trigger] dec(n)[i] <= '9',
        n > 0 ==> dec(n)[0] != '0',
        n < 10 ==> dec(n).len() == 1,
        10 <= n < 100 ==> dec(n).len() == 2,
    decreases n,
{
    reveal_with_fuel(number_of, 2);
    if n < 10 {
        assert(dec(n).drop_last() =~= Seq::empty());
    } else {
        law_decimal_is_read_back(n / 10);
        assert(dec(n).drop_last() =~= dec(n / 10));
        assert forall|i: int| 0 <= i < dec(n).len() implies '0' <= #[trigger] dec(n)[i] <= '9' by {
            if i < dec(n / 10).len() {
                assert(dec(n)[i] == dec(n / 10)[i]);
            }
        }
        assert(dec(n)[0] == dec(n / 10)[0]);
    }
}

/// A number below a hundred is written with two digits where that is wanted, and read back as it
/// was; a negative number has its sign in front.
pub proof fn law_two_digits_and_signs(n: nat, i: int)
    ensures
        n < 100 ==> two(n).len() == 2 && number_of(two(n)) == n,
        i < 0 ==> dec_signed(i) == seq!['-'] + dec((-i) as nat),
        i >= 0 ==> dec_signed(i) == dec(i as nat),
{
    law_decimal_is_read_back(n);
    if n < 10 {
        reveal_with_fuel(number_of, 3);
        assert(two(n).drop_last() =~= seq!['0']);
        assert(seq!['0'].drop_last() =~= Seq::empty());
    }
}

/// The parts with the character between them.
pub open spec fn glued(p: Seq<Seq<char>>, c: char) -> Seq<char>
    decreases p.len(),
{
    if p.len() == 0 {
        Seq::empty()
    } else if p.len() == 1 {
        p[0]
    } else {
        glued(p.drop_last(), c).push(c) + p.last()
    }
}

/// The parts of a text, with the character between them again, are the text, and none of them
/// holds the character.
pub proof fn law_parts_make_the_text(s: Seq<char>, c: char)
    ensures
        glued(parts(s, c), c) == s,
        forall|i: int| 0 <= i < parts(s, c).len() ==> !(#[trigger] parts(s, c)[i]).contains(c),
    decreases s.len(),
{
    let p = parts(s, c);
    if s.len() == 0 {
        assert(s =~= Seq::empty());
    } else {
        let r = s.drop_last();
        let q = parts(r, c);
        law_parts_make_the_text(r, c);
        lemma_parts(r, c);
        assert(r.push(s.last()) =~= s);
        if s.last() == c {
            assert(p.drop_last() =~= q);
            assert(glued(p, c) =~= s);
            assert forall|i: int| 0 <= i < p.len() implies !(#[trigger] p[i]).contains(c) by {
                if i < q.len() {
                    assert(p[i] == q[i]);
                }
            }
        } else {
            assert(p.drop_last() =~= q.drop_last());
            assert(glued(p, c) =~= s);
            assert forall|i: int| 0 <= i < p.len() implies !(#[trigger] p[i]).contains(c) by {
                if i < q.len() - 1 {
                    assert(p[i] == q[i]);
                } else {
                    let l = q.last();
                    assert(p[i] == l.push(s.last()));
                    assert(!q[q.len() - 1].contains(c));
                    if p[i].contains(c) {
                        let k = choose|k: int| 0 <= k < p[i].len() && p[i][k] == c;
                        if k < l.len() {
                            assert(l[k] == c);
                        }
                    }
                }
            }
        }
    }
}

/// A prefix that was taken away stands at the beginning no more, and what is left is an end of the
/// text.
pub proof fn law_prefix_is_gone(s: Seq<char>, prefix: Seq<char>)
    requires
        prefix.len() > 0,
    ensures
        !begins(without_prefixes(s, prefix), prefix),
        without_prefixes(s, prefix).len() <= s.len(),
        without_prefixes(s, prefix) == s.skip(s.len() - without_prefixes(s, prefix).len()),
        without_prefixes(prefix + s, prefix) == without_prefixes(s, prefix),
        !begins(s, prefix) ==> without_prefixes(s, prefix) == s,
    decreases s.len(),
{
    assert((prefix + s).take(prefix.len() as int) =~= prefix);
    assert((prefix + s).skip(prefix.len() as int) =~= s);
    if begins(s, prefix) {
        let r = s.skip(prefix.len() as int);
        law_prefix_is_gone(r, prefix);
        let w = without_prefixes(r, prefix);
        assert(r.skip(r.len() - w.len()) =~= s.skip(s.len() - w.len()));
    } else {
        assert(s.skip(0) =~= s);
    }
}

/// A suffix that was taken away stands at the end no more, and what is left is a beginning of the
/// text.
pub proof fn law_suffix_is_gone(s: Seq<char>, suffix: Seq<char>)
    requires
        suffix.len() > 0,
    ensures
        !ends(without_suffixes(s, suffix), suffix),
        without_suffixes(s, suffix).len() <= s.len(),
        without_suffixes(s, suffix) == s.take(without_suffixes(s, suffix).len() as int),
        without_suffixes(s + suffix, suffix) == without_suffixes(s, suffix),
        !ends(s, suffix) ==> without_suffixes(s, suffix) == s,
    decreases s.len(),
{
    assert((s + suffix).skip(s.len() as int) =~= suffix);
    assert((s + suffix).take(s.len() as int) =~= s);
    if ends(s, suffix) {
        let r = s.take(s.len() - suffix.len());
        law_suffix_is_gone(r, suffix);
        let w = without_suffixes(r, suffix);
        assert(r.take(w.len() as int) =~= s.take(w.len() as int));
    } else {
        assert(s.take(s.len() as int) =~= s);
    }
}

/// The first line of a text goes up to its line ending, which is a line feed, perhaps behind a
/// carriage return.
pub proof fn law_first_line_goes_up_to_its_ending(line: Seq<char>, rest: Seq<char>)
    requires
        !line.contains('\n'),
    ensures
        line.len() > 0 ==> first_line_of(line) == Some(line),
        line.len() == 0 || line.last() != '\r' ==> first_line_of(line + seq!['\n'] + rest) == Some(
            line,
        ),
        first_line_of(line + seq!['\r', '\n'] + rest) == Some(line),
{
    let nl = seq!['\n'];
    assert(nl[0] == '\n');
    lemma_until_here(line, Seq::empty(), nl);
    assert(line + Seq::<char>::empty() =~= line);
    lemma_until_here(line, nl + rest, nl);
    assert(line + nl + rest =~= line + (nl + rest));
    let l = line.push('\r');
    assert(!l.contains('\n')) by {
        if l.contains('\n') {
            let k = choose|k: int| 0 <= k < l.len() && l[k] == '\n';
            assert(line[k] == '\n');
        }
    }
    lemma_until_here(l, nl + rest, nl);
    assert(line + seq!['\r', '\n'] + rest =~= l + (nl + rest));
    assert(l.drop_last() =~= line);
}

/// A text that holds no stop is passed over up to the stop behind it.
proof fn lemma_until_here(s: Seq<char>, rest: Seq<char>, stop: Seq<char>)
    requires
        stop.len() == 1,
        !s.contains(stop[0]),
        rest.len() > 0 ==> rest[0] == stop[0],
    ensures
        until(s + rest, stop) == s,
{
    let t = s + rest;
    let u = until(t, stop);
    law_until_ends_at_the_first_stop(t, stop);
    if u.len() < s.len() {
        assert(stop.contains(t[u.len() as int]));
        assert(t[u.len() as int] == s[u.len() as int]);
    }
    if u.len() > s.len() {
        assert(u[s.len() as int] == t[s.len() as int]);
        assert(stop.contains(stop[0]));
    }
    assert(t.take(s.len() as int) =~= s);
}

} // verus!
