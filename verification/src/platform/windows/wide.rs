//! Text in UTF-16, the form that the API takes and gives.

use vstd::prelude::*;

use crate::text::chars_of;

verus! {

/// `char::from_u32` gives the character of a code point, and `None` for a number
/// that is a surrogate or beyond the last code point.
pub assume_specification[ char::from_u32 ](i: u32) -> (r: Option<char>)
    ensures
        match r {
            Some(c) => c as u32 == i,
            None => 0xd800 <= i <= 0xdfff || i > 0x10ffff,
        },
;

/// A character as one unit, or as a pair of surrogates.
pub open spec fn units(c: char) -> Seq<u16> {
    let v = c as int;
    if v < 0x1_0000 {
        seq![v as u16]
    } else {
        seq![(0xd800 + (v - 0x1_0000) / 0x400) as u16, (0xdc00 + (v - 0x1_0000) % 0x400) as u16]
    }
}

/// A text in UTF-16.
pub open spec fn utf16(s: Seq<char>) -> Seq<u16>
    decreases s.len(),
{
    if s.len() == 0 {
        Seq::empty()
    } else {
        units(s[0]) + utf16(s.skip(1))
    }
}

pub open spec fn is_high(u: u16) -> bool {
    0xd800 <= u <= 0xdbff
}

pub open spec fn is_low(u: u16) -> bool {
    0xdc00 <= u <= 0xdfff
}

/// The character of a pair of surrogates.
pub open spec fn paired(high: u16, low: u16) -> char {
    (0x1_0000 + (high - 0xd800) * 0x400 + (low - 0xdc00)) as char
}

/// The text of units in UTF-16. A surrogate without its other half becomes a
/// replacement character.
pub open spec fn text_of(w: Seq<u16>) -> Seq<char>
    decreases w.len(),
{
    if w.len() == 0 {
        Seq::empty()
    } else if !is_high(w[0]) && !is_low(w[0]) {
        seq![w[0] as char] + text_of(w.skip(1))
    } else if is_high(w[0]) && w.len() > 1 && is_low(w[1]) {
        seq![paired(w[0], w[1])] + text_of(w.skip(2))
    } else {
        seq!['\u{fffd}'] + text_of(w.skip(1))
    }
}

/// A text in UTF-16 with a zero behind it.
pub fn wide_null(s: &str) -> (r: Vec<u16>)
    ensures
        r@ == utf16(s@).push(0),
{
    let chars: Vec<char> = chars_of(s);
    let mut out: Vec<u16> = Vec::new();
    let mut i: usize = 0;
    assert(s@.skip(0) =~= s@);
    assert(out@ + utf16(s@) =~= utf16(s@));
    while i < chars.len()
        invariant
            chars@ == s@,
            i <= chars.len(),
            out@ + utf16(s@.skip(i as int)) == utf16(s@),
        decreases chars.len() - i,
    {
        let ghost before = out@;
        let c: char = chars[i];
        let v: u32 = c as u32;
        proof {
            lemma_units(c);
        }
        if v < 0x1_0000 {
            out.push(v as u16);
        } else {
            let rest: u32 = v - 0x1_0000;
            out.push((0xd800 + rest / 0x400) as u16);
            out.push((0xdc00 + rest % 0x400) as u16);
        }
        proof {
            let tail = s@.skip(i as int);
            assert(tail[0] == chars@[i as int]);
            assert(tail.skip(1) =~= s@.skip(i + 1));
            assert(out@ =~= before + units(tail[0]));
            assert(out@ + utf16(tail.skip(1)) =~= before + utf16(tail));
        }
        i = i + 1;
    }
    assert(s@.skip(i as int) =~= Seq::<char>::empty());
    assert(out@ =~= utf16(s@));
    out.push(0);
    out
}

fn scalar(v: u32) -> (r: char)
    requires
        v < 0xd800 || 0xe000 <= v <= 0x10ffff,
    ensures
        r as u32 == v,
{
    match char::from_u32(v) {
        Some(c) => c,
        None => '\u{fffd}',
    }
}

/// Reads UTF-16 as far as it goes.
pub fn from_wide_lossy(w: &[u16]) -> (r: String)
    ensures
        r@ == text_of(w@),
{
    let mut out: String = String::new();
    let mut i: usize = 0;
    let n: usize = w.len();
    assert(w@.skip(0) =~= w@);
    assert(out@ + text_of(w@) =~= text_of(w@));
    while i < n
        invariant
            n == w@.len(),
            i <= n,
            out@ + text_of(w@.skip(i as int)) == text_of(w@),
        decreases n - i,
    {
        let ghost before = out@;
        let ghost tail = w@.skip(i as int);
        let u: u16 = w[i];
        if u < 0xd800 || u > 0xdfff {
            let c: char = scalar(u as u32);
            out.push(c);
            proof {
                assert(tail[0] == u && c == u as char);
                assert(tail.skip(1) =~= w@.skip(i + 1));
                assert(out@ + text_of(w@.skip(i + 1)) =~= before + text_of(tail));
            }
            i = i + 1;
        } else if u <= 0xdbff && i + 1 < n && w[i + 1] >= 0xdc00 && w[i + 1] <= 0xdfff {
            let v: u32 = 0x1_0000 + (u as u32 - 0xd800) * 0x400 + (w[i + 1] as u32 - 0xdc00);
            let c: char = scalar(v);
            out.push(c);
            proof {
                assert(tail[0] == u && tail[1] == w@[i + 1]);
                assert(c == paired(tail[0], tail[1]));
                assert(tail.skip(2) =~= w@.skip(i + 2));
                assert(out@ + text_of(w@.skip(i + 2)) =~= before + text_of(tail));
            }
            i = i + 2;
        } else {
            out.push('\u{fffd}');
            proof {
                assert(tail[0] == u);
                assert(tail.skip(1) =~= w@.skip(i + 1));
                assert(out@ + text_of(w@.skip(i + 1)) =~= before + text_of(tail));
            }
            i = i + 1;
        }
    }
    assert(w@.skip(i as int) =~= Seq::<u16>::empty());
    assert(out@ =~= text_of(w@));
    out
}

/// A text without the zeros at its end.
pub open spec fn without_nuls(s: Seq<char>) -> Seq<char>
    decreases s.len(),
{
    if s.len() > 0 && s.last() == '\0' {
        without_nuls(s.drop_last())
    } else {
        s
    }
}

/// The units before the first zero.
pub open spec fn until_zero(w: Seq<u16>) -> Seq<u16>
    decreases w.len(),
{
    if w.len() == 0 || w[0] == 0 {
        Seq::empty()
    } else {
        seq![w[0]] + until_zero(w.skip(1))
    }
}

/// Reads a text that a zero ends, or the end of the buffer.
pub fn from_wide_null(w: &[u16]) -> (r: String)
    ensures
        r@ == text_of(until_zero(w@)),
{
    let mut head: Vec<u16> = Vec::new();
    let mut i: usize = 0;
    assert(w@.skip(0) =~= w@);
    assert(head@ + until_zero(w@) =~= until_zero(w@));
    while i < w.len() && w[i] != 0
        invariant
            i <= w@.len(),
            head@ + until_zero(w@.skip(i as int)) == until_zero(w@),
        decreases w@.len() - i,
    {
        proof {
            let tail = w@.skip(i as int);
            assert(tail.skip(1) =~= w@.skip(i + 1));
            assert(head@.push(w@[i as int]) + until_zero(tail.skip(1)) =~= head@ + until_zero(tail));
        }
        head.push(w[i]);
        i = i + 1;
    }
    proof {
        let tail = w@.skip(i as int);
        assert(i < w@.len() ==> tail[0] == 0);
        assert(head@ =~= until_zero(w@));
    }
    from_wide_lossy(head.as_slice())
}

/// The units that bytes in pairs stand for, the low byte first. An odd byte at
/// the end is dropped.
pub open spec fn units_of_bytes(b: Seq<u8>) -> Seq<u16> {
    Seq::new((b.len() / 2) as nat, |i: int| (b[2 * i] + 256 * b[2 * i + 1]) as u16)
}

/// The bytes of units, the low byte first.
pub open spec fn bytes_of_units(w: Seq<u16>) -> Seq<u8> {
    Seq::new(
        w.len() * 2,
        |k: int|
            if k % 2 == 0 {
                (w[k / 2] % 256) as u8
            } else {
                (w[k / 2] / 256) as u8
            },
    )
}

/// The bytes of units, the low byte first.
pub fn wide_bytes(w: &[u16]) -> (r: Vec<u8>)
    ensures
        r@ == bytes_of_units(w@),
{
    let mut out: Vec<u8> = Vec::new();
    let mut i: usize = 0;
    while i < w.len()
        invariant
            i <= w@.len(),
            out@ == bytes_of_units(w@.take(i as int)),
        decreases w@.len() - i,
    {
        out.push((w[i] % 256) as u8);
        out.push((w[i] / 256) as u8);
        assert(out@ =~= bytes_of_units(w@.take(i + 1)));
        i = i + 1;
    }
    assert(w@.take(i as int) =~= w@);
    out
}

/// A text as the registry holds it: bytes of UTF-16, ended by zeros which are
/// not part of it.
pub open spec fn registry_text(b: Seq<u8>) -> Seq<char> {
    without_nuls(text_of(units_of_bytes(b)))
}

/// Reads a text from the first `len` bytes of a buffer, or from all where it has
/// no more.
pub fn from_registry(buf: &[u8], len: u32) -> (r: String)
    ensures
        r@ == registry_text(
            if len < buf@.len() {
                buf@.take(len as int)
            } else {
                buf@
            },
        ),
{
    let total: usize = buf.len();
    let n: usize = if (len as u64) < total as u64 {
        len as usize
    } else {
        total
    };
    let ghost b = buf@.take(n as int);
    let mut units: Vec<u16> = Vec::new();
    let mut i: usize = 0;
    while i < n / 2
        invariant
            n <= buf@.len(),
            b == buf@.take(n as int),
            i <= n / 2,
            units@ == units_of_bytes(b).take(i as int),
        decreases n / 2 - i,
    {
        let lo: u16 = buf[2 * i] as u16;
        let hi: u16 = buf[2 * i + 1] as u16;
        units.push(lo + 256 * hi);
        i = i + 1;
        assert(units@ =~= units_of_bytes(b).take(i as int));
    }
    assert(units@ =~= units_of_bytes(b));
    assert(n == total ==> b =~= buf@);
    let text: String = from_wide_lossy(units.as_slice());
    let chars: Vec<char> = chars_of(text.as_str());
    let mut end: usize = chars.len();
    assert(chars@.take(end as int) =~= chars@);
    while end > 0 && chars[end - 1] == '\0'
        invariant
            end <= chars@.len(),
            without_nuls(chars@.take(end as int)) == without_nuls(chars@),
        decreases end,
    {
        assert(chars@.take(end as int).drop_last() =~= chars@.take(end - 1));
        end = end - 1;
    }
    let head: &[char] = vstd::slice::slice_subrange(chars.as_slice(), 0, end);
    assert(head@ =~= chars@.take(end as int));
    crate::text::string_of(head)
}

/// A character fits its units, and can be told from them.
proof fn lemma_units(c: char)
    ensures
        c as int <= 0x10ffff,
        c as int >= 0x1_0000 ==> {
            let rest = c as int - 0x1_0000;
            &&& units(c)[0] == 0xd800 + rest / 0x400
            &&& units(c)[1] == 0xdc00 + rest % 0x400
            &&& is_high(units(c)[0]) && is_low(units(c)[1])
            &&& paired(units(c)[0], units(c)[1]) == c
        },
        (c as int) < 0x1_0000 ==> {
            &&& units(c)[0] == c as int
            &&& !is_high(units(c)[0]) && !is_low(units(c)[0])
            &&& units(c)[0] as char == c
        },
{
    let v = c as int;
    if v >= 0x1_0000 {
        let rest = v - 0x1_0000;
        assert(0 <= rest / 0x400 < 0x400);
        assert(rest == (rest / 0x400) * 0x400 + rest % 0x400);
    }
}

proof fn lemma_utf16_concat(a: Seq<char>, b: Seq<char>)
    ensures
        utf16(a + b) == utf16(a) + utf16(b),
    decreases a.len(),
{
    if a.len() == 0 {
        assert(a + b =~= b);
        assert(utf16(a) + utf16(b) =~= utf16(b));
    } else {
        lemma_utf16_concat(a.skip(1), b);
        assert((a + b).skip(1) =~= a.skip(1) + b);
        assert(utf16(a + b) =~= utf16(a) + utf16(b));
    }
}

/// A text survives the way to UTF-16 and back.
pub proof fn law_utf16_round_trips(s: Seq<char>)
    ensures
        text_of(utf16(s)) == s,
    decreases s.len(),
{
    if s.len() == 0 {
        assert(text_of(utf16(s)) =~= s);
    } else {
        law_utf16_round_trips(s.skip(1));
        let c = s[0];
        let v = c as int;
        let w = utf16(s);
        let rest = utf16(s.skip(1));
        lemma_units(c);
        if v < 0x1_0000 {
            assert(w.skip(1) =~= rest);
            assert(w[0] == units(c)[0]);
            assert(text_of(w) =~= seq![c] + text_of(rest));
        } else {
            assert(w[0] == units(c)[0] && w[1] == units(c)[1]);
            assert(w.skip(2) =~= rest);
            assert(text_of(w) =~= seq![c] + text_of(rest));
        }
        assert(seq![c] + s.skip(1) =~= s);
    }
}

/// What is stored in the registry reads back, as long as it does not itself end
/// in a zero.
pub proof fn law_registry_text_round_trips(s: Seq<char>)
    requires
        s.len() > 0 ==> s.last() != '\0',
    ensures
        registry_text(bytes_of_units(utf16(s).push(0))) == s,
{
    let w = utf16(s).push(0);
    let b = bytes_of_units(w);
    assert forall|i: int| 0 <= i < w.len() implies units_of_bytes(b)[i] == w[i] by {
        assert(b[2 * i] == (w[i] % 256) as u8);
        assert(b[2 * i + 1] == (w[i] / 256) as u8);
    }
    assert(units_of_bytes(b) =~= w);
    let zero = seq!['\0'];
    assert(zero.skip(1) =~= Seq::<char>::empty());
    assert(utf16(zero) =~= seq![0u16]) by {
        reveal_with_fuel(utf16, 2);
    }
    lemma_utf16_concat(s, zero);
    assert(w =~= utf16(s + zero));
    law_utf16_round_trips(s + zero);
    assert((s + zero).drop_last() =~= s);
    assert(without_nuls(s + zero) == without_nuls(s));
    reveal_with_fuel(without_nuls, 2);
}

/// A character of the first plane is a unit of its own number; any other is a high
/// and a low surrogate, which hold the upper and the lower ten bits of what its
/// number exceeds the first plane by.
pub proof fn law_characters_become_units(s: Seq<char>, c: char)
    ensures
        ({
            let v = c as int;
            let w = utf16(seq![c] + s);
            &&& v < 0x1_0000 ==> w.len() == 1 + utf16(s).len() && w[0] == v && w.skip(1) == utf16(s)
            &&& v >= 0x1_0000 ==> {
                &&& w.len() == 2 + utf16(s).len()
                &&& 0xd800 <= w[0] <= 0xdbff && 0xdc00 <= w[1] <= 0xdfff
                &&& v - 0x1_0000 == (w[0] - 0xd800) * 0x400 + (w[1] - 0xdc00)
                &&& w.skip(2) == utf16(s)
            }
        }),
        utf16(Seq::empty()).len() == 0,
{
    let v = c as int;
    let w = utf16(seq![c] + s);
    assert((seq![c] + s).skip(1) =~= s);
    assert(v <= 0x10_ffff);
    if v < 0x1_0000 {
        assert(w.skip(1) =~= utf16(s));
    } else {
        assert(w.skip(2) =~= utf16(s));
    }
}

/// A surrogate that has lost its other half is read as a replacement character, and
/// what follows is read as it would be without it.
pub proof fn law_lone_surrogates_are_replaced(u: u16, rest: Seq<u16>)
    requires
        0xd800 <= u <= 0xdfff,
        u >= 0xdc00 || rest.len() == 0 || !(0xdc00 <= rest[0] <= 0xdfff),
    ensures
        text_of(seq![u] + rest) == seq!['\u{fffd}'] + text_of(rest),
{
    let w = seq![u] + rest;
    assert(w.skip(1) =~= rest);
    assert(rest.len() > 0 ==> w[1] == rest[0]);
}

/// A unit lies in two bytes, the low one first.
pub proof fn law_low_bytes_come_first(w: Seq<u16>, i: int)
    requires
        0 <= i < w.len(),
    ensures
        bytes_of_units(w).len() == 2 * w.len(),
        bytes_of_units(w)[2 * i] + 256 * bytes_of_units(w)[2 * i + 1] == w[i],
        units_of_bytes(bytes_of_units(w))[i] == w[i],
{
    assert(0 <= w[i] % 256 < 256 && 0 <= w[i] / 256 < 256);
    assert((2 * i) / 2 == i && (2 * i + 1) / 2 == i);
}

/// What is read up to a zero holds none, and ends at the first or at the end.
pub proof fn law_texts_end_at_the_first_zero(w: Seq<u16>)
    ensures
        ({
            let t = until_zero(w);
            &&& t.len() <= w.len()
            &&& t == w.take(t.len() as int)
            &&& forall|i: int| 0 <= i < t.len() ==> #[trigger] t[i] != 0
            &&& t.len() < w.len() ==> w[t.len() as int] == 0
        }),
    decreases w.len(),
{
    let t = until_zero(w);
    if w.len() > 0 && w[0] != 0 {
        let rest = w.skip(1);
        law_texts_end_at_the_first_zero(rest);
        let u = until_zero(rest);
        assert(t == seq![w[0]] + u);
        assert forall|i: int| 0 <= i < t.len() implies #[trigger] t[i] != 0 && t[i] == w[i] by {
            if i > 0 {
                assert(t[i] == u[i - 1]);
                assert(u[i - 1] == rest.take(u.len() as int)[i - 1]);
            }
        }
        assert(t =~= w.take(t.len() as int));
        assert(u.len() < rest.len() ==> rest[u.len() as int] == w[t.len() as int]);
    } else {
        assert(w.take(0) =~= t);
    }
}

/// Only zeros are taken off the end of a text, and all of those that are there.
pub proof fn law_only_zeros_are_taken_off(s: Seq<char>)
    ensures
        ({
            let t = without_nuls(s);
            &&& t.len() <= s.len()
            &&& t == s.take(t.len() as int)
            &&& t.len() > 0 ==> t.last() != '\0'
            &&& forall|i: int| t.len() <= i < s.len() ==> #[trigger] s[i] == '\0'
        }),
    decreases s.len(),
{
    let t = without_nuls(s);
    if s.len() > 0 && s.last() == '\0' {
        let rest = s.drop_last();
        law_only_zeros_are_taken_off(rest);
        assert(rest.take(t.len() as int) =~= s.take(t.len() as int));
        assert forall|i: int| t.len() <= i < s.len() implies #[trigger] s[i] == '\0' by {
            if i < rest.len() {
                assert(rest[i] == s[i]);
            }
        }
    } else {
        assert(s.take(s.len() as int) =~= s);
    }
}

} // verus!
