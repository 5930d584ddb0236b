//! UTF-16 text for the Windows API: the code units of a string followed by
//! a terminating zero.
use vstd::prelude::*;
use crate::text::chars_of;

verus! {

/// The UTF-16 code units of one character: one unit below U+10000, else a
/// high surrogate and a low surrogate.
pub open spec fn utf16_units(c: char) -> Seq<u16> {
    let u: u32 = c as u32;
    if u < 0x10000 {
        seq![u as u16]
    } else {
        let v: u32 = (u - 0x10000) as u32;
        seq![(0xD800 + v / 0x400) as u16, (0xDC00 + v % 0x400) as u16]
    }
}

/// The UTF-16 encoding of a character sequence.
pub open spec fn utf16_of(s: Seq<char>) -> Seq<u16>
    decreases s.len(),
{
    if s.len() == 0 {
        Seq::empty()
    } else {
        utf16_units(s[0]) + utf16_of(s.drop_first())
    }
}

/// Whether a unit is a high (leading) surrogate.
pub open spec fn is_high_surrogate(w: u16) -> bool {
    0xD800 <= w < 0xDC00
}

/// Whether a unit is a low (trailing) surrogate.
pub open spec fn is_low_surrogate(w: u16) -> bool {
    0xDC00 <= w < 0xE000
}

/// The code points that a sequence of UTF-16 units stands for: a high
/// surrogate followed by a low one is one code point, any other unit
/// stands for itself.
pub open spec fn utf16_decode(w: Seq<u16>) -> Seq<u32>
    decreases w.len(),
{
    if w.len() == 0 {
        Seq::empty()
    } else if w.len() >= 2 && is_high_surrogate(w[0]) && is_low_surrogate(w[1]) {
        seq![(0x10000 + (w[0] - 0xD800) * 0x400 + (w[1] - 0xDC00)) as u32] + utf16_decode(
            w.skip(2),
        )
    } else {
        seq![w[0] as u32] + utf16_decode(w.skip(1))
    }
}

/// The code points of a character sequence.
pub open spec fn code_points(s: Seq<char>) -> Seq<u32> {
    s.map_values(|c: char| c as u32)
}

proof fn lemma_utf16_of_push(s: Seq<char>, c: char)
    ensures
        utf16_of(s.push(c)) == utf16_of(s) + utf16_units(c),
    decreases s.len(),
{
    assert(s.push(c)[0] == if s.len() == 0 { c } else { s[0] });
    if s.len() == 0 {
        assert(s =~= Seq::<char>::empty());
        assert(utf16_of(s) == Seq::<u16>::empty());
        assert(s.push(c).drop_first() =~= Seq::<char>::empty());
        assert(utf16_units(c) + Seq::<u16>::empty() =~= utf16_units(c));
        assert(Seq::<u16>::empty() + utf16_units(c) =~= utf16_units(c));
    } else {
        assert(s.push(c).drop_first() =~= s.drop_first().push(c));
        lemma_utf16_of_push(s.drop_first(), c);
        assert(utf16_units(s[0]) + (utf16_of(s.drop_first()) + utf16_units(c)) =~= (utf16_units(
            s[0],
        ) + utf16_of(s.drop_first())) + utf16_units(c));
    }
}

/// The UTF-16 units of `s` followed by a terminating zero unit, as the
/// Windows API takes text.
pub fn wide(s: &str) -> (res: Vec<u16>)
    ensures
        res@ == utf16_of(s@).push(0),
{
    let cs = chars_of(s);
    let mut res: Vec<u16> = Vec::new();
    let mut i: usize = 0;
    while i < cs.len()
        invariant
            i <= cs.len(),
            res@ == utf16_of(cs@.take(i as int)),
        decreases cs.len() - i,
    {
        let c = cs[i];
        proof {
            assert(cs@.take(i + 1) =~= cs@.take(i as int).push(c));
            lemma_utf16_of_push(cs@.take(i as int), c);
        }
        let u: u32 = c as u32;
        proof {
            vstd::utf8::char_is_scalar(c);
        }
        if u < 0x10000 {
            res.push(u as u16);
        } else {
            let v: u32 = u - 0x10000;
            res.push((0xD800 + v / 0x400) as u16);
            res.push((0xDC00 + v % 0x400) as u16);
        }
        proof {
            assert(res@ =~= utf16_of(cs@.take(i as int)) + utf16_units(c));
        }
        i += 1;
    }
    proof {
        assert(cs@.take(i as int) =~= s@);
    }
    res.push(0);
    res
}

/// Reading the units of one character back gives that character.
proof fn lemma_decode_units(c: char, rest: Seq<u16>)
    ensures
        utf16_decode(utf16_units(c) + rest) == seq![c as u32] + utf16_decode(rest),
{
    vstd::utf8::char_is_scalar(c);
    let u: u32 = c as u32;
    let w = utf16_units(c) + rest;
    if u < 0x10000 {
        assert(w[0] == u as u16);
        assert(!is_high_surrogate(w[0]));
        assert(w.skip(1) =~= rest);
    } else {
        let v: u32 = (u - 0x10000) as u32;
        assert(v == 0x400 * (v / 0x400) + v % 0x400) by (nonlinear_arith);
        assert(w[0] == (0xD800 + v / 0x400) as u16);
        assert(w[1] == (0xDC00 + v % 0x400) as u16);
        assert(w.skip(2) =~= rest);
    }
}

/// Decoding the UTF-16 encoding of a text gives back its characters:
/// the encoding loses nothing.
pub proof fn lemma_utf16_round_trip(s: Seq<char>)
    ensures
        utf16_decode(utf16_of(s)) == code_points(s),
    decreases s.len(),
{
    if s.len() == 0 {
        assert(code_points(s) =~= Seq::<u32>::empty());
    } else {
        lemma_utf16_round_trip(s.drop_first());
        lemma_decode_units(s[0], utf16_of(s.drop_first()));
        assert(code_points(s) =~= seq![s[0] as u32] + code_points(s.drop_first()));
    }
}

/// A text without NUL characters encodes to units none of which is zero,
/// so the zero appended by `wide` is the only one and the Windows API sees
/// the whole text.
pub proof fn lemma_utf16_no_zero(s: Seq<char>)
    requires
        forall|i: int| 0 <= i < s.len() ==> s[i] as u32 != 0,
    ensures
        forall|k: int| 0 <= k < utf16_of(s).len() ==> utf16_of(s)[k] != 0,
    decreases s.len(),
{
    if s.len() > 0 {
        lemma_utf16_no_zero(s.drop_first());
        let head = utf16_units(s[0]);
        let tail = utf16_of(s.drop_first());
        assert forall|k: int| 0 <= k < utf16_of(s).len() implies utf16_of(s)[k] != 0 by {
            assert(utf16_of(s) == head + tail);
            if k >= head.len() {
                assert(utf16_of(s)[k] == tail[k - head.len()]);
            } else {
                let u: u32 = s[0] as u32;
                assert(u != 0);
                vstd::utf8::char_is_scalar(s[0]);
                if u < 0x10000 {
                    assert(head[k] == u as u16);
                } else {
                    let v: u32 = (u - 0x10000) as u32;
                    assert(head[0] == (0xD800 + v / 0x400) as u16);
                    assert(head[1] == (0xDC00 + v % 0x400) as u16);
                }
            }
        }
    }
}

} // verus!
