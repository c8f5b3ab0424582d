//! Text conversions into the runtime's 16-bit character units: UTF-8 text
//! becomes UTF-16 code units (with surrogate pairs above the basic plane),
//! and static byte strings are taken unit for unit, as the legacy runtime
//! does for its process-wide constants.

use vstd::prelude::*;

use crate::arena::Arena;
use crate::avm_string::{is_record_handle, AvmString, Source};
use crate::wstring::{fits_narrow, WString};
use vstd::string::StringSliceAdditionalSpecFns;

verus! {

/// The UTF-16 code units of one scalar value: itself below `0x10000`, a
/// surrogate pair above.
pub open spec fn utf16_units_of_char(c: char) -> Seq<u16> {
    if (c as int) < 0x10000 {
        seq![c as u16]
    } else {
        seq![
            (0xD800 + ((c as int) - 0x10000) / 0x400) as u16,
            (0xDC00 + ((c as int) - 0x10000) % 0x400) as u16,
        ]
    }
}

/// The UTF-16 code units of a character sequence.
pub open spec fn utf16_units(s: Seq<char>) -> Seq<u16>
    decreases s.len(),
{
    if s.len() == 0 {
        Seq::empty()
    } else {
        utf16_units_of_char(s[0]) + utf16_units(s.drop_first())
    }
}

pub proof fn lemma_utf16_units_push(s: Seq<char>, c: char)
    ensures
        utf16_units(s.push(c)) == utf16_units(s) + utf16_units_of_char(c),
    decreases s.len(),
{
    if s.len() == 0 {
        let sp = s.push(c);
        assert(sp.len() == 1);
        assert(sp[0] == c);
        assert(sp.drop_first() =~= Seq::<char>::empty());
        assert(utf16_units(sp.drop_first()) == Seq::<u16>::empty());
        assert(utf16_units(sp) =~= utf16_units_of_char(c));
        assert(utf16_units(s) + utf16_units_of_char(c) =~= utf16_units_of_char(c));
    } else {
        lemma_utf16_units_push(s.drop_first(), c);
        assert(s.push(c).drop_first() =~= s.drop_first().push(c));
        assert(utf16_units(s) + utf16_units_of_char(c) =~= utf16_units_of_char(s[0]) + (
        utf16_units(s.drop_first()) + utf16_units_of_char(c)));
    }
}

/// Encode `s` as UTF-16 code units.
pub fn utf16_units_of_str(s: &str) -> (r: Vec<u16>)
    ensures
        r@ == utf16_units(s@),
{
    let n = s.unicode_len();
    let mut out: Vec<u16> = Vec::new();
    let mut i: usize = 0;
    while i < n
        invariant
            i <= n,
            n == s@.len(),
            out@ == utf16_units(s@.subrange(0, i as int)),
        decreases n - i,
    {
        let c = s.get_char(i);
        let code = c as u32;
        if code < 0x10000 {
            out.push(#[verifier::truncate] (code as u16));
        } else {
            let v = code - 0x10000;
            out.push(#[verifier::truncate] ((0xD800 + (v / 0x400)) as u16));
            out.push(#[verifier::truncate] ((0xDC00 + (v % 0x400)) as u16));
        }
        proof {
            lemma_utf16_units_push(s@.subrange(0, i as int), c);
            assert(s@.subrange(0, i + 1) =~= s@.subrange(0, i as int).push(s@[i as int]));
        }
        i += 1;
    }
    proof {
        assert(s@.subrange(0, n as int) =~= s@);
    }
    out
}

/// Every byte, one unit each: how the runtime reads a static byte string
/// (no decoding — the legacy behaviour for process-wide constants).
pub open spec fn byte_units(b: Seq<u8>) -> Seq<u16> {
    Seq::new(b.len(), |i: int| b[i] as u16)
}

/// A UTF-8 continuation byte.
pub open spec fn is_cont(b: u8) -> bool {
    0x80 <= b < 0xC0
}

/// The second byte a three-byte sequence headed by `h` admits: the usual
/// continuation range, narrowed for `0xE0` (overlong) and `0xED`
/// (surrogates).
pub open spec fn valid_second_of_three(h: u8, b: u8) -> bool {
    if h == 0xE0 {
        0xA0 <= b < 0xC0
    } else if h == 0xED {
        0x80 <= b < 0xA0
    } else {
        is_cont(b)
    }
}

/// The second byte a four-byte sequence headed by `h` admits: narrowed for
/// `0xF0` (overlong) and `0xF4` (above U+10FFFF).
pub open spec fn valid_second_of_four(h: u8, b: u8) -> bool {
    if h == 0xF0 {
        0x90 <= b < 0xC0
    } else if h == 0xF4 {
        0x80 <= b < 0x90
    } else {
        is_cont(b)
    }
}

/// How many bytes the first decoded item of `b` consumes: the length of a
/// well-formed UTF-8 sequence at the head, and a single byte otherwise.
pub open spec fn step_len(b: Seq<u8>) -> int
    recommends
        b.len() > 0,
{
    let h = b[0];
    if h < 0x80 {
        1
    } else if 0xC2 <= h <= 0xDF && b.len() >= 2 && is_cont(b[1]) {
        2
    } else if 0xE0 <= h <= 0xEF && b.len() >= 3 && valid_second_of_three(h, b[1]) && is_cont(
        b[2],
    ) {
        3
    } else if 0xF0 <= h <= 0xF4 && b.len() >= 4 && valid_second_of_four(h, b[1]) && is_cont(b[2])
        && is_cont(b[3]) {
        4
    } else {
        1
    }
}

/// The units the first decoded item of `b` yields: the scalar of a
/// well-formed sequence (a surrogate pair above the basic plane), and the
/// replacement character `0xFFFD` for each byte of an ill-formed one.
pub open spec fn step_units(b: Seq<u8>) -> Seq<u16>
    recommends
        b.len() > 0,
{
    let h = b[0];
    if h < 0x80 {
        seq![h as u16]
    } else if step_len(b) == 2 {
        seq![(((h as int) - 0xC0) * 0x40 + ((b[1] as int) - 0x80)) as u16]
    } else if step_len(b) == 3 {
        seq![
            (((h as int) - 0xE0) * 0x1000 + ((b[1] as int) - 0x80) * 0x40 + ((b[2] as int)
                - 0x80)) as u16,
        ]
    } else if step_len(b) == 4 {
        let cp = ((h as int) - 0xF0) * 0x40000 + ((b[1] as int) - 0x80) * 0x1000 + ((b[2] as int)
            - 0x80) * 0x40 + ((b[3] as int) - 0x80);
        seq![(0xD800 + (cp - 0x10000) / 0x400) as u16, (0xDC00 + (cp - 0x10000) % 0x400) as u16]
    } else {
        seq![0xFFFDu16]
    }
}

/// Decode UTF-8 bytes into UTF-16 code units; each byte of an ill-formed
/// sequence becomes the replacement character.
pub open spec fn utf8_decode(b: Seq<u8>) -> Seq<u16>
    decreases b.len(),
{
    if b.len() == 0 {
        Seq::empty()
    } else {
        step_units(b) + utf8_decode(b.skip(step_len(b)))
    }
}

/// Decode UTF-8 bytes into UTF-16 code units, one replacement character
/// per ill-formed byte.
pub fn utf8_decode_bytes(bytes: &[u8]) -> (r: Vec<u16>)
    ensures
        r@ == utf8_decode(bytes@),
{
    let n = bytes.len();
    let mut out: Vec<u16> = Vec::new();
    let mut i: usize = 0;
    proof {
        assert(bytes@.skip(0) =~= bytes@);
        assert(out@ + utf8_decode(bytes@) =~= utf8_decode(bytes@));
    }
    while i < n
        invariant
            i <= n,
            n == bytes@.len(),
            utf8_decode(bytes@) == out@ + utf8_decode(bytes@.skip(i as int)),
        decreases n - i,
    {
        let ghost s = bytes@.skip(i as int);
        let ghost out0 = out@;
        let h = bytes[i];
        let k: usize;
        if h < 0x80 {
            out.push(h as u16);
            k = 1;
        } else if 0xC2 <= h && h <= 0xDF && n - i > 1 && 0x80 <= bytes[i + 1] && bytes[i + 1]
            < 0xC0 {
            let b1 = bytes[i + 1];
            let unit = ((h as u32) - 0xC0) * 0x40 + ((b1 as u32) - 0x80);
            out.push(#[verifier::truncate] (unit as u16));
            k = 2;
        } else if 0xE0 <= h && h <= 0xEF && n - i > 2 && second_of_three_ok(h, bytes[i + 1])
            && 0x80 <= bytes[i + 2] && bytes[i + 2] < 0xC0 {
            let b1 = bytes[i + 1];
            let b2 = bytes[i + 2];
            let unit = ((h as u32) - 0xE0) * 0x1000 + ((b1 as u32) - 0x80) * 0x40 + ((b2 as u32)
                - 0x80);
            out.push(#[verifier::truncate] (unit as u16));
            k = 3;
        } else if 0xF0 <= h && h <= 0xF4 && n - i > 3 && second_of_four_ok(h, bytes[i + 1])
            && 0x80 <= bytes[i + 2] && bytes[i + 2] < 0xC0 && 0x80 <= bytes[i + 3] && bytes[i + 3]
            < 0xC0 {
            let b1 = bytes[i + 1];
            let b2 = bytes[i + 2];
            let b3 = bytes[i + 3];
            let cp = ((h as u32) - 0xF0) * 0x40000 + ((b1 as u32) - 0x80) * 0x1000 + ((b2 as u32)
                - 0x80) * 0x40 + ((b3 as u32) - 0x80);
            let v = cp - 0x10000;
            out.push(#[verifier::truncate] ((0xD800 + v / 0x400) as u16));
            out.push(#[verifier::truncate] ((0xDC00 + v % 0x400) as u16));
            k = 4;
        } else {
            out.push(0xFFFD);
            k = 1;
        }
        proof {
            assert(s.len() == n - i);
            assert forall|j: int| 0 <= j < s.len() implies s[j] == bytes@[i + j] by {}
            assert(step_len(s) == k);
            assert(out@ =~= out0 + step_units(s));
            assert(utf8_decode(s) == step_units(s) + utf8_decode(s.skip(k as int)));
            assert(s.skip(k as int) =~= bytes@.skip(i + k));
            assert(utf8_decode(bytes@) == (out0 + step_units(s)) + utf8_decode(
                bytes@.skip(i + k),
            )) by {
                assert(out0 + (step_units(s) + utf8_decode(s.skip(k as int))) =~= (out0
                    + step_units(s)) + utf8_decode(s.skip(k as int)));
            }
        }
        i += k;
    }
    proof {
        assert(bytes@.skip(n as int) =~= Seq::<u8>::empty());
        assert(out@ =~= utf8_decode(bytes@));
    }
    out
}

/// The narrowed continuation check for the second byte after `h` of a
/// three-byte sequence.
fn second_of_three_ok(h: u8, b: u8) -> (r: bool)
    ensures
        r == valid_second_of_three(h, b),
{
    if h == 0xE0 {
        0xA0 <= b && b < 0xC0
    } else if h == 0xED {
        0x80 <= b && b < 0xA0
    } else {
        0x80 <= b && b < 0xC0
    }
}

/// The narrowed continuation check for the second byte after `h` of a
/// four-byte sequence.
fn second_of_four_ok(h: u8, b: u8) -> (r: bool)
    ensures
        r == valid_second_of_four(h, b),
{
    if h == 0xF0 {
        0x90 <= b && b < 0xC0
    } else if h == 0xF4 {
        0x80 <= b && b < 0x90
    } else {
        0x80 <= b && b < 0xC0
    }
}

impl AvmString {
    /// Allocate a new non-dependent, non-interned record holding the
    /// UTF-16 encoding of `string`, narrow when every unit fits one byte.
    pub fn new_utf8(arena: &mut Arena, string: &str) -> (res: AvmString)
        requires
            old(arena).wf(),
        ensures
            final(arena).wf(),
            old(arena).extends(*final(arena)),
            final(arena).wf_handle(res),
            is_record_handle(res, old(arena).records@.len() as int),
            final(arena).str_view(res) == utf16_units(string@),
            final(arena).str_wide(res) == !fits_narrow(utf16_units(string@)),
            final(arena).spec_owner(res) is None,
            final(arena).buffer_allocs == old(arena).buffer_allocs + 1,
            !final(arena).records@[old(arena).records@.len() as int].interned,
            final(arena).intern_table@ == old(arena).intern_table@,
    {
        let units = utf16_units_of_str(string);
        let buf = WString::from_units(units);
        AvmString::new(arena, buf)
    }

    /// Allocate a new non-dependent, non-interned record holding the
    /// decoding of `bytes` as UTF-8 text, with one replacement character
    /// per ill-formed byte; narrow when every unit fits one byte.
    pub fn new_utf8_bytes(arena: &mut Arena, bytes: &[u8]) -> (res: AvmString)
        requires
            old(arena).wf(),
        ensures
            final(arena).wf(),
            old(arena).extends(*final(arena)),
            final(arena).wf_handle(res),
            is_record_handle(res, old(arena).records@.len() as int),
            final(arena).str_view(res) == utf8_decode(bytes@),
            final(arena).str_wide(res) == !fits_narrow(utf8_decode(bytes@)),
            final(arena).spec_owner(res) is None,
            final(arena).buffer_allocs == old(arena).buffer_allocs + 1,
            !final(arena).records@[old(arena).records@.len() as int].interned,
            final(arena).intern_table@ == old(arena).intern_table@,
    {
        let units = utf8_decode_bytes(bytes);
        let buf = WString::from_units(units);
        AvmString::new(arena, buf)
    }

    /// A static handle over `string`'s bytes taken unit for unit, the
    /// runtime's treatment of process-wide constant text. No record and no
    /// character buffer is allocated.
    pub fn from_static_str(arena: &mut Arena, string: &str) -> (res: AvmString)
        requires
            old(arena).wf(),
        ensures
            final(arena).wf(),
            old(arena).extends(*final(arena)),
            final(arena).wf_handle(res),
            final(arena).str_view(res) == byte_units(string.spec_bytes()),
            !final(arena).str_wide(res),
            final(arena).spec_owner(res) is None,
            final(arena).buffer_allocs == old(arena).buffer_allocs,
            final(arena).records@ == old(arena).records@,
            res.source is Static,
    {
        let bytes = string.as_bytes();
        let mut units: Vec<u16> = Vec::new();
        let mut i: usize = 0;
        while i < bytes.len()
            invariant
                i <= bytes@.len(),
                units@.len() == i,
                forall|j: int| 0 <= j < i ==> units@[j] == bytes@[j] as u16,
            decreases bytes@.len() - i,
        {
            units.push(bytes[i] as u16);
            i += 1;
        }
        proof {
            assert(units@ =~= byte_units(string.spec_bytes()));
            assert(fits_narrow(units@));
        }
        let si = arena.add_static(units, false);
        AvmString { source: Source::Static(si) }
    }
}

} // verus!
