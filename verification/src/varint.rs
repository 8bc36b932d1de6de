//! Minecraft protocol VarInt: the little-endian base-128 encoding of a 32-bit
//! integer, seven payload bits per byte, the high bit marking that another
//! byte follows.
use vstd::prelude::*;
use crate::text::{chars_of, string_of};

verus! {

/// The bytes that encode `v`, least significant group of seven bits first.
pub open spec fn varint_encoding(v: u32) -> Seq<u8>
    decreases v,
{
    let low = (v & 0x7f) as u8;
    if v >> 7u32 == 0 {
        seq![low]
    } else {
        proof {
            assert(v >> 7u32 != 0 ==> v >> 7u32 < v) by (bit_vector);
        }
        seq![low | 0x80u8] + varint_encoding(v >> 7u32)
    }
}

/// Appends the VarInt encoding of `value` (taken as its 32-bit two's
/// complement pattern, so negative values always use five bytes) to `buf`.
pub fn write_varint(buf: &mut Vec<u8>, value: i32)
    ensures
        final(buf)@ == old(buf)@ + varint_encoding(value as u32),
{
    let ghost start = buf@;
    let ghost whole = value as u32;
    let mut rest: u32 = value as u32;
    loop
        invariant_except_break
            start + varint_encoding(whole) == buf@ + varint_encoding(rest),
        ensures
            buf@ == start + varint_encoding(whole),
        decreases rest,
    {
        let mut byte: u8 = (rest & 0x7f) as u8;
        let ghost before = rest;
        rest = rest >> 7;
        if rest != 0 {
            byte = byte | 0x80;
        }
        buf.push(byte);
        if rest == 0 {
            assert(buf@ == start + varint_encoding(whole));
            break;
        }
        proof {
            assert(before >> 7u32 != 0 ==> before >> 7u32 < before) by (bit_vector);
            assert(varint_encoding(before) == seq![byte] + varint_encoding(rest));
            assert(buf@ + varint_encoding(rest) =~= (buf@.drop_last() + varint_encoding(before)));
        }
    }
}


/// What one more byte does to a VarInt being read.
#[derive(Clone, Copy, Debug, PartialEq, Eq)]
pub enum VarIntStep {
    /// The byte had no continuation bit: the VarInt is complete.
    Done(i32),
    /// The byte announced another one.
    NeedMore,
    /// Five bytes have already announced a successor: a sixth byte would
    /// carry bits beyond the 32 a VarInt holds, so the VarInt is refused.
    TooLong,
}

/// The error reported for a VarInt longer than five bytes.
pub open spec fn varint_too_long_text() -> Seq<char> {
    "VarInt zu groß"@
}

/// The error message for a VarInt longer than five bytes.
pub fn varint_too_long_error() -> (r: String)
    ensures
        r@ == varint_too_long_text(),
{
    string_of(&chars_of("VarInt zu groß"))
}

/// A VarInt being read one byte at a time, as it arrives from a stream.
pub struct VarIntReader {
    result: u32,
    shift: u32,
}

/// The accumulated value after `byte` at bit offset `shift`.
pub open spec fn varint_accumulate(result: u32, shift: u32, byte: u8) -> u32 {
    result | (((byte & 0x7fu8) as u32) << shift)
}

impl VarIntReader {
    /// Bits gathered so far.
    pub closed spec fn value_so_far(&self) -> u32 {
        self.result
    }

    /// Bit offset at which the next byte's seven payload bits go.
    pub closed spec fn next_shift(&self) -> u32 {
        self.shift
    }

    /// The shift of a reader is a multiple of seven no larger than 35.
    pub closed spec fn wf(&self) -> bool {
        &&& self.shift % 7 == 0
        &&& self.shift <= 35
    }

    /// A reader that has seen no byte yet.
    pub fn new() -> (r: Self)
        ensures
            r.wf(),
            r.value_so_far() == 0,
            r.next_shift() == 0,
    {
        VarIntReader { result: 0, shift: 0 }
    }

    /// Takes the next byte of the VarInt. After five bytes that each
    /// announced a successor, the next byte is refused with `TooLong` and
    /// the reader stays as it was.
    pub fn push(&mut self, byte: u8) -> (step: VarIntStep)
        requires
            old(self).wf(),
        ensures
            final(self).wf(),
            (final(self).value_so_far(), final(self).next_shift(), step) == push_outcome(
                old(self).value_so_far(),
                old(self).next_shift(),
                byte,
            ),
            old(self).next_shift() >= 32 ==> *final(self) == *old(self),
    {
        let s = self.shift;
        if s >= 32 {
            return VarIntStep::TooLong;
        }
        let payload: u32 = (byte & 0x7f) as u32;
        let r = self.result;
        proof {
            assert(s % 7 == 0 && s < 32 ==> s <= 28);
        }
        let next = r | (payload << s);
        self.result = next;
        if byte & 0x80 == 0 {
            VarIntStep::Done(next as i32)
        } else {
            self.shift = s + 7;
            VarIntStep::NeedMore
        }
    }
}


/// A reader's bits, shift and report after one more byte: past five
/// announced bytes the byte is refused and nothing changes; otherwise its
/// seven payload bits are added at the shift, and the VarInt is done unless
/// the byte announces another.
pub open spec fn push_outcome(result: u32, shift: u32, byte: u8) -> (u32, u32, VarIntStep) {
    if shift >= 32 {
        (result, shift, VarIntStep::TooLong)
    } else {
        let next = varint_accumulate(result, shift, byte);
        if byte & 0x80u8 == 0 {
            (next, shift, VarIntStep::Done(next as i32))
        } else {
            (next, (shift + 7) as u32, VarIntStep::NeedMore)
        }
    }
}

/// What a reader in state (`result`, `shift`) reports when `bytes` are
/// pushed one by one: `Some(v)` when every byte but the last reports
/// `NeedMore` and the last reports `Done(v)`; `None` otherwise.
pub open spec fn pushed_run(result: u32, shift: u32, bytes: Seq<u8>) -> Option<i32>
    decreases bytes.len(),
{
    if bytes.len() == 0 {
        None
    } else {
        let (r, s, step) = push_outcome(result, shift, bytes[0]);
        if bytes.len() == 1 {
            match step {
                VarIntStep::Done(v) => Some(v),
                _ => None,
            }
        } else {
            match step {
                VarIntStep::NeedMore => pushed_run(r, s, bytes.drop_first()),
                _ => None,
            }
        }
    }
}

/// Pushing bytes into a reader one by one ends exactly as `varint_decode`
/// says.
pub proof fn lemma_pushed_run_decodes(result: u32, shift: u32, bytes: Seq<u8>)
    ensures
        pushed_run(result, shift, bytes) == varint_decode(result, shift, bytes),
    decreases bytes.len(),
{
    if bytes.len() > 0 {
        if shift < 32 {
            let next = varint_accumulate(result, shift, bytes[0]);
            if bytes[0] & 0x80u8 != 0 {
                if bytes.len() > 1 {
                    lemma_pushed_run_decodes(next, (shift + 7) as u32, bytes.drop_first());
                    assert(pushed_run(result, shift, bytes) == pushed_run(next, (shift + 7) as u32, bytes.drop_first()));
                    assert(varint_decode(result, shift, bytes) == varint_decode(next, (shift + 7) as u32, bytes.drop_first()));
                } else {
                    assert(pushed_run(result, shift, bytes) is None);
                    assert(varint_decode(next, (shift + 7) as u32, bytes.drop_first()) is None);
                    assert(varint_decode(result, shift, bytes) is None);
                }
            } else {
                assert(pushed_run(result, shift, bytes) == varint_decode(result, shift, bytes));
            }
        } else {
            assert(pushed_run(result, shift, bytes) is None);
            assert(varint_decode(result, shift, bytes) is None);
        }
    }
}

/// What a reader in state (`result`, `shift`) ends with when it is fed
/// `bytes` one by one: `Some(v)` when the last byte, and only the last, ends
/// the VarInt (no continuation bit), `v` being the value `push` reports;
/// `None` when the bytes end early, go on after the VarInt is complete, or
/// would be shifted past bit 31.
pub open spec fn varint_decode(result: u32, shift: u32, bytes: Seq<u8>) -> Option<i32>
    decreases bytes.len(),
{
    if bytes.len() == 0 || shift >= 32 {
        None
    } else {
        let next = varint_accumulate(result, shift, bytes[0]);
        if bytes[0] & 0x80u8 == 0 {
            if bytes.len() == 1 {
                Some(next as i32)
            } else {
                None
            }
        } else {
            varint_decode(next, (shift + 7) as u32, bytes.drop_first())
        }
    }
}

proof fn lemma_group_bits(r: u32, s: u32, w: u32)
    by (bit_vector)
    requires
        s == 0 || s == 7 || s == 14 || s == 21,
        r >> s == 0,
        s == 0 || w >> ((32 - s) as u32) == 0,
    ensures
        (r | ((w & 0x7f) << s)) >> ((s + 7) as u32) == 0,
        (w >> 7u32) >> ((32 - (s + 7)) as u32) == 0,
        (r | ((w & 0x7f) << s)) | ((w >> 7u32) << ((s + 7) as u32)) == r | (w << s),
{
}

proof fn lemma_decode_encoding(r: u32, s: u32, w: u32)
    requires
        s == 0 || s == 7 || s == 14 || s == 21 || s == 28,
        r >> s == 0,
        s == 0 || w >> ((32 - s) as u32) == 0,
    ensures
        varint_decode(r, s, varint_encoding(w)) == Some((r | (w << s)) as i32),
    decreases w,
{
    let enc = varint_encoding(w);
    let low = (w & 0x7f) as u8;
    assert((low & 0x7fu8) as u32 == w & 0x7f) by (bit_vector)
        requires
            low == (w & 0x7f) as u8,
    ;
    if w >> 7u32 == 0 {
        assert(enc == seq![low]);
        assert(low & 0x80u8 == 0) by (bit_vector)
            requires
                low == (w & 0x7f) as u8,
        ;
        assert(w >> 7u32 == 0 ==> w & 0x7f == w) by (bit_vector);
    } else {
        let b = low | 0x80u8;
        assert(enc == seq![b] + varint_encoding(w >> 7u32));
        assert(enc.drop_first() == varint_encoding(w >> 7u32));
        assert(b & 0x80u8 != 0 && b & 0x7fu8 == low) by (bit_vector)
            requires
                b == low | 0x80u8,
                low == (w & 0x7f) as u8,
        ;
        assert(w >> 7u32 != 0 ==> w >> 4u32 != 0) by (bit_vector);
        assert(s != 28);
        lemma_group_bits(r, s, w);
        let next = r | ((w & 0x7f) << s);
        assert(varint_accumulate(r, s, b) == next);
        assert(w >> 7u32 < w) by (bit_vector)
            requires
                w >> 7u32 != 0,
        ;
        lemma_decode_encoding(next, (s + 7) as u32, w >> 7u32);
    }
}

/// Reading back what `write_varint` wrote gives the value that was written:
/// a fresh reader fed the encoding of `v` reports `Done(v)` at its last byte
/// and not before, and never needs a shift past bit 31.
pub proof fn lemma_varint_roundtrip(v: i32)
    ensures
        varint_decode(0, 0, varint_encoding(v as u32)) == Some(v),
        pushed_run(0, 0, varint_encoding(v as u32)) == Some(v),
{
    lemma_pushed_run_decodes(0, 0, varint_encoding(v as u32));
    assert(0u32 >> 0u32 == 0) by (bit_vector);
    lemma_decode_encoding(0, 0, v as u32);
    assert((0u32 | ((v as u32) << 0u32)) as i32 == v) by (bit_vector);
}

/// Every VarInt is one to five bytes long, and only its last byte lacks the
/// continuation bit.
pub proof fn lemma_varint_length(v: u32)
    ensures
        1 <= varint_encoding(v).len() <= 5,
        forall|i: int|
            0 <= i < varint_encoding(v).len() ==> (#[trigger] varint_encoding(v)[i] & 0x80u8
                == 0 <==> i == varint_encoding(v).len() - 1),
{
    lemma_encoding_bound(v, 5);
}

/// The number the seven-bit groups of `bytes` spell, least significant
/// group first.
pub open spec fn varint_groups_value(bytes: Seq<u8>) -> nat
    decreases bytes.len(),
{
    if bytes.len() == 0 {
        0
    } else {
        (bytes[0] & 0x7fu8) as nat + 128 * varint_groups_value(bytes.drop_first())
    }
}

/// The encoding is canonical and exact: its seven-bit groups spell `v`, and
/// its last byte is zero only when it is the single byte encoding zero.
pub proof fn lemma_varint_canonical(v: u32)
    ensures
        varint_groups_value(varint_encoding(v)) == v as nat,
        varint_encoding(v).len() == 1 || varint_encoding(v).last() != 0u8,
        v != 0 ==> varint_encoding(v).last() != 0u8,
    decreases v,
{
    let low = (v & 0x7f) as u8;
    let enc = varint_encoding(v);
    if v >> 7u32 == 0 {
        assert(enc == seq![low]);
        assert(enc.drop_first() =~= Seq::<u8>::empty());
        assert(v >> 7u32 == 0 ==> (v & 0x7f) as u8 & 0x7fu8 == v && v & 0x7f == v) by (bit_vector);
        assert(varint_groups_value(enc) == (low & 0x7fu8) as nat + 128 * varint_groups_value(
            enc.drop_first(),
        ));
    } else {
        let w = v >> 7u32;
        assert(v >> 7u32 != 0 ==> v >> 7u32 < v) by (bit_vector);
        lemma_varint_canonical(w);
        lemma_encoding_bound(w, 5);
        let b = low | 0x80u8;
        assert(enc == seq![b] + varint_encoding(w));
        assert(enc.drop_first() =~= varint_encoding(w));
        assert(((v & 0x7f) as u8 | 0x80u8) & 0x7fu8 == v & 0x7f) by (bit_vector);
        assert(v as int == (v & 0x7f) as int + 128 * (v >> 7u32) as int) by (bit_vector);
        assert(varint_groups_value(enc) == (b & 0x7fu8) as nat + 128 * varint_groups_value(
            enc.drop_first(),
        ));
        assert(enc.last() == varint_encoding(w).last());
    }
}

proof fn lemma_encoding_bound(v: u32, n: nat)
    requires
        1 <= n <= 5,
        n == 5 || v >> ((7 * n) as u32) == 0,
    ensures
        1 <= varint_encoding(v).len() <= n,
        forall|i: int|
            0 <= i < varint_encoding(v).len() ==> (#[trigger] varint_encoding(v)[i] & 0x80u8
                == 0 <==> i == varint_encoding(v).len() - 1),
    decreases v,
{
    let low = (v & 0x7f) as u8;
    assert(low & 0x80u8 == 0 && (low | 0x80u8) & 0x80u8 != 0) by (bit_vector)
        requires
            low == (v & 0x7f) as u8,
    ;
    if v >> 7u32 != 0 {
        assert(v >> 7u32 < v) by (bit_vector)
            requires
                v >> 7u32 != 0,
        ;
        let m = (n - 1) as nat;
        if n == 1 {
            assert(v >> 7u32 == 0);
        }
        assert(m == 5 || (v >> 7u32) >> ((7 * m) as u32) == 0) by {
            if n == 5 {
                assert((v >> 7u32) >> 28u32 == 0) by (bit_vector);
            } else if n == 4 {
                assert(v >> 28u32 == 0 ==> (v >> 7u32) >> 21u32 == 0) by (bit_vector);
            } else if n == 3 {
                assert(v >> 21u32 == 0 ==> (v >> 7u32) >> 14u32 == 0) by (bit_vector);
            } else if n == 2 {
                assert(v >> 14u32 == 0 ==> (v >> 7u32) >> 7u32 == 0) by (bit_vector);
            }
        }
        lemma_encoding_bound(v >> 7u32, m);
        let rest = varint_encoding(v >> 7u32);
        assert(varint_encoding(v) == seq![low | 0x80u8] + rest);
        assert forall|i: int| 0 <= i < varint_encoding(v).len() implies (
        #[trigger] varint_encoding(v)[i] & 0x80u8 == 0 <==> i == varint_encoding(v).len() - 1) by {
            if i > 0 {
                assert(varint_encoding(v)[i] == rest[i - 1]);
            }
        }
    }
}

} // verus!
