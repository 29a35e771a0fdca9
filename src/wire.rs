use vstd::prelude::*;

use crate::types::NumberMeta;

verus! {

/// Failures of encoding and decoding.
#[derive(Debug, Clone, Copy, PartialEq, Eq, Structural)]
pub enum CodecError {
    UnknownType,
    ShapeMismatch,
    InvalidDiscriminant,
    BufferUnderrun,
    NumericOverflow,
    /// Decoding nested deeper than the caller allowed; the bound keeps decoding of
    /// self-referring types finite.
    DepthExceeded,
}

/// Continuation-bit varint: 7-bit groups, least significant first, high bit set on all but the last.
pub open spec fn varint(v: nat) -> Seq<u8>
    decreases v,
{
    if v < 128 {
        seq![v as u8]
    } else {
        seq![(v % 128 + 128) as u8] + varint(v / 128)
    }
}

/// Reads a varint from the front of `s`: its value and the number of bytes it takes,
/// or `None` when `s` ends before the last group.
pub open spec fn read_varint(s: Seq<u8>) -> Option<(nat, nat)>
    decreases s.len(),
{
    if s.len() == 0 {
        None
    } else if s[0] < 128 {
        Some((s[0] as nat, 1nat))
    } else {
        match read_varint(s.drop_first()) {
            Some((v, n)) => Some(((s[0] - 128) as nat + 128 * v, n + 1)),
            None => None,
        }
    }
}

/// Zigzag: 0, -1, 1, -2, ... map to 0, 1, 2, 3, ...
pub open spec fn zigzag(n: int) -> nat {
    if n >= 0 {
        (2 * n) as nat
    } else {
        (-2 * n - 1) as nat
    }
}

pub open spec fn unzigzag(z: nat) -> int {
    if z % 2 == 0 {
        (z / 2) as int
    } else {
        -((z / 2) as int) - 1
    }
}

/// 2 to the power of the width in bits.
pub open spec fn width_bound(bytes: u8) -> nat {
    if bytes == 1 {
        0x100
    } else if bytes == 2 {
        0x1_0000
    } else if bytes == 4 {
        0x1_0000_0000
    } else if bytes == 8 {
        0x1_0000_0000_0000_0000
    } else {
        u128::MAX as nat + 1
    }
}

/// The integers a number of this width and signedness can hold.
pub open spec fn in_range(meta: NumberMeta, n: int) -> bool {
    if meta.signed {
        -(width_bound(meta.bytes) / 2) <= n < width_bound(meta.bytes) / 2
    } else {
        0 <= n < width_bound(meta.bytes)
    }
}

/// The unsigned integer that goes through the varint for a number.
pub open spec fn number_word(meta: NumberMeta, n: int) -> nat {
    if meta.signed {
        zigzag(n)
    } else {
        n as nat
    }
}

/// The wire bytes of a number.
pub open spec fn encode_number(meta: NumberMeta, n: int) -> Seq<u8> {
    varint(number_word(meta, n))
}

/// Reads a number of the given width from the front of `s`.
pub open spec fn decode_number(meta: NumberMeta, s: Seq<u8>) -> Result<(int, nat), CodecError> {
    match read_varint(s) {
        None => Err(CodecError::BufferUnderrun),
        Some((w, k)) => if w < width_bound(meta.bytes) {
            Ok((if meta.signed { unzigzag(w) } else { w as int }, k))
        } else {
            Err(CodecError::NumericOverflow)
        },
    }
}

/// The wire bytes of a byte string (or of a text as its UTF-8 bytes): length, then the bytes.
pub open spec fn encode_bytes(b: Seq<u8>) -> Seq<u8> {
    varint(b.len()) + b
}

/// Reads a length-prefixed byte string from the front of `s`.
pub open spec fn decode_bytes(s: Seq<u8>) -> Result<(Seq<u8>, nat), CodecError> {
    match read_varint(s) {
        None => Err(CodecError::BufferUnderrun),
        Some((len, k)) => if k + len <= s.len() {
            Ok((s.subrange(k as int, (k + len) as int), k + len))
        } else {
            Err(CodecError::BufferUnderrun)
        },
    }
}

/// The presence flag of an optional value.
pub open spec fn presence_flag(present: bool) -> Seq<u8> {
    varint(if present { 1 } else { 0 })
}

pub proof fn lemma_read_varint_of_varint(v: nat, rest: Seq<u8>)
    ensures
        read_varint(varint(v) + rest) == Some((v, varint(v).len())),
    decreases v,
{
    let s = varint(v) + rest;
    if v < 128 {
        assert(s[0] == v as u8);
    } else {
        lemma_read_varint_of_varint(v / 128, rest);
        assert(s.drop_first() =~= varint(v / 128) + rest);
        assert(s[0] == (v % 128 + 128) as u8);
    }
}

pub proof fn lemma_read_varint_len(s: Seq<u8>)
    ensures
        read_varint(s) matches Some((v, n)) ==> 1 <= n <= s.len(),
    decreases s.len(),
{
    if s.len() > 0 && s[0] >= 128 {
        lemma_read_varint_len(s.drop_first());
    }
}

/// Appends the varint of `v`.
pub fn write_varint(out: &mut Vec<u8>, v: u128)
    ensures
        final(out)@ == old(out)@ + varint(v as nat),
{
    let ghost start = out@;
    let mut cur: u128 = v;
    while cur >= 128
        invariant
            out@ + varint(cur as nat) == start + varint(v as nat),
        decreases cur,
    {
        let ghost before = out@;
        let ghost prev = cur;
        assert(varint(prev as nat) == seq![(prev % 128 + 128) as u8] + varint((prev / 128) as nat));
        out.push((cur % 128 + 128) as u8);
        cur = cur / 128;
        assert(out@ + varint(cur as nat) =~= before + varint(prev as nat));
    }
    assert(varint(cur as nat) == seq![cur as u8]);
    out.push(cur as u8);
}


/// Reads the varint that starts at `pos`: its value and the position after it.
pub fn read_varint_at(buf: &[u8], pos: usize) -> (r: Result<(u128, usize), CodecError>)
    requires
        pos <= buf@.len(),
    ensures
        match read_varint(buf@.subrange(pos as int, buf@.len() as int)) {
            None => r == Err::<(u128, usize), CodecError>(CodecError::BufferUnderrun),
            Some((v, n)) => if v <= u128::MAX {
                r == Ok::<(u128, usize), CodecError>((v as u128, (pos + n) as usize))
            } else {
                r == Err::<(u128, usize), CodecError>(CodecError::NumericOverflow)
            },
        },
        r matches Ok((_, end)) ==> pos < end <= buf@.len(),
    decreases buf@.len() - pos,
{
    let ghost rest = buf@.subrange(pos as int, buf@.len() as int);
    if pos >= buf.len() {
        return Err(CodecError::BufferUnderrun);
    }
    let b = buf[pos];
    assert(rest[0] == b);
    if b < 128 {
        return Ok((b as u128, pos + 1));
    }
    assert(rest.drop_first() =~= buf@.subrange(pos + 1, buf@.len() as int));
    match read_varint_at(buf, pos + 1) {
        Err(e) => {
            proof {
                if let Some((v, n)) = read_varint(rest.drop_first()) {
                    assert((b - 128) as nat + 128 * v >= v) by (nonlinear_arith);
                }
            }
            Err(e)
        },
        Ok((v, end)) => {
            let low: u128 = (b - 128) as u128;
            if v > (u128::MAX - low) / 128 {
                assert(low + 128 * v > u128::MAX) by (nonlinear_arith)
                    requires v > (u128::MAX - low) / 128, low < 128;
                Err(CodecError::NumericOverflow)
            } else {
                assert(low + 128 * v <= u128::MAX) by (nonlinear_arith)
                    requires v <= (u128::MAX - low) / 128, low < 128;
                Ok((low + 128 * v, end))
            }
        },
    }
}

/// The zigzag word of a signed integer.
pub fn zigzag_encode(n: i128) -> (r: u128)
    ensures
        r == zigzag(n as int),
{
    if n >= 0 {
        (n as u128) * 2
    } else {
        let m: i128 = -(n + 1);
        (m as u128) * 2 + 1
    }
}

/// The signed integer of a zigzag word.
pub fn zigzag_decode(z: u128) -> (r: i128)
    ensures
        r == unzigzag(z as nat),
{
    let half: u128 = z / 2;
    if z % 2 == 0 {
        half as i128
    } else {
        -(half as i128) - 1
    }
}

/// The largest word a number of this width takes.
pub(crate) fn width_max(bytes: u8) -> (r: u128)
    ensures
        r == width_bound(bytes) - 1,
{
    if bytes == 1 {
        0xff
    } else if bytes == 2 {
        0xffff
    } else if bytes == 4 {
        0xffff_ffff
    } else if bytes == 8 {
        0xffff_ffff_ffff_ffff
    } else {
        u128::MAX
    }
}

/// Appends an unsigned number.
pub fn write_unsigned(out: &mut Vec<u8>, meta: NumberMeta, v: u128)
    requires
        !meta.signed,
    ensures
        final(out)@ == old(out)@ + encode_number(meta, v as int),
{
    write_varint(out, v);
}

/// Appends a signed number.
pub fn write_signed(out: &mut Vec<u8>, meta: NumberMeta, v: i128)
    requires
        meta.signed,
    ensures
        final(out)@ == old(out)@ + encode_number(meta, v as int),
{
    let z = zigzag_encode(v);
    write_varint(out, z);
}

/// Reads an unsigned number at `pos`; fails where its word does not fit the width.
pub fn read_unsigned(buf: &[u8], pos: usize, meta: NumberMeta) -> (r: Result<(u128, usize), CodecError>)
    requires
        pos <= buf@.len(),
        !meta.signed,
    ensures
        match decode_number(meta, buf@.subrange(pos as int, buf@.len() as int)) {
            Ok((n, k)) => r == Ok::<(u128, usize), CodecError>((n as u128, (pos + k) as usize)),
            Err(e) => r == Err::<(u128, usize), CodecError>(e),
        },
        r matches Ok((_, end)) ==> pos < end <= buf@.len(),
{
    let (w, end) = read_varint_at(buf, pos)?;
    if w > width_max(meta.bytes) {
        return Err(CodecError::NumericOverflow);
    }
    Ok((w, end))
}

/// Reads a signed number at `pos`; fails where its word does not fit the width.
pub fn read_signed(buf: &[u8], pos: usize, meta: NumberMeta) -> (r: Result<(i128, usize), CodecError>)
    requires
        pos <= buf@.len(),
        meta.signed,
    ensures
        match decode_number(meta, buf@.subrange(pos as int, buf@.len() as int)) {
            Ok((n, k)) => r == Ok::<(i128, usize), CodecError>((n as i128, (pos + k) as usize)),
            Err(e) => r == Err::<(i128, usize), CodecError>(e),
        },
        r matches Ok((_, end)) ==> pos < end <= buf@.len(),
{
    let (w, end) = read_varint_at(buf, pos)?;
    if w > width_max(meta.bytes) {
        return Err(CodecError::NumericOverflow);
    }
    Ok((zigzag_decode(w), end))
}

/// Appends a length-prefixed byte string.
pub fn write_bytes(out: &mut Vec<u8>, b: &[u8])
    ensures
        final(out)@ == old(out)@ + encode_bytes(b@),
{
    write_varint(out, b.len() as u128);
    let ghost mid = out@;
    let mut i: usize = 0;
    while i < b.len()
        invariant
            i <= b@.len(),
            out@ == mid + b@.subrange(0, i as int),
        decreases b@.len() - i,
    {
        out.push(b[i]);
        i = i + 1;
        assert(out@ =~= mid + b@.subrange(0, i as int));
    }
    assert(b@.subrange(0, b@.len() as int) =~= b@);
}

/// Reads a length-prefixed byte string at `pos`; fails with `BufferUnderrun` where the
/// length prefix asks for more bytes than remain, without reading past the end.
pub fn read_bytes(buf: &[u8], pos: usize) -> (r: Result<(Vec<u8>, usize), CodecError>)
    requires
        pos <= buf@.len(),
    ensures
        match decode_bytes(buf@.subrange(pos as int, buf@.len() as int)) {
            Ok((b, k)) => r matches Ok((v, end)) && v@ == b && end == pos + k,
            Err(e) => r == Err::<(Vec<u8>, usize), CodecError>(e),
        },
        r matches Ok((_, end)) ==> pos < end <= buf@.len(),
{
    let ghost rest = buf@.subrange(pos as int, buf@.len() as int);
    let total: usize = buf.len();
    let (len, start) = match read_varint_at(buf, pos) {
        Ok(p) => p,
        Err(CodecError::NumericOverflow) => {
            proof {
                lemma_read_varint_len(rest);
                assert(rest.len() <= usize::MAX);
            }
            return Err(CodecError::BufferUnderrun);
        },
        Err(e) => return Err(e),
    };
    proof {
        lemma_read_varint_len(rest);
    }
    if len > (buf.len() - start) as u128 {
        return Err(CodecError::BufferUnderrun);
    }
    let end: usize = start + len as usize;
    let mut v: Vec<u8> = Vec::new();
    let mut i: usize = start;
    while i < end
        invariant
            start <= i <= end <= buf@.len(),
            v@ == buf@.subrange(start as int, i as int),
        decreases end - i,
    {
        v.push(buf[i]);
        i = i + 1;
        assert(v@ =~= buf@.subrange(start as int, i as int));
    }
    assert(rest.subrange((start - pos) as int, (end - pos) as int) =~= buf@.subrange(
        start as int,
        end as int,
    ));
    Ok((v, end))
}

/// Appends the presence flag of an optional value.
pub fn write_presence(out: &mut Vec<u8>, present: bool)
    ensures
        final(out)@ == old(out)@ + presence_flag(present),
{
    write_varint(out, if present { 1 } else { 0 });
}


pub proof fn lemma_decode_number_range(meta: NumberMeta, s: Seq<u8>)
    ensures
        decode_number(meta, s) matches Ok((n, _)) ==> if meta.signed {
            i128::MIN <= n <= i128::MAX
        } else {
            0 <= n <= u128::MAX
        },
{
    assert(width_bound(meta.bytes) <= u128::MAX as nat + 1);
}

proof fn lemma_unzigzag_zigzag(n: int)
    ensures
        unzigzag(zigzag(n)) == n,
{
}

/// A number in range for its width decodes, from its own encoding followed by
/// anything, to itself, using exactly the bytes of that encoding. This covers the
/// boundaries of signed widths: -1 and the least value of each width.
pub proof fn law_number_round_trip(meta: NumberMeta, n: int, rest: Seq<u8>)
    requires
        in_range(meta, n),
    ensures
        decode_number(meta, encode_number(meta, n) + rest) == Ok::<(int, nat), CodecError>(
            (n, encode_number(meta, n).len()),
        ),
{
    lemma_read_varint_of_varint(number_word(meta, n), rest);
    lemma_unzigzag_zigzag(n);
}

/// A byte string decodes, from its own encoding followed by anything, to itself.
pub proof fn law_bytes_round_trip(b: Seq<u8>, rest: Seq<u8>)
    ensures
        decode_bytes(encode_bytes(b) + rest) == Ok::<(Seq<u8>, nat), CodecError>(
            (b, encode_bytes(b).len()),
        ),
{
    let s = encode_bytes(b) + rest;
    assert(s =~= varint(b.len()) + (b + rest));
    lemma_read_varint_of_varint(b.len(), b + rest);
    let k = varint(b.len()).len();
    assert(s.subrange(k as int, (k + b.len()) as int) =~= b);
}

/// A byte string whose length prefix asks for more bytes than follow it fails to
/// decode with `BufferUnderrun`.
pub proof fn law_truncated_bytes(len: nat, tail: Seq<u8>)
    requires
        tail.len() < len,
    ensures
        decode_bytes(varint(len) + tail) == Err::<(Seq<u8>, nat), CodecError>(
            CodecError::BufferUnderrun,
        ),
{
    lemma_read_varint_of_varint(len, tail);
}

/// An absent optional is the single byte 0; a present one is the byte 1 and then the
/// inner value's encoding.
pub proof fn law_presence_flag(inner: Seq<u8>)
    ensures
        presence_flag(false) == seq![0u8],
        presence_flag(true) + inner == seq![1u8] + inner,
{
    assert(varint(0) == seq![0u8]);
    assert(varint(1) == seq![1u8]);
}

} // verus!
