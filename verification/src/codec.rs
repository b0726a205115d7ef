//! Little-endian numbers in byte sequences.
use crate::error::IggyError;
use vstd::prelude::*;

verus! {

/// The number that `bytes` spell, least significant byte first.
pub open spec fn le_value(bytes: Seq<u8>) -> nat
    decreases bytes.len(),
{
    if bytes.len() == 0 {
        0
    } else {
        bytes[0] as nat + 256 * le_value(bytes.drop_first())
    }
}

/// The `width` low bytes of `value`, least significant byte first.
pub open spec fn le_bytes(value: nat, width: nat) -> Seq<u8>
    decreases width,
{
    if width == 0 {
        Seq::empty()
    } else {
        seq![(value % 256) as u8] + le_bytes(value / 256, (width - 1) as nat)
    }
}

/// The number that the `width` bytes of `bytes` from `at` on spell.
pub open spec fn le_at(bytes: Seq<u8>, at: int, width: int) -> nat {
    le_value(bytes.subrange(at, at + width))
}

/// How many numbers `width` bytes can spell.
pub open spec fn le_limit(width: nat) -> nat
    decreases width,
{
    if width == 0 {
        1
    } else {
        256 * le_limit((width - 1) as nat)
    }
}

pub proof fn lemma_le_limits()
    ensures
        le_limit(4) == 0x1_0000_0000,
        le_limit(8) == 0x1_0000_0000_0000_0000,
        le_limit(16) == 0x1_0000_0000_0000_0000_0000_0000_0000_0000,
{
    reveal_with_fuel(le_limit, 17);
}

pub proof fn lemma_le_value_bound(bytes: Seq<u8>)
    ensures
        le_value(bytes) < le_limit(bytes.len()),
    decreases bytes.len(),
{
    if bytes.len() > 0 {
        lemma_le_value_bound(bytes.drop_first());
    }
}

pub proof fn lemma_le_bytes_len(value: nat, width: nat)
    ensures
        le_bytes(value, width).len() == width,
    decreases width,
{
    if width > 0 {
        lemma_le_bytes_len(value / 256, (width - 1) as nat);
    }
}

/// Reading back what was spelled gives the number, where it fits its width.
pub proof fn lemma_le_read_of_write(value: nat, width: nat)
    requires
        value < le_limit(width),
    ensures
        le_bytes(value, width).len() == width,
        le_value(le_bytes(value, width)) == value,
    decreases width,
{
    lemma_le_bytes_len(value, width);
    if width > 0 {
        let rest = le_bytes(value / 256, (width - 1) as nat);
        lemma_le_read_of_write(value / 256, (width - 1) as nat);
        assert(le_bytes(value, width).drop_first() =~= rest);
    }
}

/// Spelling what was read gives the bytes back.
pub proof fn lemma_le_write_of_read(bytes: Seq<u8>)
    ensures
        le_bytes(le_value(bytes), bytes.len()) == bytes,
    decreases bytes.len(),
{
    if bytes.len() > 0 {
        let rest = bytes.drop_first();
        lemma_le_write_of_read(rest);
        assert(le_value(bytes) % 256 == bytes[0]);
        assert(le_value(bytes) / 256 == le_value(rest));
        assert(seq![bytes[0]] + rest =~= bytes);
    } else {
        assert(le_bytes(0, 0) =~= bytes);
    }
}

/// A run of zero bytes spells zero.
pub proof fn lemma_le_zeros(width: nat)
    ensures
        le_bytes(0, width) == Seq::new(width, |i: int| 0u8),
    decreases width,
{
    if width > 0 {
        lemma_le_zeros((width - 1) as nat);
    }
    assert(le_bytes(0, width) =~= Seq::new(width, |i: int| 0u8));
}

/// What follows `front` counts as much more as `front` can spell.
proof fn lemma_le_concat(front: Seq<u8>, behind: Seq<u8>)
    ensures
        le_value(front + behind) == le_value(front) + le_limit(front.len()) * le_value(behind),
    decreases front.len(),
{
    let all = front + behind;
    if front.len() == 0 {
        assert(all =~= behind);
        let tail = le_value(behind);
        assert(1 * tail == tail) by (nonlinear_arith);
        assert(le_limit(front.len()) == 1);
    } else {
        let rest = front.drop_first();
        assert(all[0] == front[0]);
        assert(all.drop_first() =~= rest + behind);
        lemma_le_concat(rest, behind);
        let limit = le_limit(rest.len());
        let tail = le_value(behind);
        assert(256 * (limit * tail) == (256 * limit) * tail) by (nonlinear_arith);
        assert(le_limit(front.len()) == 256 * limit);
        assert(le_value(front) == front[0] + 256 * le_value(rest));
    }
}

/// Numbers are spelled with their least significant byte first, each byte
/// counting 256 times as much as the one before it.
pub proof fn law_low_byte_comes_first(bytes: Seq<u8>)
    ensures
        bytes.len() == 0 ==> le_value(bytes) == 0,
        bytes.len() == 1 ==> le_value(bytes) == bytes[0],
        bytes.len() == 4 ==> le_value(bytes) == bytes[0] + 0x100 * bytes[1] + 0x1_0000 * bytes[2]
            + 0x100_0000 * bytes[3],
        bytes.len() == 8 ==> le_value(bytes) == bytes[0] + 0x100 * bytes[1] + 0x1_0000 * bytes[2]
            + 0x100_0000 * bytes[3] + 0x1_0000_0000 * bytes[4] + 0x100_0000_0000 * bytes[5]
            + 0x1_0000_0000_0000 * bytes[6] + 0x100_0000_0000_0000 * bytes[7],
        bytes.len() == 16 ==> le_value(bytes) == le_value(bytes.subrange(0, 8))
            + 0x1_0000_0000_0000_0000 * le_value(bytes.subrange(8, 16)),
{
    if bytes.len() == 4 {
        lemma_le_of_four(bytes);
    } else if bytes.len() == 8 {
        let front = bytes.subrange(0, 4);
        let behind = bytes.subrange(4, 8);
        assert(front + behind =~= bytes);
        lemma_le_concat(front, behind);
        lemma_le_of_four(front);
        lemma_le_of_four(behind);
        lemma_le_limits();
    } else if bytes.len() == 16 {
        assert(bytes.subrange(0, 8) + bytes.subrange(8, 16) =~= bytes);
        lemma_le_concat(bytes.subrange(0, 8), bytes.subrange(8, 16));
        lemma_le_limits();
    } else if bytes.len() == 1 {
        reveal_with_fuel(le_value, 2);
    }
}

proof fn lemma_le_of_four(bytes: Seq<u8>)
    requires
        bytes.len() == 4,
    ensures
        le_value(bytes) == bytes[0] + 0x100 * bytes[1] + 0x1_0000 * bytes[2] + 0x100_0000
            * bytes[3],
{
    let one = bytes.drop_first();
    let two = one.drop_first();
    let three = two.drop_first();
    assert(le_value(three.drop_first()) == 0);
    assert(le_value(three) == three[0]);
    assert(le_value(two) == two[0] + 256 * le_value(three));
    assert(le_value(one) == one[0] + 256 * le_value(two));
}

/// What is spelled in enough bytes reads back as the same number, and what was
/// read spells the same bytes.
pub proof fn law_spelling_round_trips(value: nat, bytes: Seq<u8>)
    ensures
        value <= u32::MAX ==> le_value(le_bytes(value, 4)) == value,
        value <= u64::MAX ==> le_value(le_bytes(value, 8)) == value,
        value <= u128::MAX ==> le_value(le_bytes(value, 16)) == value,
        le_bytes(value, 4).len() == 4,
        le_bytes(value, 8).len() == 8,
        le_bytes(value, 16).len() == 16,
        le_bytes(le_value(bytes), bytes.len()) == bytes,
{
    lemma_le_limits();
    lemma_le_bytes_len(value, 4);
    lemma_le_bytes_len(value, 8);
    lemma_le_bytes_len(value, 16);
    lemma_le_write_of_read(bytes);
    if value <= u32::MAX {
        lemma_le_read_of_write(value, 4);
    }
    if value <= u64::MAX {
        lemma_le_read_of_write(value, 8);
    }
    if value <= u128::MAX {
        lemma_le_read_of_write(value, 16);
    }
}

/// A number is read from exactly the bytes where it is looked for.
pub proof fn law_number_is_read_in_place(bytes: Seq<u8>, at: int, width: int)
    requires
        0 <= at,
        0 <= width,
        at + width <= bytes.len(),
    ensures
        le_at(bytes, at, width) == le_value(bytes.subrange(at, at + width)),
{
}

fn le_read(bytes: &[u8], at: usize, width: usize) -> (value: u128)
    requires
        width <= 16,
        at + width <= bytes@.len(),
    ensures
        value == le_at(bytes@, at as int, width as int),
        value < le_limit(width as nat),
    decreases width,
{
    proof {
        let here = bytes@.subrange(at as int, at + width);
        lemma_le_value_bound(here);
        if width > 0 {
            let rest = bytes@.subrange(at + 1, at + width);
            lemma_le_value_bound(rest);
            lemma_le_limit_monotonic(width as nat, 16);
            lemma_le_limits();
            assert(here.drop_first() =~= rest);
        }
    }
    if width == 0 {
        0
    } else {
        let low: u128 = bytes[at] as u128;
        low + 256 * le_read(bytes, at + 1, width - 1)
    }
}

proof fn lemma_le_limit_monotonic(small: nat, large: nat)
    requires
        small <= large,
    ensures
        0 < le_limit(small) <= le_limit(large),
    decreases large,
{
    if small < large {
        lemma_le_limit_monotonic(small, (large - 1) as nat);
    } else if large > 0 {
        lemma_le_limit_monotonic((small - 1) as nat, (large - 1) as nat);
    }
}

/// Whether a field of `width` bytes at `at` lies inside a buffer of `len`.
fn in_range(len: usize, at: usize, width: usize) -> (inside: bool)
    ensures
        inside == (at + width <= len),
{
    width <= len && at <= len - width
}

/// The 4-byte number at `offset`.
pub(crate) fn read_u32(bytes: &[u8], offset: usize) -> (value: Result<u32, IggyError>)
    ensures
        value == (if offset + 4 <= bytes@.len() {
            Ok::<u32, IggyError>(le_at(bytes@, offset as int, 4) as u32)
        } else {
            Err(IggyError::InvalidNumberEncoding)
        }),
        offset + 4 <= bytes@.len() ==> le_at(bytes@, offset as int, 4) <= u32::MAX,
{
    if !in_range(bytes.len(), offset, 4) {
        return Err(IggyError::InvalidNumberEncoding);
    }
    proof {
        lemma_le_limits();
    }
    Ok(le_read(bytes, offset, 4) as u32)
}

/// The 8-byte number at `offset`.
pub(crate) fn read_u64(bytes: &[u8], offset: usize) -> (value: Result<u64, IggyError>)
    ensures
        value == (if offset + 8 <= bytes@.len() {
            Ok::<u64, IggyError>(le_at(bytes@, offset as int, 8) as u64)
        } else {
            Err(IggyError::InvalidNumberEncoding)
        }),
        offset + 8 <= bytes@.len() ==> le_at(bytes@, offset as int, 8) <= u64::MAX,
{
    if !in_range(bytes.len(), offset, 8) {
        return Err(IggyError::InvalidNumberEncoding);
    }
    proof {
        lemma_le_limits();
    }
    Ok(le_read(bytes, offset, 8) as u64)
}

/// The 16-byte number at `offset`.
pub(crate) fn read_u128(bytes: &[u8], offset: usize) -> (value: Result<u128, IggyError>)
    ensures
        value == (if offset + 16 <= bytes@.len() {
            Ok::<u128, IggyError>(le_at(bytes@, offset as int, 16) as u128)
        } else {
            Err(IggyError::InvalidNumberEncoding)
        }),
        offset + 16 <= bytes@.len() ==> le_at(bytes@, offset as int, 16) <= u128::MAX,
{
    if !in_range(bytes.len(), offset, 16) {
        return Err(IggyError::InvalidNumberEncoding);
    }
    Ok(le_read(bytes, offset, 16))
}

/// Appends the `width` low bytes of `value`.
pub(crate) fn push_le(out: &mut Vec<u8>, value: u128, width: usize)
    ensures
        final(out)@ == old(out)@ + le_bytes(value as nat, width as nat),
    decreases width,
{
    if width == 0 {
        assert(out@ + le_bytes(value as nat, 0) =~= out@);
    } else {
        let ghost before = out@;
        out.push((value % 256) as u8);
        push_le(out, value / 256, width - 1);
        assert(out@ =~= before + le_bytes(value as nat, width as nat));
    }
}

/// Copies `source` over the bytes of `target` from `at` on.
pub(crate) fn copy_into(target: &mut [u8], at: usize, source: &[u8])
    requires
        at + source@.len() <= old(target)@.len(),
    ensures
        final(target)@ == splice(old(target)@, at as int, source@),
{
    let ghost before = target@;
    let total: usize = target.len();
    let mut i: usize = 0;
    while i < source.len()
        invariant
            i <= source@.len(),
            total == before.len(),
            at + source@.len() <= before.len(),
            target@.len() == before.len(),
            target@ == splice(before, at as int, source@.subrange(0, i as int)),
        decreases source@.len() - i,
    {
        target[at + i] = source[i];
        i = i + 1;
        assert(target@ =~= splice(before, at as int, source@.subrange(0, i as int)));
    }
    assert(source@.subrange(0, i as int) =~= source@);
}

/// `bytes` with `patch` written over it from `at` on.
pub open spec fn splice(bytes: Seq<u8>, at: int, patch: Seq<u8>) -> Seq<u8> {
    Seq::new(
        bytes.len(),
        |i: int|
            if at <= i < at + patch.len() {
                patch[i - at]
            } else {
                bytes[i]
            },
    )
}

} // verus!
