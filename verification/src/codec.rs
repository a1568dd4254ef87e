//! Reading and writing the fixed-width pieces of the wallet's byte formats.
//! Integers are written as eight bytes, least significant first.

use vstd::bytes::*;
use vstd::prelude::*;

verus! {

/// The eight bytes that stand for a 64-bit number.
pub open spec fn u64_bytes(x: u64) -> Seq<u8> {
    spec_u64_to_le_bytes(x)
}

/// The number that eight bytes stand for.
pub open spec fn u64_at(bytes: Seq<u8>, at: int) -> u64 {
    spec_u64_from_le_bytes(bytes.subrange(at, at + 8))
}

/// A number is written as eight bytes, and reading them gives it back.
pub proof fn lemma_u64_bytes(x: u64)
    ensures
        u64_bytes(x).len() == 8,
        spec_u64_from_le_bytes(u64_bytes(x)) == x,
{
    lemma_auto_spec_u64_to_from_le_bytes();
}

/// Eight bytes are the writing of the number that they stand for.
pub proof fn lemma_u64_bytes_onto(bytes: Seq<u8>)
    requires
        bytes.len() == 8,
    ensures
        u64_bytes(spec_u64_from_le_bytes(bytes)) == bytes,
{
    lemma_auto_spec_u64_to_from_le_bytes();
}

/// The writings of a list of items, one after another.
pub open spec fn concat_all<T>(items: Seq<T>, writing: spec_fn(T) -> Seq<u8>) -> Seq<u8>
    decreases items.len(),
{
    if items.len() == 0 {
        Seq::empty()
    } else {
        concat_all(items.drop_last(), writing) + writing(items.last())
    }
}

/// Whether every item of a list is written with `width` bytes.
pub open spec fn fixed_width<T>(items: Seq<T>, writing: spec_fn(T) -> Seq<u8>, width: nat) -> bool {
    forall|k: int| 0 <= k < items.len() ==> writing(#[trigger] items[k]).len() == width
}

/// Where every item of a list takes `width` bytes, its writing has `width`
/// bytes for each item, and the item at position `k` stands at `width * k`.
pub proof fn lemma_concat_all_chunks<T>(
    items: Seq<T>,
    writing: spec_fn(T) -> Seq<u8>,
    width: nat,
)
    requires
        fixed_width(items, writing, width),
    ensures
        concat_all(items, writing).len() == width * items.len(),
        forall|k: int|
            0 <= k < items.len() ==> #[trigger] concat_all(items, writing).subrange(
                width * k,
                width * k + width,
            ) == writing(items[k]),
    decreases items.len(),
{
    if items.len() > 0 {
        let rest = items.drop_last();
        let last = items.len() - 1;
        assert forall|k: int| 0 <= k < rest.len() implies writing(#[trigger] rest[k]).len()
            == width by {
            assert(rest[k] == items[k]);
        }
        lemma_concat_all_chunks(rest, writing, width);
        let whole = concat_all(items, writing);
        let head = concat_all(rest, writing);
        assert(items.last() == items[last]);
        assert(writing(items.last()).len() == width);
        assert(width * items.len() == width * rest.len() + width) by (nonlinear_arith)
            requires
                items.len() == rest.len() + 1,
        ;
        assert forall|k: int| 0 <= k < items.len() implies #[trigger] whole.subrange(
            width * k,
            width * k + width,
        ) == writing(items[k]) by {
            if k < last {
                assert(width * k + width <= width * rest.len()) by (nonlinear_arith)
                    requires
                        0 <= k < rest.len(),
                ;
                assert(0 <= width * k) by (nonlinear_arith)
                    requires
                        0 <= k,
                ;
                assert(whole.subrange(width * k, width * k + width) =~= head.subrange(
                    width * k,
                    width * k + width,
                ));
                assert(rest[k] == items[k]);
            } else {
                assert(width * k == head.len()) by (nonlinear_arith)
                    requires
                        k == rest.len(),
                        head.len() == width * rest.len(),
                ;
                assert(whole.subrange(width * k, width * k + width) =~= writing(items.last()));
            }
        }
    } else {
        assert(width * items.len() == 0) by (nonlinear_arith)
            requires
                items.len() == 0,
        ;
    }
}

/// Bytes that hold, for each item of a list, the item's writing at its
/// position are the writing of the list.
pub proof fn lemma_chunks_concat_all<T>(
    bytes: Seq<u8>,
    items: Seq<T>,
    writing: spec_fn(T) -> Seq<u8>,
    width: nat,
)
    requires
        fixed_width(items, writing, width),
        bytes.len() == width * items.len(),
        forall|k: int|
            0 <= k < items.len() ==> #[trigger] bytes.subrange(width * k, width * k + width)
                == writing(items[k]),
    ensures
        bytes == concat_all(items, writing),
    decreases items.len(),
{
    if items.len() > 0 {
        let rest = items.drop_last();
        let last = items.len() - 1;
        assert(width * items.len() == width * rest.len() + width) by (nonlinear_arith)
            requires
                items.len() == rest.len() + 1,
        ;
        assert(width * last == width * rest.len()) by (nonlinear_arith)
            requires
                last == rest.len(),
        ;
        let head = bytes.subrange(0, (width * rest.len()) as int);
        assert forall|k: int| 0 <= k < rest.len() implies writing(#[trigger] rest[k]).len()
            == width by {
            assert(rest[k] == items[k]);
        }
        assert forall|k: int| 0 <= k < rest.len() implies #[trigger] head.subrange(
            width * k,
            width * k + width,
        ) == writing(rest[k]) by {
            assert(width * k + width <= width * rest.len()) by (nonlinear_arith)
                requires
                    0 <= k < rest.len(),
            ;
            assert(0 <= width * k) by (nonlinear_arith)
                requires
                    0 <= k,
            ;
            assert(head.subrange(width * k, width * k + width) =~= bytes.subrange(
                width * k,
                width * k + width,
            ));
            assert(rest[k] == items[k]);
        }
        lemma_chunks_concat_all(head, rest, writing, width);
        assert(bytes.subrange(width * last, width * last + width) == writing(items[last]));
        assert(bytes =~= head + bytes.subrange(width * last, width * last + width));
    } else {
        assert(width * items.len() == 0) by (nonlinear_arith)
            requires
                items.len() == 0,
        ;
        assert(bytes =~= Seq::<u8>::empty());
    }
}

/// Appends the eight bytes of a number.
pub fn put_u64(out: &mut Vec<u8>, x: u64)
    ensures
        final(out)@ == old(out)@ + u64_bytes(x),
{
    let bytes = u64_to_le_bytes(x);
    out.extend_from_slice(bytes.as_slice());
}

/// Appends bytes as they are.
pub fn put_bytes(out: &mut Vec<u8>, bytes: &[u8])
    ensures
        final(out)@ == old(out)@ + bytes@,
{
    out.extend_from_slice(bytes);
}

/// Appends one byte.
pub fn put_u8(out: &mut Vec<u8>, byte: u8)
    ensures
        final(out)@ == old(out)@ + seq![byte],
{
    out.push(byte);
    assert(out@ =~= old(out)@ + seq![byte]);
}

/// Reads the number that stands at a position.
pub fn get_u64(bytes: &[u8], at: usize) -> (x: u64)
    requires
        at + 8 <= bytes@.len(),
    ensures
        x == u64_at(bytes@, at as int),
{
    let len = bytes.len();
    assert(at + 8 <= len);
    u64_from_le_bytes(vstd::slice::slice_subrange(bytes, at, at + 8))
}

/// Reads the 32 bytes that stand at a position.
pub fn get_array32(bytes: &[u8], at: usize) -> (out: [u8; 32])
    requires
        at + 32 <= bytes@.len(),
    ensures
        out@ == bytes@.subrange(at as int, at + 32),
{
    let len = bytes.len();
    let mut out = [0u8; 32];
    let mut i: usize = 0;
    while i < 32
        invariant
            i <= 32,
            at + 32 <= len,
            len == bytes@.len(),
            forall|j: int| 0 <= j < i ==> out@[j] == bytes@[at + j],
        decreases 32 - i,
    {
        out[i] = bytes[at + i];
        i = i + 1;
    }
    assert(out@ =~= bytes@.subrange(at as int, at + 32));
    out
}

} // verus!
