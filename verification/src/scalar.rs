//! Secret scalars: 32 big-endian bytes that stand for a number between one
//! and the order of a group, exclusive.

use vstd::prelude::*;

verus! {

/// Length in bytes of a secret scalar of either curve.
pub const SCALAR_LEN: usize = 32;

/// Order of the BLS12-381 scalar field, big-endian.
pub const BLS12_381_ORDER: [u8; 32] = [
    0x73, 0xed, 0xa7, 0x53, 0x29, 0x9d, 0x7d, 0x48,
    0x33, 0x39, 0xd8, 0x08, 0x09, 0xa1, 0xd8, 0x05,
    0x53, 0xbd, 0xa4, 0x02, 0xff, 0xfe, 0x5b, 0xfe,
    0xff, 0xff, 0xff, 0xff, 0x00, 0x00, 0x00, 0x01,
];

/// Order of the secp256k1 group, big-endian.
pub const SECP256K1_ORDER: [u8; 32] = [
    0xff, 0xff, 0xff, 0xff, 0xff, 0xff, 0xff, 0xff,
    0xff, 0xff, 0xff, 0xff, 0xff, 0xff, 0xff, 0xfe,
    0xba, 0xae, 0xdc, 0xe6, 0xaf, 0x48, 0xa0, 0x3b,
    0xbf, 0xd2, 0x5e, 0x8c, 0xd0, 0x36, 0x41, 0x41,
];

/// The number that `bytes` spell in base 256, most significant byte first.
pub open spec fn be_value(bytes: Seq<u8>) -> nat
    decreases bytes.len(),
{
    if bytes.len() == 0 {
        0
    } else {
        256 * be_value(bytes.drop_last()) + bytes.last() as nat
    }
}

/// Whether `bytes` are a secret scalar of the group with the given order:
/// exactly 32 bytes whose value is neither zero nor at or above the order.
pub open spec fn is_scalar(bytes: Seq<u8>, order: Seq<u8>) -> bool {
    &&& bytes.len() == 32
    &&& 0 < be_value(bytes) < be_value(order)
}

/// How the value of a prefix of one byte string compares with the value of
/// the equally long prefix of another.
#[derive(Clone, Copy)]
enum Rank {
    Below,
    Level,
    Above,
}

spec fn ranks(rank: Rank, a: Seq<u8>, b: Seq<u8>) -> bool {
    match rank {
        Rank::Below => be_value(a) < be_value(b),
        Rank::Level => be_value(a) == be_value(b),
        Rank::Above => be_value(a) > be_value(b),
    }
}

proof fn lemma_be_value_step(bytes: Seq<u8>, i: int)
    requires
        0 <= i < bytes.len(),
    ensures
        be_value(bytes.take(i + 1)) == 256 * be_value(bytes.take(i)) + bytes[i] as nat,
{
    assert(bytes.take(i + 1).drop_last() =~= bytes.take(i));
}

/// Decides whether `bytes` are a secret scalar below `order`.
pub fn check_scalar(bytes: &[u8], order: &[u8; 32]) -> (ok: bool)
    ensures
        ok == is_scalar(bytes@, order@),
{
    if bytes.len() != SCALAR_LEN {
        return false;
    }
    let mut rank = Rank::Level;
    let mut nonzero = false;
    let mut i: usize = 0;
    while i < SCALAR_LEN
        invariant
            i <= 32,
            bytes@.len() == 32,
            order@.len() == 32,
            ranks(rank, bytes@.take(i as int), order@.take(i as int)),
            nonzero == (be_value(bytes@.take(i as int)) > 0),
        decreases 32 - i,
    {
        proof {
            lemma_be_value_step(bytes@, i as int);
            lemma_be_value_step(order@, i as int);
        }
        if bytes[i] != 0 {
            nonzero = true;
        }
        rank =
        match rank {
            Rank::Level => if bytes[i] < order[i] {
                Rank::Below
            } else if bytes[i] > order[i] {
                Rank::Above
            } else {
                Rank::Level
            },
            decided => decided,
        };
        i += 1;
    }
    assert(bytes@.take(32) =~= bytes@);
    assert(order@.take(32) =~= order@);
    match rank {
        Rank::Below => nonzero,
        _ => false,
    }
}

} // verus!
