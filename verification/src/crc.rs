//! The transfer checksum: CRC-16/CCITT-FALSE, polynomial 0x1021, initial
//! value 0xFFFF, no reflection, no final xor.

use vstd::prelude::*;

verus! {

/// Initial value of the checksum.
pub const CRC_INITIAL: u16 = 0xFFFF;

/// The checksum after one more bit has been shifted out.
pub open spec fn crc_shift(crc: u16) -> u16 {
    if crc & 0x8000 != 0 {
        (crc << 1) ^ 0x1021
    } else {
        crc << 1
    }
}

/// The checksum after one more byte.
pub open spec fn crc_add_byte(crc: u16, byte: u8) -> u16 {
    crc_shift(
        crc_shift(
            crc_shift(
                crc_shift(crc_shift(crc_shift(crc_shift(crc_shift(crc ^ ((byte as u16) << 8)))))),
            ),
        ),
    )
}

/// The checksum `crc` continued over `data`.
pub open spec fn crc_add(crc: u16, data: Seq<u8>) -> u16
    decreases data.len(),
{
    if data.len() == 0 {
        crc
    } else {
        crc_add_byte(crc_add(crc, data.drop_last()), data.last())
    }
}

/// The checksum of a transfer payload.
pub open spec fn crc16(data: Seq<u8>) -> u16 {
    crc_add(CRC_INITIAL, data)
}

proof fn lemma_shift_injective(a: u16, b: u16)
    requires
        crc_shift(a) == crc_shift(b),
    ensures
        a == b,
{
    assert((if a & 0x8000 != 0 {
        (a << 1) ^ 0x1021
    } else {
        a << 1
    }) == (if b & 0x8000 != 0 {
        (b << 1) ^ 0x1021
    } else {
        b << 1
    }) ==> a == b) by (bit_vector);
}

proof fn lemma_shift8_injective(a: u16, b: u16)
    requires
        crc_shift(crc_shift(crc_shift(crc_shift(crc_shift(crc_shift(crc_shift(crc_shift(a))))))))
            == crc_shift(
            crc_shift(crc_shift(crc_shift(crc_shift(crc_shift(crc_shift(crc_shift(b))))))),
        ),
    ensures
        a == b,
{
    lemma_shift_injective(
        crc_shift(crc_shift(crc_shift(crc_shift(crc_shift(crc_shift(crc_shift(a))))))),
        crc_shift(crc_shift(crc_shift(crc_shift(crc_shift(crc_shift(crc_shift(b))))))),
    );
    lemma_shift_injective(
        crc_shift(crc_shift(crc_shift(crc_shift(crc_shift(crc_shift(a)))))),
        crc_shift(crc_shift(crc_shift(crc_shift(crc_shift(crc_shift(b)))))),
    );
    lemma_shift_injective(
        crc_shift(crc_shift(crc_shift(crc_shift(crc_shift(a))))),
        crc_shift(crc_shift(crc_shift(crc_shift(crc_shift(b))))),
    );
    lemma_shift_injective(
        crc_shift(crc_shift(crc_shift(crc_shift(a)))),
        crc_shift(crc_shift(crc_shift(crc_shift(b)))),
    );
    lemma_shift_injective(
        crc_shift(crc_shift(crc_shift(a))),
        crc_shift(crc_shift(crc_shift(b))),
    );
    lemma_shift_injective(crc_shift(crc_shift(a)), crc_shift(crc_shift(b)));
    lemma_shift_injective(crc_shift(a), crc_shift(b));
    lemma_shift_injective(a, b);
}

/// Two checksums that agree after the same byte agreed before it, and two
/// bytes that lead one checksum to the same value are the same byte.
pub proof fn crc_add_byte_injective(c1: u16, b1: u8, c2: u16, b2: u8)
    requires
        crc_add_byte(c1, b1) == crc_add_byte(c2, b2),
    ensures
        b1 == b2 ==> c1 == c2,
        c1 == c2 ==> b1 == b2,
{
    lemma_shift8_injective(c1 ^ ((b1 as u16) << 8), c2 ^ ((b2 as u16) << 8));
    let x1: u16 = b1 as u16;
    let x2: u16 = b2 as u16;
    assert(c1 ^ (x1 << 8) == c2 ^ (x2 << 8) && x1 == x2 ==> c1 == c2) by (bit_vector);
    assert(c1 ^ (x1 << 8) == c2 ^ (x2 << 8) && c1 == c2 && x1 < 256 && x2 < 256 ==> x1 == x2)
        by (bit_vector);
}

/// The checksum tells apart two byte sequences that differ in exactly one
/// place.
pub proof fn crc_detects_one_byte(crc: u16, a: Seq<u8>, b: Seq<u8>, i: int)
    requires
        a.len() == b.len(),
        0 <= i < a.len(),
        a[i] != b[i],
        forall|j: int| 0 <= j < a.len() && j != i ==> a[j] == b[j],
    ensures
        crc_add(crc, a) != crc_add(crc, b),
    decreases a.len(),
{
    let last = a.len() - 1;
    if i == last {
        assert(a.drop_last() =~= b.drop_last());
        if crc_add(crc, a) == crc_add(crc, b) {
            crc_add_byte_injective(
                crc_add(crc, a.drop_last()),
                a.last(),
                crc_add(crc, b.drop_last()),
                b.last(),
            );
        }
    } else {
        crc_detects_one_byte(crc, a.drop_last(), b.drop_last(), i);
        if crc_add(crc, a) == crc_add(crc, b) {
            crc_add_byte_injective(
                crc_add(crc, a.drop_last()),
                a.last(),
                crc_add(crc, b.drop_last()),
                b.last(),
            );
        }
    }
}

} // verus!
