//! The deposit calculator: a pure function from the byte sizes of an
//! attribute table and a metadata string to the deposit owed for storing
//! them, at a fixed rate per byte, saturating at the largest balance.

use vstd::prelude::*;

use crate::types::{Attributes, AttributeView, Error};

verus! {

/// Total byte length of an attribute table: the sum over all entries of the
/// key length plus the value length.
pub open spec fn attrs_total_bytes(attrs: Seq<AttributeView>) -> int
    decreases attrs.len(),
{
    if attrs.len() == 0 {
        0
    } else {
        attrs_total_bytes(attrs.drop_last()) + attrs.last().key.len() + attrs.last().value.len()
    }
}

pub proof fn lemma_attrs_total_bytes_nonneg(attrs: Seq<AttributeView>)
    ensures
        attrs_total_bytes(attrs) >= 0,
    decreases attrs.len(),
{
    if attrs.len() > 0 {
        lemma_attrs_total_bytes_nonneg(attrs.drop_last());
    }
}

/// The deposit owed for storing `total_bytes` bytes at `rate` per byte,
/// saturating at the largest balance.
pub open spec fn deposit_amount(rate: u128, total_bytes: int) -> u128 {
    if rate * total_bytes > u128::MAX {
        u128::MAX
    } else {
        (rate * total_bytes) as u128
    }
}

/// What the deposit calculator returns: the metadata-too-long error when the
/// summed attribute bytes or the metadata length exceed the bound, else the
/// saturated per-byte deposit over all stored bytes.
pub open spec fn deposit_outcome(
    max_metadata: u32,
    rate: u128,
    attrs: Seq<AttributeView>,
    metadata: Seq<u8>,
) -> Result<u128, Error> {
    if attrs_total_bytes(attrs) > max_metadata {
        Err(Error::ExceedMaximumMetadataLength)
    } else if metadata.len() > max_metadata {
        Err(Error::ExceedMaximumMetadataLength)
    } else {
        Ok(deposit_amount(rate, attrs_total_bytes(attrs) + metadata.len()))
    }
}

/// The deposit is monotonically non-decreasing in the total byte length.
pub proof fn lemma_deposit_amount_monotonic(rate: u128, bytes1: int, bytes2: int)
    requires
        0 <= bytes1 <= bytes2,
    ensures
        deposit_amount(rate, bytes1) <= deposit_amount(rate, bytes2),
{
    assert(rate * bytes1 <= rate * bytes2) by (nonlinear_arith)
        requires 0 <= bytes1 <= bytes2,
    ;
    assert(rate * bytes1 >= 0) by (nonlinear_arith)
        requires bytes1 >= 0,
    ;
}

/// Compute the deposit for storing `attributes` and `metadata` at
/// `deposit_per_byte` per byte, under the metadata length bound
/// `max_metadata`. Deterministic and side-effect free.
pub fn calculate_fee_deposit(
    max_metadata: u32,
    deposit_per_byte: u128,
    attributes: &Attributes,
    metadata: &Vec<u8>,
) -> (r: Result<u128, Error>)
    ensures
        r == deposit_outcome(max_metadata, deposit_per_byte, attributes.deep_view(), metadata@),
{
    let ghost all_attrs = attributes.deep_view();
    // Accumulate the attribute byte total, saturating far above the bound so
    // that the comparison against the bound is exact.
    let mut attributes_len: u128 = 0;
    let mut i: usize = 0;
    proof {
        assert(all_attrs.take(0) =~= Seq::<AttributeView>::empty());
    }
    while i < attributes.len()
        invariant
            0 <= i <= attributes.len(),
            all_attrs == attributes.deep_view(),
            attributes_len == saturate_u128(attrs_total_bytes(all_attrs.take(i as int))),
        decreases attributes.len() - i,
    {
        let entry_len: u128 = (attributes[i].key.len() as u128) + (attributes[i].value.len() as u128);
        let next_len: u128 = match attributes_len.checked_add(entry_len) {
            Some(v) => v,
            None => u128::MAX,
        };
        proof {
            let prefix = all_attrs.take(i as int);
            let next = all_attrs.take(i + 1);
            assert(next.drop_last() =~= prefix);
            assert(next.last() == all_attrs[i as int]);
            lemma_attrs_total_bytes_nonneg(prefix);
        }
        attributes_len = next_len;
        i = i + 1;
    }
    proof {
        assert(all_attrs.take(attributes.len() as int) =~= all_attrs);
        lemma_attrs_total_bytes_nonneg(all_attrs);
    }
    if attributes_len > max_metadata as u128 {
        return Err(Error::ExceedMaximumMetadataLength);
    }
    if metadata.len() as u128 > max_metadata as u128 {
        return Err(Error::ExceedMaximumMetadataLength);
    }
    let total_bytes: u128 = attributes_len + metadata.len() as u128;
    let deposit: u128 = match deposit_per_byte.checked_mul(total_bytes) {
        Some(v) => v,
        None => u128::MAX,
    };
    Ok(deposit)
}

/// A mathematical amount clamped to the largest balance.
pub open spec fn saturate_u128(v: int) -> u128 {
    if v > u128::MAX {
        u128::MAX
    } else {
        v as u128
    }
}

} // verus!
