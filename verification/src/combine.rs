//! The combination of decryption shares into the shared secret.

use vstd::prelude::*;
use crate::curve::{gt_one, gt_power, gt_product, GtElement};
use crate::decryption::{DecryptionSharePrecomputed, DecryptionShareSimple};
use crate::scalar::{scalar_views, Scalar};

verus! {

/// The secret that encryption and decryption share: an element of the
/// target field, from which the symmetric key is derived.
#[derive(Debug, PartialEq, Eq)]
pub struct SharedSecret(pub GtElement);

impl View for SharedSecret {
    type V = Seq<u8>;

    open spec fn view(&self) -> Seq<u8> {
        self.0@
    }
}

impl Clone for SharedSecret {
    fn clone(&self) -> (out: Self)
        ensures
            out@ == self@,
    {
        SharedSecret(self.0.clone())
    }
}

impl SharedSecret {
    /// Overwrites the secret with zeros and drops it.
    pub fn zeroize(self) {
        self.0.zeroize()
    }
}

/// The target-field parts of a sequence of simple shares.
pub open spec fn simple_share_values(shares: Seq<DecryptionShareSimple>) -> Seq<Seq<u8>> {
    shares.map_values(|s: DecryptionShareSimple| s.decryption_share@)
}

/// The target-field parts of a sequence of precomputed shares.
pub open spec fn precomputed_share_values(shares: Seq<DecryptionSharePrecomputed>) -> Seq<Seq<u8>> {
    shares.map_values(|s: DecryptionSharePrecomputed| s.decryption_share@)
}

/// The product, over the first `n` shares in order, of each share raised
/// to its coefficient, starting from one.
pub open spec fn weighted_product(shares: Seq<Seq<u8>>, coeffs: Seq<nat>, n: nat) -> Seq<u8>
    decreases n,
{
    if n == 0 {
        gt_one()
    } else {
        gt_product(
            weighted_product(shares, coeffs, (n - 1) as nat),
            gt_power(shares[n - 1], coeffs[n - 1]),
        )
    }
}

/// The product of the first `n` shares in order, starting from one.
pub open spec fn plain_product(shares: Seq<Seq<u8>>, n: nat) -> Seq<u8>
    decreases n,
{
    if n == 0 {
        gt_one()
    } else {
        gt_product(plain_product(shares, (n - 1) as nat), shares[n - 1])
    }
}

/// The smaller of two lengths.
pub open spec fn shorter(a: nat, b: nat) -> nat {
    if a <= b {
        a
    } else {
        b
    }
}

/// Combines simple shares: the product of the shares, each raised to its
/// Lagrange coefficient. Shares and coefficients are paired in order, as far
/// as both reach.
pub fn share_combine_simple(
    decryption_shares: &[DecryptionShareSimple],
    lagrange_coeffs: &[Scalar],
) -> (out: SharedSecret)
    ensures
        out@ == weighted_product(
            simple_share_values(decryption_shares@),
            scalar_views(lagrange_coeffs@),
            shorter(decryption_shares@.len(), lagrange_coeffs@.len()),
        ),
{
    let n = if decryption_shares.len() <= lagrange_coeffs.len() {
        decryption_shares.len()
    } else {
        lagrange_coeffs.len()
    };
    let ghost shares = simple_share_values(decryption_shares@);
    let ghost coeffs = scalar_views(lagrange_coeffs@);
    let mut acc = GtElement::one();
    let mut i: usize = 0;
    while i < n
        invariant
            i <= n,
            n <= decryption_shares@.len(),
            n <= lagrange_coeffs@.len(),
            shares == simple_share_values(decryption_shares@),
            coeffs == scalar_views(lagrange_coeffs@),
            acc@ == weighted_product(shares, coeffs, i as nat),
        decreases n - i,
    {
        let term = decryption_shares[i].decryption_share.pow(&lagrange_coeffs[i]);
        assert(shares[i as int] == decryption_shares@[i as int].decryption_share@);
        assert(coeffs[i as int] == lagrange_coeffs@[i as int]@);
        acc = acc.mul(&term);
        i += 1;
    }
    SharedSecret(acc)
}

/// Combines precomputed shares: their plain product, the Lagrange
/// coefficients being folded into the shares already.
pub fn share_combine_precomputed(shares: &[DecryptionSharePrecomputed]) -> (out: SharedSecret)
    ensures
        out@ == plain_product(precomputed_share_values(shares@), shares@.len()),
{
    let ghost values = precomputed_share_values(shares@);
    let mut acc = GtElement::one();
    let mut i: usize = 0;
    while i < shares.len()
        invariant
            i <= shares@.len(),
            values == precomputed_share_values(shares@),
            acc@ == plain_product(values, i as nat),
        decreases shares@.len() - i,
    {
        assert(values[i as int] == shares@[i as int].decryption_share@);
        acc = acc.mul(&shares[i].decryption_share);
        i += 1;
    }
    SharedSecret(acc)
}

} // verus!
