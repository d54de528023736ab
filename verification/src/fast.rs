//! The fast variant of threshold decryption: a decryption share is a point
//! of the first group, and the shares are combined by one product of
//! pairings with the validators' blinded key shares, each weighted by its
//! Lagrange coefficient beforehand.

use vstd::prelude::*;
use vstd::bytes::{spec_u64_from_le_bytes, spec_u64_to_le_bytes, u64_from_le_bytes, u64_to_le_bytes};
use crate::bytes::append_bytes;
use crate::ciphertext::Ciphertext;
use crate::context::PublicDecryptionContextFast;
use crate::curve::{
    g1_encoding,
    g1_scaled,
    g1_sum,
    g2_generator,
    g2_scaled,
    gt_one,
    gt_product,
    pairing,
    pairing_of,
    G1Point,
    G2Point,
    GtElement,
};
use crate::error::Error;
use crate::scalar::{fadd, finv, fmul, fsub, scalar_views, Scalar};
use crate::wire::{read_g1, slice_range};
use rand::rngs::StdRng;

verus! {

/// A decryption share of the fast variant.
#[derive(Debug, PartialEq, Eq)]
pub struct DecryptionShareFast {
    pub decrypter_index: usize,
    pub decryption_share: G1Point,
}

impl Clone for DecryptionShareFast {
    fn clone(&self) -> (out: Self)
        ensures
            out.decrypter_index == self.decrypter_index,
            out.decryption_share@ == self.decryption_share@,
    {
        DecryptionShareFast {
            decrypter_index: self.decrypter_index,
            decryption_share: self.decryption_share.clone(),
        }
    }
}

impl DecryptionShareFast {
    /// The encoding of the share: the index of the decrypter in eight
    /// little-endian bytes, then the point.
    pub fn to_bytes(&self) -> (out: Vec<u8>)
        ensures
            out@ == spec_u64_to_le_bytes(self.decrypter_index as u64) + self.decryption_share@,
            out@.len() == 56,
    {
        let mut out = u64_to_le_bytes(self.decrypter_index as u64);
        let point = self.decryption_share.to_bytes();
        append_bytes(&mut out, &point);
        proof {
            vstd::bytes::lemma_auto_spec_u64_to_from_le_bytes();
        }
        out
    }

    /// Decodes a share: `InvalidByteLength` unless there are 56 bytes or
    /// where the index does not fit the machine, `DeserializationError`
    /// unless the last 48 encode a point.
    pub fn from_bytes(bytes: &[u8]) -> (out: Result<DecryptionShareFast, Error>)
        ensures
            match out {
                Ok(share) => {
                    &&& bytes@.len() == 56
                    &&& share.decrypter_index == spec_u64_from_le_bytes(bytes@.subrange(0, 8))
                    &&& share.decryption_share@ == bytes@.subrange(8, 56)
                    &&& g1_encoding(bytes@.subrange(8, 56))
                },
                Err(e) => if bytes@.len() != 56 {
                    e == Error::InvalidByteLength(56, bytes@.len() as usize)
                } else if spec_u64_from_le_bytes(bytes@.subrange(0, 8)) > usize::MAX {
                    e == Error::InvalidByteLength(usize::MAX, 56)
                } else {
                    e == Error::DeserializationError && !g1_encoding(bytes@.subrange(8, 56))
                },
            },
    {
        if bytes.len() != 56 {
            return Err(Error::InvalidByteLength(56, bytes.len()));
        }
        let head = slice_range(bytes, 0, 8);
        let index = u64_from_le_bytes(head.as_slice());
        if index > usize::MAX as u64 {
            return Err(Error::InvalidByteLength(usize::MAX, 56));
        }
        match read_g1(bytes, 8) {
            Ok(decryption_share) => Ok(
                DecryptionShareFast { decrypter_index: index as usize, decryption_share },
            ),
            Err(e) => Err(e),
        }
    }
}

/// The product of the differences of the `i`-th point to the first `n`
/// points other than itself.
pub open spec fn difference_product(xs: Seq<nat>, i: int, n: nat) -> nat
    decreases n,
{
    if n == 0 {
        1
    } else if n - 1 == i {
        difference_product(xs, i, (n - 1) as nat)
    } else {
        fmul(difference_product(xs, i, (n - 1) as nat), fsub(xs[i], xs[n - 1]))
    }
}

/// The product of the first `n` factors.
pub open spec fn factor_product(factors: Seq<nat>, n: nat) -> nat
    decreases n,
{
    if n == 0 {
        1
    } else {
        fmul(factor_product(factors, (n - 1) as nat), factors[n - 1])
    }
}

/// The weight of the `i`-th point in the fast variant: the product of the
/// contexts' numerator parts, divided by the product of the differences of
/// the point to the others; zero where that product is zero.
pub open spec fn fast_weight(xs: Seq<nat>, numerators: Seq<nat>, i: int) -> nat {
    let denominator = difference_product(xs, i, xs.len());
    if denominator == 0 {
        0
    } else {
        fmul(factor_product(numerators, numerators.len()), finv(denominator))
    }
}

/// The domain points of the decrypters of the shares.
pub open spec fn decrypter_points(
    contexts: Seq<PublicDecryptionContextFast>,
    shares: Seq<DecryptionShareFast>,
) -> Seq<nat> {
    Seq::new(shares.len(), |k: int| contexts[shares[k].decrypter_index as int].domain@)
}

/// The numerator parts of the decrypters of the shares.
pub open spec fn decrypter_numerators(
    contexts: Seq<PublicDecryptionContextFast>,
    shares: Seq<DecryptionShareFast>,
) -> Seq<nat> {
    Seq::new(shares.len(), |k: int| contexts[shares[k].decrypter_index as int].lagrange_n_0@)
}

/// Whether every share names a decrypter that has a context.
pub open spec fn decrypters_known(
    contexts: Seq<PublicDecryptionContextFast>,
    shares: Seq<DecryptionShareFast>,
) -> bool {
    forall|k: int| 0 <= k < shares.len() ==> (#[trigger] shares[k]).decrypter_index < contexts.len()
}

/// The blinded key share of every decrypter, weighted for the combination.
pub fn prepare_combine(
    public_decryption_contexts: &[PublicDecryptionContextFast],
    shares: &[DecryptionShareFast],
) -> (out: Vec<G2Point>)
    requires
        decrypters_known(public_decryption_contexts@, shares@),
    ensures
        out@.len() == shares@.len(),
        forall|k: int|
            0 <= k < shares@.len() ==> (#[trigger] out@[k])@ == g2_scaled(
                public_decryption_contexts@[shares@[k].decrypter_index as int].blinded_key_share.blinded_key_share@,
                fast_weight(
                    decrypter_points(public_decryption_contexts@, shares@),
                    decrypter_numerators(public_decryption_contexts@, shares@),
                    k,
                ),
            ),
{
    let ghost xs = decrypter_points(public_decryption_contexts@, shares@);
    let ghost numerators = decrypter_numerators(public_decryption_contexts@, shares@);
    let n = shares.len();
    let mut domain: Vec<Scalar> = Vec::new();
    let mut n_0 = Scalar::one();
    let mut k: usize = 0;
    while k < n
        invariant
            k <= n == shares@.len(),
            decrypters_known(public_decryption_contexts@, shares@),
            xs == decrypter_points(public_decryption_contexts@, shares@),
            numerators == decrypter_numerators(public_decryption_contexts@, shares@),
            domain@.len() == k,
            forall|j: int| 0 <= j < k ==> (#[trigger] domain@[j])@ == xs[j],
            n_0@ == factor_product(numerators, k as nat),
        decreases n - k,
    {
        let context = &public_decryption_contexts[shares[k].decrypter_index];
        domain.push(context.domain.clone());
        n_0 = n_0.mul(&context.lagrange_n_0);
        k += 1;
    }
    assert(scalar_views(domain@) =~= xs);
    let mut out: Vec<G2Point> = Vec::new();
    let mut i: usize = 0;
    while i < n
        invariant
            i <= n == shares@.len(),
            decrypters_known(public_decryption_contexts@, shares@),
            xs == decrypter_points(public_decryption_contexts@, shares@),
            numerators == decrypter_numerators(public_decryption_contexts@, shares@),
            numerators.len() == n,
            domain@.len() == n,
            scalar_views(domain@) == xs,
            n_0@ == factor_product(numerators, n as nat),
            out@.len() == i,
            forall|k: int|
                0 <= k < i ==> (#[trigger] out@[k])@ == g2_scaled(
                    public_decryption_contexts@[shares@[k].decrypter_index as int].blinded_key_share.blinded_key_share@,
                    fast_weight(xs, numerators, k),
                ),
        decreases n - i,
    {
        let mut product = Scalar::one();
        let mut j: usize = 0;
        while j < n
            invariant
                j <= n == domain@.len(),
                i < n,
                scalar_views(domain@) == xs,
                product@ == difference_product(xs, i as int, j as nat),
            decreases n - j,
        {
            assert(xs[j as int] == domain@[j as int]@);
            assert(xs[i as int] == domain@[i as int]@);
            if j != i {
                let difference = domain[i].sub(&domain[j]);
                product = product.mul(&difference);
            }
            j += 1;
        }
        let weight = match product.inverse() {
            Some(inverse) => n_0.mul(&inverse),
            None => Scalar::zero(),
        };
        let decrypter = &public_decryption_contexts[shares[i].decrypter_index];
        out.push(decrypter.blinded_key_share.blinded_key_share.mul(&weight));
        i += 1;
    }
    out
}

/// The product of the pairings of the first `n` shares with their prepared
/// key shares, in order, starting from one.
pub open spec fn pairing_product(shares: Seq<Seq<u8>>, keys: Seq<Seq<u8>>, n: nat) -> Seq<u8>
    decreases n,
{
    if n == 0 {
        gt_one()
    } else {
        gt_product(pairing_product(shares, keys, (n - 1) as nat), pairing_of(shares[n - 1], keys[n - 1]))
    }
}

/// The points of a sequence of fast shares.
pub open spec fn fast_share_values(shares: Seq<DecryptionShareFast>) -> Seq<Seq<u8>> {
    shares.map_values(|s: DecryptionShareFast| s.decryption_share@)
}

/// Combines fast shares: the product of the pairings of every share with
/// its prepared key share. Shares and key shares are paired in order, as
/// far as both reach.
pub fn share_combine(shares: &[DecryptionShareFast], prepared_key_shares: &[G2Point]) -> (out: GtElement)
    ensures
        out@ == pairing_product(
            fast_share_values(shares@),
            crate::curve::g2_views(prepared_key_shares@),
            crate::combine::shorter(shares@.len(), prepared_key_shares@.len()),
        ),
{
    let n = if shares.len() <= prepared_key_shares.len() {
        shares.len()
    } else {
        prepared_key_shares.len()
    };
    let ghost values = fast_share_values(shares@);
    let ghost keys = crate::curve::g2_views(prepared_key_shares@);
    let mut acc = GtElement::one();
    let mut i: usize = 0;
    while i < n
        invariant
            i <= n,
            n <= shares@.len(),
            n <= prepared_key_shares@.len(),
            values == fast_share_values(shares@),
            keys == crate::curve::g2_views(prepared_key_shares@),
            acc@ == pairing_product(values, keys, i as nat),
        decreases n - i,
    {
        assert(values[i as int] == shares@[i as int].decryption_share@);
        assert(keys[i as int] == prepared_key_shares@[i as int]@);
        let term = pairing(&shares[i].decryption_share, &prepared_key_shares[i]);
        acc = acc.mul(&term);
        i += 1;
    }
    acc
}

/// Whether the `i`-th share pairs with its decrypter's public key as the
/// ciphertext's commitment does with the generator.
pub open spec fn fast_share_verifies(
    contexts: Seq<PublicDecryptionContextFast>,
    commitment: Seq<u8>,
    shares: Seq<DecryptionShareFast>,
    i: int,
) -> bool {
    pairing_of(
        shares[i].decryption_share@,
        contexts[shares[i].decrypter_index as int].blinded_key_share.validator_public_key@,
    ) == pairing_of(commitment, g2_generator())
}

/// Whether every share verifies against its decrypter's public key.
pub fn verify_decryption_shares_fast(
    pub_contexts: &[PublicDecryptionContextFast],
    ciphertext: &Ciphertext,
    decryption_shares: &[DecryptionShareFast],
) -> (ok: bool)
    requires
        decrypters_known(pub_contexts@, decryption_shares@),
    ensures
        ok == (forall|i: int|
            0 <= i < decryption_shares@.len() ==> fast_share_verifies(
                pub_contexts@,
                ciphertext.commitment@,
                decryption_shares@,
                i,
            )),
{
    let expected = pairing(&ciphertext.commitment, &G2Point::generator());
    let mut i: usize = 0;
    while i < decryption_shares.len()
        invariant
            i <= decryption_shares@.len(),
            decrypters_known(pub_contexts@, decryption_shares@),
            expected@ == pairing_of(ciphertext.commitment@, g2_generator()),
            forall|k: int|
                0 <= k < i ==> fast_share_verifies(
                    pub_contexts@,
                    ciphertext.commitment@,
                    decryption_shares@,
                    k,
                ),
        decreases decryption_shares@.len() - i,
    {
        let share = &decryption_shares[i];
        let key = &pub_contexts[share.decrypter_index].blinded_key_share.validator_public_key;
        let got = pairing(&share.decryption_share, key);
        if !got.equals(&expected) {
            assert(!fast_share_verifies(
                pub_contexts@,
                ciphertext.commitment@,
                decryption_shares@,
                i as int,
            ));
            return false;
        }
        i += 1;
    }
    true
}

/// `n` scalars drawn from `rng`.
pub fn generate_random(n: usize, rng: &mut StdRng) -> (out: Vec<Scalar>)
    ensures
        out@.len() == n,
{
    let mut out: Vec<Scalar> = Vec::new();
    let mut i: usize = 0;
    while i < n
        invariant
            i <= n,
            out@.len() == i,
        decreases n - i,
    {
        out.push(Scalar::random(rng));
        i += 1;
    }
    out
}

/// The sum of the first `n` scalars.
pub open spec fn scalar_sum(values: Seq<nat>, n: nat) -> nat
    decreases n,
{
    if n == 0 {
        0
    } else {
        fadd(scalar_sum(values, (n - 1) as nat), values[n - 1])
    }
}

/// The sum, over the first `n` ciphertexts, of the commitment multiplied by
/// the sum of the ciphertext's weights, starting from the identity.
pub open spec fn weighted_commitments(commitments: Seq<Seq<u8>>, weights: Seq<Seq<nat>>, n: nat) -> Seq<
    u8,
>
    decreases n,
{
    if n == 0 {
        crate::curve::g1_identity()
    } else {
        g1_sum(
            weighted_commitments(commitments, weights, (n - 1) as nat),
            g1_scaled(commitments[n - 1], scalar_sum(weights[n - 1], weights[n - 1].len())),
        )
    }
}

/// The sum, over the first `n` ciphertexts, of the `j`-th share for the
/// ciphertext multiplied by its weight, starting from the identity.
pub open spec fn weighted_shares(shares: Seq<Seq<Seq<u8>>>, weights: Seq<Seq<nat>>, j: int, n: nat) -> Seq<
    u8,
>
    decreases n,
{
    if n == 0 {
        crate::curve::g1_identity()
    } else {
        g1_sum(
            weighted_shares(shares, weights, j, (n - 1) as nat),
            g1_scaled(shares[n - 1][j], weights[n - 1][j]),
        )
    }
}

/// The product, over the first `n` decrypters, of the pairing of the
/// decrypter's weighted shares with its public key, starting from one.
pub open spec fn batch_product(
    shares: Seq<Seq<Seq<u8>>>,
    weights: Seq<Seq<nat>>,
    keys: Seq<Seq<u8>>,
    n: nat,
) -> Seq<u8>
    decreases n,
{
    if n == 0 {
        gt_one()
    } else {
        gt_product(
            batch_product(shares, weights, keys, (n - 1) as nat),
            pairing_of(weighted_shares(shares, weights, n - 1, shares.len()), keys[n - 1]),
        )
    }
}

/// The points of the shares of every ciphertext.
pub open spec fn batch_share_values(shares: Seq<Vec<DecryptionShareFast>>) -> Seq<Seq<Seq<u8>>> {
    shares.map_values(|row: Vec<DecryptionShareFast>| fast_share_values(row@))
}

/// The values of the weights of every ciphertext.
pub open spec fn batch_weights(weights: Seq<Vec<Scalar>>) -> Seq<Seq<nat>> {
    weights.map_values(|row: Vec<Scalar>| scalar_views(row@))
}

/// The commitments of a sequence of ciphertexts.
pub open spec fn commitments_of(ciphertexts: Seq<Ciphertext>) -> Seq<Seq<u8>> {
    ciphertexts.map_values(|c: Ciphertext| c.commitment@)
}

/// The public keys of the decrypters of the shares.
pub open spec fn decrypter_keys(
    contexts: Seq<PublicDecryptionContextFast>,
    shares: Seq<DecryptionShareFast>,
) -> Seq<Seq<u8>> {
    Seq::new(
        shares.len(),
        |k: int| contexts[shares[k].decrypter_index as int].blinded_key_share.validator_public_key@,
    )
}

/// Whether the shares of a batch are laid out for verification: one row of
/// shares and one row of weights for every ciphertext, every row as long as
/// the first row of shares, and the decrypters of the first row known.
pub open spec fn batch_laid_out(
    contexts: Seq<PublicDecryptionContextFast>,
    ciphertexts: Seq<Ciphertext>,
    shares: Seq<Vec<DecryptionShareFast>>,
    weights: Seq<Vec<Scalar>>,
) -> bool {
    &&& shares.len() > 0
    &&& shares.len() == ciphertexts.len()
    &&& weights.len() == ciphertexts.len()
    &&& decrypters_known(contexts, shares[0]@)
    &&& forall|i: int| 0 <= i < shares.len() ==> (#[trigger] shares[i])@.len() == shares[0]@.len()
    &&& forall|i: int| 0 <= i < weights.len() ==> (#[trigger] weights[i])@.len() == shares[0]@.len()
}

/// Verifies the shares of several ciphertexts at once, with the weights
/// `alpha_ij`: the weighted commitments must pair with the generator as
/// the weighted shares of every decrypter, multiplied together, pair with
/// the decrypter's public key.
pub fn batch_verify_with_weights(
    pub_contexts: &[PublicDecryptionContextFast],
    ciphertexts: &[Ciphertext],
    decryption_shares: &[Vec<DecryptionShareFast>],
    alpha_ij: &[Vec<Scalar>],
) -> (ok: bool)
    requires
        batch_laid_out(pub_contexts@, ciphertexts@, decryption_shares@, alpha_ij@),
    ensures
        ok == (pairing_of(
            weighted_commitments(
                commitments_of(ciphertexts@),
                batch_weights(alpha_ij@),
                ciphertexts@.len(),
            ),
            g2_generator(),
        ) == batch_product(
            batch_share_values(decryption_shares@),
            batch_weights(alpha_ij@),
            decrypter_keys(pub_contexts@, decryption_shares@[0]@),
            decryption_shares@[0]@.len(),
        )),
{
    let num_ciphertexts = ciphertexts.len();
    let num_shares = decryption_shares[0].len();
    let ghost commitments = commitments_of(ciphertexts@);
    let ghost weights = batch_weights(alpha_ij@);
    let ghost values = batch_share_values(decryption_shares@);
    let ghost keys = decrypter_keys(pub_contexts@, decryption_shares@[0]@);
    let mut sum_u = G1Point::identity();
    let mut i: usize = 0;
    while i < num_ciphertexts
        invariant
            i <= num_ciphertexts == ciphertexts@.len(),
            alpha_ij@.len() == num_ciphertexts,
            commitments == commitments_of(ciphertexts@),
            weights == batch_weights(alpha_ij@),
            sum_u@ == weighted_commitments(commitments, weights, i as nat),
        decreases num_ciphertexts - i,
    {
        let row = &alpha_ij[i];
        assert(weights[i as int] == scalar_views(row@));
        let mut total = Scalar::zero();
        let mut j: usize = 0;
        while j < row.len()
            invariant
                j <= row@.len(),
                total@ == scalar_sum(scalar_views(row@), j as nat),
            decreases row@.len() - j,
        {
            assert(scalar_views(row@)[j as int] == row@[j as int]@);
            total = total.add(&row[j]);
            j += 1;
        }
        assert(scalar_views(row@).len() == row@.len());
        assert(commitments[i as int] == ciphertexts@[i as int].commitment@);
        sum_u = sum_u.add(&ciphertexts[i].commitment.mul(&total));
        i += 1;
    }
    let left = pairing(&sum_u, &G2Point::generator());
    let mut right = GtElement::one();
    let mut j: usize = 0;
    while j < num_shares
        invariant
            j <= num_shares == decryption_shares@[0]@.len(),
            num_ciphertexts == ciphertexts@.len(),
            batch_laid_out(pub_contexts@, ciphertexts@, decryption_shares@, alpha_ij@),
            weights == batch_weights(alpha_ij@),
            values == batch_share_values(decryption_shares@),
            keys == decrypter_keys(pub_contexts@, decryption_shares@[0]@),
            right@ == batch_product(values, weights, keys, j as nat),
        decreases num_shares - j,
    {
        let mut sum_d = G1Point::identity();
        let mut i: usize = 0;
        while i < num_ciphertexts
            invariant
                i <= num_ciphertexts == ciphertexts@.len(),
                j < num_shares == decryption_shares@[0]@.len(),
                batch_laid_out(pub_contexts@, ciphertexts@, decryption_shares@, alpha_ij@),
                weights == batch_weights(alpha_ij@),
                values == batch_share_values(decryption_shares@),
                sum_d@ == weighted_shares(values, weights, j as int, i as nat),
            decreases num_ciphertexts - i,
        {
            let share_row = &decryption_shares[i];
            let weight_row = &alpha_ij[i];
            assert(share_row@.len() == num_shares);
            assert(weight_row@.len() == num_shares);
            assert(values[i as int] == fast_share_values(share_row@));
            assert(values[i as int][j as int] == share_row@[j as int].decryption_share@);
            assert(weights[i as int] == scalar_views(weight_row@));
            assert(weights[i as int][j as int] == weight_row@[j as int]@);
            sum_d = sum_d.add(&share_row[j].decryption_share.mul(&weight_row[j]));
            i += 1;
        }
        assert(values.len() == num_ciphertexts);
        let decrypter = decryption_shares[0][j].decrypter_index;
        let key = &pub_contexts[decrypter].blinded_key_share.validator_public_key;
        assert(keys[j as int] == key@);
        right = right.mul(&pairing(&sum_d, key));
        j += 1;
    }
    left.equals(&right)
}

/// Whether `ok` is what the batch verification with the weights `weights`
/// gives, one row of weights for every ciphertext and one weight for every
/// share.
pub open spec fn batch_outcome(
    contexts: Seq<PublicDecryptionContextFast>,
    ciphertexts: Seq<Ciphertext>,
    shares: Seq<Vec<DecryptionShareFast>>,
    weights: Seq<Seq<nat>>,
    ok: bool,
) -> bool {
    &&& weights.len() == ciphertexts.len()
    &&& forall|i: int| 0 <= i < weights.len() ==> (#[trigger] weights[i]).len() == shares[0]@.len()
    &&& ok == (pairing_of(
        weighted_commitments(commitments_of(ciphertexts), weights, ciphertexts.len()),
        g2_generator(),
    ) == batch_product(
        batch_share_values(shares),
        weights,
        decrypter_keys(contexts, shares[0]@),
        shares[0]@.len(),
    ))
}

/// Verifies the shares of several ciphertexts at once, with weights drawn
/// from `rng`. Shares that all verify one by one pass whatever the
/// weights; shares that do not are caught but for an unlucky draw.
pub fn batch_verify_decryption_shares(
    pub_contexts: &[PublicDecryptionContextFast],
    ciphertexts: &[Ciphertext],
    decryption_shares: &[Vec<DecryptionShareFast>],
    rng: &mut StdRng,
) -> (ok: bool)
    requires
        decryption_shares@.len() > 0,
        decryption_shares@.len() == ciphertexts@.len(),
        decrypters_known(pub_contexts@, decryption_shares@[0]@),
        forall|i: int|
            0 <= i < decryption_shares@.len() ==> (#[trigger] decryption_shares@[i])@.len()
                == decryption_shares@[0]@.len(),
    ensures
        exists|weights: Seq<Seq<nat>>| #[trigger]
            batch_outcome(pub_contexts@, ciphertexts@, decryption_shares@, weights, ok),
{
    let num_ciphertexts = ciphertexts.len();
    let num_shares = decryption_shares[0].len();
    let mut alpha_ij: Vec<Vec<Scalar>> = Vec::new();
    let mut i: usize = 0;
    while i < num_ciphertexts
        invariant
            i <= num_ciphertexts,
            alpha_ij@.len() == i,
            forall|k: int| 0 <= k < i ==> (#[trigger] alpha_ij@[k])@.len() == num_shares,
        decreases num_ciphertexts - i,
    {
        alpha_ij.push(generate_random(num_shares, rng));
        i += 1;
    }
    let ok = batch_verify_with_weights(
        pub_contexts,
        ciphertexts,
        decryption_shares,
        alpha_ij.as_slice(),
    );
    proof {
        let weights = batch_weights(alpha_ij@);
        assert forall|i: int| 0 <= i < weights.len() implies (#[trigger] weights[i]).len()
            == decryption_shares@[0]@.len() by {
            assert(weights[i] == scalar_views(alpha_ij@[i]@));
            assert(scalar_views(alpha_ij@[i]@).len() == alpha_ij@[i]@.len());
        }
        assert(batch_outcome(pub_contexts@, ciphertexts@, decryption_shares@, weights, ok));
    }
    ok
}

} // verus!
