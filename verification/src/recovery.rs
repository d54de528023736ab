//! Recovery of a share at a chosen point from the shares of the other
//! participants, and the operations on a single validator's share that go
//! with refresh and recovery.

use vstd::prelude::*;
use crate::ciphertext::{header_verifies, Ciphertext, CiphertextHeader};
use crate::context::PrivateDecryptionContextSimple;
use crate::curve::{g2_identity, g2_scaled, g2_sum, g2_views, G2Point};
use crate::decryption::{
    precomputed_share_of,
    simple_share_of,
    DecryptionSharePrecomputed,
    DecryptionShareSimple,
};
use crate::dkg::PubliclyVerifiableDkg;
use crate::domain::domain_point;
use crate::error::Error;
use crate::key_share::{unblinded, PrivateKeyShare};
use crate::poly::{
    evaluate_polynomial,
    lagrange_basis,
    lagrange_basis_at,
    lagrange_coefficient,
    make_random_polynomial_with_root,
    poly_eval,
    prepare_combine_simple,
    zeroize_polynomial,
};
use crate::pvss::{Aggregate, PubliclyVerifiableSS};
use crate::scalar::{scalar_views, Scalar};
use rand::rngs::StdRng;

verus! {

/// A random polynomial of `threshold` coefficients that vanishes at `x_r`.
pub fn make_random_polynomial(threshold: usize, x_r: &Scalar, rng: &mut StdRng) -> (out: Vec<Scalar>)
    requires
        0 < threshold <= u32::MAX,
    ensures
        out@.len() == threshold,
        poly_eval(scalar_views(out@), x_r@) == 0,
{
    make_random_polynomial_with_root((threshold - 1) as u32, x_r, rng)
}

/// Whether every participant has a public context of its own.
pub open spec fn participants_placed(participants: Seq<PrivateDecryptionContextSimple>) -> bool {
    forall|k: int|
        0 <= k < participants.len() ==> (#[trigger] participants[k]).index
            < participants[k].public_decryption_contexts@.len()
}

/// The domain point of a participant.
pub open spec fn own_point(p: PrivateDecryptionContextSimple) -> nat {
    p.public_decryption_contexts@[p.index as int].domain@
}

/// The values of a sequence of polynomials.
pub open spec fn polynomial_views(polys: Seq<Vec<Scalar>>) -> Seq<Seq<nat>> {
    polys.map_values(|p: Vec<Scalar>| scalar_views(p@))
}

/// The encodings of rows of points.
pub open spec fn row_views(rows: Seq<Vec<G2Point>>) -> Seq<Seq<Seq<u8>>> {
    rows.map_values(|r: Vec<G2Point>| g2_views(r@))
}

/// The update that the producer with the polynomial `poly` deals to a
/// participant: the participant's generator multiplied by the polynomial's
/// value at the participant's point.
pub open spec fn update_for(p: PrivateDecryptionContextSimple, poly: Seq<nat>) -> Seq<u8> {
    g2_scaled(p.setup_params.h@, poly_eval(poly, own_point(p)))
}

/// The updates that every producer deals to every participant: row `i`
/// holds the updates of the `i`-th polynomial, one for each participant in
/// order.
pub fn share_updates_from_polynomials(
    participants: &[PrivateDecryptionContextSimple],
    polys: &[Vec<Scalar>],
) -> (out: Vec<Vec<G2Point>>)
    requires
        participants_placed(participants@),
    ensures
        out@.len() == polys@.len(),
        forall|i: int|
            0 <= i < polys@.len() ==> (#[trigger] out@[i])@.len() == participants@.len(),
        forall|i: int, j: int|
            0 <= i < polys@.len() && 0 <= j < participants@.len() ==> (#[trigger] out@[i]@[j])@
                == update_for(participants@[j], scalar_views(polys@[i]@)),
{
    let mut out: Vec<Vec<G2Point>> = Vec::new();
    let mut i: usize = 0;
    while i < polys.len()
        invariant
            i <= polys@.len(),
            participants_placed(participants@),
            out@.len() == i,
            forall|a: int| 0 <= a < i ==> (#[trigger] out@[a])@.len() == participants@.len(),
            forall|a: int, j: int|
                0 <= a < i && 0 <= j < participants@.len() ==> (#[trigger] out@[a]@[j])@
                    == update_for(participants@[j], scalar_views(polys@[a]@)),
        decreases polys@.len() - i,
    {
        let mut row: Vec<G2Point> = Vec::new();
        let mut j: usize = 0;
        while j < participants.len()
            invariant
                j <= participants@.len(),
                i < polys@.len(),
                participants_placed(participants@),
                row@.len() == j,
                forall|b: int|
                    0 <= b < j ==> (#[trigger] row@[b])@ == update_for(
                        participants@[b],
                        scalar_views(polys@[i as int]@),
                    ),
            decreases participants@.len() - j,
        {
            let p = &participants[j];
            let x_j = &p.public_decryption_contexts[p.index].domain;
            let eval = evaluate_polynomial(polys[i].as_slice(), x_j);
            row.push(p.setup_params.h.mul(&eval));
            eval.zeroize();
            j += 1;
        }
        out.push(row);
        i += 1;
    }
    out
}

/// The share `share` with the updates of the first `n` producers for the
/// participant at position `at` added, in the order of the producers.
pub open spec fn share_with_updates(share: Seq<u8>, deltas: Seq<Seq<Seq<u8>>>, at: int, n: nat) -> Seq<u8>
    decreases n,
{
    if n == 0 {
        share
    } else {
        g2_sum(share_with_updates(share, deltas, at, (n - 1) as nat), deltas[n - 1][at])
    }
}

/// Every participant's private key share with every producer's update for
/// it added.
pub fn update_decryption_shares(participants: &[PrivateDecryptionContextSimple], deltas: &[Vec<G2Point>]) -> (out:
    Vec<G2Point>)
    requires
        forall|i: int| 0 <= i < deltas@.len() ==> (#[trigger] deltas@[i])@.len() == participants@.len(),
    ensures
        out@.len() == participants@.len(),
        forall|k: int|
            0 <= k < participants@.len() ==> (#[trigger] out@[k])@ == share_with_updates(
                participants@[k].private_key_share@,
                row_views(deltas@),
                k,
                deltas@.len(),
            ),
{
    let ghost rows = row_views(deltas@);
    let mut out: Vec<G2Point> = Vec::new();
    let mut k: usize = 0;
    while k < participants.len()
        invariant
            k <= participants@.len(),
            rows == row_views(deltas@),
            forall|i: int|
                0 <= i < deltas@.len() ==> (#[trigger] deltas@[i])@.len() == participants@.len(),
            out@.len() == k,
            forall|a: int|
                0 <= a < k ==> (#[trigger] out@[a])@ == share_with_updates(
                    participants@[a].private_key_share@,
                    rows,
                    a,
                    deltas@.len(),
                ),
        decreases participants@.len() - k,
    {
        let mut new_y = participants[k].private_key_share.0.clone();
        let mut i: usize = 0;
        while i < deltas.len()
            invariant
                i <= deltas@.len(),
                k < participants@.len(),
                rows == row_views(deltas@),
                forall|a: int|
                    0 <= a < deltas@.len() ==> (#[trigger] deltas@[a])@.len() == participants@.len(),
                new_y@ == share_with_updates(
                    participants@[k as int].private_key_share@,
                    rows,
                    k as int,
                    i as nat,
                ),
            decreases deltas@.len() - i,
        {
            assert(deltas@[i as int]@.len() == participants@.len());
            assert(rows[i as int][k as int] == deltas@[i as int]@[k as int]@) by {
                assert(rows[i as int] == g2_views(deltas@[i as int]@));
            }
            new_y = new_y.add(&deltas[i][k]);
            i += 1;
        }
        out.push(new_y);
        k += 1;
    }
    out
}

/// The sum of the first `n` points, each multiplied by its coefficient,
/// starting from the identity.
pub open spec fn interpolated(points: Seq<Seq<u8>>, coeffs: Seq<nat>, n: nat) -> Seq<u8>
    decreases n,
{
    if n == 0 {
        g2_identity()
    } else {
        g2_sum(interpolated(points, coeffs, (n - 1) as nat), g2_scaled(points[n - 1], coeffs[n - 1]))
    }
}

/// The domain points of the public contexts that a participant holds.
pub open spec fn known_points(p: PrivateDecryptionContextSimple) -> Seq<nat> {
    p.public_decryption_contexts@.map_values(
        |c: crate::context::PublicDecryptionContextSimple| c.domain@,
    )
}

/// The private key shares of a sequence of participants.
pub open spec fn private_shares(participants: Seq<PrivateDecryptionContextSimple>) -> Seq<Seq<u8>> {
    participants.map_values(|p: PrivateDecryptionContextSimple| p.private_key_share@)
}

/// The updates that the producers with the polynomials `polys` deal to the
/// participants: row `i` holds the updates of the `i`-th polynomial.
pub open spec fn dealt_updates(
    participants: Seq<PrivateDecryptionContextSimple>,
    polys: Seq<Seq<nat>>,
) -> Seq<Seq<Seq<u8>>> {
    Seq::new(
        polys.len(),
        |i: int| Seq::new(participants.len(), |j: int| update_for(participants[j], polys[i])),
    )
}

/// Every participant's private key share with the updates dealt to it
/// added.
pub open spec fn updated_shares(
    participants: Seq<PrivateDecryptionContextSimple>,
    rows: Seq<Seq<Seq<u8>>>,
) -> Seq<Seq<u8>> {
    Seq::new(
        participants.len(),
        |k: int| share_with_updates(participants[k].private_key_share@, rows, k, rows.len()),
    )
}

/// The share at `x_r` that the participants recover with the update
/// polynomials `polys`: every participant adds the updates that are dealt
/// to it, and the updated shares are interpolated at `x_r` over the domain
/// points that the first participant knows.
pub fn recover_share_with_polynomials(
    other_participants: &[PrivateDecryptionContextSimple],
    polys: &[Vec<Scalar>],
    x_r: &Scalar,
) -> (out: G2Point)
    requires
        other_participants@.len() > 0,
        participants_placed(other_participants@),
        other_participants@[0].public_decryption_contexts@.len() == other_participants@.len(),
    ensures
        out@ == interpolated(
            updated_shares(
                other_participants@,
                dealt_updates(other_participants@, polynomial_views(polys@)),
            ),
            lagrange_basis(known_points(other_participants@[0]), x_r@),
            other_participants@.len(),
        ),
{
    let share_updates = share_updates_from_polynomials(other_participants, polys);
    let new_shares_y = update_decryption_shares(other_participants, share_updates.as_slice());
    let first = &other_participants[0];
    let mut shares_x: Vec<Scalar> = Vec::new();
    let mut c: usize = 0;
    while c < first.public_decryption_contexts.len()
        invariant
            c <= first.public_decryption_contexts@.len(),
            shares_x@.len() == c,
            forall|k: int|
                0 <= k < c ==> (#[trigger] shares_x@[k])@ == first.public_decryption_contexts@[k].domain@,
        decreases first.public_decryption_contexts@.len() - c,
    {
        shares_x.push(first.public_decryption_contexts[c].domain.clone());
        c += 1;
    }
    assert(scalar_views(shares_x@) =~= known_points(*first));
    let lagrange = lagrange_basis_at(shares_x.as_slice(), x_r);
    let ghost updated = g2_views(new_shares_y@);
    let ghost coeffs = scalar_views(lagrange@);
    let n = new_shares_y.len();
    let mut acc = G2Point::identity();
    let mut k: usize = 0;
    while k < n
        invariant
            k <= n == new_shares_y@.len(),
            lagrange@.len() == n,
            updated == g2_views(new_shares_y@),
            coeffs == scalar_views(lagrange@),
            acc@ == interpolated(updated, coeffs, k as nat),
        decreases n - k,
    {
        assert(updated[k as int] == new_shares_y@[k as int]@);
        assert(coeffs[k as int] == lagrange@[k as int]@);
        acc = acc.add(&new_shares_y[k].mul(&lagrange[k]));
        k += 1;
    }
    proof {
        let rows = dealt_updates(other_participants@, polynomial_views(polys@));
        assert(row_views(share_updates@) =~= rows) by {
            assert forall|i: int| 0 <= i < polys@.len() implies row_views(share_updates@)[i]
                =~= rows[i] by {
                assert(row_views(share_updates@)[i] == g2_views(share_updates@[i]@));
                assert(polynomial_views(polys@)[i] == scalar_views(polys@[i]@));
                assert forall|j: int| 0 <= j < other_participants@.len() implies g2_views(
                    share_updates@[i]@,
                )[j] == rows[i][j] by {
                    assert(g2_views(share_updates@[i]@)[j] == share_updates@[i]@[j]@);
                }
            }
        }
        assert(updated =~= updated_shares(other_participants@, rows)) by {
            assert forall|k: int| 0 <= k < updated.len() implies updated[k] == updated_shares(
                other_participants@,
                rows,
            )[k] by {
                assert(updated[k] == new_shares_y@[k]@);
            }
        }
    }
    acc
}

/// Whether `out` is the share at `x_r` that the participants recover with
/// the update polynomials `polys`, one for each participant, each of
/// `threshold` coefficients and vanishing at `x_r`.
pub open spec fn recovers_with(
    out: Seq<u8>,
    participants: Seq<PrivateDecryptionContextSimple>,
    polys: Seq<Seq<nat>>,
    x_r: nat,
    threshold: nat,
) -> bool {
    &&& polys.len() == participants.len()
    &&& forall|i: int|
        0 <= i < polys.len() ==> (#[trigger] polys[i]).len() == threshold && poly_eval(polys[i], x_r)
            == 0
    &&& out == interpolated(
        updated_shares(participants, dealt_updates(participants, polys)),
        lagrange_basis(known_points(participants[0]), x_r),
        participants.len(),
    )
}

/// The share at `x_r` that the participants recover, with update
/// polynomials of `threshold` coefficients drawn from `rng`, one for each
/// participant, each vanishing at `x_r`.
pub fn recover_share_at_point(
    other_participants: &[PrivateDecryptionContextSimple],
    threshold: usize,
    x_r: &Scalar,
    rng: &mut StdRng,
) -> (out: G2Point)
    requires
        0 < threshold <= u32::MAX,
        other_participants@.len() > 0,
        participants_placed(other_participants@),
        other_participants@[0].public_decryption_contexts@.len() == other_participants@.len(),
    ensures
        exists|polys: Seq<Seq<nat>>| #[trigger]
            recovers_with(out@, other_participants@, polys, x_r@, threshold as nat),
{
    let polys = prepare_share_updates(other_participants, x_r, threshold, rng);
    let out = recover_share_with_polynomials(other_participants, polys.as_slice(), x_r);
    proof {
        let views = polynomial_views(polys@);
        assert forall|i: int| 0 <= i < views.len() implies (#[trigger] views[i]).len()
            == threshold && poly_eval(views[i], x_r@) == 0 by {
            assert(views[i] == scalar_views(polys@[i]@));
            assert(scalar_views(polys@[i]@).len() == polys@[i]@.len());
        }
        assert(recovers_with(out@, other_participants@, views, x_r@, threshold as nat));
    }
    let mut polys = polys;
    while polys.len() > 0
        decreases polys@.len(),
    {
        match polys.pop() {
            Some(p) => zeroize_polynomial(p),
            None => {},
        }
    }
    out
}

/// One update polynomial for every participant, of `threshold`
/// coefficients drawn from `rng`, each vanishing at `x_r`.
pub fn prepare_share_updates(
    participants: &[PrivateDecryptionContextSimple],
    x_r: &Scalar,
    threshold: usize,
    rng: &mut StdRng,
) -> (out: Vec<Vec<Scalar>>)
    requires
        0 < threshold <= u32::MAX,
    ensures
        out@.len() == participants@.len(),
        forall|i: int|
            0 <= i < out@.len() ==> (#[trigger] out@[i])@.len() == threshold && poly_eval(
                scalar_views(out@[i]@),
                x_r@,
            ) == 0,
{
    let mut out: Vec<Vec<Scalar>> = Vec::new();
    let mut i: usize = 0;
    while i < participants.len()
        invariant
            i <= participants@.len(),
            0 < threshold <= u32::MAX,
            out@.len() == i,
            forall|k: int|
                0 <= k < i ==> (#[trigger] out@[k])@.len() == threshold && poly_eval(
                    scalar_views(out@[k]@),
                    x_r@,
                ) == 0,
        decreases participants@.len() - i,
    {
        out.push(make_random_polynomial(threshold, x_r, rng));
        i += 1;
    }
    out
}

/// A private key share refreshed with the update polynomial `polynomial`:
/// the generator `h` multiplied by the polynomial's value at the domain
/// point is added to it.
pub fn refresh_private_key_share(
    h: &G2Point,
    domain_point: &Scalar,
    polynomial: &[Scalar],
    validator_private_key_share: &PrivateKeyShare,
) -> (out: PrivateKeyShare)
    ensures
        out@ == g2_sum(
            validator_private_key_share@,
            g2_scaled(h@, poly_eval(scalar_views(polynomial@), domain_point@)),
        ),
{
    let evaluated = evaluate_polynomial(polynomial, domain_point);
    let update = h.mul(&evaluated);
    evaluated.zeroize();
    PrivateKeyShare(validator_private_key_share.0.add(&update))
}

/// The sum of the share and the first `n` updates, in order.
pub open spec fn share_plus_updates(share: Seq<u8>, updates: Seq<Seq<u8>>, n: nat) -> Seq<u8>
    decreases n,
{
    if n == 0 {
        share
    } else {
        g2_sum(share_plus_updates(share, updates, (n - 1) as nat), updates[n - 1])
    }
}

/// A private key share with the updates of a recovery added.
pub fn update_share_for_recovery(private_key_share: &PrivateKeyShare, share_updates: &[G2Point]) -> (out:
    PrivateKeyShare)
    ensures
        out@ == share_plus_updates(private_key_share@, g2_views(share_updates@), share_updates@.len()),
{
    let ghost updates = g2_views(share_updates@);
    let mut acc = private_key_share.0.clone();
    let mut i: usize = 0;
    while i < share_updates.len()
        invariant
            i <= share_updates@.len(),
            updates == g2_views(share_updates@),
            acc@ == share_plus_updates(private_key_share@, updates, i as nat),
        decreases share_updates@.len() - i,
    {
        assert(updates[i as int] == share_updates@[i as int]@);
        acc = acc.add(&share_updates[i]);
        i += 1;
    }
    PrivateKeyShare(acc)
}

impl<T: Aggregate> PubliclyVerifiableSS<T> {
    /// The private key share of a validator: its blinded share multiplied
    /// by the inverse of its decryption key. `InvalidShareIndex` where the
    /// aggregate holds no such share, `ArithmeticError` where the key is
    /// zero.
    pub fn decrypt_private_key_share(&self, validator_decryption_key: &Scalar, validator_index: usize) -> (out:
        Result<PrivateKeyShare, Error>)
        ensures
            match out {
                Ok(z) => validator_index < self@.shares.len() && validator_decryption_key@ != 0 && z@
                    == unblinded(self@.shares[validator_index as int], validator_decryption_key@),
                Err(e) => if validator_index >= self@.shares.len() {
                    e == Error::InvalidShareIndex(crate::messages::clamped(validator_index as nat))
                } else {
                    e == Error::ArithmeticError && validator_decryption_key@ == 0
                },
            },
    {
        if validator_index >= self.shares.len() {
            let index = if validator_index > u32::MAX as usize {
                u32::MAX
            } else {
                validator_index as u32
            };
            return Err(Error::InvalidShareIndex(index));
        }
        assert(self@.shares[validator_index as int] == self.shares@[validator_index as int]@);
        match validator_decryption_key.inverse() {
            Some(inverse) => Ok(PrivateKeyShare(self.shares[validator_index].mul(&inverse))),
            None => Err(Error::ArithmeticError),
        }
    }

    /// A decryption share of the simple variant for the share of the
    /// validator at `validator_index`.
    pub fn make_decryption_share_simple(
        &self,
        ciphertext: &Ciphertext,
        aad: &[u8],
        validator_decryption_key: &Scalar,
        validator_index: usize,
    ) -> (out: Result<DecryptionShareSimple, Error>)
        ensures
            match out {
                Ok(share) => {
                    &&& validator_index < self@.shares.len()
                    &&& validator_decryption_key@ != 0
                    &&& header_verifies(crate::ciphertext::header_of(ciphertext@), aad@)
                    &&& share@ == simple_share_of(
                        ciphertext.commitment@,
                        unblinded(self@.shares[validator_index as int], validator_decryption_key@),
                        validator_decryption_key@,
                    )
                },
                Err(e) => if validator_index >= self@.shares.len() {
                    e == Error::InvalidShareIndex(crate::messages::clamped(validator_index as nat))
                } else if validator_decryption_key@ == 0 {
                    e == Error::ArithmeticError
                } else {
                    e == Error::CiphertextVerificationFailed && !header_verifies(
                        crate::ciphertext::header_of(ciphertext@),
                        aad@,
                    )
                },
            },
    {
        let private_key_share = match self.decrypt_private_key_share(
            validator_decryption_key,
            validator_index,
        ) {
            Ok(share) => share,
            Err(e) => {
                return Err(e);
            },
        };
        let header = match ciphertext.header() {
            Ok(header) => header,
            Err(e) => {
                return Err(e);
            },
        };
        DecryptionShareSimple::create(validator_decryption_key, &private_key_share, &header, aad)
    }

    /// A decryption share of the precomputed variant for the share of the
    /// validator at `validator_index`, with the Lagrange coefficient at
    /// that position over `domain_points`.
    pub fn make_decryption_share_simple_precomputed(
        &self,
        ciphertext: &Ciphertext,
        aad: &[u8],
        validator_decryption_key: &Scalar,
        validator_index: usize,
        domain_points: &[Scalar],
    ) -> (out: Result<DecryptionSharePrecomputed, Error>)
        requires
            validator_index < domain_points@.len(),
            validator_index <= u32::MAX,
        ensures
            match out {
                Ok(share) => {
                    &&& validator_index < self@.shares.len()
                    &&& validator_decryption_key@ != 0
                    &&& header_verifies(crate::ciphertext::header_of(ciphertext@), aad@)
                    &&& share@ == precomputed_share_of(
                        validator_index as u32,
                        ciphertext.commitment@,
                        unblinded(self@.shares[validator_index as int], validator_decryption_key@),
                        validator_decryption_key@,
                        lagrange_coefficient(scalar_views(domain_points@), validator_index as int, 0),
                    )
                },
                Err(e) => if validator_index >= self@.shares.len() {
                    e == Error::InvalidShareIndex(validator_index as u32)
                } else if validator_decryption_key@ == 0 {
                    e == Error::ArithmeticError
                } else {
                    e == Error::CiphertextVerificationFailed && !header_verifies(
                        crate::ciphertext::header_of(ciphertext@),
                        aad@,
                    )
                },
            },
    {
        let private_key_share = match self.decrypt_private_key_share(
            validator_decryption_key,
            validator_index,
        ) {
            Ok(share) => share,
            Err(e) => {
                return Err(e);
            },
        };
        let lagrange_coeffs = prepare_combine_simple(domain_points);
        assert(scalar_views(lagrange_coeffs@)[validator_index as int]
            == lagrange_coeffs@[validator_index as int]@);
        let header = match ciphertext.header() {
            Ok(header) => header,
            Err(e) => {
                return Err(e);
            },
        };
        DecryptionSharePrecomputed::create(
            validator_index as u32,
            validator_decryption_key,
            &private_key_share,
            &header,
            aad,
            &lagrange_coeffs[validator_index],
        )
    }

    /// A decryption share of the simple variant for the share of the
    /// validator at `validator_index`, refreshed with the update polynomial
    /// `polynomial`.
    pub fn refresh_decryption_share(
        &self,
        ciphertext: &Ciphertext,
        aad: &[u8],
        validator_decryption_key: &Scalar,
        validator_index: usize,
        polynomial: &[Scalar],
        dkg: &PubliclyVerifiableDkg,
    ) -> (out: Result<DecryptionShareSimple, Error>)
        ensures
            match out {
                Ok(share) => {
                    &&& validator_index < self@.shares.len()
                    &&& validator_index < dkg.validator_list().len()
                    &&& validator_decryption_key@ != 0
                    &&& header_verifies(crate::ciphertext::header_of(ciphertext@), aad@)
                    &&& share@ == simple_share_of(
                        ciphertext.commitment@,
                        g2_sum(
                            unblinded(
                                self@.shares[validator_index as int],
                                validator_decryption_key@,
                            ),
                            g2_scaled(
                                crate::curve::g2_generator(),
                                poly_eval(
                                    scalar_views(polynomial@),
                                    domain_point(dkg.order(), validator_index as nat),
                                ),
                            ),
                        ),
                        validator_decryption_key@,
                    )
                },
                Err(e) => if validator_index >= self@.shares.len() || validator_index
                    >= dkg.validator_list().len() {
                    e == Error::InvalidShareIndex(crate::messages::clamped(validator_index as nat))
                } else if validator_decryption_key@ == 0 {
                    e == Error::ArithmeticError
                } else {
                    e == Error::CiphertextVerificationFailed && !header_verifies(
                        crate::ciphertext::header_of(ciphertext@),
                        aad@,
                    )
                },
            },
    {
        dkg.check_consistent();
        assert(self@.shares.len() == self.shares@.len());
        if validator_index >= self.shares.len() || validator_index >= dkg.validators().len() {
            return Err(Error::InvalidShareIndex(crate::messages::clamp(validator_index)));
        }
        let validator_private_key_share = match self.decrypt_private_key_share(
            validator_decryption_key,
            validator_index,
        ) {
            Ok(share) => share,
            Err(e) => {
                return Err(e);
            },
        };
        let domain_point = match dkg.get_domain_point(validator_index as u32) {
            Ok(point) => point,
            Err(e) => {
                return Err(e);
            },
        };
        let h = G2Point::generator();
        let refreshed = refresh_private_key_share(
            &h,
            &domain_point,
            polynomial,
            &validator_private_key_share,
        );
        let header = match ciphertext.header() {
            Ok(header) => header,
            Err(e) => {
                return Err(e);
            },
        };
        DecryptionShareSimple::create(validator_decryption_key, &refreshed, &header, aad)
    }

    /// The private key share of the validator at `validator_index` with the
    /// updates of a recovery added.
    pub fn update_private_key_share_for_recovery(
        &self,
        validator_decryption_key: &Scalar,
        validator_index: usize,
        share_updates: &[G2Point],
    ) -> (out: Result<PrivateKeyShare, Error>)
        ensures
            match out {
                Ok(z) => validator_index < self@.shares.len() && validator_decryption_key@ != 0 && z@
                    == share_plus_updates(
                    unblinded(self@.shares[validator_index as int], validator_decryption_key@),
                    g2_views(share_updates@),
                    share_updates@.len(),
                ),
                Err(e) => if validator_index >= self@.shares.len() {
                    e == Error::InvalidShareIndex(crate::messages::clamped(validator_index as nat))
                } else {
                    e == Error::ArithmeticError && validator_decryption_key@ == 0
                },
            },
    {
        match self.decrypt_private_key_share(validator_decryption_key, validator_index) {
            Ok(share) => Ok(update_share_for_recovery(&share, share_updates)),
            Err(e) => Err(e),
        }
    }
}

} // verus!
