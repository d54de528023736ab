//! The session of a key generation: its parameters, its validators ordered
//! by share index, and the evaluation domain whose first elements are the
//! points at which the validators' shares are dealt.

use vstd::prelude::*;
use vstd::set_lib::{lemma_int_range, lemma_len_subset, lemma_subset_equality, set_int_range};
use crate::domain::{domain_elements, domain_order, domain_points, domain_size, domain_size_for};
use crate::error::Error;
use crate::scalar::{scalar_views, Scalar};
use crate::validator::{
    assert_no_share_duplicates,
    distinct_share_indices,
    first_repeat,
    occurs_before,
    validator_views,
    Validator,
    ValidatorView,
};

verus! {

/// The parameters of a session: its identifier, the number of shares that
/// decrypt, and the number of shares that are dealt.
#[derive(Clone, Copy, Debug, PartialEq, Eq, Structural)]
pub struct DkgParams {
    tau: u32,
    security_threshold: u32,
    shares_num: u32,
}

/// Whether a threshold and a number of shares go together:
/// `0 < threshold <= shares`.
pub open spec fn valid_parameters(security_threshold: u32, shares_num: u32) -> bool {
    0 < security_threshold <= shares_num
}

impl DkgParams {
    #[verifier::type_invariant]
    spec fn well_formed(self) -> bool {
        valid_parameters(self.security_threshold, self.shares_num)
    }

    /// The session identifier.
    pub closed spec fn spec_tau(self) -> u32 {
        self.tau
    }

    /// The number of shares that decrypt.
    pub closed spec fn threshold(self) -> u32 {
        self.security_threshold
    }

    /// The number of shares dealt.
    pub closed spec fn shares(self) -> u32 {
        self.shares_num
    }

    /// The parameters, if `0 < security_threshold <= shares_num`; else
    /// `InvalidDkgParameters` with the number of shares and the threshold.
    pub fn new(tau: u32, security_threshold: u32, shares_num: u32) -> (out: Result<DkgParams, Error>)
        ensures
            match out {
                Ok(p) => valid_parameters(security_threshold, shares_num) && p.spec_tau() == tau
                    && p.threshold() == security_threshold && p.shares() == shares_num,
                Err(e) => !valid_parameters(security_threshold, shares_num) && e
                    == Error::InvalidDkgParameters(shares_num, security_threshold),
            },
    {
        if shares_num < security_threshold || shares_num == 0 || security_threshold == 0 {
            return Err(Error::InvalidDkgParameters(shares_num, security_threshold));
        }
        Ok(DkgParams { tau, security_threshold, shares_num })
    }

    /// The session identifier.
    pub fn tau(&self) -> (out: u32)
        ensures
            out == self.spec_tau(),
    {
        self.tau
    }

    /// The number of shares that decrypt; it is positive and at most the
    /// number of shares.
    pub fn security_threshold(&self) -> (out: u32)
        ensures
            out == self.threshold(),
            valid_parameters(self.threshold(), self.shares()),
    {
        proof {
            use_type_invariant(self);
        }
        self.security_threshold
    }

    /// The number of shares dealt.
    pub fn shares_num(&self) -> (out: u32)
        ensures
            out == self.shares(),
            valid_parameters(self.threshold(), self.shares()),
    {
        proof {
            use_type_invariant(self);
        }
        self.shares_num
    }
}

/// Whether some validator holds the share index `index`.
pub open spec fn holds_index(vs: Seq<ValidatorView>, index: u32) -> bool {
    exists|j: int| 0 <= j < vs.len() && (#[trigger] vs[j]).share_index == index
}

/// Whether the `i`-th validator is the first whose share index is not below
/// the number of validators.
pub open spec fn first_out_of_range(vs: Seq<ValidatorView>, i: int) -> bool {
    &&& 0 <= i < vs.len()
    &&& vs[i].share_index >= vs.len()
    &&& forall|k: int| 0 <= k < i ==> (#[trigger] vs[k]).share_index < vs.len()
}

/// Whether the share indices are `0, 1, ..` up to the number of validators,
/// each held once.
pub open spec fn contiguous_share_indices(vs: Seq<ValidatorView>) -> bool {
    &&& distinct_share_indices(vs)
    &&& forall|i: int| 0 <= i < vs.len() ==> (#[trigger] vs[i]).share_index < vs.len()
}

/// Whether the validators are in the order of their share indices, the
/// `i`-th holding index `i`.
pub open spec fn ordered_by_index(vs: Seq<ValidatorView>) -> bool {
    forall|i: int| 0 <= i < vs.len() ==> (#[trigger] vs[i]).share_index == i
}

/// Whether a session is made from these validators for this participant.
pub open spec fn session_accepts(vs: Seq<ValidatorView>, me: ValidatorView) -> bool {
    &&& contiguous_share_indices(vs)
    &&& vs.len() <= u32::MAX
    &&& domain_size(vs.len()) <= usize::MAX
    &&& exists|j: int|
        0 <= j < vs.len() && (#[trigger] vs[j]).share_index == me.share_index && vs[j].public_key
            == me.public_key
}

/// Whether `e` is the error with which a session is refused. The checks come
/// in this order: a repeated share index; more validators than the field's
/// domains or the machine can hold; a share index out of range; the
/// participant's index missing from the set; its public key differing from
/// the one registered under its index.
pub open spec fn session_rejects(
    vs: Seq<ValidatorView>,
    me: ValidatorView,
    params: DkgParams,
    e: Error,
) -> bool {
    if !distinct_share_indices(vs) {
        exists|i: int| first_repeat(vs, i) && e == Error::DuplicatedShareIndex(vs[i].share_index)
    } else if vs.len() > u32::MAX || domain_size(vs.len()) > usize::MAX {
        e == Error::InvalidDkgParameters(params.shares(), params.threshold())
    } else if !contiguous_share_indices(vs) {
        exists|i: int| first_out_of_range(vs, i) && e == Error::InvalidShareIndex(vs[i].share_index)
    } else if !holds_index(vs, me.share_index) {
        e matches Error::DealerNotInValidatorSet(a) && a@ == me.address
    } else {
        &&& e == Error::ValidatorPublicKeyMismatch
        &&& !session_accepts(vs, me)
    }
}

/// Distinct share indices below the number of validators fill every index.
pub proof fn lemma_contiguous_indices_are_held(vs: Seq<ValidatorView>, index: u32)
    requires
        contiguous_share_indices(vs),
        index < vs.len(),
    ensures
        holds_index(vs, index),
{
    let indices = Seq::new(vs.len(), |i: int| vs[i].share_index as int);
    assert(indices.no_duplicates()) by {
        assert forall|i: int, j: int|
            0 <= i < indices.len() && 0 <= j < indices.len() && i != j implies indices[i]
            != indices[j] by {
            if i < j {
                assert(!occurs_before(vs, j));
                assert(vs[i].share_index != vs[j].share_index);
            } else {
                assert(!occurs_before(vs, i));
                assert(vs[j].share_index != vs[i].share_index);
            }
        }
    }
    indices.unique_seq_to_set();
    let range = set_int_range(0, vs.len() as int);
    lemma_int_range(0, vs.len() as int);
    assert(indices.to_set().subset_of(range)) by {
        assert forall|x: int| indices.to_set().contains(x) implies range.contains(x) by {
            let i = choose|i: int| 0 <= i < indices.len() && indices[i] == x;
            assert(vs[i].share_index < vs.len());
        }
    }
    lemma_len_subset(indices.to_set(), range);
    lemma_subset_equality(indices.to_set(), range);
    assert(range.contains(index as int));
    assert(indices.to_set().contains(index as int));
    let j = choose|j: int| 0 <= j < indices.len() && indices[j] == index as int;
    assert(vs[j].share_index == index);
}

/// The position of the validator that holds `index`, if any does.
pub fn find_by_index(validators: &[Validator], index: u32) -> (out: Option<usize>)
    ensures
        match out {
            Some(j) => j < validators@.len() && validators@[j as int].share_index == index,
            None => !holds_index(validator_views(validators@), index),
        },
{
    let ghost vs = validator_views(validators@);
    let mut j: usize = 0;
    while j < validators.len()
        invariant
            j <= validators@.len(),
            vs == validator_views(validators@),
            forall|k: int| 0 <= k < j ==> (#[trigger] vs[k]).share_index != index,
        decreases validators@.len() - j,
    {
        if validators[j].share_index == index {
            return Some(j);
        }
        j += 1;
    }
    None
}

/// The session of one participant: the parameters, the validators in the
/// order of their share indices, the evaluation domain, and the participant
/// itself. It does not change after it is made.
#[derive(Debug)]
pub struct PubliclyVerifiableDkg {
    dkg_params: DkgParams,
    validators: Vec<Validator>,
    domain_size: usize,
    domain_points: Vec<Scalar>,
    me: Validator,
}

impl Clone for PubliclyVerifiableDkg {
    fn clone(&self) -> (out: Self)
        ensures
            out.validator_list() == self.validator_list(),
            out.params() == self.params(),
            out.own() == self.own(),
            out.order() == self.order(),
    {
        proof {
            use_type_invariant(self);
        }
        let mut validators: Vec<Validator> = Vec::new();
        let mut i: usize = 0;
        while i < self.validators.len()
            invariant
                i <= self.validators@.len(),
                validators@.len() == i,
                forall|k: int| 0 <= k < i ==> (#[trigger] validators@[k])@ == self.validators@[k]@,
            decreases self.validators@.len() - i,
        {
            validators.push(self.validators[i].clone());
            i += 1;
        }
        let mut domain_points: Vec<Scalar> = Vec::new();
        let mut i: usize = 0;
        while i < self.domain_points.len()
            invariant
                i <= self.domain_points@.len(),
                domain_points@.len() == i,
                forall|k: int| 0 <= k < i ==> (#[trigger] domain_points@[k])@ == self.domain_points@[k]@,
            decreases self.domain_points@.len() - i,
        {
            domain_points.push(self.domain_points[i].clone());
            i += 1;
        }
        assert(validator_views(validators@) =~= validator_views(self.validators@));
        assert(scalar_views(domain_points@) =~= scalar_views(self.domain_points@));
        PubliclyVerifiableDkg {
            dkg_params: self.dkg_params,
            validators,
            domain_size: self.domain_size,
            domain_points,
            me: self.me.clone(),
        }
    }
}

impl PubliclyVerifiableDkg {
    #[verifier::type_invariant]
    spec fn well_formed(self) -> bool {
        &&& self.validators@.len() <= u32::MAX
        &&& ordered_by_index(validator_views(self.validators@))
        &&& domain_order(self.domain_size as nat)
        &&& self.domain_size == domain_size(self.validators@.len())
        &&& scalar_views(self.domain_points@) == domain_points(
            self.domain_size as nat,
            self.validators@.len(),
        )
        &&& self.me.share_index < self.validators@.len()
        &&& self.validators@[self.me.share_index as int].public_key@ == self.me.public_key@
    }

    /// The validators, the `i`-th holding share index `i`.
    pub closed spec fn validator_list(&self) -> Seq<ValidatorView> {
        validator_views(self.validators@)
    }

    /// The parameters.
    pub closed spec fn params(&self) -> DkgParams {
        self.dkg_params
    }

    /// The participant whose session this is.
    pub closed spec fn own(&self) -> ValidatorView {
        self.me@
    }

    /// The order of the evaluation domain.
    pub closed spec fn order(&self) -> nat {
        self.domain_size as nat
    }

    /// What holds of every session.
    pub open spec fn consistent(&self) -> bool {
        &&& self.validator_list().len() <= u32::MAX
        &&& ordered_by_index(self.validator_list())
        &&& domain_order(self.order())
        &&& self.order() == domain_size(self.validator_list().len())
        &&& self.order() <= usize::MAX
        &&& self.own().share_index < self.validator_list().len()
        &&& self.validator_list()[self.own().share_index as int].public_key == self.own().public_key
    }

    /// A session for the participant `me` among `validators`.
    ///
    /// The validators may come in any order; the session holds them by share
    /// index, which must be `0, 1, ..` up to their number, each held once.
    pub fn new(validators: &[Validator], dkg_params: &DkgParams, me: &Validator) -> (out: Result<
        PubliclyVerifiableDkg,
        Error,
    >)
        ensures
            out is Ok <==> session_accepts(validator_views(validators@), me@),
            match out {
                Ok(dkg) => {
                    &&& dkg.consistent()
                    &&& dkg.params() == *dkg_params
                    &&& dkg.own() == me@
                    &&& dkg.validator_list().len() == validators@.len()
                    &&& forall|j: int|
                        0 <= j < validators@.len() ==> dkg.validator_list()[(
                        #[trigger] validators@[j]).share_index as int] == validators@[j]@
                },
                Err(e) => session_rejects(validator_views(validators@), me@, *dkg_params, e),
            },
    {
        let ghost vs = validator_views(validators@);
        match assert_no_share_duplicates(validators) {
            Err(e) => {
                return Err(e);
            },
            Ok(_) => {},
        }
        let n = validators.len();
        if n > u32::MAX as usize {
            return Err(Error::InvalidDkgParameters(dkg_params.shares_num, dkg_params.security_threshold));
        }
        let size = domain_size_for(n as u32);
        if size > usize::MAX as u64 {
            return Err(Error::InvalidDkgParameters(dkg_params.shares_num, dkg_params.security_threshold));
        }
        let mut i: usize = 0;
        while i < n
            invariant
                i <= n == validators@.len(),
                n <= u32::MAX,
                size == domain_size(n as nat),
                size <= usize::MAX,
                vs == validator_views(validators@),
                distinct_share_indices(vs),
                forall|k: int| 0 <= k < i ==> (#[trigger] vs[k]).share_index < n,
            decreases n - i,
        {
            if validators[i].share_index as usize >= n {
                assert(vs[i as int] == validators@[i as int]@);
                assert(vs.len() == n);
                assert(first_out_of_range(vs, i as int));
                assert(!contiguous_share_indices(vs));
                return Err(Error::InvalidShareIndex(validators[i].share_index));
            }
            i += 1;
        }
        assert(contiguous_share_indices(vs));
        let mut ordered: Vec<Validator> = Vec::new();
        let mut target: usize = 0;
        while target < n
            invariant
                target <= n == validators@.len(),
                n <= u32::MAX,
                vs == validator_views(validators@),
                contiguous_share_indices(vs),
                ordered@.len() == target,
                forall|k: int| 0 <= k < target ==> (#[trigger] ordered@[k]).share_index == k,
                forall|k: int|
                    0 <= k < target ==> exists|j: int|
                        0 <= j < n && vs[j] == (#[trigger] ordered@[k])@,
            decreases n - target,
        {
            match find_by_index(validators, target as u32) {
                Some(j) => {
                    ordered.push(validators[j].clone());
                    assert(vs[j as int] == ordered@[target as int]@);
                },
                None => {
                    proof {
                        lemma_contiguous_indices_are_held(vs, target as u32);
                    }
                    return Err(Error::InvalidShareIndex(target as u32));
                },
            }
            target += 1;
        }
        let ghost sorted = validator_views(ordered@);
        assert(ordered_by_index(sorted));
        assert forall|j: int| 0 <= j < n implies sorted[(#[trigger] validators@[j]).share_index as int]
            == validators@[j]@ by {
            let k = validators@[j].share_index as int;
            assert(vs[j].share_index < n);
            let j2 = choose|j2: int| 0 <= j2 < n && vs[j2] == ordered@[k]@;
            assert(vs[j2].share_index == k);
            if j2 != j {
                if j2 < j {
                    assert(occurs_before(vs, j));
                } else {
                    assert(vs[j].share_index == vs[j2].share_index);
                    assert(occurs_before(vs, j2));
                }
            }
        }
        let domain_points = domain_elements(size as usize, n);
        if me.share_index as usize >= n {
            assert(!holds_index(vs, me.share_index));
            return Err(Error::DealerNotInValidatorSet(me.address.to_string()));
        }
        proof {
            lemma_contiguous_indices_are_held(vs, me.share_index);
        }
        let registered = &ordered[me.share_index as usize];
        let ghost holder = choose|j: int| 0 <= j < n && vs[j] == ordered@[me.share_index as int]@;
        if !registered.public_key.equals(&me.public_key) {
            assert(!session_accepts(vs, me@)) by {
                if session_accepts(vs, me@) {
                    let j = choose|j: int|
                        0 <= j < vs.len() && (#[trigger] vs[j]).share_index == me.share_index
                            && vs[j].public_key == me@.public_key;
                    assert(sorted[validators@[j].share_index as int] == validators@[j]@);
                }
            }
            return Err(Error::ValidatorPublicKeyMismatch);
        }
        assert(vs[holder].share_index == me.share_index && vs[holder].public_key == me@.public_key);
        Ok(
            PubliclyVerifiableDkg {
                dkg_params: *dkg_params,
                validators: ordered,
                domain_size: size as usize,
                domain_points,
                me: me.clone(),
            },
        )
    }

    /// What holds of every session.
    pub fn check_consistent(&self)
        ensures
            self.consistent(),
    {
        proof {
            use_type_invariant(self);
        }
    }

    /// The parameters.
    pub fn dkg_params(&self) -> (out: DkgParams)
        ensures
            out == self.params(),
    {
        self.dkg_params
    }

    /// The participant whose session this is.
    pub fn me(&self) -> (out: &Validator)
        ensures
            out@ == self.own(),
    {
        &self.me
    }

    /// The validators, the `i`-th holding share index `i`.
    pub fn validators(&self) -> (out: &Vec<Validator>)
        ensures
            validator_views(out@) == self.validator_list(),
            self.consistent(),
    {
        proof {
            use_type_invariant(self);
        }
        &self.validators
    }

    /// The order of the evaluation domain: the smallest power of two that
    /// is at least the number of validators.
    pub fn domain_size(&self) -> (out: usize)
        ensures
            out == self.order(),
            self.consistent(),
    {
        proof {
            use_type_invariant(self);
        }
        self.domain_size
    }

    /// The validator with the given public key, if there is one: the first
    /// in the order of share indices.
    pub fn get_validator(&self, public_key: &crate::validator::PublicKey) -> (out: Option<&Validator>)
        ensures
            match out {
                Some(v) => exists|i: int|
                    {
                        &&& 0 <= i < self.validator_list().len()
                        &&& self.validator_list()[i] == v@
                        &&& v@.public_key == public_key@
                        &&& forall|k: int|
                            0 <= k < i ==> (#[trigger] self.validator_list()[k]).public_key
                                != public_key@
                    },
                None => forall|k: int|
                    0 <= k < self.validator_list().len() ==> (
                    #[trigger] self.validator_list()[k]).public_key != public_key@,
            },
    {
        let mut i: usize = 0;
        while i < self.validators.len()
            invariant
                i <= self.validators@.len(),
                forall|k: int|
                    0 <= k < i ==> (#[trigger] self.validator_list()[k]).public_key != public_key@,
            decreases self.validators@.len() - i,
        {
            if self.validators[i].public_key.equals(public_key) {
                assert(self.validator_list()[i as int] == self.validators@[i as int]@);
                return Some(&self.validators[i]);
            }
            assert(self.validator_list()[i as int] == self.validators@[i as int]@);
            i += 1;
        }
        None
    }

    /// The domain point of a share index; `InvalidShareIndex` where no
    /// validator holds it.
    pub fn get_domain_point(&self, share_index: u32) -> (out: Result<Scalar, Error>)
        ensures
            match out {
                Ok(x) => share_index < self.validator_list().len() && x@ == crate::domain::domain_point(
                    self.order(),
                    share_index as nat,
                ),
                Err(e) => share_index >= self.validator_list().len() && e
                    == Error::InvalidShareIndex(share_index),
            },
    {
        proof {
            use_type_invariant(self);
        }
        if share_index as usize >= self.domain_points.len() {
            assert(scalar_views(self.domain_points@).len() == self.domain_points@.len());
            return Err(Error::InvalidShareIndex(share_index));
        }
        assert(scalar_views(self.domain_points@).len() == self.domain_points@.len());
        assert(scalar_views(self.domain_points@)[share_index as int]
            == self.domain_points@[share_index as int]@);
        Ok(self.domain_points[share_index as usize].clone())
    }

    /// The domain points of the validators, in the order of share indices.
    pub fn domain_points(&self) -> (out: Vec<Scalar>)
        ensures
            scalar_views(out@) == domain_points(self.order(), self.validator_list().len()),
            out@.len() == self.validator_list().len(),
    {
        proof {
            use_type_invariant(self);
        }
        let mut out: Vec<Scalar> = Vec::new();
        let mut i: usize = 0;
        assert(scalar_views(self.domain_points@).len() == self.domain_points@.len());
        while i < self.domain_points.len()
            invariant
                i <= self.domain_points@.len(),
                out@.len() == i,
                forall|k: int| 0 <= k < i ==> (#[trigger] out@[k])@ == self.domain_points@[k]@,
            decreases self.domain_points@.len() - i,
        {
            out.push(self.domain_points[i].clone());
            i += 1;
        }
        assert(scalar_views(out@) =~= scalar_views(self.domain_points@));
        out
    }
}

} // verus!
