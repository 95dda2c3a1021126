//! The append-only transcript of a ceremony shard and the verification of a
//! candidate contribution against it.
use vstd::prelude::*;
use crate::engine::Engine;
use crate::group::{
    all_one_g1, all_one_g2, g1_generator, g2_generator, g2_identity, prefix_g1, BlsSignature, Powers,
    G1, G2,
};

verus! {

/// Why a contribution was rejected.
#[derive(Clone, Copy, Debug, PartialEq, Eq, Structural)]
pub enum CeremonyError {
    /// The number of g1 powers differs: (expected, found).
    UnexpectedNumG1Powers(usize, usize),
    /// The number of g2 powers differs: (expected, found).
    UnexpectedNumG2Powers(usize, usize),
    /// A g1 power is malformed or outside the subgroup.
    InvalidG1Power,
    /// A g2 power is malformed or outside the subgroup.
    InvalidG2Power,
    /// The public key is malformed or outside the subgroup.
    InvalidPubkey,
    /// The public key is the identity, which adds no entropy.
    ZeroPubkey,
    /// The new first power is not the old one scaled by the committed secret.
    PubkeyPairingFailed,
    /// The g1 powers do not form one geometric progression.
    G1PairingFailed,
    /// The g1 powers and the g2 powers disagree.
    G2PairingFailed,
}

/// One entry per accepted contribution, after a sentinel entry.
#[derive(Clone, Debug, PartialEq, Eq)]
pub struct Witness {
    /// The first power after each step.
    pub products: Vec<G1>,
    /// Each contributor's public key.
    pub pubkeys: Vec<G2>,
    /// A signature per step.
    pub signatures: Vec<BlsSignature>,
}

/// A participant's proposed update to the powers.
#[derive(Clone, Debug, PartialEq, Eq)]
pub struct Contribution {
    pub powers: Powers,
    pub pot_pubkey: G2,
    pub bls_signature: BlsSignature,
}

/// The powers of a ceremony shard and the record of how they came to be.
#[derive(Clone, Debug, PartialEq, Eq)]
pub struct Transcript {
    pub powers: Powers,
    pub witness: Witness,
}

/// What verifying `c` against the powers `prior` yields with engine `E`: the
/// first check that fails, in order, or success.
pub open spec fn verify_result<E: Engine>(prior: Powers, c: Contribution) -> Result<(), CeremonyError> {
    let g1 = c.powers.g1@;
    let g2 = c.powers.g2@;
    if prior.g1@.len() != g1.len() {
        Err(CeremonyError::UnexpectedNumG1Powers(prior.g1@.len() as usize, g1.len() as usize))
    } else if prior.g2@.len() != g2.len() {
        Err(CeremonyError::UnexpectedNumG2Powers(prior.g2@.len() as usize, g2.len() as usize))
    } else if !(forall|i: int| 0 <= i < g1.len() ==> E::g1_valid(#[trigger] g1[i])) {
        Err(CeremonyError::InvalidG1Power)
    } else if !(forall|i: int| 0 <= i < g2.len() ==> E::g2_valid(#[trigger] g2[i])) {
        Err(CeremonyError::InvalidG2Power)
    } else if !E::g2_valid(c.pot_pubkey) {
        Err(CeremonyError::InvalidPubkey)
    } else if c.pot_pubkey.bytes@ == g2_identity() {
        Err(CeremonyError::ZeroPubkey)
    } else if !E::pubkey_holds(g1[1], prior.g1@[1], c.pot_pubkey) {
        Err(CeremonyError::PubkeyPairingFailed)
    } else if !E::g1_chain_holds(g1, g2[1]) {
        Err(CeremonyError::G1PairingFailed)
    } else if !E::cross_holds(g1.subrange(0, g2.len() as int), g2) {
        Err(CeremonyError::G2PairingFailed)
    } else {
        Ok(())
    }
}

/// `t2` is `t1` with `c` appended: its first power, public key and signature
/// close the witness logs, and its powers are the current ones.
pub open spec fn appended(t1: Transcript, t2: Transcript, c: Contribution) -> bool {
    &&& t2.powers == c.powers
    &&& t2.witness.products@ == t1.witness.products@.push(c.powers.g1@[1])
    &&& t2.witness.pubkeys@ == t1.witness.pubkeys@.push(c.pot_pubkey)
    &&& t2.witness.signatures@ == t1.witness.signatures@.push(c.bls_signature)
}

impl Transcript {
    /// Shard sizes hold (`n1 >= n2 >= 2`) and the three witness logs run in
    /// step, each with its sentinel.
    pub open spec fn wf(&self) -> bool {
        &&& self.powers.g1@.len() >= self.powers.g2@.len()
        &&& self.powers.g2@.len() >= 2
        &&& self.witness.products@.len() >= 1
        &&& self.witness.products@.len() == self.witness.pubkeys@.len()
        &&& self.witness.pubkeys@.len() == self.witness.signatures@.len()
    }

    /// The number of accepted contributions.
    pub open spec fn participants(&self) -> int {
        self.witness.pubkeys@.len() - 1
    }

    /// A transcript of a fresh shard: all powers are the generator, and the
    /// witness holds only its sentinel entry.
    #[must_use]
    pub fn new(num_g1: usize, num_g2: usize) -> (r: Transcript)
        requires
            num_g1 >= 2,
            num_g2 >= 2,
            num_g1 >= num_g2,
        ensures
            r.wf(),
            r.powers.g1@.len() == num_g1,
            r.powers.g2@.len() == num_g2,
            all_one_g1(r.powers.g1@),
            all_one_g2(r.powers.g2@),
            r.witness.products@.len() == 1,
            r.witness.products@[0].bytes@ == g1_generator(),
            r.witness.pubkeys@.len() == 1,
            r.witness.pubkeys@[0].bytes@ == g2_generator(),
            r.witness.signatures@.len() == 1,
            r.witness.signatures@[0].bytes@ == Seq::<u8>::empty(),
            r.participants() == 0,
    {
        let mut products: Vec<G1> = Vec::new();
        products.push(G1::one());
        let mut pubkeys: Vec<G2> = Vec::new();
        pubkeys.push(G2::one());
        let mut signatures: Vec<BlsSignature> = Vec::new();
        signatures.push(BlsSignature::empty());
        Transcript {
            powers: Powers::new(num_g1, num_g2),
            witness: Witness { products, pubkeys, signatures },
        }
    }

    /// A transcript from its parts, where they are well formed: the shard
    /// sizes hold and the witness logs have one sentinel entry and equal
    /// lengths.
    pub fn from_parts(powers: Powers, witness: Witness) -> (r: Option<Transcript>)
        ensures
            r is Some <==> (Transcript { powers, witness }).wf(),
            r matches Some(t) ==> t == (Transcript { powers, witness }),
    {
        let n1 = powers.g1.len();
        let n2 = powers.g2.len();
        let n = witness.products.len();
        if n1 >= n2 && n2 >= 2 && n >= 1 && witness.pubkeys.len() == n && witness.signatures.len() == n {
            Some(Transcript { powers, witness })
        } else {
            None
        }
    }

    /// The number of participants that contributed to this transcript.
    #[must_use]
    pub fn num_participants(&self) -> (r: usize)
        requires
            self.wf(),
        ensures
            r == self.participants(),
    {
        self.witness.pubkeys.len() - 1
    }

    /// True if there is at least one contribution.
    #[must_use]
    pub fn has_entropy(&self) -> (r: bool)
        requires
            self.wf(),
        ensures
            r == (self.participants() > 0),
    {
        self.num_participants() > 0
    }

    /// The template of a new contribution: a copy of the current powers, the
    /// generator as public key and the empty signature.
    #[must_use]
    pub fn contribution(&self) -> (r: Contribution)
        ensures
            r.powers.g1@ == self.powers.g1@,
            r.powers.g2@ == self.powers.g2@,
            r.pot_pubkey.bytes@ == g2_generator(),
            r.bls_signature.bytes@ == Seq::<u8>::empty(),
    {
        Contribution {
            powers: self.powers.duplicate(),
            pot_pubkey: G2::one(),
            bls_signature: BlsSignature::empty(),
        }
    }

    /// Decides whether `contribution` extends these powers by exactly one
    /// secret factor: shape, point validity, a non-identity public key, then
    /// the three pairing checks, stopping at the first that fails.
    pub fn verify<E: Engine>(&self, contribution: &Contribution) -> (r: Result<(), CeremonyError>)
        requires
            self.wf(),
        ensures
            r == verify_result::<E>(self.powers, *contribution),
    {
        let n1 = self.powers.g1.len();
        let n2 = self.powers.g2.len();
        let g1 = &contribution.powers.g1;
        let g2 = &contribution.powers.g2;
        if n1 != g1.len() {
            return Err(CeremonyError::UnexpectedNumG1Powers(n1, g1.len()));
        }
        if n2 != g2.len() {
            return Err(CeremonyError::UnexpectedNumG2Powers(n2, g2.len()));
        }
        if !E::validate_g1(g1) {
            return Err(CeremonyError::InvalidG1Power);
        }
        if !E::validate_g2(g2) {
            return Err(CeremonyError::InvalidG2Power);
        }
        if !E::validate_pubkey(contribution.pot_pubkey) {
            return Err(CeremonyError::InvalidPubkey);
        }
        if contribution.pot_pubkey.is_zero() {
            return Err(CeremonyError::ZeroPubkey);
        }
        if !E::verify_pubkey(g1[1], self.powers.g1[1], contribution.pot_pubkey) {
            return Err(CeremonyError::PubkeyPairingFailed);
        }
        if !E::verify_g1(g1, g2[1]) {
            return Err(CeremonyError::G1PairingFailed);
        }
        let overlap = prefix_g1(g1, g2.len());
        if !E::verify_g2(&overlap, g2) {
            return Err(CeremonyError::G2PairingFailed);
        }
        Ok(())
    }

    /// Appends a verified contribution: its first power, public key and
    /// signature join the witness, and its powers replace the current ones.
    pub fn add(&mut self, contribution: Contribution)
        requires
            old(self).wf(),
            contribution.powers.g1@.len() == old(self).powers.g1@.len(),
            contribution.powers.g2@.len() == old(self).powers.g2@.len(),
        ensures
            final(self).wf(),
            appended(*old(self), *final(self), contribution),
            final(self).participants() == old(self).participants() + 1,
    {
        self.witness.products.push(contribution.powers.g1[1]);
        self.witness.pubkeys.push(contribution.pot_pubkey);
        self.witness.signatures.push(contribution.bls_signature);
        self.powers = contribution.powers;
    }
}

/// Appending a contribution to a well-formed transcript adds exactly one
/// participant and exactly one entry to each witness log, which stay of equal
/// length.
pub proof fn lemma_append_grows_by_one(t1: Transcript, t2: Transcript, c: Contribution)
    requires
        t1.wf(),
        c.powers.g1@.len() == t1.powers.g1@.len(),
        c.powers.g2@.len() == t1.powers.g2@.len(),
        appended(t1, t2, c),
    ensures
        t2.wf(),
        t2.participants() == t1.participants() + 1,
        t2.witness.products@.len() == t1.witness.products@.len() + 1,
        t2.witness.pubkeys@.len() == t1.witness.pubkeys@.len() + 1,
        t2.witness.signatures@.len() == t1.witness.signatures@.len() + 1,
{
}

/// Two contributions appended one after the other leave their witness
/// entries in that order: the first one's entries come before the second
/// one's, and the earlier entries stay as they were.
pub proof fn lemma_append_order(t0: Transcript, t1: Transcript, t2: Transcript, c1: Contribution, c2: Contribution)
    requires
        appended(t0, t1, c1),
        appended(t1, t2, c2),
    ensures
        t2.witness.products@ == t0.witness.products@ + seq![c1.powers.g1@[1], c2.powers.g1@[1]],
        t2.witness.pubkeys@ == t0.witness.pubkeys@ + seq![c1.pot_pubkey, c2.pot_pubkey],
        t2.witness.signatures@ == t0.witness.signatures@ + seq![c1.bls_signature, c2.bls_signature],
        t2.powers == c2.powers,
{
    assert(t2.witness.products@ =~= t0.witness.products@ + seq![c1.powers.g1@[1], c2.powers.g1@[1]]);
    assert(t2.witness.pubkeys@ =~= t0.witness.pubkeys@ + seq![c1.pot_pubkey, c2.pot_pubkey]);
    assert(t2.witness.signatures@ =~= t0.witness.signatures@ + seq![c1.bls_signature, c2.bls_signature]);
}

/// Whatever the engine, a contribution that would be accepted is rejected
/// for its public key alone once that key is set to the identity.
pub proof fn lemma_zeroed_pubkey_rejected<E: Engine>(prior: Powers, c: Contribution, zeroed: Contribution)
    requires
        verify_result::<E>(prior, c) is Ok,
        zeroed.powers == c.powers,
        zeroed.pot_pubkey.bytes@ == g2_identity(),
    ensures
        verify_result::<E>(prior, zeroed) == Err::<(), CeremonyError>(CeremonyError::ZeroPubkey),
{
    E::lemma_identity_valid(zeroed.pot_pubkey);
}

} // verus!
