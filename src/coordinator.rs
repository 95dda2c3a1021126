//! One contribution cycle of a shard: admission, verification, and the
//! append that follows acceptance.
use vstd::prelude::*;
use crate::engine::Engine;
use crate::group::{all_one_g1, all_one_g2, g1_generator, g2_generator};
use crate::lobby::{has_id, index_of, is_active_id, leave, Lobby, LobbyError, Session, SessionState};
use crate::transcript::{appended, verify_result, CeremonyError, Contribution, Transcript};

verus! {

/// Why a submission was refused.
#[derive(Clone, Copy, Debug, PartialEq, Eq, Structural)]
pub enum SubmitError {
    /// The lobby refused it: the submitter holds no active session.
    Admission(LobbyError),
    /// The verification rejected the contribution.
    Rejected(CeremonyError),
}

/// A ceremony shard: its transcript, its lobby, and who has contributed.
pub struct Ceremony {
    pub transcript: Transcript,
    pub lobby: Lobby,
    /// The participants whose contributions were accepted, in order.
    pub contributors: Vec<u64>,
    /// Whether a participant may contribute more than once.
    pub multi_contribution: bool,
}

impl Ceremony {
    /// The transcript and the lobby are well formed.
    pub open spec fn wf(&self) -> bool {
        self.transcript.wf() && self.lobby.wf()
    }

    /// A fresh shard of the given sizes with an empty lobby.
    pub fn new(num_g1: usize, num_g2: usize, timeout: u64, requeue: bool, multi_contribution: bool) -> (r: Ceremony)
        requires
            num_g1 >= 2,
            num_g2 >= 2,
            num_g1 >= num_g2,
        ensures
            r.wf(),
            r.transcript.powers.g1@.len() == num_g1,
            r.transcript.powers.g2@.len() == num_g2,
            r.transcript.participants() == 0,
            all_one_g1(r.transcript.powers.g1@),
            all_one_g2(r.transcript.powers.g2@),
            r.transcript.witness.products@.len() == 1,
            r.transcript.witness.products@[0].bytes@ == g1_generator(),
            r.transcript.witness.pubkeys@.len() == 1,
            r.transcript.witness.pubkeys@[0].bytes@ == g2_generator(),
            r.transcript.witness.signatures@.len() == 1,
            r.transcript.witness.signatures@[0].bytes@ == Seq::<u8>::empty(),
            r.lobby.sessions@.len() == 0,
            r.lobby.timeout == timeout,
            r.lobby.requeue == requeue,
            r.contributors@.len() == 0,
            r.multi_contribution == multi_contribution,
    {
        Ceremony {
            transcript: Transcript::new(num_g1, num_g2),
            lobby: Lobby::new(timeout, requeue),
            contributors: Vec::new(),
            multi_contribution,
        }
    }

    /// Whether `id` has contributed to this shard.
    pub fn has_contributed(&self, id: u64) -> (r: bool)
        ensures
            r == self.contributors@.contains(id),
    {
        let mut i: usize = 0;
        while i < self.contributors.len()
            invariant
                i <= self.contributors@.len(),
                forall|j: int| 0 <= j < i ==> self.contributors@[j] != id,
            decreases self.contributors@.len() - i,
        {
            if self.contributors[i] == id {
                return true;
            }
            i = i + 1;
        }
        false
    }

    /// A verified participant enters the lobby, unless it holds a session
    /// already or, where one contribution per participant is allowed, it has
    /// contributed.
    pub fn enter(&mut self, id: u64, now: u64) -> (r: Result<(), LobbyError>)
        requires
            old(self).wf(),
        ensures
            final(self).wf(),
            final(self).transcript == old(self).transcript,
            final(self).contributors@ == old(self).contributors@,
            final(self).multi_contribution == old(self).multi_contribution,
            final(self).lobby.timeout == old(self).lobby.timeout,
            final(self).lobby.requeue == old(self).lobby.requeue,
            !old(self).multi_contribution && old(self).contributors@.contains(id) ==> r == Err::<
                (),
                LobbyError,
            >(LobbyError::AlreadyContributed) && final(self).lobby.sessions@ == old(
                self,
            ).lobby.sessions@,
            !(!old(self).multi_contribution && old(self).contributors@.contains(id)) ==> (if has_id(
                old(self).lobby.sessions@,
                id,
            ) {
                r == Err::<(), LobbyError>(LobbyError::AlreadyInLobby) && final(self).lobby.sessions@
                    == old(self).lobby.sessions@
            } else {
                r is Ok && final(self).lobby.sessions@ == old(self).lobby.sessions@.push(
                    Session { id, state: SessionState::Waiting, entered: now, last_activity: now },
                )
            }),
    {
        if !self.multi_contribution && self.has_contributed(id) {
            return Err(LobbyError::AlreadyContributed);
        }
        self.lobby.enter(id, now)
    }

    /// Handles the submission of `contribution` by participant `id`: only the
    /// holder of the active slot may submit; the contribution is verified
    /// against the current transcript and, if accepted, appended to it. Either
    /// way the slot is released: an accepted session completes, a rejected one
    /// fails and follows the lobby's policy. A rejection leaves the transcript
    /// as it was.
    pub fn submit<E: Engine>(&mut self, id: u64, contribution: Contribution, now: u64) -> (r: Result<
        (),
        SubmitError,
    >)
        requires
            old(self).wf(),
        ensures
            final(self).wf(),
            final(self).lobby.timeout == old(self).lobby.timeout,
            final(self).lobby.requeue == old(self).lobby.requeue,
            final(self).multi_contribution == old(self).multi_contribution,
            !is_active_id(old(self).lobby.sessions@, id) ==> r == Err::<(), SubmitError>(
                SubmitError::Admission(LobbyError::NotActive),
            ) && final(self).transcript == old(self).transcript && final(self).lobby.sessions@
                == old(self).lobby.sessions@ && final(self).contributors@ == old(self).contributors@,
            is_active_id(old(self).lobby.sessions@, id) ==> match verify_result::<E>(
                old(self).transcript.powers,
                contribution,
            ) {
                Ok(()) => r is Ok && appended(old(self).transcript, final(self).transcript, contribution)
                    && final(self).contributors@ == old(self).contributors@.push(id)
                    && final(self).lobby.sessions@ == leave(
                    old(self).lobby.sessions@,
                    index_of(old(self).lobby.sessions@, id),
                    false,
                    now,
                ),
                Err(e) => r == Err::<(), SubmitError>(SubmitError::Rejected(e))
                    && final(self).transcript == old(self).transcript && final(self).contributors@
                    == old(self).contributors@ && final(self).lobby.sessions@
                    == leave(
                    old(self).lobby.sessions@,
                    index_of(old(self).lobby.sessions@, id),
                    old(self).lobby.requeue,
                    now,
                ),
            },
    {
        if !self.lobby.is_active(id) {
            return Err(SubmitError::Admission(LobbyError::NotActive));
        }
        match self.transcript.verify::<E>(&contribution) {
            Ok(()) => {
                self.transcript.add(contribution);
                self.contributors.push(id);
                let _ = self.lobby.finish(id, true, now);
                Ok(())
            },
            Err(e) => {
                let _ = self.lobby.finish(id, false, now);
                Err(SubmitError::Rejected(e))
            },
        }
    }
}

} // verus!
