use kzg_ceremony_sequencer::coordinator::{Ceremony, SubmitError};
use kzg_ceremony_sequencer::engine::{g1_of_exp, g2_of_exp, ExponentEngine};
use kzg_ceremony_sequencer::group::{G1, G2};
use kzg_ceremony_sequencer::lobby::{Lobby, LobbyError, SessionState};
use kzg_ceremony_sequencer::transcript::{CeremonyError, Contribution};

fn active_count(l: &Lobby) -> usize {
    l.sessions.iter().filter(|s| s.state == SessionState::Active).count()
}

fn ids(l: &Lobby) -> Vec<u64> {
    l.sessions.iter().map(|s| s.id).collect()
}

fn honest(c: &Ceremony, tau: u64) -> Contribution {
    let mut x = c.transcript.contribution();
    ExponentEngine::add_tau(&mut x, tau);
    x
}

#[test]
fn enter_twice_is_refused() {
    let mut l = Lobby::new(10, false);
    assert_eq!(l.enter(1, 0), Ok(()));
    assert_eq!(l.enter(1, 3), Err(LobbyError::AlreadyInLobby));
    assert_eq!(l.sessions.len(), 1);
    assert_eq!(l.sessions[0].last_activity, 0);
}

#[test]
fn promote_is_fifo_and_single() {
    let mut l = Lobby::new(10, false);
    l.enter(5, 0).unwrap();
    l.enter(3, 1).unwrap();
    l.enter(9, 2).unwrap();
    assert_eq!(l.promote(4), Some(5));
    assert_eq!(l.sessions[0].state, SessionState::Active);
    assert_eq!(l.sessions[0].last_activity, 4);
    assert_eq!(l.promote(5), None);
    assert_eq!(active_count(&l), 1);
    assert!(l.is_active(5));
    assert!(!l.is_active(3));
    assert_eq!(l.finish(5, true, 6), Ok(SessionState::Completed));
    assert_eq!(active_count(&l), 0);
    assert_eq!(l.promote(7), Some(3));
    assert_eq!(ids(&l), vec![3, 9]);
}

#[test]
fn promote_breaks_ties_by_identity() {
    let mut l = Lobby::new(10, false);
    l.enter(9, 5).unwrap();
    l.enter(3, 5).unwrap();
    l.enter(1, 6).unwrap();
    assert_eq!(l.promote(7), Some(3));
    assert_eq!(l.sessions[1].state, SessionState::Active);
    assert_eq!(l.sessions[1].entered, 5);
    assert_eq!(l.finish(3, true, 8), Ok(SessionState::Completed));
    assert_eq!(l.promote(8), Some(9));
    assert_eq!(l.finish(9, true, 9), Ok(SessionState::Completed));
    assert_eq!(l.promote(9), Some(1));
}

#[test]
fn requeued_session_waits_behind_earlier_entries() {
    let mut l = Lobby::new(10, true);
    l.enter(4, 0).unwrap();
    l.enter(2, 1).unwrap();
    assert_eq!(l.promote(2), Some(4));
    assert_eq!(l.abort(4, 3), Ok(()));
    assert_eq!(l.sessions[1].entered, 3);
    assert_eq!(l.promote(3), Some(2));
}

#[test]
fn promote_on_empty_lobby() {
    let mut l = Lobby::new(10, true);
    assert_eq!(l.promote(0), None);
    assert!(!l.slot_taken());
}

#[test]
fn ping_updates_activity() {
    let mut l = Lobby::new(10, false);
    l.enter(1, 0).unwrap();
    l.enter(2, 0).unwrap();
    assert_eq!(l.ping(2, 8), Ok(()));
    assert_eq!(l.sessions[1].last_activity, 8);
    assert_eq!(l.sessions[0].last_activity, 0);
    assert_eq!(l.ping(7, 8), Err(LobbyError::UnknownSession));
}

#[test]
fn abort_requeues_or_evicts() {
    let mut l = Lobby::new(10, true);
    l.enter(1, 0).unwrap();
    l.enter(2, 0).unwrap();
    assert_eq!(l.abort(1, 1), Err(LobbyError::NotActive));
    l.promote(1);
    assert_eq!(l.abort(2, 2), Err(LobbyError::NotActive));
    assert_eq!(l.abort(1, 2), Ok(()));
    assert_eq!(ids(&l), vec![2, 1]);
    assert_eq!(l.sessions[1].state, SessionState::Waiting);
    assert_eq!(l.sessions[1].last_activity, 2);
    assert_eq!(l.promote(3), Some(2));

    let mut l = Lobby::new(10, false);
    l.enter(1, 0).unwrap();
    l.promote(0);
    assert_eq!(l.abort(1, 1), Ok(()));
    assert!(l.sessions.is_empty());
}

#[test]
fn finish_failure_follows_policy() {
    let mut l = Lobby::new(10, true);
    l.enter(1, 0).unwrap();
    l.promote(0);
    assert_eq!(l.finish(1, false, 4), Ok(SessionState::Failed));
    assert_eq!(ids(&l), vec![1]);
    assert_eq!(l.sessions[0].state, SessionState::Waiting);

    let mut l = Lobby::new(10, false);
    l.enter(1, 0).unwrap();
    l.promote(0);
    assert_eq!(l.finish(1, false, 4), Ok(SessionState::Failed));
    assert!(l.sessions.is_empty());
    assert_eq!(l.finish(1, true, 5), Err(LobbyError::NotActive));
}

#[test]
fn idle_active_session_is_swept_and_next_promoted() {
    let mut l = Lobby::new(10, false);
    l.enter(1, 0).unwrap();
    l.enter(2, 0).unwrap();
    assert_eq!(l.promote(0), Some(1));
    l.ping(2, 12).unwrap();
    l.sweep(10);
    assert_eq!(ids(&l), vec![1, 2]);
    l.sweep(15);
    assert_eq!(ids(&l), vec![2]);
    assert_eq!(active_count(&l), 0);
    assert_eq!(l.promote(15), Some(2));
    assert!(l.is_active(2));
}

#[test]
fn sweep_keeps_order_of_the_living() {
    let mut l = Lobby::new(5, false);
    for (id, t) in [(1u64, 0u64), (2, 9), (3, 1), (4, 10), (5, 20)] {
        l.enter(id, t).unwrap();
    }
    l.sweep(14);
    assert_eq!(ids(&l), vec![2, 4, 5]);
}

#[test]
fn random_events_never_make_two_active() {
    let mut l = Lobby::new(7, true);
    let mut x: u64 = 12345;
    for now in 0..2000u64 {
        x = x.wrapping_mul(6364136223846793005).wrapping_add(1442695040888963407);
        let id = (x >> 33) % 6;
        match (x >> 20) % 6 {
            0 => {
                let _ = l.enter(id, now);
            }
            1 => {
                let _ = l.promote(now);
            }
            2 => {
                let _ = l.abort(id, now);
            }
            3 => {
                let _ = l.finish(id, (x >> 10) % 2 == 0, now);
            }
            4 => l.sweep(now),
            _ => {
                let _ = l.ping(id, now);
            }
        }
        assert!(active_count(&l) <= 1);
    }
}

#[test]
fn submit_requires_the_active_slot() {
    let mut c = Ceremony::new(4, 2, 10, false, false);
    c.lobby.enter(1, 0).unwrap();
    let x = honest(&c, 7);
    assert_eq!(
        c.submit::<ExponentEngine>(1, x, 1),
        Err(SubmitError::Admission(LobbyError::NotActive))
    );
    assert_eq!(c.transcript.num_participants(), 0);
    assert_eq!(c.lobby.sessions.len(), 1);
}

#[test]
fn two_participants_in_promotion_order() {
    let mut c = Ceremony::new(4, 2, 10, false, false);
    c.enter(1, 0).unwrap();
    c.enter(2, 0).unwrap();
    assert_eq!(c.lobby.promote(1), Some(1));
    let x = honest(&c, 7);
    assert_eq!(c.submit::<ExponentEngine>(1, x, 2), Ok(()));
    assert_eq!(c.lobby.promote(3), Some(2));
    let y = honest(&c, 9);
    assert_eq!(c.submit::<ExponentEngine>(2, y, 4), Ok(()));
    assert_eq!(c.transcript.num_participants(), 2);
    assert_eq!(c.transcript.witness.pubkeys, vec![G2::one(), g2_of_exp(7), g2_of_exp(9)]);
    assert_eq!(c.transcript.witness.products, vec![G1::one(), g1_of_exp(7), g1_of_exp(63)]);
    assert!(c.lobby.sessions.is_empty());
}

#[test]
fn rejected_submission_leaves_transcript_unchanged() {
    let mut c = Ceremony::new(4, 2, 10, true, false);
    c.lobby.enter(1, 0).unwrap();
    c.lobby.promote(0);
    let before = c.transcript.clone();
    let mut x = honest(&c, 7);
    x.powers.g1.pop();
    assert_eq!(
        c.submit::<ExponentEngine>(1, x, 1),
        Err(SubmitError::Rejected(CeremonyError::UnexpectedNumG1Powers(4, 3)))
    );
    assert_eq!(c.transcript, before);
    assert_eq!(c.lobby.sessions[0].state, SessionState::Waiting);
    assert!(!c.lobby.slot_taken());
}

#[test]
fn one_contribution_per_participant_unless_allowed() {
    for multi in [false, true] {
        let mut c = Ceremony::new(4, 2, 10, false, multi);
        assert_eq!(c.enter(1, 0), Ok(()));
        assert_eq!(c.enter(1, 0), Err(LobbyError::AlreadyInLobby));
        assert_eq!(c.lobby.promote(0), Some(1));
        let x = honest(&c, 5);
        assert_eq!(c.submit::<ExponentEngine>(1, x, 1), Ok(()));
        assert!(c.has_contributed(1));
        assert_eq!(c.contributors, vec![1]);
        let again = c.enter(1, 2);
        if multi {
            assert_eq!(again, Ok(()));
        } else {
            assert_eq!(again, Err(LobbyError::AlreadyContributed));
            assert!(c.lobby.sessions.is_empty());
        }
    }
}
