use remote_probe::players::{Faction, HealthStatus, PlayerType, retain_valid_pointers};
use remote_probe::session::{SessionEvent, SessionPhase};
use remote_probe::ProbeError;

#[test]
fn faction_codes_map_exactly() {
    assert_eq!(Faction::from_code(1), Ok(Faction::USEC));
    assert_eq!(Faction::from_code(2), Ok(Faction::BEAR));
    assert_eq!(Faction::from_code(4), Ok(Faction::SCAV));
}

#[test]
fn faction_codes_outside_closed_set_fail() {
    assert_eq!(
        Faction::from_code(0),
        Err(ProbeError::UnknownFactionCode { code: 0 })
    );
    assert_eq!(
        Faction::from_code(3),
        Err(ProbeError::UnknownFactionCode { code: 3 })
    );
    assert_eq!(
        Faction::from_code(5),
        Err(ProbeError::UnknownFactionCode { code: 5 })
    );
    assert_eq!(
        Faction::from_code(-1),
        Err(ProbeError::UnknownFactionCode { code: -1 })
    );
    assert_eq!(
        Faction::from_code(i32::MAX),
        Err(ProbeError::UnknownFactionCode { code: i32::MAX })
    );
}

#[test]
fn vitality_buckets_are_exact() {
    assert_eq!(HealthStatus::from_raw(0), HealthStatus::UNKNOWN);
    assert_eq!(HealthStatus::from_raw(-1), HealthStatus::UNKNOWN);
    assert_eq!(HealthStatus::from_raw(1024), HealthStatus::FULL);
    assert_eq!(HealthStatus::from_raw(2048), HealthStatus::HIGH);
    assert_eq!(HealthStatus::from_raw(4096), HealthStatus::MEDIUM);
    assert_eq!(HealthStatus::from_raw(8192), HealthStatus::LOW);
}

#[test]
fn vitality_unmatched_values_fall_back_to_special() {
    assert_eq!(HealthStatus::from_raw(1), HealthStatus::SPECIAL);
    assert_eq!(HealthStatus::from_raw(1023), HealthStatus::SPECIAL);
    assert_eq!(HealthStatus::from_raw(1025), HealthStatus::SPECIAL);
    assert_eq!(HealthStatus::from_raw(9999), HealthStatus::SPECIAL);
    assert_eq!(HealthStatus::from_raw(-5), HealthStatus::SPECIAL);
    assert_eq!(HealthStatus::from_raw(i32::MAX), HealthStatus::SPECIAL);
}

#[test]
fn array_decode_skips_null_and_self_pointers() {
    let own = 0xDEAD_BEEFu64;
    let v = vec![0u64, 5, 0, 7, own];
    let kept = retain_valid_pointers(&v, own);
    assert_eq!(kept, vec![5u64, 7]);
}

#[test]
fn pointer_filter_keeps_order_and_duplicates() {
    let v = vec![9u64, 0, 9, 3, 1, 3];
    let kept = retain_valid_pointers(&v, 1);
    assert_eq!(kept, vec![9u64, 9, 3, 3]);
}

#[test]
fn classification_by_name_prefix() {
    assert_eq!(
        PlayerType::player_type_from_bytes(b"ClientPlayer(Clone)"),
        PlayerType::ClientPlayer
    );
    assert_eq!(
        PlayerType::player_type_from_bytes(b"LocalPlayer(Clone)"),
        PlayerType::MainPlayer
    );
    assert_eq!(
        PlayerType::player_type_from_bytes(b"ObservedPlayerView"),
        PlayerType::NetworkedPlayer
    );
    assert_eq!(
        PlayerType::player_type_from_bytes(b""),
        PlayerType::NetworkedPlayer
    );
    assert_eq!(
        PlayerType::player_type_from_bytes(b"Client"),
        PlayerType::NetworkedPlayer
    );
}

#[test]
fn session_machine_walks_the_designed_path() {
    let p = SessionPhase::Uninitialized;
    let p = p.advance(SessionEvent::AnchorFound);
    assert_eq!(p, SessionPhase::Anchored);
    let p = p.advance(SessionEvent::EnumerationDone);
    assert_eq!(p, SessionPhase::Populated);
    let p = p.advance(SessionEvent::CycleCompleted);
    assert_eq!(p, SessionPhase::Sampling);
    let p = p.advance(SessionEvent::CycleCompleted);
    assert_eq!(p, SessionPhase::Sampling);
    let p = p.advance(SessionEvent::ReadLost);
    assert_eq!(p, SessionPhase::Lost);
    let retried = p.advance(SessionEvent::Retry);
    assert_eq!(retried, SessionPhase::Uninitialized);
    let done = p.advance(SessionEvent::Terminate);
    assert_eq!(done, SessionPhase::Terminated);
}

#[test]
fn session_machine_ignores_inapplicable_events() {
    assert_eq!(
        SessionPhase::Uninitialized.advance(SessionEvent::CycleCompleted),
        SessionPhase::Uninitialized
    );
    assert_eq!(
        SessionPhase::Sampling.advance(SessionEvent::AnchorFound),
        SessionPhase::Sampling
    );
    assert_eq!(
        SessionPhase::Terminated.advance(SessionEvent::Retry),
        SessionPhase::Terminated
    );
}
