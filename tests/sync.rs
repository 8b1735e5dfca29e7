use nad_sync::sync::{
    can_update, volume_from_read, Action, Command, ListenError, SyncState, POLL_INTERVAL_MS,
    SYNC_WINDOW_MS,
};
use nad_sync::volume::{
    from_local_scale, from_remote_scale, to_local_scale, to_remote_scale, NormalizedVolume,
};

fn vol(num: u64, den: u64) -> NormalizedVolume {
    NormalizedVolume::new(num, den).unwrap()
}

fn state_after_remote_write(at: u64) -> SyncState {
    SyncState {
        last_known_volume: vol(50, 100),
        last_local_write_at: 0,
        last_remote_write_at: at,
    }
}

#[test]
fn remote_round_trip_at_every_step() {
    for k in 0..=180u64 {
        let v = vol(k, 180);
        let back = from_remote_scale(to_remote_scale(&v));
        assert!(back.same_level(&v));
    }
}

#[test]
fn remote_round_trip_within_a_step() {
    for k in 0..=1000u64 {
        let v = vol(k, 1000);
        let back = from_remote_scale(to_remote_scale(&v));
        let gap = (back.num as i64 * 1000 - k as i64 * 180).abs();
        assert!(gap * 180 <= 180 * 1000);
    }
}

#[test]
fn remote_scale_values() {
    assert_eq!(to_remote_scale(&vol(1, 2)), 90);
    assert_eq!(to_remote_scale(&vol(1, 1)), 180);
    assert_eq!(to_remote_scale(&vol(0, 7)), 0);
    assert_eq!(to_remote_scale(&vol(1, 360)), 1);
    assert_eq!(to_remote_scale(&vol(1, 361)), 0);
    assert_eq!(from_remote_scale(90), vol(90, 180));
}

#[test]
fn full_byte_volume_frame_is_full_volume() {
    let v = volume_from_read(&[0, 1, 2, 4, 0xf0]).unwrap();
    assert!(v.same_level(&vol(1, 1)));
    assert_eq!(from_remote_scale(240), vol(180, 180));
}

#[test]
fn local_scale_values() {
    assert_eq!(to_local_scale(&vol(1, 2), 0, 65536), 32768);
    assert_eq!(to_local_scale(&vol(1, 3), -100, 0), -67);
    assert_eq!(to_local_scale(&vol(1, 1), i64::MIN, i64::MAX), i64::MAX);
    assert_eq!(to_local_scale(&vol(0, 1), i64::MIN, i64::MAX), i64::MIN);
    assert_eq!(from_local_scale(25, 0, 100), vol(25, 100));
    assert_eq!(from_local_scale(-50, -100, 0), vol(50, 100));
}

#[test]
fn local_scale_halves_round_away_from_zero() {
    assert_eq!(to_local_scale(&vol(1, 2), -103, 0), -52);
    assert_eq!(to_local_scale(&vol(1, 2), 0, 103), 52);
    assert_eq!(to_local_scale(&vol(1, 2), -1, 0), -1);
    assert_eq!(to_local_scale(&vol(1, 2), -3, 0), -2);
    assert_eq!(to_local_scale(&vol(1, 2), -2, 1), -1);
    assert_eq!(to_local_scale(&vol(1, 2), -1, 2), 1);
    assert_eq!(to_local_scale(&vol(1, 4), -10, 0), -8);
}

#[test]
fn volume_constructor_checks_range() {
    assert_eq!(NormalizedVolume::new(3, 2), None);
    assert_eq!(NormalizedVolume::new(0, 0), None);
    assert_eq!(NormalizedVolume::new(2, 2), Some(vol(2, 2)));
}

#[test]
fn echo_within_window_is_suppressed() {
    let state = state_after_remote_write(100_000);
    let small = Command::LocalVolumeChanged {
        volume: vol(502, 1000),
    };
    assert_eq!(state.decide(&small, 101_000), Action::Ignore);
    let large = Command::LocalVolumeChanged {
        volume: vol(80, 100),
    };
    assert_eq!(state.decide(&large, 101_000), Action::Ignore);
    assert_eq!(state.decide(&large, 100_000 + SYNC_WINDOW_MS), Action::Ignore);
}

#[test]
fn genuine_change_is_sent() {
    let mut state = state_after_remote_write(100_000);
    let command = Command::LocalVolumeChanged {
        volume: vol(80, 100),
    };
    let action = state.decide(&command, 103_000);
    assert_eq!(
        action,
        Action::SendVolume {
            volume: vol(80, 100)
        }
    );
    assert_eq!(action.remote_bytes(), Some([0, 1, 2, 4, 144]));
    state.commit(&action, 103_000);
    assert!(state.last_known_volume.same_level(&vol(4, 5)));
    assert_eq!(state.last_local_write_at, 103_000);
    assert_eq!(state.last_remote_write_at, 100_000);
}

#[test]
fn small_change_after_window_is_ignored() {
    let state = state_after_remote_write(100_000);
    let command = Command::LocalVolumeChanged {
        volume: vol(505, 1000),
    };
    assert_eq!(state.decide(&command, 200_000), Action::Ignore);
}

#[test]
fn remote_change_sets_local_mixer() {
    let mut state = SyncState::new();
    let command = Command::RemoteVolumeChanged {
        volume: from_remote_scale(90),
    };
    let action = state.decide(&command, 5_000);
    assert_eq!(
        action,
        Action::SetLocal {
            volume: vol(90, 180)
        }
    );
    assert_eq!(action.remote_bytes(), None);
    state.commit(&action, 5_000);
    assert_eq!(state.last_remote_write_at, 5_000);
    assert_eq!(state.last_local_write_at, 0);
    let echo = Command::LocalVolumeChanged {
        volume: vol(1, 3),
    };
    assert_eq!(state.decide(&echo, 6_000), Action::Ignore);
}

#[test]
fn poll_is_always_sent() {
    let state = SyncState::new();
    let action = state.decide(&Command::PollRequest, 0);
    assert_eq!(action, Action::SendPoll);
    assert_eq!(action.remote_bytes(), Some([0, 1, 2, 2, 4]));
    assert_eq!(POLL_INTERVAL_MS, 10_000);
}

#[test]
fn can_update_bounds() {
    let last = vol(1, 2);
    assert!(!can_update(0, 2_000, &last, &vol(1, 1)));
    assert!(can_update(0, 2_001, &last, &vol(1, 1)));
    assert!(!can_update(0, 10_000, &last, &vol(101, 200)));
    assert!(can_update(0, 10_000, &last, &vol(1011, 2000)));
    assert!(!can_update(5_000, 1_000, &last, &vol(1, 1)));
}

#[test]
fn short_read_is_a_failure() {
    assert_eq!(volume_from_read(&[0, 1, 2, 4]), Err(ListenError::ReadFailure));
}

#[test]
fn read_without_volume_frame() {
    assert_eq!(
        volume_from_read(&[0, 1, 2, 9, 1]),
        Err(ListenError::NoVolumeFrame)
    );
    assert_eq!(
        volume_from_read(&[7, 7, 7, 7, 7, 7]),
        Err(ListenError::NoVolumeFrame)
    );
}

#[test]
fn read_takes_last_volume() {
    let bytes = [0, 1, 2, 4, 0xf0, 0, 1, 2, 9, 1, 0, 1, 2, 4, 0x30, 0, 1];
    assert_eq!(volume_from_read(&bytes), Ok(vol(0x30, 180)));
}
