use vstd::prelude::*;

use crate::protocol::{
    decode_frames, encode_poll_command, encode_volume_command, frame_bytes, last_volume,
    last_volume_frame, parse_frames, FRAME_LEN, POLL_OPCODE, POLL_PAYLOAD, VOLUME_OPCODE,
};
use crate::volume::{
    from_remote_scale, remote_level, remote_volume, scaled_gap, to_remote_scale, wide_mul,
    NormalizedVolume,
};

verus! {

/// How long after a write to one side changes seen on the other are taken for
/// its echo, in milliseconds.
pub const SYNC_WINDOW_MS: u64 = 2000;

/// Changes smaller than `1 / CHANGE_THRESHOLD_DEN` are rounding noise.
pub const CHANGE_THRESHOLD_DEN: u64 = 200;

/// How often the receiver is asked for its volume, in milliseconds.
pub const POLL_INTERVAL_MS: u64 = 10000;

/// A message to the engine from one of the event sources.
#[derive(Debug, Clone, Copy, PartialEq, Eq, Structural)]
pub enum Command {
    /// Ask the receiver to report its volume.
    PollRequest,
    /// The receiver reported a volume.
    RemoteVolumeChanged { volume: NormalizedVolume },
    /// The local mixer reported a volume.
    LocalVolumeChanged { volume: NormalizedVolume },
}

impl Command {
    pub open spec fn wf(&self) -> bool {
        match *self {
            Command::PollRequest => true,
            Command::RemoteVolumeChanged { volume } => volume.wf(),
            Command::LocalVolumeChanged { volume } => volume.wf(),
        }
    }
}

/// What the engine asks of the devices for one command.
#[derive(Debug, Clone, Copy, PartialEq, Eq, Structural)]
pub enum Action {
    /// Nothing is written anywhere.
    Ignore,
    /// Write the poll command to the receiver.
    SendPoll,
    /// Write a set-volume command for `volume` to the receiver.
    SendVolume { volume: NormalizedVolume },
    /// Set the local mixer to `volume`.
    SetLocal { volume: NormalizedVolume },
}

/// The bytes that an action writes to the receiver, if any.
pub open spec fn remote_frame(action: Action) -> Option<Seq<u8>> {
    match action {
        Action::SendPoll => Some(frame_bytes(POLL_OPCODE, POLL_PAYLOAD)),
        Action::SendVolume { volume } => Some(frame_bytes(VOLUME_OPCODE, remote_level(volume) as u8)),
        _ => None,
    }
}

impl Action {
    pub open spec fn wf(&self) -> bool {
        match *self {
            Action::SendVolume { volume } => volume.wf(),
            Action::SetLocal { volume } => volume.wf(),
            _ => true,
        }
    }

    /// The frame to write to the receiver for this action, if any.
    pub fn remote_bytes(&self) -> (r: Option<[u8; 5]>)
        requires
            self.wf(),
        ensures
            match r {
                Some(b) => remote_frame(*self) == Some(b@),
                None => remote_frame(*self) == None::<Seq<u8>>,
            },
    {
        match self {
            Action::SendPoll => Some(encode_poll_command()),
            Action::SendVolume { volume } => Some(encode_volume_command(to_remote_scale(volume))),
            _ => None,
        }
    }
}

/// The engine's state, owned by the one loop that handles the commands.
#[derive(Debug, Clone, Copy, PartialEq, Eq, Structural)]
pub struct SyncState {
    pub last_known_volume: NormalizedVolume,
    pub last_local_write_at: u64,
    pub last_remote_write_at: u64,
}

/// Milliseconds from `since` to `now`; none where the clock went back.
pub open spec fn elapsed_ms(since: u64, now: u64) -> int {
    if now >= since {
        now - since
    } else {
        0
    }
}

/// `|new - last| > 1 / 200`.
pub open spec fn exceeds_threshold(last: NormalizedVolume, new: NormalizedVolume) -> bool {
    scaled_gap(last, new) * CHANGE_THRESHOLD_DEN > last.den * new.den
}

/// More than the window has passed since `reference`, and the volume moved by
/// more than the threshold.
pub open spec fn may_update(
    reference: u64,
    now: u64,
    last: NormalizedVolume,
    new: NormalizedVolume,
) -> bool {
    elapsed_ms(reference, now) > SYNC_WINDOW_MS && exceeds_threshold(last, new)
}

/// What the engine does for `command` at time `now`.
pub open spec fn next_action(s: SyncState, command: Command, now: u64) -> Action {
    match command {
        Command::PollRequest => Action::SendPoll,
        Command::RemoteVolumeChanged { volume } => if may_update(
            s.last_local_write_at,
            now,
            s.last_known_volume,
            volume,
        ) {
            Action::SetLocal { volume }
        } else {
            Action::Ignore
        },
        Command::LocalVolumeChanged { volume } => if may_update(
            s.last_remote_write_at,
            now,
            s.last_known_volume,
            volume,
        ) {
            Action::SendVolume { volume }
        } else {
            Action::Ignore
        },
    }
}

/// The state once `action` was carried out at time `now`.
pub open spec fn after_action(s: SyncState, action: Action, now: u64) -> SyncState {
    match action {
        Action::SetLocal { volume } => SyncState {
            last_known_volume: volume,
            last_local_write_at: s.last_local_write_at,
            last_remote_write_at: now,
        },
        Action::SendVolume { volume } => SyncState {
            last_known_volume: volume,
            last_local_write_at: now,
            last_remote_write_at: s.last_remote_write_at,
        },
        _ => s,
    }
}

proof fn lemma_above_quotient(d: int, p: int, k: int)
    requires
        d >= 0,
        p >= 0,
        k > 0,
    ensures
        (d > p / k) == (d * k > p),
{
    vstd::arithmetic::div_mod::lemma_fundamental_div_mod(p, k);
    vstd::arithmetic::div_mod::lemma_mod_bound(p, k);
    let q = p / k;
    if d > q {
        assert(d * k >= (q + 1) * k) by (nonlinear_arith)
            requires
                d >= q + 1,
                k > 0,
        ;
        assert((q + 1) * k == k * q + k) by (nonlinear_arith);
    } else {
        assert(d * k <= q * k) by (nonlinear_arith)
            requires
                d <= q,
                k > 0,
        ;
        assert(q * k == k * q) by (nonlinear_arith);
    }
}

/// Whether a change from `last_volume` to `volume` is passed on at `now_ms`:
/// more than the window has passed since `reference_ms`, and the volume moved
/// by more than the threshold.
pub fn can_update(
    reference_ms: u64,
    now_ms: u64,
    last_volume: &NormalizedVolume,
    volume: &NormalizedVolume,
) -> (r: bool)
    requires
        last_volume.wf(),
        volume.wf(),
    ensures
        r == may_update(reference_ms, now_ms, *last_volume, *volume),
{
    let elapsed: u64 = if now_ms >= reference_ms {
        now_ms - reference_ms
    } else {
        0
    };
    let x: u128 = wide_mul(last_volume.num, volume.den);
    let y: u128 = wide_mul(volume.num, last_volume.den);
    let gap: u128 = if x >= y {
        x - y
    } else {
        y - x
    };
    let span: u128 = wide_mul(last_volume.den, volume.den);
    proof {
        assert(gap == scaled_gap(*last_volume, *volume));
        lemma_above_quotient(gap as int, span as int, CHANGE_THRESHOLD_DEN as int);
    }
    elapsed > SYNC_WINDOW_MS && gap > span / CHANGE_THRESHOLD_DEN as u128
}

impl SyncState {
    pub open spec fn wf(&self) -> bool {
        self.last_known_volume.wf()
    }

    /// The state at start: volume zero, and no write seen on either side since
    /// the epoch.
    pub fn new() -> (r: SyncState)
        ensures
            r.wf(),
            r.last_known_volume == (NormalizedVolume { num: 0, den: 1 }),
            r.last_local_write_at == 0,
            r.last_remote_write_at == 0,
    {
        SyncState {
            last_known_volume: NormalizedVolume { num: 0, den: 1 },
            last_local_write_at: 0,
            last_remote_write_at: 0,
        }
    }

    /// What to do for `command` at `now_ms`: always poll when asked; pass a
    /// volume on to the other side only where `can_update` allows it, timed
    /// against the last write to the side that reported it.
    pub fn decide(&self, command: &Command, now_ms: u64) -> (r: Action)
        requires
            self.wf(),
            command.wf(),
        ensures
            r == next_action(*self, *command, now_ms),
            r.wf(),
    {
        match command {
            Command::PollRequest => Action::SendPoll,
            Command::RemoteVolumeChanged { volume } => {
                if can_update(self.last_local_write_at, now_ms, &self.last_known_volume, volume) {
                    Action::SetLocal { volume: *volume }
                } else {
                    Action::Ignore
                }
            },
            Command::LocalVolumeChanged { volume } => {
                if can_update(self.last_remote_write_at, now_ms, &self.last_known_volume, volume) {
                    Action::SendVolume { volume: *volume }
                } else {
                    Action::Ignore
                }
            },
        }
    }

    /// Records an action that was carried out at `now_ms`: a volume written to
    /// either side becomes the last known volume and stamps the side whose
    /// report caused it.
    pub fn commit(&mut self, action: &Action, now_ms: u64)
        requires
            old(self).wf(),
            action.wf(),
        ensures
            *final(self) == after_action(*old(self), *action, now_ms),
            final(self).wf(),
    {
        match action {
            Action::SetLocal { volume } => {
                self.last_known_volume = *volume;
                self.last_remote_write_at = now_ms;
            },
            Action::SendVolume { volume } => {
                self.last_known_volume = *volume;
                self.last_local_write_at = now_ms;
            },
            _ => {},
        }
    }
}

/// A local change seen within the window after the last write to the local
/// mixer, or one no larger than the threshold, writes nothing to the receiver
/// and leaves the state as it was.
pub proof fn lemma_echo_suppressed(s: SyncState, volume: NormalizedVolume, now: u64)
    requires
        s.wf(),
        volume.wf(),
        elapsed_ms(s.last_remote_write_at, now) <= SYNC_WINDOW_MS || !exceeds_threshold(
            s.last_known_volume,
            volume,
        ),
    ensures
        next_action(s, Command::LocalVolumeChanged { volume }, now) == Action::Ignore,
        remote_frame(next_action(s, Command::LocalVolumeChanged { volume }, now)) == None::<
            Seq<u8>,
        >,
        after_action(s, next_action(s, Command::LocalVolumeChanged { volume }, now), now) == s,
{
}

/// A local change seen more than the window after the last write to the local
/// mixer, and larger than the threshold, writes the set-volume command for it
/// to the receiver and becomes the last known volume.
pub proof fn lemma_genuine_change_sent(s: SyncState, volume: NormalizedVolume, now: u64)
    requires
        s.wf(),
        volume.wf(),
        elapsed_ms(s.last_remote_write_at, now) > SYNC_WINDOW_MS,
        exceeds_threshold(s.last_known_volume, volume),
    ensures
        next_action(s, Command::LocalVolumeChanged { volume }, now) == (Action::SendVolume {
            volume,
        }),
        remote_frame(next_action(s, Command::LocalVolumeChanged { volume }, now)) == Some(
            frame_bytes(VOLUME_OPCODE, remote_level(volume) as u8),
        ),
        after_action(
            s,
            next_action(s, Command::LocalVolumeChanged { volume }, now),
            now,
        ).last_known_volume == volume,
        after_action(
            s,
            next_action(s, Command::LocalVolumeChanged { volume }, now),
            now,
        ).last_local_write_at == now,
{
}

/// Why one read from the receiver gave no volume.
#[derive(Debug, Clone, Copy, PartialEq, Eq, Structural)]
pub enum ListenError {
    /// Fewer bytes than one frame arrived.
    ReadFailure,
    /// No frame that reports a volume could be decoded.
    NoVolumeFrame,
}

/// What one read of `bytes` from the receiver yields.
pub open spec fn read_outcome(bytes: Seq<u8>) -> Result<NormalizedVolume, ListenError> {
    if bytes.len() < 5 {
        Err(ListenError::ReadFailure)
    } else {
        match last_volume_frame(decode_frames(bytes)) {
            Some(f) => Ok(remote_volume(f.payload)),
            None => Err(ListenError::NoVolumeFrame),
        }
    }
}

/// The volume that one read of `bytes` from the receiver reports: the last
/// volume frame among those decoded, on the receiver's scale.
pub fn volume_from_read(bytes: &[u8]) -> (r: Result<NormalizedVolume, ListenError>)
    ensures
        r == read_outcome(bytes@),
{
    if bytes.len() < FRAME_LEN {
        return Err(ListenError::ReadFailure);
    }
    let frames = parse_frames(bytes);
    match last_volume(frames.as_slice()) {
        Some(frame) => Ok(from_remote_scale(frame.payload)),
        None => Err(ListenError::NoVolumeFrame),
    }
}

} // verus!
