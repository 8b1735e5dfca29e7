use vstd::prelude::*;

verus! {

/// The kind of a receiver frame, decoded from its opcode byte.
#[derive(Debug, PartialEq, Eq, Structural)]
pub enum OpCode {
    Poll,
    Source,
    Volume,
    Power,
    Mute,
    Unknown,
}

/// The kind that an opcode byte stands for; bytes without a meaning are `Unknown`.
pub open spec fn opcode_of(byte: u8) -> OpCode {
    if byte == 2 {
        OpCode::Poll
    } else if byte == 3 {
        OpCode::Source
    } else if byte == 4 {
        OpCode::Volume
    } else if byte == 9 {
        OpCode::Power
    } else if byte == 10 {
        OpCode::Mute
    } else {
        OpCode::Unknown
    }
}

impl From<u8> for OpCode {
    fn from(opcode: u8) -> (r: OpCode)
        ensures
            r == opcode_of(opcode),
    {
        match opcode {
            2 => OpCode::Poll,
            3 => OpCode::Source,
            4 => OpCode::Volume,
            9 => OpCode::Power,
            10 => OpCode::Mute,
            _ => OpCode::Unknown,
        }
    }
}

impl vstd::std_specs::convert::FromSpecImpl<u8> for OpCode {
    open spec fn obeys_from_spec() -> bool {
        true
    }

    open spec fn from_spec(v: u8) -> OpCode {
        opcode_of(v)
    }
}


/// One decoded receiver frame: its kind and its single payload byte.
#[derive(Debug, PartialEq, Eq, Structural)]
pub struct ReceiverFrame {
    pub command: OpCode,
    pub payload: u8,
}

/// Why a frame could not be decoded.
#[derive(Debug, PartialEq, Eq, Structural)]
pub enum ParseError {
    MalformedFrame,
}

/// Length of every frame on the wire.
pub const FRAME_LEN: usize = 5;

/// Opcode of a set-volume command and of a volume report.
pub const VOLUME_OPCODE: u8 = 4;

/// Opcode of a poll command.
pub const POLL_OPCODE: u8 = 2;

/// Payload of the poll command.
pub const POLL_PAYLOAD: u8 = 4;

/// `s` starts with a whole frame: the header `0x00 0x01 0x02` and two more bytes.
pub open spec fn starts_with_frame(s: Seq<u8>) -> bool {
    s.len() >= 5 && s[0] == 0 && s[1] == 1 && s[2] == 2
}

/// The frame at the start of `s`, where `starts_with_frame(s)`.
pub open spec fn frame_of(s: Seq<u8>) -> ReceiverFrame {
    ReceiverFrame { command: opcode_of(s[3]), payload: s[4] }
}

/// What decoding the start of `s` gives.
pub open spec fn decode_frame(s: Seq<u8>) -> Result<ReceiverFrame, ParseError> {
    if starts_with_frame(s) {
        Ok(frame_of(s))
    } else {
        Err(ParseError::MalformedFrame)
    }
}

/// The frames that follow one another from the start of `s`, up to the first
/// position where no whole frame stands.
pub open spec fn decode_frames(s: Seq<u8>) -> Seq<ReceiverFrame>
    decreases s.len(),
{
    if starts_with_frame(s) {
        seq![frame_of(s)] + decode_frames(s.skip(5))
    } else {
        Seq::empty()
    }
}

/// The five bytes of a frame with this opcode byte and payload.
pub open spec fn frame_bytes(opcode: u8, payload: u8) -> Seq<u8> {
    seq![0u8, 1u8, 2u8, opcode, payload]
}

/// The byte that stands for a kind on the wire; `Unknown` has none.
pub open spec fn opcode_byte(command: OpCode) -> Option<u8> {
    match command {
        OpCode::Poll => Some(2u8),
        OpCode::Source => Some(3u8),
        OpCode::Volume => Some(4u8),
        OpCode::Power => Some(9u8),
        OpCode::Mute => Some(10u8),
        OpCode::Unknown => None,
    }
}

/// The last frame of `frames` that reports a volume, if any.
pub open spec fn last_volume_frame(frames: Seq<ReceiverFrame>) -> Option<ReceiverFrame>
    decreases frames.len(),
{
    if frames.len() == 0 {
        None
    } else if frames.last().command == OpCode::Volume {
        Some(frames.last())
    } else {
        last_volume_frame(frames.drop_last())
    }
}

/// Decodes the frame that starts at `pos`.
fn decode_at(bytes: &[u8], pos: usize) -> (r: Result<ReceiverFrame, ParseError>)
    requires
        pos <= bytes@.len(),
    ensures
        r == decode_frame(bytes@.skip(pos as int)),
{
    if bytes.len() - pos >= FRAME_LEN && bytes[pos] == 0 && bytes[pos + 1] == 1 && bytes[pos + 2]
        == 2 {
        Ok(ReceiverFrame { command: OpCode::from(bytes[pos + 3]), payload: bytes[pos + 4] })
    } else {
        Err(ParseError::MalformedFrame)
    }
}

/// Decodes the frame at the start of `bytes`: the fixed header and then the
/// opcode and payload bytes. Fails on any other start, a short one included.
pub fn parse_frame(bytes: &[u8]) -> (r: Result<ReceiverFrame, ParseError>)
    ensures
        r == decode_frame(bytes@),
{
    proof {
        assert(bytes@.skip(0) =~= bytes@);
    }
    decode_at(bytes, 0)
}

/// Decodes the frames that follow one another from the start of `bytes`, and
/// stops without error where no whole frame stands (trailing bytes included).
pub fn parse_frames(bytes: &[u8]) -> (r: Vec<ReceiverFrame>)
    ensures
        r@ == decode_frames(bytes@),
{
    let mut frames: Vec<ReceiverFrame> = Vec::new();
    let mut pos: usize = 0;
    let len: usize = bytes.len();
    proof {
        assert(bytes@.skip(0) =~= bytes@);
    }
    loop
        invariant
            len == bytes@.len(),
            pos <= bytes@.len(),
            frames@ + decode_frames(bytes@.skip(pos as int)) == decode_frames(bytes@),
        decreases bytes@.len() - pos,
    {
        match decode_at(bytes, pos) {
            Ok(frame) => {
                proof {
                    let rest = bytes@.skip(pos as int);
                    assert(starts_with_frame(rest));
                    assert(rest.len() == bytes@.len() - pos);
                    assert(rest.skip(5) =~= bytes@.skip(pos + 5));
                    assert(frames@.push(frame) + decode_frames(rest.skip(5)) =~= frames@
                        + decode_frames(rest));
                }
                frames.push(frame);
                pos = pos + FRAME_LEN;
            },
            Err(_) => {
                proof {
                    assert(frames@ + decode_frames(bytes@.skip(pos as int)) =~= frames@);
                }
                return frames;
            },
        }
    }
}

/// The last frame in `frames` that reports a volume; later frames shadow
/// earlier ones.
pub fn last_volume(frames: &[ReceiverFrame]) -> (r: Option<&ReceiverFrame>)
    ensures
        match r {
            Some(f) => last_volume_frame(frames@) == Some(*f),
            None => last_volume_frame(frames@) == None::<ReceiverFrame>,
        },
{
    let mut found: Option<&ReceiverFrame> = None;
    let mut i: usize = 0;
    while i < frames.len()
        invariant
            i <= frames@.len(),
            match found {
                Some(f) => last_volume_frame(frames@.take(i as int)) == Some(*f),
                None => last_volume_frame(frames@.take(i as int)) == None::<ReceiverFrame>,
            },
        decreases frames@.len() - i,
    {
        proof {
            assert(frames@.take(i + 1).drop_last() =~= frames@.take(i as int));
        }
        if frames[i].command == OpCode::Volume {
            found = Some(&frames[i]);
        }
        i = i + 1;
    }
    proof {
        assert(frames@.take(i as int) =~= frames@);
    }
    found
}

/// Builds the frame with this opcode byte and payload.
pub fn encode_frame(opcode: u8, payload: u8) -> (r: [u8; 5])
    ensures
        r@ == frame_bytes(opcode, payload),
{
    let r = [0u8, 1u8, 2u8, opcode, payload];
    proof {
        assert(r@ =~= frame_bytes(opcode, payload));
    }
    r
}

/// The command that sets the receiver's volume to `volume` (0 to 180).
pub fn encode_volume_command(volume: u8) -> (r: [u8; 5])
    ensures
        r@ == frame_bytes(VOLUME_OPCODE, volume),
{
    encode_frame(VOLUME_OPCODE, volume)
}

/// The command that asks the receiver to report its volume.
pub fn encode_poll_command() -> (r: [u8; 5])
    ensures
        r@ == frame_bytes(POLL_OPCODE, POLL_PAYLOAD),
{
    encode_frame(POLL_OPCODE, POLL_PAYLOAD)
}


/// Decoding the encoding of any opcode byte and payload gives that payload and
/// the kind of that byte, and succeeds for bytes of no known kind too; a known
/// kind encodes back to the same byte.
pub proof fn lemma_frame_round_trip(opcode: u8, payload: u8)
    ensures
        decode_frame(frame_bytes(opcode, payload)) == Ok::<ReceiverFrame, ParseError>(
            ReceiverFrame { command: opcode_of(opcode), payload },
        ),
        opcode_of(opcode) != OpCode::Unknown ==> opcode_byte(opcode_of(opcode)) == Some(opcode),
{
}

/// Two whole frames followed by fewer than five trailing bytes decode to
/// exactly those two frames, without error.
pub proof fn lemma_partial_buffer(op1: u8, payload1: u8, op2: u8, payload2: u8, tail: Seq<u8>)
    requires
        tail.len() < 5,
    ensures
        decode_frames(frame_bytes(op1, payload1) + frame_bytes(op2, payload2) + tail) == seq![
            ReceiverFrame { command: opcode_of(op1), payload: payload1 },
            ReceiverFrame { command: opcode_of(op2), payload: payload2 },
        ],
{
    let s = frame_bytes(op1, payload1) + frame_bytes(op2, payload2) + tail;
    let s2 = frame_bytes(op2, payload2) + tail;
    assert(s.skip(5) =~= s2);
    assert(s2.skip(5) =~= tail);
    assert(!starts_with_frame(tail));
    assert(decode_frames(tail) == Seq::<ReceiverFrame>::empty());
    assert(starts_with_frame(s2));
    assert(decode_frames(s2) =~= seq![frame_of(s2)]);
    assert(starts_with_frame(s));
    assert(decode_frames(s) =~= seq![frame_of(s), frame_of(s2)]);
}

} // verus!
