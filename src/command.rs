//! Host-to-device commands: their values, their byte layout, and the
//! decoder and encoder between the two.
use vstd::prelude::*;

use arrayvec::ArrayVec;

use crate::bounded::{narrow_bytes, narrow_new, narrow_push};
use crate::{Decoded, Error, MAX_COMMAND_LEN};

verus! {

/// Tag of a power-cycle command, ASCII `A`.
pub const TAG_POWER_CYCLER: u8 = 0x41;

/// Tag of a brightness command, ASCII `B`.
pub const TAG_BRIGHTNESS: u8 = 0x42;

/// Tag of a temperature command, ASCII `C`.
pub const TAG_TEMPERATURE: u8 = 0x43;

/// Tag of a LED command, ASCII `D`.
pub const TAG_LED: u8 = 0x44;

/// Tag of a bootload command, ASCII `E`.
pub const TAG_BOOTLOAD: u8 = 0x45;

/// Tag of a fan-speed command, ASCII `F`.
pub const TAG_FAN_SPEED: u8 = 0x46;

/// Tag of a solid pulse mode, ASCII `S`.
pub const PULSE_SOLID: u8 = 0x53;

/// Tag of a dial-turn pulse mode, ASCII `D`.
pub const PULSE_DIAL_TURN: u8 = 0x44;

/// Tag of a breathing pulse mode, ASCII `B`.
pub const PULSE_BREATHING: u8 = 0x42;

/// The big-endian value of two bytes.
pub open spec fn be16(hi: u8, lo: u8) -> u16 {
    (hi as int * 256 + lo as int) as u16
}

/// The high byte of a 16-bit value.
pub open spec fn hi_byte(v: u16) -> u8 {
    (v / 256) as u8
}

/// The low byte of a 16-bit value.
pub open spec fn lo_byte(v: u16) -> u8 {
    (v % 256) as u8
}

/// A value read from two bytes, most significant first.
pub fn read_be16(hi: u8, lo: u8) -> (r: u16)
    ensures
        r == be16(hi, lo),
{
    (hi as u16) * 256 + (lo as u16)
}

/// A 16-bit value read back from its own two bytes is that value.
pub proof fn lemma_be16_bytes(v: u16)
    ensures
        be16(hi_byte(v), lo_byte(v)) == v,
{
}

/// A pulse interval in milliseconds; never zero.
#[derive(Debug, Clone, Copy, PartialEq, Eq, Structural)]
pub struct IntervalMs {
    ms: u16,
}

impl View for IntervalMs {
    type V = u16;

    closed spec fn view(&self) -> u16 {
        self.ms
    }
}

impl IntervalMs {
    #[verifier::type_invariant]
    spec fn is_nonzero(self) -> bool {
        self.ms != 0
    }

    /// The interval of `ms` milliseconds, or `None` for zero.
    pub fn new(ms: u16) -> (r: Option<IntervalMs>)
        ensures
            r is Some <==> ms != 0,
            r matches Some(i) ==> i@ == ms,
    {
        if ms == 0 {
            None
        } else {
            Some(IntervalMs { ms })
        }
    }

    /// The interval in milliseconds.
    pub fn get(self) -> (r: u16)
        ensures
            r == self@,
            r != 0,
    {
        proof {
            use_type_invariant(&self);
        }
        self.ms
    }
}

/// How a LED pulses.
#[derive(Debug, Clone, Copy, PartialEq, Eq, Structural)]
pub enum PulseMode {
    Solid,
    Breathing { interval_ms: IntervalMs },
    DialTurn,
}

/// A pulse mode as a mathematical value.
pub enum PulseModeView {
    Solid,
    Breathing { interval_ms: u16 },
    DialTurn,
}

impl View for PulseMode {
    type V = PulseModeView;

    open spec fn view(&self) -> PulseModeView {
        match self {
            PulseMode::Solid => PulseModeView::Solid,
            PulseMode::Breathing { interval_ms } => PulseModeView::Breathing {
                interval_ms: interval_ms@,
            },
            PulseMode::DialTurn => PulseModeView::DialTurn,
        }
    }
}

impl PulseModeView {
    /// Only a breathing pulse has a constraint: its interval is not zero.
    pub open spec fn wf(self) -> bool {
        self matches PulseModeView::Breathing { interval_ms } ==> interval_ms != 0
    }
}

/// The three bytes of a pulse mode: its tag, then a big-endian interval
/// (zero for the modes that have none).
pub open spec fn pulse_mode_wire(p: PulseModeView) -> Seq<u8> {
    match p {
        PulseModeView::Solid => seq![PULSE_SOLID, 0u8, 0u8],
        PulseModeView::DialTurn => seq![PULSE_DIAL_TURN, 0u8, 0u8],
        PulseModeView::Breathing { interval_ms } => seq![
            PULSE_BREATHING,
            hi_byte(interval_ms),
            lo_byte(interval_ms),
        ],
    }
}

/// The pulse mode that three bytes stand for, if any. The bytes after the
/// tag of a solid or dial-turn mode are not looked at.
pub open spec fn decode_pulse_mode(tag: u8, hi: u8, lo: u8) -> Option<PulseModeView> {
    if tag == PULSE_SOLID {
        Some(PulseModeView::Solid)
    } else if tag == PULSE_DIAL_TURN {
        Some(PulseModeView::DialTurn)
    } else if tag == PULSE_BREATHING && be16(hi, lo) != 0 {
        Some(PulseModeView::Breathing { interval_ms: be16(hi, lo) })
    } else {
        None
    }
}

impl PulseMode {
    /// The three bytes of this pulse mode.
    pub fn to_bytes(self) -> (r: [u8; 3])
        ensures
            r@ == pulse_mode_wire(self@),
    {
        match self {
            PulseMode::Solid => [PULSE_SOLID, 0, 0],
            PulseMode::DialTurn => [PULSE_DIAL_TURN, 0, 0],
            PulseMode::Breathing { interval_ms } => {
                let v = interval_ms.get();
                [PULSE_BREATHING, (v / 256) as u8, (v % 256) as u8]
            },
        }
    }

    /// The pulse mode that three bytes stand for; a zero breathing interval
    /// or an unknown tag is malformed.
    pub fn try_from(bytes: [u8; 3]) -> (r: Result<PulseMode, Error>)
        ensures
            match decode_pulse_mode(bytes@[0], bytes@[1], bytes@[2]) {
                Some(p) => r matches Ok(q) && q@ == p,
                None => r == Err::<PulseMode, Error>(Error::MalformedMessage),
            },
    {
        let tag = bytes[0];
        if tag == PULSE_SOLID {
            Ok(PulseMode::Solid)
        } else if tag == PULSE_DIAL_TURN {
            Ok(PulseMode::DialTurn)
        } else if tag == PULSE_BREATHING {
            match IntervalMs::new(read_be16(bytes[1], bytes[2])) {
                Some(interval_ms) => Ok(PulseMode::Breathing { interval_ms }),
                None => Err(Error::MalformedMessage),
            }
        } else {
            Err(Error::MalformedMessage)
        }
    }
}

/// A command from the host to the device.
#[derive(Debug, Clone, Copy, PartialEq, Eq, Structural)]
pub enum Command {
    PowerCycler { slot: u8, state: bool },
    Brightness { target: u8, value: u16 },
    Temperature { target: u8, value: u16 },
    Led { r: u8, g: u8, b: u8, pulse_mode: PulseMode },
    FanSpeed { target: u8, value: u16 },
    /// Restart in bootloader mode.
    Bootload,
}

/// A command as a mathematical value.
pub enum CommandView {
    PowerCycler { slot: u8, state: bool },
    Brightness { target: u8, value: u16 },
    Temperature { target: u8, value: u16 },
    Led { r: u8, g: u8, b: u8, pulse_mode: PulseModeView },
    FanSpeed { target: u8, value: u16 },
    Bootload,
}

impl View for Command {
    type V = CommandView;

    open spec fn view(&self) -> CommandView {
        match *self {
            Command::PowerCycler { slot, state } => CommandView::PowerCycler { slot, state },
            Command::Brightness { target, value } => CommandView::Brightness { target, value },
            Command::Temperature { target, value } => CommandView::Temperature { target, value },
            Command::Led { r, g, b, pulse_mode } => CommandView::Led {
                r,
                g,
                b,
                pulse_mode: pulse_mode@,
            },
            Command::FanSpeed { target, value } => CommandView::FanSpeed { target, value },
            Command::Bootload => CommandView::Bootload,
        }
    }
}

impl CommandView {
    /// The value of some `Command`: a breathing interval is never zero.
    pub open spec fn wf(self) -> bool {
        self matches CommandView::Led { pulse_mode, .. } ==> pulse_mode.wf()
    }
}

/// The bytes of a command: its tag, then its fields in order, 16-bit values
/// most significant byte first, a state as 1 or 0.
pub open spec fn command_wire(c: CommandView) -> Seq<u8> {
    match c {
        CommandView::PowerCycler { slot, state } => seq![
            TAG_POWER_CYCLER,
            slot,
            if state { 1u8 } else { 0u8 },
        ],
        CommandView::Brightness { target, value } => seq![
            TAG_BRIGHTNESS,
            target,
            hi_byte(value),
            lo_byte(value),
        ],
        CommandView::Temperature { target, value } => seq![
            TAG_TEMPERATURE,
            target,
            hi_byte(value),
            lo_byte(value),
        ],
        CommandView::Led { r, g, b, pulse_mode } => seq![TAG_LED, r, g, b] + pulse_mode_wire(
            pulse_mode,
        ),
        CommandView::FanSpeed { target, value } => seq![
            TAG_FAN_SPEED,
            target,
            hi_byte(value),
            lo_byte(value),
        ],
        CommandView::Bootload => seq![TAG_BOOTLOAD],
    }
}

/// The number of bytes of a command with the given tag, if the tag is known.
pub open spec fn command_len(tag: u8) -> Option<nat> {
    if tag == TAG_POWER_CYCLER {
        Some(3)
    } else if tag == TAG_BRIGHTNESS || tag == TAG_TEMPERATURE || tag == TAG_FAN_SPEED {
        Some(4)
    } else if tag == TAG_LED {
        Some(7)
    } else if tag == TAG_BOOTLOAD {
        Some(1)
    } else {
        None
    }
}

/// What the front of a byte window holds, read as a command: nothing yet
/// for an empty window or one shorter than its tag's length; an invalid
/// message for an unknown tag or a malformed pulse mode; else the command
/// and its length. Bytes after the command are not looked at.
pub open spec fn decode_command(b: Seq<u8>) -> Decoded<CommandView> {
    if b.len() == 0 {
        Decoded::Incomplete
    } else {
        match command_len(b[0]) {
            None => Decoded::Invalid,
            Some(n) => if b.len() < n {
                Decoded::Incomplete
            } else if b[0] == TAG_POWER_CYCLER {
                Decoded::Message(CommandView::PowerCycler { slot: b[1], state: b[2] != 0 }, n)
            } else if b[0] == TAG_BRIGHTNESS {
                Decoded::Message(CommandView::Brightness { target: b[1], value: be16(b[2], b[3]) }, n)
            } else if b[0] == TAG_TEMPERATURE {
                Decoded::Message(CommandView::Temperature { target: b[1], value: be16(b[2], b[3]) }, n)
            } else if b[0] == TAG_FAN_SPEED {
                Decoded::Message(CommandView::FanSpeed { target: b[1], value: be16(b[2], b[3]) }, n)
            } else if b[0] == TAG_LED {
                match decode_pulse_mode(b[4], b[5], b[6]) {
                    Some(pulse_mode) => Decoded::Message(
                        CommandView::Led { r: b[1], g: b[2], b: b[3], pulse_mode },
                        n,
                    ),
                    None => Decoded::Invalid,
                }
            } else {
                Decoded::Message(CommandView::Bootload, n)
            },
        }
    }
}

/// What a decoder's result says, in the terms of `decode_command`.
pub open spec fn command_outcome(r: Result<Option<(Command, usize)>, Error>) -> Decoded<CommandView> {
    match r {
        Ok(None) => Decoded::Incomplete,
        Ok(Some((c, n))) => Decoded::Message(c@, n as nat),
        Err(_) => Decoded::Invalid,
    }
}

impl Command {
    /// Decodes the command at the front of `buf`: `Ok(None)` while more
    /// bytes are needed, `Ok(Some((command, length)))` once it is whole,
    /// `Err(MalformedMessage)` when no command starts there.
    pub fn try_from(buf: &[u8]) -> (r: Result<Option<(Command, usize)>, Error>)
        ensures
            command_outcome(r) == decode_command(buf@),
            r is Err ==> r == Err::<Option<(Command, usize)>, Error>(Error::MalformedMessage),
    {
        if buf.len() == 0 {
            return Ok(None);
        }
        let tag = buf[0];
        let n: usize = if tag == TAG_POWER_CYCLER {
            3
        } else if tag == TAG_BRIGHTNESS || tag == TAG_TEMPERATURE || tag == TAG_FAN_SPEED {
            4
        } else if tag == TAG_LED {
            7
        } else if tag == TAG_BOOTLOAD {
            1
        } else {
            return Err(Error::MalformedMessage);
        };
        if buf.len() < n {
            return Ok(None);
        }
        let command = if tag == TAG_POWER_CYCLER {
            Command::PowerCycler { slot: buf[1], state: buf[2] != 0 }
        } else if tag == TAG_BRIGHTNESS {
            Command::Brightness { target: buf[1], value: read_be16(buf[2], buf[3]) }
        } else if tag == TAG_TEMPERATURE {
            Command::Temperature { target: buf[1], value: read_be16(buf[2], buf[3]) }
        } else if tag == TAG_FAN_SPEED {
            Command::FanSpeed { target: buf[1], value: read_be16(buf[2], buf[3]) }
        } else if tag == TAG_LED {
            match PulseMode::try_from([buf[4], buf[5], buf[6]]) {
                Ok(pulse_mode) => Command::Led { r: buf[1], g: buf[2], b: buf[3], pulse_mode },
                Err(e) => return Err(e),
            }
        } else {
            Command::Bootload
        };
        Ok(Some((command, n)))
    }

    /// The bytes of this command, as it goes on the wire.
    pub fn as_arrayvec(&self) -> (r: ArrayVec<u8, MAX_COMMAND_LEN>)
        ensures
            narrow_bytes(r) == command_wire(self@),
    {
        let mut buf = narrow_new();
        match *self {
            Command::PowerCycler { slot, state } => {
                narrow_push(&mut buf, TAG_POWER_CYCLER);
                narrow_push(&mut buf, slot);
                narrow_push(&mut buf, if state { 1 } else { 0 });
            },
            Command::Brightness { target, value } => {
                narrow_push(&mut buf, TAG_BRIGHTNESS);
                narrow_push(&mut buf, target);
                narrow_push(&mut buf, (value / 256) as u8);
                narrow_push(&mut buf, (value % 256) as u8);
            },
            Command::Temperature { target, value } => {
                narrow_push(&mut buf, TAG_TEMPERATURE);
                narrow_push(&mut buf, target);
                narrow_push(&mut buf, (value / 256) as u8);
                narrow_push(&mut buf, (value % 256) as u8);
            },
            Command::Led { r, g, b, pulse_mode } => {
                narrow_push(&mut buf, TAG_LED);
                narrow_push(&mut buf, r);
                narrow_push(&mut buf, g);
                narrow_push(&mut buf, b);
                let pulse = pulse_mode.to_bytes();
                narrow_push(&mut buf, pulse[0]);
                narrow_push(&mut buf, pulse[1]);
                narrow_push(&mut buf, pulse[2]);
            },
            Command::Bootload => {
                narrow_push(&mut buf, TAG_BOOTLOAD);
            },
            Command::FanSpeed { target, value } => {
                narrow_push(&mut buf, TAG_FAN_SPEED);
                narrow_push(&mut buf, target);
                narrow_push(&mut buf, (value / 256) as u8);
                narrow_push(&mut buf, (value % 256) as u8);
            },
        }
        assert(narrow_bytes(buf) =~= command_wire(self@));
        buf
    }
}

} // verus!
