//! Device-to-host reports: their values, their byte layout, and the
//! decoder and encoder between the two.
use vstd::prelude::*;
use vstd::string::StringSliceAdditionalSpecFns;
use vstd::utf8::{decode_utf8, encode_utf8, encode_utf8_decode_utf8, valid_utf8};

use arrayvec::{ArrayString, ArrayVec};

use crate::bounded::{
    debug_text, debug_text_from, debug_text_str, utf8_text, wide_bytes, wide_extend, wide_new,
    wide_push,
};
use crate::command::{be16, hi_byte, lo_byte, read_be16};
use crate::{Decoded, Error, MAX_DEBUG_MSG_LEN, MAX_REPORT_LEN};

verus! {

/// Tag of a heartbeat report, ASCII `H`.
pub const TAG_HEARTBEAT: u8 = 0x48;

/// Tag of a dial report, ASCII `V`.
pub const TAG_DIAL_VALUE: u8 = 0x56;

/// Tag of a press report, ASCII `P`.
pub const TAG_PRESS: u8 = 0x50;

/// Tag of a release report, ASCII `R`.
pub const TAG_RELEASE: u8 = 0x52;

/// Tag of an emergency-off report, ASCII `X`.
pub const TAG_EMERGENCY_OFF: u8 = 0x58;

/// Tag of an error report, ASCII `E`.
pub const TAG_ERROR: u8 = 0x45;

/// Tag of a debug report, ASCII `D`.
pub const TAG_DEBUG: u8 = 0x44;

/// Whether a byte is the tag of some report.
pub open spec fn is_report_tag(t: u8) -> bool {
    t == TAG_HEARTBEAT || t == TAG_DIAL_VALUE || t == TAG_PRESS || t == TAG_RELEASE || t
        == TAG_EMERGENCY_OFF || t == TAG_ERROR || t == TAG_DEBUG
}

/// The text of a debug report.
pub type DebugMessage = ArrayString<MAX_DEBUG_MSG_LEN>;

/// A report from the device to the host.
#[derive(Debug, PartialEq)]
pub enum Report {
    Heartbeat,
    DialValue { diff: i8 },
    Press,
    Release,
    EmergencyOff,
    Error { code: u16 },
    Debug { message: DebugMessage },
}

/// A report as a mathematical value; a debug report is its text.
pub enum ReportView {
    Heartbeat,
    DialValue { diff: i8 },
    Press,
    Release,
    EmergencyOff,
    Error { code: u16 },
    Debug { text: Seq<char> },
}

impl View for Report {
    type V = ReportView;

    open spec fn view(&self) -> ReportView {
        match *self {
            Report::Heartbeat => ReportView::Heartbeat,
            Report::DialValue { diff } => ReportView::DialValue { diff },
            Report::Press => ReportView::Press,
            Report::Release => ReportView::Release,
            Report::EmergencyOff => ReportView::EmergencyOff,
            Report::Error { code } => ReportView::Error { code },
            Report::Debug { message } => ReportView::Debug { text: debug_text(message) },
        }
    }
}

impl ReportView {
    /// The value of some `Report`: a debug text takes at most
    /// `MAX_DEBUG_MSG_LEN` bytes of UTF-8.
    pub open spec fn wf(self) -> bool {
        self matches ReportView::Debug { text } ==> encode_utf8(text).len() <= 254
    }
}

/// The bytes of a report: its tag, then its fields; a 16-bit code most
/// significant byte first; a debug text as its byte count, then its UTF-8
/// bytes.
pub open spec fn report_wire(r: ReportView) -> Seq<u8> {
    match r {
        ReportView::Heartbeat => seq![TAG_HEARTBEAT],
        ReportView::DialValue { diff } => seq![TAG_DIAL_VALUE, diff as u8],
        ReportView::Press => seq![TAG_PRESS],
        ReportView::Release => seq![TAG_RELEASE],
        ReportView::EmergencyOff => seq![TAG_EMERGENCY_OFF],
        ReportView::Error { code } => seq![TAG_ERROR, hi_byte(code), lo_byte(code)],
        ReportView::Debug { text } => seq![TAG_DEBUG, encode_utf8(text).len() as u8]
            + encode_utf8(text),
    }
}

/// What the front of a byte window holds, read as a report: nothing yet for
/// an empty window or one shorter than the report its first bytes announce;
/// an invalid message for an unknown tag, or a debug text that is too long
/// or not UTF-8; else the report and its length. Bytes after the report are
/// not looked at.
pub open spec fn decode_report(b: Seq<u8>) -> Decoded<ReportView> {
    if b.len() == 0 {
        Decoded::Incomplete
    } else if b[0] == TAG_HEARTBEAT {
        Decoded::Message(ReportView::Heartbeat, 1)
    } else if b[0] == TAG_PRESS {
        Decoded::Message(ReportView::Press, 1)
    } else if b[0] == TAG_RELEASE {
        Decoded::Message(ReportView::Release, 1)
    } else if b[0] == TAG_EMERGENCY_OFF {
        Decoded::Message(ReportView::EmergencyOff, 1)
    } else if b[0] == TAG_DIAL_VALUE {
        if b.len() < 2 {
            Decoded::Incomplete
        } else {
            Decoded::Message(ReportView::DialValue { diff: b[1] as i8 }, 2)
        }
    } else if b[0] == TAG_ERROR {
        if b.len() < 3 {
            Decoded::Incomplete
        } else {
            Decoded::Message(ReportView::Error { code: be16(b[1], b[2]) }, 3)
        }
    } else if b[0] == TAG_DEBUG {
        if b.len() < 2 {
            Decoded::Incomplete
        } else {
            let n: nat = 2 + b[1] as nat;
            if b.len() < n {
                Decoded::Incomplete
            } else if b[1] > 254 || !valid_utf8(b.subrange(2, n as int)) {
                Decoded::Invalid
            } else {
                Decoded::Message(ReportView::Debug { text: decode_utf8(b.subrange(2, n as int)) }, n)
            }
        }
    } else {
        Decoded::Invalid
    }
}

/// What a decoder's result says, in the terms of `decode_report`.
pub open spec fn report_outcome(r: Result<Option<(Report, usize)>, Error>) -> Decoded<ReportView> {
    match r {
        Ok(None) => Decoded::Incomplete,
        Ok(Some((m, n))) => Decoded::Message(m@, n as nat),
        Err(_) => Decoded::Invalid,
    }
}

impl Report {
    /// Decodes the report at the front of `buf`: `Ok(None)` while more
    /// bytes are needed, `Ok(Some((report, length)))` once it is whole,
    /// `Err(MalformedMessage)` when no report starts there.
    pub fn try_from(buf: &[u8]) -> (r: Result<Option<(Report, usize)>, Error>)
        ensures
            report_outcome(r) == decode_report(buf@),
            r is Err ==> r == Err::<Option<(Report, usize)>, Error>(Error::MalformedMessage),
    {
        if buf.len() == 0 {
            return Ok(None);
        }
        let tag = buf[0];
        if tag == TAG_HEARTBEAT {
            Ok(Some((Report::Heartbeat, 1)))
        } else if tag == TAG_PRESS {
            Ok(Some((Report::Press, 1)))
        } else if tag == TAG_RELEASE {
            Ok(Some((Report::Release, 1)))
        } else if tag == TAG_EMERGENCY_OFF {
            Ok(Some((Report::EmergencyOff, 1)))
        } else if tag == TAG_DIAL_VALUE {
            if buf.len() < 2 {
                Ok(None)
            } else {
                Ok(Some((Report::DialValue { diff: buf[1] as i8 }, 2)))
            }
        } else if tag == TAG_ERROR {
            if buf.len() < 3 {
                Ok(None)
            } else {
                Ok(Some((Report::Error { code: read_be16(buf[1], buf[2]) }, 3)))
            }
        } else if tag == TAG_DEBUG {
            if buf.len() < 2 {
                return Ok(None);
            }
            let len = buf[1] as usize;
            if buf.len() < 2 + len {
                return Ok(None);
            }
            if len > MAX_DEBUG_MSG_LEN {
                return Err(Error::MalformedMessage);
            }
            let text = match utf8_text(&buf[2..2 + len]) {
                Ok(text) => text,
                Err(_) => return Err(Error::MalformedMessage),
            };
            proof {
                encode_utf8_decode_utf8(text@);
            }
            match debug_text_from(text) {
                Ok(message) => Ok(Some((Report::Debug { message }, 2 + len))),
                Err(_) => Err(Error::MalformedMessage),
            }
        } else {
            Err(Error::MalformedMessage)
        }
    }

    /// The bytes of this report, as it goes on the wire.
    pub fn as_arrayvec(&self) -> (r: ArrayVec<u8, MAX_REPORT_LEN>)
        ensures
            wide_bytes(r) == report_wire(self@),
    {
        let mut buf = wide_new();
        match self {
            Report::Heartbeat => {
                wide_push(&mut buf, TAG_HEARTBEAT);
            },
            Report::DialValue { diff } => {
                wide_push(&mut buf, TAG_DIAL_VALUE);
                wide_push(&mut buf, *diff as u8);
            },
            Report::Press => {
                wide_push(&mut buf, TAG_PRESS);
            },
            Report::Release => {
                wide_push(&mut buf, TAG_RELEASE);
            },
            Report::EmergencyOff => {
                wide_push(&mut buf, TAG_EMERGENCY_OFF);
            },
            Report::Error { code } => {
                wide_push(&mut buf, TAG_ERROR);
                wide_push(&mut buf, (*code / 256) as u8);
                wide_push(&mut buf, (*code % 256) as u8);
            },
            Report::Debug { message } => {
                let bytes = debug_text_str(message).as_bytes();
                wide_push(&mut buf, TAG_DEBUG);
                wide_push(&mut buf, bytes.len() as u8);
                let _ = wide_extend(&mut buf, bytes);
            },
        }
        assert(wide_bytes(buf) =~= report_wire(self@));
        buf
    }
}

} // verus!
