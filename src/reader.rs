//! Incremental readers: each keeps the unconsumed tail of a byte stream in
//! a bounded buffer and hands out the whole messages that it completes.
//!
//! When a call decodes more messages than the caller accepts, the call fails
//! with a queue-full error. The messages decoded by that call are then lost:
//! their bytes, and those of the message that did not fit, have left the
//! buffer. This is deliberate, and matches the protocol's reference readers;
//! a caller that cannot lose messages asks for a batch at least as large as
//! the number of messages that its input can hold.
use vstd::prelude::*;

use arrayvec::ArrayVec;

use crate::bounded::{wide_bytes, wide_drop_front, wide_extend, wide_new, wide_slice};
use crate::command::{decode_command, Command, CommandView};
use crate::report::{decode_report, Report, ReportView};
use crate::{Decoded, Error, MAX_SERIAL_MESSAGE_LEN};

verus! {

/// Takes messages off the front of `buf`, after the `out` already taken, as
/// long as `decode` finds whole ones. It stops with the messages when more
/// bytes are needed, with `MalformedMessage` when the front is invalid
/// (leaving those bytes in place), and with `full` when one more message is
/// found than `max` allows (that message's bytes are gone). Returns the
/// outcome and the bytes left. A decoder that claims more bytes than there
/// are counts as invalid.
pub open spec fn drain_frames<V>(
    decode: spec_fn(Seq<u8>) -> Decoded<V>,
    buf: Seq<u8>,
    out: Seq<V>,
    max: nat,
    full: Error,
) -> (Result<Seq<V>, Error>, Seq<u8>)
    decreases buf.len(),
{
    match decode(buf) {
        Decoded::Incomplete => (Ok(out), buf),
        Decoded::Invalid => (Err(Error::MalformedMessage), buf),
        Decoded::Message(m, n) => if 0 < n <= buf.len() {
            if out.len() < max {
                drain_frames(decode, buf.skip(n as int), out.push(m), max, full)
            } else {
                (Err(full), buf.skip(n as int))
            }
        } else {
            (Err(Error::MalformedMessage), buf)
        },
    }
}

/// One call of a reader whose buffer holds `buf`, handed `chunk`: fails with
/// `BufferFull`, keeping `buf`, when the two do not fit together in the
/// buffer; else drains the messages of `buf + chunk`. Returns the outcome
/// and the bytes left.
pub open spec fn feed<V>(
    decode: spec_fn(Seq<u8>) -> Decoded<V>,
    buf: Seq<u8>,
    chunk: Seq<u8>,
    max: nat,
    full: Error,
) -> (Result<Seq<V>, Error>, Seq<u8>) {
    if buf.len() + chunk.len() > MAX_SERIAL_MESSAGE_LEN {
        (Err(Error::BufferFull), buf)
    } else {
        drain_frames(decode, buf + chunk, seq![], max, full)
    }
}

/// The report decoder, as a value.
pub open spec fn report_decoder() -> spec_fn(Seq<u8>) -> Decoded<ReportView> {
    |b: Seq<u8>| decode_report(b)
}

/// The command decoder, as a value.
pub open spec fn command_decoder() -> spec_fn(Seq<u8>) -> Decoded<CommandView> {
    |b: Seq<u8>| decode_command(b)
}

/// The views of a sequence of reports.
pub open spec fn report_views(s: Seq<Report>) -> Seq<ReportView> {
    s.map_values(|x: Report| x@)
}

/// The views of a sequence of commands.
pub open spec fn command_views(s: Seq<Command>) -> Seq<CommandView> {
    s.map_values(|x: Command| x@)
}

/// The views of a reader's result.
pub open spec fn report_batch(r: Result<Vec<Report>, Error>) -> Result<Seq<ReportView>, Error> {
    match r {
        Ok(v) => Ok(report_views(v@)),
        Err(e) => Err(e),
    }
}

/// The views of a reader's result.
pub open spec fn command_batch(r: Result<Vec<Command>, Error>) -> Result<Seq<CommandView>, Error> {
    match r {
        Ok(v) => Ok(command_views(v@)),
        Err(e) => Err(e),
    }
}

/// A stream reader for the reports that a device sends.
pub struct ReportReader {
    pub buf: ArrayVec<u8, MAX_SERIAL_MESSAGE_LEN>,
}

impl View for ReportReader {
    type V = Seq<u8>;

    /// The bytes held for the next call.
    open spec fn view(&self) -> Seq<u8> {
        wide_bytes(self.buf)
    }
}

impl ReportReader {
    /// A reader that holds no bytes.
    pub fn new() -> (r: Self)
        ensures
            r@ == Seq::<u8>::empty(),
    {
        ReportReader { buf: wide_new() }
    }

    /// Appends `bytes` to the buffer and takes the whole reports off its
    /// front, in order. Fails with `BufferFull`, keeping the buffer as it
    /// was, when `bytes` do not fit; with `MalformedMessage`, keeping the
    /// invalid bytes at the front, when no message starts there; and with
    /// `ReportQueueFull` when more than `max_batch` reports are whole (see the
    /// module's note on what is then lost). `feed` states each outcome.
    pub fn process_bytes(&mut self, bytes: &[u8], max_batch: usize) -> (r: Result<
        Vec<Report>,
        Error,
    >)
        ensures
            report_batch(r) == feed(
                report_decoder(),
                old(self)@,
                bytes@,
                max_batch as nat,
                Error::ReportQueueFull,
            ).0,
            final(self)@ == feed(
                report_decoder(),
                old(self)@,
                bytes@,
                max_batch as nat,
                Error::ReportQueueFull,
            ).1,
    {
        let ghost start = self@;
        match wide_extend(&mut self.buf, bytes) {
            Ok(()) => {},
            Err(_) => return Err(Error::BufferFull),
        }
        let mut output: Vec<Report> = Vec::new();
        assert(report_views(output@) =~= seq![]);
        loop
            invariant
                start == old(self)@,
                wide_bytes(self.buf).len() <= MAX_SERIAL_MESSAGE_LEN,
                output@.len() <= max_batch,
                drain_frames(
                    report_decoder(),
                    self@,
                    report_views(output@),
                    max_batch as nat,
                    Error::ReportQueueFull,
                ) == feed(
                    report_decoder(),
                    start,
                    bytes@,
                    max_batch as nat,
                    Error::ReportQueueFull,
                ),
            decreases self@.len(),
        {
            let ghost before = self@;
            let ghost taken = report_views(output@);
            let result = Report::try_from(wide_slice(&self.buf));
            match result {
                Ok(Some((report, n))) => {
                    wide_drop_front(&mut self.buf, n);
                    if output.len() < max_batch {
                        let ghost view = report@;
                        output.push(report);
                        assert(report_views(output@) =~= taken.push(view));
                    } else {
                        return Err(Error::ReportQueueFull);
                    }
                },
                Err(_) => return Err(Error::MalformedMessage),
                Ok(None) => return Ok(output),
            }
        }
    }
}

impl Default for ReportReader {
    fn default() -> (r: Self)
        ensures
            r@ == Seq::<u8>::empty(),
    {
        Self::new()
    }
}

/// A stream reader for the commands that a host sends.
pub struct CommandReader {
    buf: ArrayVec<u8, MAX_SERIAL_MESSAGE_LEN>,
}

impl View for CommandReader {
    type V = Seq<u8>;

    /// The bytes held for the next call.
    closed spec fn view(&self) -> Seq<u8> {
        wide_bytes(self.buf)
    }
}

impl CommandReader {
    /// A reader that holds no bytes.
    pub fn new() -> (r: Self)
        ensures
            r@ == Seq::<u8>::empty(),
    {
        CommandReader { buf: wide_new() }
    }

    /// Appends `bytes` to the buffer and takes the whole commands off its
    /// front, in order. Fails with `BufferFull`, keeping the buffer as it
    /// was, when `bytes` do not fit; with `MalformedMessage`, keeping the
    /// invalid bytes at the front, when no message starts there; and with
    /// `CommandQueueFull` when more than `max_batch` commands are whole (see the
    /// module's note on what is then lost). `feed` states each outcome.
    pub fn process_bytes(&mut self, bytes: &[u8], max_batch: usize) -> (r: Result<
        Vec<Command>,
        Error,
    >)
        ensures
            command_batch(r) == feed(
                command_decoder(),
                old(self)@,
                bytes@,
                max_batch as nat,
                Error::CommandQueueFull,
            ).0,
            final(self)@ == feed(
                command_decoder(),
                old(self)@,
                bytes@,
                max_batch as nat,
                Error::CommandQueueFull,
            ).1,
    {
        let ghost start = self@;
        match wide_extend(&mut self.buf, bytes) {
            Ok(()) => {},
            Err(_) => return Err(Error::BufferFull),
        }
        let mut output: Vec<Command> = Vec::new();
        assert(command_views(output@) =~= seq![]);
        loop
            invariant
                start == old(self)@,
                wide_bytes(self.buf).len() <= MAX_SERIAL_MESSAGE_LEN,
                output@.len() <= max_batch,
                drain_frames(
                    command_decoder(),
                    self@,
                    command_views(output@),
                    max_batch as nat,
                    Error::CommandQueueFull,
                ) == feed(
                    command_decoder(),
                    start,
                    bytes@,
                    max_batch as nat,
                    Error::CommandQueueFull,
                ),
            decreases self@.len(),
        {
            let ghost before = self@;
            let ghost taken = command_views(output@);
            let result = Command::try_from(wide_slice(&self.buf));
            match result {
                Ok(Some((command, n))) => {
                    wide_drop_front(&mut self.buf, n);
                    if output.len() < max_batch {
                        let ghost view = command@;
                        output.push(command);
                        assert(command_views(output@) =~= taken.push(view));
                    } else {
                        return Err(Error::CommandQueueFull);
                    }
                },
                Err(_) => return Err(Error::MalformedMessage),
                Ok(None) => return Ok(output),
            }
        }
    }
}

impl Default for CommandReader {
    fn default() -> (r: Self)
        ensures
            r@ == Seq::<u8>::empty(),
    {
        Self::new()
    }
}

} // verus!
