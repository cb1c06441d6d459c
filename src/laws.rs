//! What holds of the codec and the readers across calls and inputs.
use vstd::prelude::*;
use vstd::utf8::{encode_utf8, encode_utf8_decode_utf8, encode_utf8_valid_utf8};

use crate::command::{
    command_len, command_wire, decode_command, lemma_be16_bytes, CommandView, PulseModeView,
    PULSE_BREATHING, TAG_LED,
};
use crate::reader::{command_decoder, drain_frames, feed, report_decoder};
use crate::report::{decode_report, is_report_tag, report_wire, ReportView};
use crate::{Decoded, Error, MAX_SERIAL_MESSAGE_LEN};

verus! {

/// The bytes of a command, whatever bytes follow them, decode to that
/// command and its length.
pub proof fn lemma_command_round_trip(c: CommandView, rest: Seq<u8>)
    requires
        c.wf(),
    ensures
        decode_command(command_wire(c) + rest) == Decoded::Message(c, command_wire(c).len()),
{
    let b = command_wire(c) + rest;
    match c {
        CommandView::Brightness { value, .. } => lemma_be16_bytes(value),
        CommandView::Temperature { value, .. } => lemma_be16_bytes(value),
        CommandView::FanSpeed { value, .. } => lemma_be16_bytes(value),
        CommandView::Led { pulse_mode, .. } => {
            if let PulseModeView::Breathing { interval_ms } = pulse_mode {
                lemma_be16_bytes(interval_ms);
            }
        },
        _ => {},
    }
    assert(b[0] == command_wire(c)[0]);
}

/// The bytes of a report, whatever bytes follow them, decode to that report
/// and its length.
pub proof fn lemma_report_round_trip(r: ReportView, rest: Seq<u8>)
    requires
        r.wf(),
    ensures
        decode_report(report_wire(r) + rest) == Decoded::Message(r, report_wire(r).len()),
{
    let b = report_wire(r) + rest;
    match r {
        ReportView::Error { code } => lemma_be16_bytes(code),
        ReportView::DialValue { diff } => assert((diff as u8) as i8 == diff) by (bit_vector),
        ReportView::Debug { text } => {
            let e = encode_utf8(text);
            encode_utf8_valid_utf8(text);
            encode_utf8_decode_utf8(text);
            assert(b.subrange(2, 2 + e.len() as int) =~= e);
        },
        _ => {},
    }
    assert(b[0] == report_wire(r)[0]);
}

/// A proper prefix of a command's bytes is incomplete: never invalid.
pub proof fn lemma_command_prefix_incomplete(c: CommandView, k: nat)
    requires
        c.wf(),
        k < command_wire(c).len(),
    ensures
        decode_command(command_wire(c).take(k as int)) == Decoded::<CommandView>::Incomplete,
{
    let w = command_wire(c);
    if k > 0 {
        assert(w.take(k as int)[0] == w[0]);
        assert(command_len(w[0]) == Some(w.len()));
    }
}

/// A proper prefix of a report's bytes is incomplete: never invalid.
pub proof fn lemma_report_prefix_incomplete(r: ReportView, k: nat)
    requires
        r.wf(),
        k < report_wire(r).len(),
    ensures
        decode_report(report_wire(r).take(k as int)) == Decoded::<ReportView>::Incomplete,
{
    let w = report_wire(r);
    if k > 0 {
        assert(w.take(k as int)[0] == w[0]);
    }
    if k > 1 {
        assert(w.take(k as int)[1] == w[1]);
    }
}

/// The bytes of messages, one after another.
pub open spec fn frames<V>(encode: spec_fn(V) -> Seq<u8>, ms: Seq<V>) -> Seq<u8>
    decreases ms.len(),
{
    if ms.len() == 0 {
        seq![]
    } else {
        encode(ms[0]) + frames(encode, ms.drop_first())
    }
}

/// A message that `decode` reads back from the bytes `encode` gives it,
/// whatever follows, and of whose bytes every proper prefix is incomplete;
/// its bytes fit in a reader's buffer.
pub open spec fn framed<V>(
    decode: spec_fn(Seq<u8>) -> Decoded<V>,
    encode: spec_fn(V) -> Seq<u8>,
    m: V,
) -> bool {
    &&& 0 < encode(m).len() <= MAX_SERIAL_MESSAGE_LEN
    &&& forall|rest: Seq<u8>| #[trigger]
        decode(encode(m) + rest) == Decoded::Message(m, encode(m).len())
    &&& forall|k: nat|
        k < encode(m).len() ==> #[trigger] decode(encode(m).take(k as int))
            == Decoded::<V>::Incomplete
}

/// Draining the bytes of whole messages returns all of them and empties
/// the buffer, when the batch has room for them.
proof fn lemma_drain_frames_all<V>(
    decode: spec_fn(Seq<u8>) -> Decoded<V>,
    encode: spec_fn(V) -> Seq<u8>,
    ms: Seq<V>,
    out: Seq<V>,
    max: nat,
    full: Error,
)
    requires
        decode(seq![]) == Decoded::<V>::Incomplete,
        forall|i: int| 0 <= i < ms.len() ==> framed(decode, encode, #[trigger] ms[i]),
        out.len() + ms.len() <= max,
    ensures
        drain_frames(decode, frames(encode, ms), out, max, full) == (
        Ok::<Seq<V>, Error>(out + ms),
        Seq::<u8>::empty(),
        ),
    decreases ms.len(),
{
    if ms.len() == 0 {
        assert(out + ms =~= out);
    } else {
        let e = encode(ms[0]);
        let tail = frames(encode, ms.drop_first());
        assert(framed(decode, encode, ms[0]));
        assert(decode(e + tail) == Decoded::Message(ms[0], e.len()));
        assert((e + tail).skip(e.len() as int) =~= tail);
        lemma_drain_frames_all(decode, encode, ms.drop_first(), out.push(ms[0]), max, full);
        assert(out.push(ms[0]) + ms.drop_first() =~= out + ms);
    }
}

/// Draining the bytes of more whole messages than the batch has room for
/// fails with the queue-full error.
proof fn lemma_drain_frames_overflow<V>(
    decode: spec_fn(Seq<u8>) -> Decoded<V>,
    encode: spec_fn(V) -> Seq<u8>,
    ms: Seq<V>,
    out: Seq<V>,
    max: nat,
    full: Error,
)
    requires
        forall|i: int| 0 <= i < ms.len() ==> framed(decode, encode, #[trigger] ms[i]),
        out.len() <= max < out.len() + ms.len(),
    ensures
        drain_frames(decode, frames(encode, ms), out, max, full).0 == Err::<Seq<V>, Error>(full),
    decreases ms.len(),
{
    let e = encode(ms[0]);
    let tail = frames(encode, ms.drop_first());
    assert(framed(decode, encode, ms[0]));
    assert(decode(e + tail) == Decoded::Message(ms[0], e.len()));
    assert((e + tail).skip(e.len() as int) =~= tail);
    if out.len() < max {
        lemma_drain_frames_overflow(decode, encode, ms.drop_first(), out.push(ms[0]), max, full);
    }
}

/// Feeding `bytes` to a reader that holds `buf`, one byte per call: the
/// messages of all the calls, in order, or the first error; and the bytes
/// left in the buffer.
pub open spec fn feed_each_byte<V>(
    decode: spec_fn(Seq<u8>) -> Decoded<V>,
    buf: Seq<u8>,
    bytes: Seq<u8>,
    max: nat,
    full: Error,
) -> (Result<Seq<V>, Error>, Seq<u8>)
    decreases bytes.len(),
{
    if bytes.len() == 0 {
        (Ok(seq![]), buf)
    } else {
        let first = feed(decode, buf, bytes.take(1), max, full);
        match first.0 {
            Ok(out) => {
                let later = feed_each_byte(decode, first.1, bytes.skip(1), max, full);
                (
                    match later.0 {
                        Ok(more) => Ok(out + more),
                        Err(e) => Err(e),
                    },
                    later.1,
                )
            },
            Err(e) => (Err(e), first.1),
        }
    }
}

/// `m` put in front of the messages of an outcome.
pub open spec fn prepend<V>(m: V, r: (Result<Seq<V>, Error>, Seq<u8>)) -> (
    Result<Seq<V>, Error>,
    Seq<u8>,
) {
    (
        match r.0 {
            Ok(more) => Ok(seq![m] + more),
            Err(e) => Err(e),
        },
        r.1,
    )
}

/// A reader that holds a proper prefix of a message's bytes, fed the rest
/// of them and then `rest` one byte per call, returns that message before
/// what `rest` alone would give.
proof fn lemma_feed_each_byte_one<V>(
    decode: spec_fn(Seq<u8>) -> Decoded<V>,
    encode: spec_fn(V) -> Seq<u8>,
    m: V,
    k: nat,
    rest: Seq<u8>,
    max: nat,
    full: Error,
)
    requires
        decode(seq![]) == Decoded::<V>::Incomplete,
        framed(decode, encode, m),
        k < encode(m).len(),
        max >= 1,
    ensures
        feed_each_byte(decode, encode(m).take(k as int), encode(m).skip(k as int) + rest, max, full)
            == prepend(m, feed_each_byte(decode, seq![], rest, max, full)),
    decreases encode(m).len() - k,
{
    let e = encode(m);
    let bytes = e.skip(k as int) + rest;
    let grown = e.take(k + 1 as int);
    let after = feed_each_byte(decode, seq![], rest, max, full);
    assert(bytes.take(1) =~= seq![e[k as int]]);
    assert(e.take(k as int) + bytes.take(1) =~= grown);
    assert(bytes.skip(1) =~= e.skip(k + 1 as int) + rest);
    if k + 1 < e.len() {
        assert(decode(grown) == Decoded::<V>::Incomplete);
        assert(feed(decode, e.take(k as int), bytes.take(1), max, full) == (
            Ok::<Seq<V>, Error>(seq![]),
            grown,
        ));
        lemma_feed_each_byte_one(decode, encode, m, k + 1, rest, max, full);
        if let Ok(more) = after.0 {
            assert(seq![] + (seq![m] + more) =~= seq![m] + more);
        }
    } else {
        assert(grown =~= e + seq![]);
        assert(bytes.skip(1) =~= rest);
        assert(decode(e + seq![]) == Decoded::Message(m, e.len()));
        assert((e + seq![]).skip(e.len() as int) =~= seq![]);
        assert(drain_frames(decode, seq![], seq![m], max, full) == (
            Ok::<Seq<V>, Error>(seq![m]),
            Seq::<u8>::empty(),
        ));
        assert(seq![].push(m) =~= seq![m]);
        assert(feed(decode, e.take(k as int), bytes.take(1), max, full) == (
            Ok::<Seq<V>, Error>(seq![m]),
            Seq::<u8>::empty(),
        ));
    }
}

/// The bytes of whole messages, fed to an empty reader one byte per call,
/// give all the messages and leave the buffer empty.
proof fn lemma_feed_each_byte_all<V>(
    decode: spec_fn(Seq<u8>) -> Decoded<V>,
    encode: spec_fn(V) -> Seq<u8>,
    ms: Seq<V>,
    max: nat,
    full: Error,
)
    requires
        decode(seq![]) == Decoded::<V>::Incomplete,
        forall|i: int| 0 <= i < ms.len() ==> framed(decode, encode, #[trigger] ms[i]),
        max >= 1,
    ensures
        feed_each_byte(decode, seq![], frames(encode, ms), max, full) == (
        Ok::<Seq<V>, Error>(ms),
        Seq::<u8>::empty(),
        ),
    decreases ms.len(),
{
    if ms.len() > 0 {
        let e = encode(ms[0]);
        let tail = frames(encode, ms.drop_first());
        assert(framed(decode, encode, ms[0]));
        assert(e.take(0) =~= seq![]);
        assert(e.skip(0) + tail =~= frames(encode, ms));
        lemma_feed_each_byte_one(decode, encode, ms[0], 0, tail, max, full);
        lemma_feed_each_byte_all(decode, encode, ms.drop_first(), max, full);
        assert(seq![ms[0]] + ms.drop_first() =~= ms);
    } else {
        assert(ms =~= seq![]);
    }
}

/// The command encoder, as a value.
pub open spec fn command_encoder() -> spec_fn(CommandView) -> Seq<u8> {
    |c: CommandView| command_wire(c)
}

/// The report encoder, as a value.
pub open spec fn report_encoder() -> spec_fn(ReportView) -> Seq<u8> {
    |r: ReportView| report_wire(r)
}

proof fn lemma_command_framed(c: CommandView)
    requires
        c.wf(),
    ensures
        framed(command_decoder(), command_encoder(), c),
{
    assert forall|rest: Seq<u8>|
        #[trigger] command_decoder()(command_encoder()(c) + rest) == Decoded::Message(
            c,
            command_encoder()(c).len(),
        ) by {
        lemma_command_round_trip(c, rest);
    }
    assert forall|k: nat| k < command_encoder()(c).len() implies #[trigger] command_decoder()(
        command_encoder()(c).take(k as int),
    ) == Decoded::<CommandView>::Incomplete by {
        lemma_command_prefix_incomplete(c, k);
    }
}

proof fn lemma_report_framed(r: ReportView)
    requires
        r.wf(),
    ensures
        framed(report_decoder(), report_encoder(), r),
{
    assert forall|rest: Seq<u8>|
        #[trigger] report_decoder()(report_encoder()(r) + rest) == Decoded::Message(
            r,
            report_encoder()(r).len(),
        ) by {
        lemma_report_round_trip(r, rest);
    }
    assert forall|k: nat| k < report_encoder()(r).len() implies #[trigger] report_decoder()(
        report_encoder()(r).take(k as int),
    ) == Decoded::<ReportView>::Incomplete by {
        lemma_report_prefix_incomplete(r, k);
    }
}

proof fn lemma_commands_framed(cs: Seq<CommandView>)
    requires
        forall|i: int| 0 <= i < cs.len() ==> (#[trigger] cs[i]).wf(),
    ensures
        forall|i: int| 0 <= i < cs.len() ==> framed(command_decoder(), command_encoder(), #[trigger] cs[i]),
        command_decoder()(seq![]) == Decoded::<CommandView>::Incomplete,
{
    assert forall|i: int| 0 <= i < cs.len() implies framed(command_decoder(), command_encoder(), #[trigger] cs[i]) by {
        lemma_command_framed(cs[i]);
    }
}

proof fn lemma_reports_framed(rs: Seq<ReportView>)
    requires
        forall|i: int| 0 <= i < rs.len() ==> (#[trigger] rs[i]).wf(),
    ensures
        forall|i: int| 0 <= i < rs.len() ==> framed(report_decoder(), report_encoder(), #[trigger] rs[i]),
        report_decoder()(seq![]) == Decoded::<ReportView>::Incomplete,
{
    assert forall|i: int| 0 <= i < rs.len() implies framed(report_decoder(), report_encoder(), #[trigger] rs[i]) by {
        lemma_report_framed(rs[i]);
    }
}

/// Commands whose bytes fit in the buffer, fed to an empty reader that may
/// return all of them, come out the same whether the bytes arrive in one
/// call or one byte per call: all of them, in order, with the buffer left
/// empty.
pub proof fn lemma_command_chunking(cs: Seq<CommandView>, max: nat)
    requires
        forall|i: int| 0 <= i < cs.len() ==> (#[trigger] cs[i]).wf(),
        frames(command_encoder(), cs).len() <= MAX_SERIAL_MESSAGE_LEN,
        cs.len() <= max,
    ensures
        feed(command_decoder(), seq![], frames(command_encoder(), cs), max, Error::CommandQueueFull)
            == (Ok::<Seq<CommandView>, Error>(cs), Seq::<u8>::empty()),
        feed_each_byte(
            command_decoder(),
            seq![],
            frames(command_encoder(), cs),
            max,
            Error::CommandQueueFull,
        ) == feed(
            command_decoder(),
            seq![],
            frames(command_encoder(), cs),
            max,
            Error::CommandQueueFull,
        ),
{
    lemma_commands_framed(cs);
    let bytes = frames(command_encoder(), cs);
    assert(seq![] + bytes =~= bytes);
    lemma_drain_frames_all(command_decoder(), command_encoder(), cs, seq![], max, Error::CommandQueueFull);
    assert(seq![] + cs =~= cs);
    if cs.len() > 0 {
        lemma_feed_each_byte_all(command_decoder(), command_encoder(), cs, max, Error::CommandQueueFull);
    } else {
        assert(bytes =~= seq![]);
    }
}

/// Reports whose bytes fit in the buffer, fed to an empty reader that may
/// return all of them, come out the same whether the bytes arrive in one
/// call or one byte per call: all of them, in order, with the buffer left
/// empty.
pub proof fn lemma_report_chunking(rs: Seq<ReportView>, max: nat)
    requires
        forall|i: int| 0 <= i < rs.len() ==> (#[trigger] rs[i]).wf(),
        frames(report_encoder(), rs).len() <= MAX_SERIAL_MESSAGE_LEN,
        rs.len() <= max,
    ensures
        feed(report_decoder(), seq![], frames(report_encoder(), rs), max, Error::ReportQueueFull)
            == (Ok::<Seq<ReportView>, Error>(rs), Seq::<u8>::empty()),
        feed_each_byte(
            report_decoder(),
            seq![],
            frames(report_encoder(), rs),
            max,
            Error::ReportQueueFull,
        ) == feed(
            report_decoder(),
            seq![],
            frames(report_encoder(), rs),
            max,
            Error::ReportQueueFull,
        ),
{
    lemma_reports_framed(rs);
    let bytes = frames(report_encoder(), rs);
    assert(seq![] + bytes =~= bytes);
    lemma_drain_frames_all(report_decoder(), report_encoder(), rs, seq![], max, Error::ReportQueueFull);
    assert(seq![] + rs =~= rs);
    if rs.len() > 0 {
        lemma_feed_each_byte_all(report_decoder(), report_encoder(), rs, max, Error::ReportQueueFull);
    } else {
        assert(bytes =~= seq![]);
    }
}

/// All but the last byte of a message, fed to an empty reader, give no
/// message and no error; the last byte, fed next, gives that message and
/// empties the buffer.
proof fn lemma_partial_frame<V>(
    decode: spec_fn(Seq<u8>) -> Decoded<V>,
    encode: spec_fn(V) -> Seq<u8>,
    m: V,
    max: nat,
    full: Error,
)
    requires
        decode(seq![]) == Decoded::<V>::Incomplete,
        framed(decode, encode, m),
        max >= 1,
    ensures
        ({
            let w = encode(m);
            let head = w.take(w.len() - 1);
            &&& feed(decode, seq![], head, max, full) == (Ok::<Seq<V>, Error>(seq![]), head)
            &&& feed(decode, head, w.skip(w.len() - 1), max, full) == (
            Ok::<Seq<V>, Error>(seq![m]),
            Seq::<u8>::empty(),
            )
        }),
{
    let w = encode(m);
    let head = w.take(w.len() - 1);
    assert(seq![] + head =~= head);
    assert(decode(w.take((w.len() - 1) as nat as int)) == Decoded::<V>::Incomplete);
    assert(head + w.skip(w.len() - 1) =~= w + seq![]);
    assert(decode(w + seq![]) == Decoded::Message(m, w.len()));
    assert((w + seq![]).skip(w.len() as int) =~= seq![]);
    assert(drain_frames(decode, seq![], seq![m], max, full) == (
        Ok::<Seq<V>, Error>(seq![m]),
        Seq::<u8>::empty(),
    ));
    assert(seq![].push(m) =~= seq![m]);
}

/// All but the last byte of a command, fed to an empty reader, give no
/// command and no error; the last byte, fed next to a reader that may
/// return a command, gives that command and empties the buffer.
pub proof fn lemma_command_partial_frame(c: CommandView, max: nat)
    requires
        c.wf(),
        max >= 1,
    ensures
        ({
            let w = command_wire(c);
            let head = w.take(w.len() - 1);
            &&& feed(command_decoder(), seq![], head, max, Error::CommandQueueFull) == (
            Ok::<Seq<CommandView>, Error>(seq![]),
            head,
            )
            &&& feed(command_decoder(), head, w.skip(w.len() - 1), max, Error::CommandQueueFull)
                == (Ok::<Seq<CommandView>, Error>(seq![c]), Seq::<u8>::empty())
        }),
{
    lemma_commands_framed(seq![c]);
    lemma_command_framed(c);
    lemma_partial_frame(command_decoder(), command_encoder(), c, max, Error::CommandQueueFull);
}

/// All but the last byte of a report, fed to an empty reader, give no
/// report and no error; the last byte, fed next to a reader that may
/// return a report, gives that report and empties the buffer.
pub proof fn lemma_report_partial_frame(r: ReportView, max: nat)
    requires
        r.wf(),
        max >= 1,
    ensures
        ({
            let w = report_wire(r);
            let head = w.take(w.len() - 1);
            &&& feed(report_decoder(), seq![], head, max, Error::ReportQueueFull) == (
            Ok::<Seq<ReportView>, Error>(seq![]),
            head,
            )
            &&& feed(report_decoder(), head, w.skip(w.len() - 1), max, Error::ReportQueueFull)
                == (Ok::<Seq<ReportView>, Error>(seq![r]), Seq::<u8>::empty())
        }),
{
    lemma_reports_framed(seq![r]);
    lemma_report_framed(r);
    lemma_partial_frame(report_decoder(), report_encoder(), r, max, Error::ReportQueueFull);
}

/// Bytes that would take the buffer past its capacity are refused whole
/// with `BufferFull`, and the buffer keeps what it held.
pub proof fn lemma_overflow_is_buffer_full<V>(
    decode: spec_fn(Seq<u8>) -> Decoded<V>,
    buf: Seq<u8>,
    chunk: Seq<u8>,
    max: nat,
    full: Error,
)
    requires
        buf.len() + chunk.len() > MAX_SERIAL_MESSAGE_LEN,
    ensures
        feed(decode, buf, chunk, max, full) == (Err::<Seq<V>, Error>(Error::BufferFull), buf),
{
}

/// A buffer that starts with a byte that is no command's tag gives
/// `MalformedMessage`, and its bytes stay where they are.
pub proof fn lemma_command_unknown_tag(buf: Seq<u8>, chunk: Seq<u8>, max: nat)
    requires
        buf.len() + chunk.len() <= MAX_SERIAL_MESSAGE_LEN,
        (buf + chunk).len() > 0,
        command_len((buf + chunk)[0]) is None,
    ensures
        feed(command_decoder(), buf, chunk, max, Error::CommandQueueFull) == (
        Err::<Seq<CommandView>, Error>(Error::MalformedMessage),
        buf + chunk,
        ),
{
}

/// A buffer that starts with a byte that is no report's tag gives
/// `MalformedMessage`, and its bytes stay where they are.
pub proof fn lemma_report_unknown_tag(buf: Seq<u8>, chunk: Seq<u8>, max: nat)
    requires
        buf.len() + chunk.len() <= MAX_SERIAL_MESSAGE_LEN,
        (buf + chunk).len() > 0,
        !is_report_tag((buf + chunk)[0]),
    ensures
        feed(report_decoder(), buf, chunk, max, Error::ReportQueueFull) == (
        Err::<Seq<ReportView>, Error>(Error::MalformedMessage),
        buf + chunk,
        ),
{
}

/// A LED command whose breathing interval is zero gives `MalformedMessage`,
/// whatever follows it, and its bytes stay where they are.
pub proof fn lemma_zero_breathing_malformed(r: u8, g: u8, b: u8, rest: Seq<u8>, max: nat)
    requires
        7 + rest.len() <= MAX_SERIAL_MESSAGE_LEN,
    ensures
        ({
            let bytes = seq![TAG_LED, r, g, b, PULSE_BREATHING, 0u8, 0u8] + rest;
            feed(command_decoder(), seq![], bytes, max, Error::CommandQueueFull) == (
            Err::<Seq<CommandView>, Error>(Error::MalformedMessage),
            bytes,
            )
        }),
{
    let bytes = seq![TAG_LED, r, g, b, PULSE_BREATHING, 0u8, 0u8] + rest;
    assert(seq![] + bytes =~= bytes);
    assert(bytes[4] == PULSE_BREATHING && bytes[5] == 0 && bytes[6] == 0);
}

/// More whole commands in one call than the batch allows give
/// `CommandQueueFull`.
pub proof fn lemma_command_queue_bound(cs: Seq<CommandView>, max: nat)
    requires
        forall|i: int| 0 <= i < cs.len() ==> (#[trigger] cs[i]).wf(),
        frames(command_encoder(), cs).len() <= MAX_SERIAL_MESSAGE_LEN,
        cs.len() > max,
    ensures
        feed(command_decoder(), seq![], frames(command_encoder(), cs), max, Error::CommandQueueFull).0
            == Err::<Seq<CommandView>, Error>(Error::CommandQueueFull),
{
    lemma_commands_framed(cs);
    assert(seq![] + frames(command_encoder(), cs) =~= frames(command_encoder(), cs));
    lemma_drain_frames_overflow(command_decoder(), command_encoder(), cs, seq![], max, Error::CommandQueueFull);
}

/// More whole reports in one call than the batch allows give
/// `ReportQueueFull`.
pub proof fn lemma_report_queue_bound(rs: Seq<ReportView>, max: nat)
    requires
        forall|i: int| 0 <= i < rs.len() ==> (#[trigger] rs[i]).wf(),
        frames(report_encoder(), rs).len() <= MAX_SERIAL_MESSAGE_LEN,
        rs.len() > max,
    ensures
        feed(report_decoder(), seq![], frames(report_encoder(), rs), max, Error::ReportQueueFull).0
            == Err::<Seq<ReportView>, Error>(Error::ReportQueueFull),
{
    lemma_reports_framed(rs);
    assert(seq![] + frames(report_encoder(), rs) =~= frames(report_encoder(), rs));
    lemma_drain_frames_overflow(report_decoder(), report_encoder(), rs, seq![], max, Error::ReportQueueFull);
}

} // verus!
