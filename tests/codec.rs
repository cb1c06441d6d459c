use panel_protocol::{
    ArrayString, Command, CommandReader, Error, IntervalMs, PulseMode, Report, ReportReader,
    MAX_COMMAND_LEN, MAX_DEBUG_MSG_LEN, MAX_REPORT_LEN, MAX_SERIAL_MESSAGE_LEN,
};

fn breathing(ms: u16) -> PulseMode {
    PulseMode::Breathing { interval_ms: IntervalMs::new(ms).unwrap() }
}

fn debug_report(text: &str) -> Report {
    Report::Debug { message: ArrayString::from(text).unwrap() }
}

fn all_commands() -> Vec<Command> {
    vec![
        Command::PowerCycler { slot: 7, state: true },
        Command::PowerCycler { slot: 0, state: false },
        Command::Brightness { target: 3, value: 0xBEEF },
        Command::Temperature { target: 4, value: 0 },
        Command::Led { r: 1, g: 2, b: 3, pulse_mode: PulseMode::Solid },
        Command::Led { r: 1, g: 2, b: 3, pulse_mode: PulseMode::DialTurn },
        Command::Led { r: 1, g: 2, b: 3, pulse_mode: breathing(1) },
        Command::Led { r: 1, g: 2, b: 3, pulse_mode: breathing(u16::MAX) },
        Command::FanSpeed { target: 9, value: 65535 },
        Command::Bootload,
    ]
}

fn all_reports() -> Vec<Report> {
    let longest: String = std::iter::repeat('x').take(MAX_DEBUG_MSG_LEN).collect();
    vec![
        Report::Heartbeat,
        Report::DialValue { diff: -128 },
        Report::DialValue { diff: 127 },
        Report::Press,
        Report::Release,
        Report::EmergencyOff,
        Report::Error { code: 0x1234 },
        debug_report(""),
        debug_report("a"),
        debug_report("grüße"),
        debug_report(&longest),
    ]
}

#[test]
fn protocol_constants() {
    assert_eq!(MAX_COMMAND_LEN, 8);
    assert_eq!(MAX_REPORT_LEN, 256);
    assert_eq!(MAX_DEBUG_MSG_LEN, 254);
    assert_eq!(MAX_SERIAL_MESSAGE_LEN, 256);
}

#[test]
fn every_command_round_trips_with_its_length() {
    for command in all_commands() {
        let bytes = command.as_arrayvec();
        assert_eq!(Command::try_from(&bytes[..]).unwrap(), Some((command, bytes.len())));
    }
}

#[test]
fn every_report_round_trips_with_its_length() {
    for report in all_reports() {
        let bytes = report.as_arrayvec();
        let (decoded, len) = Report::try_from(&bytes[..]).unwrap().unwrap();
        assert_eq!(decoded, report);
        assert_eq!(len, bytes.len());
    }
}

#[test]
fn debug_lengths_on_the_wire() {
    assert_eq!(&debug_report("").as_arrayvec()[..], &[b'D', 0]);
    assert_eq!(&debug_report("a").as_arrayvec()[..], &[b'D', 1, b'a']);
    let longest: String = std::iter::repeat('x').take(MAX_DEBUG_MSG_LEN).collect();
    let bytes = debug_report(&longest).as_arrayvec();
    assert_eq!(bytes.len(), MAX_REPORT_LEN);
    assert_eq!(bytes[1], 254);
}

#[test]
fn led_breathing_encodes_to_known_bytes() {
    let command = Command::Led { r: 0, g: 128, b: 255, pulse_mode: breathing(4000) };
    let bytes = command.as_arrayvec();
    assert_eq!(&bytes[..], &[b'D', 0x00, 0x80, 0xFF, b'B', 0x0F, 0xA0]);
    assert_eq!(Command::try_from(&bytes[..]).unwrap(), Some((command, 7)));
}

#[test]
fn command_bytes_are_big_endian() {
    assert_eq!(&Command::PowerCycler { slot: 5, state: true }.as_arrayvec()[..], &[b'A', 5, 1]);
    assert_eq!(&Command::PowerCycler { slot: 5, state: false }.as_arrayvec()[..], &[b'A', 5, 0]);
    assert_eq!(&Command::Brightness { target: 1, value: 0x0102 }.as_arrayvec()[..], &[b'B', 1, 1, 2]);
    assert_eq!(&Command::Temperature { target: 2, value: 600 }.as_arrayvec()[..], &[b'C', 2, 2, 88]);
    assert_eq!(&Command::FanSpeed { target: 3, value: 0xABCD }.as_arrayvec()[..], &[b'F', 3, 0xAB, 0xCD]);
    assert_eq!(&Command::Bootload.as_arrayvec()[..], &[b'E']);
    let solid = Command::Led { r: 9, g: 8, b: 7, pulse_mode: PulseMode::Solid };
    assert_eq!(&solid.as_arrayvec()[..], &[b'D', 9, 8, 7, b'S', 0, 0]);
    let dial = Command::Led { r: 9, g: 8, b: 7, pulse_mode: PulseMode::DialTurn };
    assert_eq!(&dial.as_arrayvec()[..], &[b'D', 9, 8, 7, b'D', 0, 0]);
}

#[test]
fn report_bytes_are_big_endian() {
    assert_eq!(&Report::Heartbeat.as_arrayvec()[..], &[b'H']);
    assert_eq!(&Report::Press.as_arrayvec()[..], &[b'P']);
    assert_eq!(&Report::Release.as_arrayvec()[..], &[b'R']);
    assert_eq!(&Report::EmergencyOff.as_arrayvec()[..], &[b'X']);
    assert_eq!(&Report::DialValue { diff: -1 }.as_arrayvec()[..], &[b'V', 0xFF]);
    assert_eq!(&Report::Error { code: 0x1234 }.as_arrayvec()[..], &[b'E', 0x12, 0x34]);
}

#[test]
fn nonzero_state_byte_is_true() {
    assert_eq!(
        Command::try_from(&[b'A', 3, 200]).unwrap(),
        Some((Command::PowerCycler { slot: 3, state: true }, 3))
    );
}

#[test]
fn decoding_ignores_trailing_bytes() {
    assert_eq!(
        Command::try_from(&[b'E', b'Z', b'Z']).unwrap(),
        Some((Command::Bootload, 1))
    );
    assert_eq!(Report::try_from(&[b'H', 0xFF]).unwrap(), Some((Report::Heartbeat, 1)));
    assert_eq!(
        Report::try_from(&[b'D', 2, b'o', b'k', b'H']).unwrap(),
        Some((debug_report("ok"), 4))
    );
}

#[test]
fn empty_window_is_incomplete() {
    assert_eq!(Command::try_from(&[]).unwrap(), None);
    assert_eq!(Report::try_from(&[]).unwrap(), None);
}

#[test]
fn short_windows_of_known_tags_are_incomplete() {
    for bytes in [&[b'A', 1][..], &[b'B', 1, 2], &[b'C'], &[b'D', 1, 2, 3, b'B', 0], &[b'F', 1, 2]] {
        assert_eq!(Command::try_from(bytes).unwrap(), None);
    }
    for bytes in [&[b'V'][..], &[b'E', 1], &[b'D'], &[b'D', 3, b'a', b'b']] {
        assert_eq!(Report::try_from(bytes).unwrap(), None);
    }
}

#[test]
fn unknown_tags_are_malformed() {
    assert_eq!(Command::try_from(&[b'Z', 0, 0, 0]).unwrap_err(), Error::MalformedMessage);
    assert_eq!(Report::try_from(&[b'A']).unwrap_err(), Error::MalformedMessage);
}

#[test]
fn zero_breathing_interval_is_malformed() {
    assert!(IntervalMs::new(0).is_none());
    assert_eq!(IntervalMs::new(4000).unwrap().get(), 4000);
    assert_eq!(PulseMode::try_from([b'B', 0, 0]).unwrap_err(), Error::MalformedMessage);
    assert_eq!(
        Command::try_from(&[b'D', 1, 2, 3, b'B', 0, 0]).unwrap_err(),
        Error::MalformedMessage
    );
}

#[test]
fn pulse_mode_bytes() {
    assert_eq!(PulseMode::Solid.to_bytes(), [b'S', 0, 0]);
    assert_eq!(PulseMode::DialTurn.to_bytes(), [b'D', 0, 0]);
    assert_eq!(breathing(258).to_bytes(), [b'B', 1, 2]);
    assert_eq!(PulseMode::try_from([b'S', 4, 5]).unwrap(), PulseMode::Solid);
    assert_eq!(PulseMode::try_from([b'D', 0, 0]).unwrap(), PulseMode::DialTurn);
    assert_eq!(PulseMode::try_from([b'B', 1, 2]).unwrap(), breathing(258));
    assert_eq!(PulseMode::try_from([b'Q', 0, 0]).unwrap_err(), Error::MalformedMessage);
}

#[test]
fn invalid_utf8_debug_text_is_malformed() {
    assert_eq!(Report::try_from(&[b'D', 2, 0xC3, 0x28]).unwrap_err(), Error::MalformedMessage);
}

#[test]
fn overlong_debug_text_is_malformed() {
    let mut bytes = vec![b'D', 255];
    bytes.extend(std::iter::repeat(b'x').take(255));
    assert_eq!(Report::try_from(&bytes).unwrap_err(), Error::MalformedMessage);
    assert_eq!(Report::try_from(&bytes[..200]).unwrap(), None);
}

#[test]
fn three_reports_in_one_call() {
    let mut reader = ReportReader::new();
    let out = reader.process_bytes(&[b'H', b'P', b'R'], 3).unwrap();
    assert_eq!(out, vec![Report::Heartbeat, Report::Press, Report::Release]);
    assert!(reader.buf.is_empty());
}

#[test]
fn one_call_and_byte_by_byte_agree() {
    let reports = all_reports();
    let mut bytes = Vec::new();
    for report in &reports[..10] {
        bytes.extend_from_slice(&report.as_arrayvec());
    }
    assert!(bytes.len() <= MAX_SERIAL_MESSAGE_LEN);

    let mut whole = ReportReader::new();
    let at_once = whole.process_bytes(&bytes, 16).unwrap();

    let mut drip = ReportReader::new();
    let mut one_by_one = Vec::new();
    for byte in &bytes {
        one_by_one.extend(drip.process_bytes(&[*byte], 16).unwrap());
    }
    assert_eq!(at_once, one_by_one);
    assert_eq!(&at_once[..], &reports[..10]);
    assert!(whole.buf.is_empty());
    assert!(drip.buf.is_empty());

    let commands = all_commands();
    let mut bytes = Vec::new();
    for command in &commands {
        bytes.extend_from_slice(&command.as_arrayvec());
    }
    let at_once = CommandReader::new().process_bytes(&bytes, 16).unwrap();
    let mut drip = CommandReader::new();
    let mut one_by_one = Vec::new();
    for byte in &bytes {
        one_by_one.extend(drip.process_bytes(&[*byte], 16).unwrap());
    }
    assert_eq!(at_once, commands);
    assert_eq!(one_by_one, commands);
}

#[test]
fn partial_frame_waits_for_last_byte() {
    let command = Command::Led { r: 0, g: 128, b: 255, pulse_mode: breathing(4000) };
    let bytes = command.as_arrayvec();
    let mut reader = CommandReader::new();
    assert!(reader.process_bytes(&bytes[..6], 4).unwrap().is_empty());
    assert_eq!(reader.process_bytes(&bytes[6..], 4).unwrap(), vec![command]);

    let report = debug_report("partial");
    let bytes = report.as_arrayvec();
    let mut reader = ReportReader::new();
    assert!(reader.process_bytes(&bytes[..bytes.len() - 1], 4).unwrap().is_empty());
    assert_eq!(reader.buf.len(), bytes.len() - 1);
    assert_eq!(reader.process_bytes(&bytes[bytes.len() - 1..], 4).unwrap(), vec![report]);
    assert!(reader.buf.is_empty());
}

#[test]
fn overflowing_the_buffer_is_buffer_full() {
    let mut reader = ReportReader::new();
    let mut start = vec![b'D', 254];
    start.extend(std::iter::repeat(b'x').take(200));
    assert!(reader.process_bytes(&start, 4).unwrap().is_empty());
    let more = vec![b'x'; 60];
    assert_eq!(reader.process_bytes(&more, 4).unwrap_err(), Error::BufferFull);
    assert_eq!(reader.buf.len(), 202);

    let mut reader = ReportReader::new();
    let mut never_whole = vec![b'D', 255];
    never_whole.extend(std::iter::repeat(b'x').take(254));
    assert!(reader.process_bytes(&never_whole, 4).unwrap().is_empty());
    assert_eq!(reader.process_bytes(&[b'x'], 4).unwrap_err(), Error::BufferFull);

    let mut reader = CommandReader::new();
    assert_eq!(reader.process_bytes(&[b'E'; 257], 300).unwrap_err(), Error::BufferFull);
}

#[test]
fn reader_reports_malformed_and_keeps_bytes() {
    let mut reader = ReportReader::new();
    assert_eq!(reader.process_bytes(&[b'Z', b'H'], 4).unwrap_err(), Error::MalformedMessage);
    assert_eq!(&reader.buf[..], &[b'Z', b'H']);

    let mut reader = CommandReader::new();
    assert_eq!(
        reader.process_bytes(&[b'D', 1, 2, 3, b'B', 0, 0], 4).unwrap_err(),
        Error::MalformedMessage
    );
    assert_eq!(reader.process_bytes(&[b'Q'], 4).unwrap_err(), Error::MalformedMessage);
}

#[test]
fn too_many_messages_is_queue_full() {
    let mut reader = ReportReader::new();
    assert_eq!(
        reader.process_bytes(&[b'H', b'P', b'R'], 2).unwrap_err(),
        Error::ReportQueueFull
    );
    assert!(reader.buf.is_empty());

    let mut reader = CommandReader::new();
    assert_eq!(
        reader.process_bytes(&[b'E', b'E', b'A', 1], 1).unwrap_err(),
        Error::CommandQueueFull
    );
    assert_eq!(reader.process_bytes(&[1], 1).unwrap(), vec![Command::PowerCycler { slot: 1, state: true }]);
}

#[test]
fn zero_batch_refuses_any_message() {
    let mut reader = ReportReader::new();
    assert!(reader.process_bytes(&[b'V'], 0).unwrap().is_empty());
    assert_eq!(reader.process_bytes(&[5], 0).unwrap_err(), Error::ReportQueueFull);
}

#[test]
fn default_readers_are_empty() {
    let reader = ReportReader::default();
    assert!(reader.buf.is_empty());
    let mut reader = CommandReader::default();
    assert!(reader.process_bytes(&[], 1).unwrap().is_empty());
}
