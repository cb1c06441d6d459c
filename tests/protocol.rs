use panel_protocol::{
    ArrayString, ArrayVec, Command, CommandReader, IntervalMs, PulseMode, Report, ReportReader,
    MAX_SERIAL_MESSAGE_LEN,
};

#[test]
fn command_roundtrips_arrayvec() {
    let commands = [
        Command::PowerCycler { slot: 1, state: true },
        Command::PowerCycler { slot: 20, state: false },
        Command::Temperature { target: 2, value: 100 },
        Command::Brightness { target: 10, value: 100 },
        Command::FanSpeed { target: 1, value: 600 },
        Command::Led { r: 0, g: 128, b: 255, pulse_mode: PulseMode::Solid },
        Command::Led { r: 0, g: 128, b: 255, pulse_mode: PulseMode::DialTurn },
        Command::Led {
            r: 0,
            g: 128,
            b: 255,
            pulse_mode: PulseMode::Breathing { interval_ms: IntervalMs::new(4000).unwrap() },
        },
    ];

    for command in commands.iter() {
        let (deserialized, _len) =
            Command::try_from(&command.as_arrayvec()[..]).unwrap().unwrap();
        assert_eq!(command, &deserialized);
    }
}

#[test]
fn report_roundtrips_arrayvec() {
    let reports = [
        Report::Press,
        Report::Release,
        Report::DialValue { diff: 100 },
        Report::EmergencyOff,
        Report::Error { code: 80 },
        Report::Debug { message: ArrayString::from("the frequency is 1000000000Hz").unwrap() },
    ];

    for report in reports.iter() {
        let (deserialized, _len) = Report::try_from(&report.as_arrayvec()[..]).unwrap().unwrap();
        assert_eq!(report, &deserialized);
    }
}

#[test]
fn report_protocol_parse() {
    const REPORT_QUEUE_SIZE: usize = 6;

    let reports = [
        Report::Heartbeat,
        Report::Press,
        Report::Release,
        Report::DialValue { diff: 100 },
        Report::EmergencyOff,
        Report::Error { code: 80 },
    ];

    let mut protocol = ReportReader::new();
    for report_chunk in reports.chunks(REPORT_QUEUE_SIZE) {
        let mut bytes: ArrayVec<u8, MAX_SERIAL_MESSAGE_LEN> = ArrayVec::new();
        for report in report_chunk {
            bytes.try_extend_from_slice(&report.as_arrayvec()[..]).unwrap();
        }

        let report_output = protocol.process_bytes(&bytes, REPORT_QUEUE_SIZE).unwrap();

        assert_eq!(&report_output[..], report_chunk);
    }
}

#[test]
fn command_protocol_parse() {
    const COMMAND_QUEUE_SIZE: usize = 6;

    let commands = [
        Command::PowerCycler { slot: 1, state: true },
        Command::PowerCycler { slot: 20, state: false },
        Command::Temperature { target: 2, value: 100 },
        Command::Brightness { target: 10, value: 100 },
        Command::Led { r: 0, g: 128, b: 255, pulse_mode: PulseMode::Solid },
        Command::Led { r: 0, g: 128, b: 255, pulse_mode: PulseMode::DialTurn },
        Command::Led {
            r: 0,
            g: 128,
            b: 255,
            pulse_mode: PulseMode::Breathing { interval_ms: IntervalMs::new(4000).unwrap() },
        },
    ];

    let mut protocol = CommandReader::new();
    for command_chunk in commands.chunks(COMMAND_QUEUE_SIZE) {
        let mut bytes: ArrayVec<u8, MAX_SERIAL_MESSAGE_LEN> = ArrayVec::new();
        for command in command_chunk {
            bytes.try_extend_from_slice(&command.as_arrayvec()[..]).unwrap();
        }

        let command_output = protocol.process_bytes(&bytes, COMMAND_QUEUE_SIZE).unwrap();

        assert_eq!(&command_output[..], command_chunk);
    }
}
