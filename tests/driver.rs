use bgx13p::bgx::{Action, Bgx13p, ConnectCause, DriverError, Event, Outcome, Stage};
use bgx13p::command::{Cmd, Command, TIMEOUT_COMMON_MS, TIMEOUT_CONNECT_MS};
use bgx13p::mac::Mac;
use bgx13p::response::ResponseCodes;

fn frame(code: u8, body: &str) -> Vec<u8> {
    format!("R{}{:05}\r\n{}", code, body.len(), body).into_bytes()
}

/// A module simulated well enough for the driver's flows.
struct Module {
    command_mode: bool,
    connected: bool,
    version: String,
    connect_code: u8,
    clrb_code: u8,
    scan_table: String,
    setting_reply: String,
    pending: Vec<u8>,
    writes: Vec<Vec<u8>>,
    pauses: Vec<u64>,
}

impl Module {
    fn new() -> Module {
        Module {
            command_mode: true,
            connected: false,
            version: "BGX13P.1.2.2738.2-1524-2738".to_string(),
            connect_code: 0,
            clrb_code: 0,
            scan_table: String::new(),
            setting_reply: "Success\r\n".to_string(),
            pending: Vec::new(),
            writes: Vec::new(),
            pauses: Vec::new(),
        }
    }

    fn write(&mut self, bytes: &[u8]) {
        self.writes.push(bytes.to_vec());
        if !self.command_mode {
            if bytes == b"$$$" {
                self.command_mode = true;
            }
            return;
        }
        let text = String::from_utf8(bytes.to_vec()).unwrap();
        let reply: Vec<u8> = match text.as_str() {
            "\r\n" => frame(0, "Ready\r\n"),
            "ver\r\n" => format!("{}\r\n", self.version).into_bytes(),
            "con params\r\n" => {
                if self.connected {
                    frame(0, "!  Param Value\r\n#  Addr  D0CF5E828DF6\r\n#  Itvl  12\r\n")
                } else {
                    frame(0, "!  Param Value\r\n#  Err   0208\r\n")
                }
            }
            "dct\r\n" => {
                self.connected = false;
                frame(0, "Success\r\n")
            }
            "clrb\r\n" => frame(self.clrb_code, &self.setting_reply.clone()),
            "scan\r\n" => frame(0, "Success\r\n"),
            "scan results\r\n" => frame(0, &self.scan_table.clone()),
            t if t.starts_with("con ") => {
                if self.connect_code == 0 {
                    self.connected = true;
                }
                frame(self.connect_code, "Success\r\n")
            }
            t if t.starts_with("set ") || t == "save\r\n" => self.setting_reply.clone().into_bytes(),
            _ => Vec::new(),
        };
        self.pending.extend_from_slice(&reply);
    }

    fn drain(&mut self) -> Vec<u8> {
        std::mem::take(&mut self.pending)
    }

    fn count(&self, bytes: &[u8]) -> usize {
        self.writes.iter().filter(|w| w.as_slice() == bytes).count()
    }
}

fn drive(bgx: &mut Bgx13p, mut action: Action, module: &mut Module) -> Outcome {
    loop {
        let ev = match action {
            Action::Drain { .. } => Event::Drained(module.drain()),
            Action::Write { bytes, .. } => {
                module.write(&bytes);
                Event::Done
            }
            Action::Pause { ms } => {
                module.pauses.push(ms);
                Event::Done
            }
            Action::Finish(o) => return o,
        };
        action = bgx.step(ev);
    }
}

#[test]
fn get_version_reply_is_framed_and_known_good() {
    let reply: &[u8] = b"R000029\r\nBGX13P.1.2.2738.2-1524-2738\r\n";
    match bgx13p::response::parse_response(reply).unwrap() {
        bgx13p::response::BgxResponse::DataWithHeader(h, body) => {
            assert_eq!(h.response_code, ResponseCodes::Success);
            assert_eq!(h.data_length, 29);
            let v = bgx13p::fw::parse_fw_ver(&body).unwrap();
            assert_eq!(v, b"BGX13P.1.2.2738.2-1524-2738".to_vec());
            assert!(bgx13p::fw::is_known_good(&v));
        }
        other => panic!("unexpected {:?}", other),
    }
}

#[test]
fn well_known_state_on_known_good_firmware_applies_nine_settings() {
    let mut m = Module::new();
    let mut bgx = Bgx13p::new();
    let first = bgx.reach_well_known_state();
    assert_eq!(drive(&mut bgx, first, &mut m), Outcome::Done);
    assert!(bgx.default_settings_applied);
    assert_eq!(m.count(b"set bl p m 0\r\n"), 1);
    assert_eq!(m.count(b"save\r\n"), 1);
    let settings: Vec<&Vec<u8>> = m
        .writes
        .iter()
        .filter(|w| w.starts_with(b"set ") || w.as_slice() == b"clrb\r\n" || w.as_slice() == b"save\r\n")
        .collect();
    assert_eq!(settings.len(), 9);
    assert_eq!(settings[0].as_slice(), b"set sy c m machine\r\n");
    assert_eq!(settings[8].as_slice(), b"save\r\n");
}

#[test]
fn well_known_state_on_other_firmware_applies_eight_settings() {
    let mut m = Module::new();
    m.version = "BGX13P.1.2.2045.2-1524-2045".to_string();
    let mut bgx = Bgx13p::new();
    let first = bgx.reach_well_known_state();
    assert_eq!(drive(&mut bgx, first, &mut m), Outcome::Done);
    assert_eq!(m.count(b"set bl p m 0\r\n"), 0);
    assert_eq!(m.count(b"set sy d n JugglerBGX\r\n"), 1);
}

#[test]
fn well_known_state_twice_provisions_once() {
    let mut m = Module::new();
    let mut bgx = Bgx13p::new();
    let first = bgx.reach_well_known_state();
    assert_eq!(drive(&mut bgx, first, &mut m), Outcome::Done);
    let writes = m.writes.len();
    let second = bgx.reach_well_known_state();
    assert!(matches!(second, Action::Finish(Outcome::Done)));
    assert_eq!(m.writes.len(), writes);
    assert_eq!(m.count(b"save\r\n"), 1);
}

#[test]
fn well_known_state_fails_on_missing_success_lines() {
    let mut m = Module::new();
    m.setting_reply = "Error\r\n".to_string();
    let mut bgx = Bgx13p::new();
    let first = bgx.reach_well_known_state();
    assert_eq!(
        drive(&mut bgx, first, &mut m),
        Outcome::Failed(DriverError::SettingsApplicationFailed { got: 0, expected: 9 })
    );
    assert!(!bgx.default_settings_applied);
}

#[test]
fn well_known_state_fails_without_version() {
    let mut m = Module::new();
    m.version = "unknown".to_string();
    let mut bgx = Bgx13p::new();
    let first = bgx.reach_well_known_state();
    assert_eq!(
        drive(&mut bgx, first, &mut m),
        Outcome::Failed(DriverError::FirmwareUnknown)
    );
}

#[test]
fn scan_decodes_the_table() {
    let mut m = Module::new();
    m.scan_table = "!  # RSSI BD_ADDR  Device Name\r\n#  1  -47 d0:cf:5e:82:85:06 LOR-8090\r\n#  2  -52 00:0d:6f:a7:a1:54 LOR-8090\r\n".to_string();
    let mut bgx = Bgx13p::new();
    let first = bgx.scan();
    match drive(&mut bgx, first, &mut m) {
        Outcome::Scanned(r) => {
            assert_eq!(r.0.len(), 2);
            assert_eq!(r.0[0].mac, Mac([0xd0, 0xcf, 0x5e, 0x82, 0x85, 0x06]));
            assert_eq!(r.0[0].rssi, -47);
            assert_eq!(r.0[1].mac, Mac([0x00, 0x0d, 0x6f, 0xa7, 0xa1, 0x54]));
            assert_eq!(r.0[1].rssi, -52);
            assert_eq!(r.0[1].friendly_name, "LOR-8090");
        }
        other => panic!("unexpected {:?}", other),
    }
    assert_eq!(m.count(b"scan\r\n"), 1);
    assert_eq!(m.count(b"scan results\r\n"), 1);
    assert!(m.pauses.contains(&10000));
}

#[test]
fn disconnect_when_connected_issues_dct() {
    let mut m = Module::new();
    m.connected = true;
    let mut bgx = Bgx13p::new();
    let first = bgx.disconnect();
    assert_eq!(drive(&mut bgx, first, &mut m), Outcome::Done);
    assert_eq!(m.count(b"con params\r\n"), 1);
    assert_eq!(m.count(b"dct\r\n"), 1);
    assert!(!m.connected);
}

#[test]
fn disconnect_when_not_connected_issues_no_dct() {
    let mut m = Module::new();
    let mut bgx = Bgx13p::new();
    let first = bgx.disconnect();
    assert_eq!(drive(&mut bgx, first, &mut m), Outcome::Done);
    assert_eq!(m.count(b"con params\r\n"), 1);
    assert_eq!(m.count(b"dct\r\n"), 0);
    assert_eq!(bgx.stage, Stage::Idle);
}

#[test]
fn connect_succeeds() {
    let mut m = Module::new();
    let mut bgx = Bgx13p::new();
    let mac = Mac([0xd0, 0xcf, 0x5e, 0x82, 0x85, 0x06]);
    let first = bgx.connect(&mac);
    assert_eq!(drive(&mut bgx, first, &mut m), Outcome::Done);
    assert_eq!(m.count(b"con d0cf5e828506 2\r\n"), 1);
    assert!(m.connected);
}

#[test]
fn connect_with_security_mismatch_clears_bondings() {
    let mut m = Module::new();
    m.connect_code = 9;
    m.clrb_code = 0;
    let mut bgx = Bgx13p::new();
    let first = bgx.connect(&Mac([1, 2, 3, 4, 5, 6]));
    assert_eq!(
        drive(&mut bgx, first, &mut m),
        Outcome::Failed(DriverError::ConnectFailure(
            ConnectCause::SecurityMismatchBondingsCleared
        ))
    );
    assert_eq!(m.count(b"clrb\r\n"), 1);
}

#[test]
fn connect_with_security_mismatch_and_failed_clear() {
    let mut m = Module::new();
    m.connect_code = 9;
    m.clrb_code = 1;
    let mut bgx = Bgx13p::new();
    let first = bgx.connect(&Mac([1, 2, 3, 4, 5, 6]));
    assert_eq!(
        drive(&mut bgx, first, &mut m),
        Outcome::Failed(DriverError::ConnectFailure(
            ConnectCause::SecurityMismatchUnrecoverable
        ))
    );
}

#[test]
fn connect_command_failed_disconnects_again() {
    let mut m = Module::new();
    m.connect_code = 1;
    let mut bgx = Bgx13p::new();
    let first = bgx.connect(&Mac([1, 2, 3, 4, 5, 6]));
    assert_eq!(
        drive(&mut bgx, first, &mut m),
        Outcome::Failed(DriverError::ConnectFailure(
            ConnectCause::CommandFailedButCleared
        ))
    );
    assert_eq!(m.count(b"con params\r\n"), 2);
}

#[test]
fn connect_timeout_and_other_codes() {
    let mut m = Module::new();
    m.connect_code = 8;
    let mut bgx = Bgx13p::new();
    let first = bgx.connect(&Mac([1, 2, 3, 4, 5, 6]));
    assert_eq!(
        drive(&mut bgx, first, &mut m),
        Outcome::Failed(DriverError::ConnectFailure(ConnectCause::ConnectTimeout))
    );
    let mut m = Module::new();
    m.connect_code = 7;
    let first = bgx.connect(&Mac([1, 2, 3, 4, 5, 6]));
    assert_eq!(
        drive(&mut bgx, first, &mut m),
        Outcome::Failed(DriverError::UnexpectedResponse(
            ResponseCodes::InvalidArgument
        ))
    );
}

#[test]
fn connect_reply_waits_for_the_connect_timeout() {
    let mut bgx = Bgx13p::new();
    bgx.stage = Stage::AwaitConnectSent;
    match bgx.step(Event::Done) {
        Action::Drain { timeout_ms } => assert_eq!(timeout_ms, TIMEOUT_CONNECT_MS),
        other => panic!("unexpected {:?}", other),
    }
    assert_eq!(TIMEOUT_CONNECT_MS, 2100);
}

#[test]
fn mode_recovery_takes_one_break_sequence() {
    let mut m = Module::new();
    m.command_mode = false;
    let mut bgx = Bgx13p::new();
    let first = bgx.disconnect();
    assert_eq!(drive(&mut bgx, first, &mut m), Outcome::Done);
    assert_eq!(m.count(b"$$$"), 1);
    assert_eq!(m.pauses.iter().filter(|p| **p >= 500).count(), 2);
}

#[test]
fn mode_recovery_gives_up() {
    let mut bgx = Bgx13p::new();
    let mut action = bgx.disconnect();
    let mut breaks = 0;
    let outcome = loop {
        let ev = match action {
            Action::Drain { .. } => Event::Drained(Vec::new()),
            Action::Write { bytes, .. } => {
                if bytes == b"$$$" {
                    breaks += 1;
                }
                Event::Done
            }
            Action::Pause { .. } => Event::Done,
            Action::Finish(o) => break o,
        };
        action = bgx.step(ev);
    };
    assert_eq!(outcome, Outcome::Failed(DriverError::ModeRecoveryExhausted));
    assert_eq!(breaks, 2);
}

#[test]
fn passthrough_read_and_write() {
    let mut bgx = Bgx13p::new();
    match bgx.write_all_with_timeout(b"hello", None) {
        Action::Write { bytes, timeout_ms } => {
            assert_eq!(bytes, b"hello".to_vec());
            assert_eq!(timeout_ms, TIMEOUT_COMMON_MS);
        }
        other => panic!("unexpected {:?}", other),
    }
    assert!(matches!(bgx.step(Event::Done), Action::Finish(Outcome::Done)));
    match bgx.read_all_with_timeout(Some(50)) {
        Action::Drain { timeout_ms } => assert_eq!(timeout_ms, 50),
        other => panic!("unexpected {:?}", other),
    }
    assert_eq!(
        bgx.step(Event::Drained(b"payload".to_vec())),
        Action::Finish(Outcome::Received(b"payload".to_vec()))
    );
    bgx.read_all_with_timeout(None);
    match bgx.step(Event::Drained(frame(0, "Ready\r\n"))) {
        Action::Finish(Outcome::Failed(DriverError::UnexpectedFramed(h))) => {
            assert_eq!(h.data_length, 7)
        }
        other => panic!("unexpected {:?}", other),
    }
}

#[test]
fn transport_failure_and_stray_events() {
    let mut bgx = Bgx13p::new();
    bgx.disconnect();
    assert_eq!(
        bgx.step(Event::Failed),
        Action::Finish(Outcome::Failed(DriverError::Io))
    );
    assert_eq!(
        bgx.step(Event::Done),
        Action::Finish(Outcome::Failed(DriverError::UnexpectedEvent))
    );
}

#[test]
fn command_bytes() {
    let mac = Mac([0xd0, 0xcf, 0x5e, 0x82, 0x85, 0x06]);
    assert_eq!(Command::Connect(&mac), b"con d0cf5e828506 2".to_vec());
    assert_eq!(Cmd::ConParams.wire_bytes(), b"con params\r\n".to_vec());
    assert_eq!(Cmd::BreakSequence.wire_bytes(), b"$$$".to_vec());
    assert_eq!(Cmd::Linebreak.wire_bytes(), b"\r\n".to_vec());
    assert_eq!(Cmd::SetDeviceName.text(), b"set sy d n JugglerBGX".to_vec());
    assert_eq!(Cmd::ScanResults.text(), b"scan results".to_vec());
}
