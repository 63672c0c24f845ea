use vstd::prelude::*;
use crate::mac::{Mac, mac_text};

verus! {

/// Idle gap that ends most replies, in milliseconds.
pub const TIMEOUT_COMMON_MS: u64 = 20;

/// Idle gap while settings are applied; `save` takes longer than other commands.
pub const TIMEOUT_SETTINGS_MS: u64 = 1000;

/// Whole seconds that the module itself tries to connect for.
pub const TIMEOUT_CONNECT_BGX_INTERN: u64 = 2;

/// Idle gap for the reply to a connect: the module's own attempt and a margin.
pub const TIMEOUT_CONNECT_MS: u64 = 100 + TIMEOUT_CONNECT_BGX_INTERN * 1000;

/// Idle gap for the reply to a disconnect.
pub const TIMEOUT_DISCONNECT_MS: u64 = 100;

/// Silence kept on each side of the break sequence; the module asks for 500 ms.
pub const BREAK_GUARD_MS: u64 = 550;

/// Pause after each setting, while its echo is not framed yet.
pub const SETTING_PAUSE_MS: u64 = 200;

/// How long the module scans before its results are fetched.
pub const SCAN_WINDOW_MS: u64 = 10000;

/// The commands that the driver sends to the module.
#[derive(Debug, Clone, Copy, PartialEq, Eq)]
pub enum Cmd {
    /// An empty line.
    Linebreak,
    /// `$$$`, sent without a line end, between two silences.
    BreakSequence,
    GetVersion,
    Connect(Mac),
    Disconnect,
    ConParams,
    Scan,
    ScanResults,
    ClearAllBondings,
    Save,
    SetModuleToMachineMode,
    SystemRemoteCommandingFalse,
    AdvertiseHighDuration,
    BLEEncryptionPairingAny,
    BLEPHYMultiplexFalse,
    BLEPHYPreference1M,
    SetDeviceName,
}

/// `con <address> <seconds>`.
pub open spec fn connect_text(mac: Seq<u8>) -> Seq<u8> {
    seq![99u8, 111u8, 110u8, 32u8] + mac_text(mac) + seq![32u8, (48 + TIMEOUT_CONNECT_BGX_INTERN) as u8]
}

/// The text of a command, without its line end.
pub open spec fn cmd_text(c: Cmd) -> Seq<u8> {
    match c {
        Cmd::Linebreak => Seq::empty(),
        Cmd::BreakSequence => seq![36u8, 36u8, 36u8],
        Cmd::GetVersion => seq![118u8, 101u8, 114u8],
        Cmd::Connect(m) => connect_text(m.0@),
        Cmd::Disconnect => seq![100u8, 99u8, 116u8],
        Cmd::ConParams => seq![99u8, 111u8, 110u8, 32u8, 112u8, 97u8, 114u8, 97u8, 109u8, 115u8],
        Cmd::Scan => seq![115u8, 99u8, 97u8, 110u8],
        Cmd::ScanResults => seq![
            115u8,
            99u8,
            97u8,
            110u8,
            32u8,
            114u8,
            101u8,
            115u8,
            117u8,
            108u8,
            116u8,
            115u8,
        ],
        Cmd::ClearAllBondings => seq![99u8, 108u8, 114u8, 98u8],
        Cmd::Save => seq![115u8, 97u8, 118u8, 101u8],
        Cmd::SetModuleToMachineMode => seq![
            115u8,
            101u8,
            116u8,
            32u8,
            115u8,
            121u8,
            32u8,
            99u8,
            32u8,
            109u8,
            32u8,
            109u8,
            97u8,
            99u8,
            104u8,
            105u8,
            110u8,
            101u8,
        ],
        Cmd::SystemRemoteCommandingFalse => seq![
            115u8,
            101u8,
            116u8,
            32u8,
            115u8,
            121u8,
            32u8,
            114u8,
            32u8,
            101u8,
            32u8,
            48u8,
        ],
        Cmd::AdvertiseHighDuration => seq![
            115u8,
            101u8,
            116u8,
            32u8,
            98u8,
            108u8,
            32u8,
            118u8,
            32u8,
            104u8,
            32u8,
            100u8,
            32u8,
            48u8,
        ],
        Cmd::BLEEncryptionPairingAny => seq![
            115u8,
            101u8,
            116u8,
            32u8,
            98u8,
            108u8,
            32u8,
            101u8,
            32u8,
            112u8,
            32u8,
            97u8,
            110u8,
            121u8,
        ],
        Cmd::BLEPHYMultiplexFalse => seq![
            115u8,
            101u8,
            116u8,
            32u8,
            98u8,
            108u8,
            32u8,
            112u8,
            32u8,
            109u8,
            32u8,
            48u8,
        ],
        Cmd::BLEPHYPreference1M => seq![
            115u8,
            101u8,
            116u8,
            32u8,
            98u8,
            108u8,
            32u8,
            112u8,
            32u8,
            112u8,
            32u8,
            49u8,
            109u8,
        ],
        Cmd::SetDeviceName => seq![
            115u8,
            101u8,
            116u8,
            32u8,
            115u8,
            121u8,
            32u8,
            100u8,
            32u8,
            110u8,
            32u8,
            74u8,
            117u8,
            103u8,
            103u8,
            108u8,
            101u8,
            114u8,
            66u8,
            71u8,
            88u8,
        ],
    }
}

/// The bytes put on the wire for a command: its text and `\r\n`, except for
/// the break sequence, which goes without a line end.
pub open spec fn wire(c: Cmd) -> Seq<u8> {
    match c {
        Cmd::BreakSequence => cmd_text(c),
        _ => cmd_text(c) + seq![13u8, 10u8],
    }
}

/// The settings that provisioning applies, in order, `save` last. Older
/// firmware has no PHY multiplex setting.
pub open spec fn settings(other_fw: bool) -> Seq<Cmd> {
    if other_fw {
        seq![
            Cmd::SetModuleToMachineMode,
            Cmd::SystemRemoteCommandingFalse,
            Cmd::AdvertiseHighDuration,
            Cmd::BLEEncryptionPairingAny,
            Cmd::BLEPHYPreference1M,
            Cmd::SetDeviceName,
            Cmd::ClearAllBondings,
            Cmd::Save,
        ]
    } else {
        seq![
            Cmd::SetModuleToMachineMode,
            Cmd::SystemRemoteCommandingFalse,
            Cmd::AdvertiseHighDuration,
            Cmd::BLEEncryptionPairingAny,
            Cmd::BLEPHYMultiplexFalse,
            Cmd::BLEPHYPreference1M,
            Cmd::SetDeviceName,
            Cmd::ClearAllBondings,
            Cmd::Save,
        ]
    }
}

/// The setting at position `i` of the list for the firmware.
pub fn setting(other_fw: bool, i: usize) -> (r: Cmd)
    requires
        i < settings(other_fw).len(),
    ensures
        r == settings(other_fw)[i as int],
{
    if other_fw {
        match i {
            0 => Cmd::SetModuleToMachineMode,
            1 => Cmd::SystemRemoteCommandingFalse,
            2 => Cmd::AdvertiseHighDuration,
            3 => Cmd::BLEEncryptionPairingAny,
            4 => Cmd::BLEPHYPreference1M,
            5 => Cmd::SetDeviceName,
            6 => Cmd::ClearAllBondings,
            _ => Cmd::Save,
        }
    } else {
        match i {
            0 => Cmd::SetModuleToMachineMode,
            1 => Cmd::SystemRemoteCommandingFalse,
            2 => Cmd::AdvertiseHighDuration,
            3 => Cmd::BLEEncryptionPairingAny,
            4 => Cmd::BLEPHYMultiplexFalse,
            5 => Cmd::BLEPHYPreference1M,
            6 => Cmd::SetDeviceName,
            7 => Cmd::ClearAllBondings,
            _ => Cmd::Save,
        }
    }
}

/// How many settings provisioning applies for the firmware.
pub fn settings_count(other_fw: bool) -> (r: usize)
    ensures
        r == settings(other_fw).len(),
{
    if other_fw {
        8
    } else {
        9
    }
}

/// Byte strings of the command catalogue.
pub struct Command;

impl Command {
    /// `con <address> <seconds>`: connect to the device with the address.
    #[allow(non_snake_case)]
    pub fn Connect(mac: &Mac) -> (r: Vec<u8>)
        ensures
            r@ == connect_text(mac.0@),
    {
        let mut out: Vec<u8> = vec![99u8, 111u8, 110u8, 32u8];
        let mut hex = mac.to_hex();
        out.append(&mut hex);
        out.push(32);
        out.push(48 + TIMEOUT_CONNECT_BGX_INTERN as u8);
        assert(out@ =~= connect_text(mac.0@));
        out
    }
}

impl Cmd {
    /// The text of the command, without its line end.
    pub fn text(&self) -> (r: Vec<u8>)
        ensures
            r@ == cmd_text(*self),
    {
        let r: Vec<u8> = match self {
            Cmd::Linebreak => Vec::new(),
            Cmd::BreakSequence => vec![36u8, 36u8, 36u8],
            Cmd::GetVersion => vec![118u8, 101u8, 114u8],
            Cmd::Connect(m) => Command::Connect(m),
            Cmd::Disconnect => vec![100u8, 99u8, 116u8],
            Cmd::ConParams => vec![99u8, 111u8, 110u8, 32u8, 112u8, 97u8, 114u8, 97u8, 109u8, 115u8],
            Cmd::Scan => vec![115u8, 99u8, 97u8, 110u8],
            Cmd::ScanResults => vec![
                115u8,
                99u8,
                97u8,
                110u8,
                32u8,
                114u8,
                101u8,
                115u8,
                117u8,
                108u8,
                116u8,
                115u8,
            ],
            Cmd::ClearAllBondings => vec![99u8, 108u8, 114u8, 98u8],
            Cmd::Save => vec![115u8, 97u8, 118u8, 101u8],
            Cmd::SetModuleToMachineMode => vec![
                115u8,
                101u8,
                116u8,
                32u8,
                115u8,
                121u8,
                32u8,
                99u8,
                32u8,
                109u8,
                32u8,
                109u8,
                97u8,
                99u8,
                104u8,
                105u8,
                110u8,
                101u8,
            ],
            Cmd::SystemRemoteCommandingFalse => vec![
                115u8,
                101u8,
                116u8,
                32u8,
                115u8,
                121u8,
                32u8,
                114u8,
                32u8,
                101u8,
                32u8,
                48u8,
            ],
            Cmd::AdvertiseHighDuration => vec![
                115u8,
                101u8,
                116u8,
                32u8,
                98u8,
                108u8,
                32u8,
                118u8,
                32u8,
                104u8,
                32u8,
                100u8,
                32u8,
                48u8,
            ],
            Cmd::BLEEncryptionPairingAny => vec![
                115u8,
                101u8,
                116u8,
                32u8,
                98u8,
                108u8,
                32u8,
                101u8,
                32u8,
                112u8,
                32u8,
                97u8,
                110u8,
                121u8,
            ],
            Cmd::BLEPHYMultiplexFalse => vec![
                115u8,
                101u8,
                116u8,
                32u8,
                98u8,
                108u8,
                32u8,
                112u8,
                32u8,
                109u8,
                32u8,
                48u8,
            ],
            Cmd::BLEPHYPreference1M => vec![
                115u8,
                101u8,
                116u8,
                32u8,
                98u8,
                108u8,
                32u8,
                112u8,
                32u8,
                112u8,
                32u8,
                49u8,
                109u8,
            ],
            Cmd::SetDeviceName => vec![
                115u8,
                101u8,
                116u8,
                32u8,
                115u8,
                121u8,
                32u8,
                100u8,
                32u8,
                110u8,
                32u8,
                74u8,
                117u8,
                103u8,
                103u8,
                108u8,
                101u8,
                114u8,
                66u8,
                71u8,
                88u8,
            ],
        };
        assert(r@ =~= cmd_text(*self));
        r
    }

    /// The bytes put on the wire for the command.
    pub fn wire_bytes(&self) -> (r: Vec<u8>)
        ensures
            r@ == wire(*self),
    {
        let mut r = self.text();
        match self {
            Cmd::BreakSequence => {},
            _ => {
                r.push(13);
                r.push(10);
            },
        }
        assert(r@ =~= wire(*self));
        r
    }
}

} // verus!
