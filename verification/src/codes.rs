//! The protocol's code tables: command and response codes, property codes and
//! recording modes, each with a catch-all variant that carries a raw value
//! without a name. Codes compare by their raw values.

use std::cmp::Ordering;
use vstd::prelude::*;
use vstd::std_specs::cmp::PartialEqSpecImpl;
use vstd::std_specs::cmp::PartialOrdSpecImpl;
use vstd::std_specs::convert::FromSpecImpl;

verus! {

/// The code of a command being issued, or of the response to one.
///
/// The corresponding response code to a command code is mostly `command_code ^ 0x70` and vice
/// versa. However, there are exceptions to this rule.
#[derive(Clone, Copy, Debug, Hash)]
pub enum CommandCode {
    ReadyCommand,
    GetDeviceNameCommand,
    GetVersionInfoCommand,
    SetDateTimeCommand,
    ReadPropertyCommand,
    SetPropertyCommand,
    GetAuxiliaryDataCommand,
    KeepAliveCommand,
    LiveDataCommand,
    AdvanceAndShowAutoRecordedFileHeaderCommand,
    ReadAutoRecordedFileCommand,
    FileStoreInfoCommand,
    ManuallyRecordedFileMetadataCommand,
    ReadPulseFromManuallyRecordedFileCommand,
    ReadOxygenFromManuallyRecordedFileCommand,

    ReadyResponse,
    GetDeviceNameResponse,
    GetVersionInfoResponse,
    ManuallyRecordedFileMetadataResponse,
    ReadPulseFromManuallyRecordedFileResponse,
    ReadOxygenFromManuallyRecordedFileResponse,
    GetAuxiliaryDataResponse,
    // no response to KeepAliveCommand
    LiveDataResponse,
    AdvanceAndShowAutoRecordedFileHeaderResponse,
    ReadAutoRecordedFileResponse,
    FileStoreInfoResponse,
    SetDateTimeResponse,
    ReadPropertyResponse,
    SetPropertyResponse,

    Other(u8),
}

impl CommandCode {
    /// The byte that stands for this code on the wire.
    pub open spec fn raw(self) -> u8 {
        match self {
            CommandCode::ReadyCommand => 0x80,
            CommandCode::GetDeviceNameCommand => 0x81,
            CommandCode::GetVersionInfoCommand => 0x82,
            CommandCode::SetDateTimeCommand => 0x83,
            CommandCode::ReadPropertyCommand => 0x8E,
            CommandCode::SetPropertyCommand => 0x8F,
            CommandCode::GetAuxiliaryDataCommand => 0x90,
            CommandCode::KeepAliveCommand => 0x9A,
            CommandCode::LiveDataCommand => 0x9B,
            CommandCode::AdvanceAndShowAutoRecordedFileHeaderCommand => 0x9C,
            CommandCode::ReadAutoRecordedFileCommand => 0x9D,
            CommandCode::FileStoreInfoCommand => 0x9F,
            CommandCode::ManuallyRecordedFileMetadataCommand => 0xA0,
            CommandCode::ReadPulseFromManuallyRecordedFileCommand => 0xA2,
            CommandCode::ReadOxygenFromManuallyRecordedFileCommand => 0xA3,

            CommandCode::ReadyResponse => 0xF0,
            CommandCode::GetDeviceNameResponse => 0xF1,
            CommandCode::GetVersionInfoResponse => 0xF2,
            CommandCode::ManuallyRecordedFileMetadataResponse => 0xD0,
            CommandCode::ReadPulseFromManuallyRecordedFileResponse => 0xD2,
            CommandCode::ReadOxygenFromManuallyRecordedFileResponse => 0xD3,
            CommandCode::GetAuxiliaryDataResponse => 0xE0,
            CommandCode::LiveDataResponse => 0xEB,
            CommandCode::AdvanceAndShowAutoRecordedFileHeaderResponse => 0xEC,
            CommandCode::ReadAutoRecordedFileResponse => 0xED,
            CommandCode::FileStoreInfoResponse => 0xEF,
            CommandCode::SetDateTimeResponse => 0xF3,
            CommandCode::ReadPropertyResponse => 0xFE,
            CommandCode::SetPropertyResponse => 0xFF,

            CommandCode::Other(b) => b,
        }
    }

    /// The code that a raw value stands for; `Other` carries every value without a name.
    pub open spec fn of_raw(b: u8) -> CommandCode {
        match b {
            0x80 => CommandCode::ReadyCommand,
            0x81 => CommandCode::GetDeviceNameCommand,
            0x82 => CommandCode::GetVersionInfoCommand,
            0x83 => CommandCode::SetDateTimeCommand,
            0x8E => CommandCode::ReadPropertyCommand,
            0x8F => CommandCode::SetPropertyCommand,
            0x90 => CommandCode::GetAuxiliaryDataCommand,
            0x9A => CommandCode::KeepAliveCommand,
            0x9B => CommandCode::LiveDataCommand,
            0x9C => CommandCode::AdvanceAndShowAutoRecordedFileHeaderCommand,
            0x9D => CommandCode::ReadAutoRecordedFileCommand,
            0x9F => CommandCode::FileStoreInfoCommand,
            0xA0 => CommandCode::ManuallyRecordedFileMetadataCommand,
            0xA2 => CommandCode::ReadPulseFromManuallyRecordedFileCommand,
            0xA3 => CommandCode::ReadOxygenFromManuallyRecordedFileCommand,

            0xF0 => CommandCode::ReadyResponse,
            0xF1 => CommandCode::GetDeviceNameResponse,
            0xF2 => CommandCode::GetVersionInfoResponse,
            0xD0 => CommandCode::ManuallyRecordedFileMetadataResponse,
            0xD2 => CommandCode::ReadPulseFromManuallyRecordedFileResponse,
            0xD3 => CommandCode::ReadOxygenFromManuallyRecordedFileResponse,
            0xE0 => CommandCode::GetAuxiliaryDataResponse,
            0xEB => CommandCode::LiveDataResponse,
            0xEC => CommandCode::AdvanceAndShowAutoRecordedFileHeaderResponse,
            0xED => CommandCode::ReadAutoRecordedFileResponse,
            0xEF => CommandCode::FileStoreInfoResponse,
            0xF3 => CommandCode::SetDateTimeResponse,
            0xFE => CommandCode::ReadPropertyResponse,
            0xFF => CommandCode::SetPropertyResponse,

            other => CommandCode::Other(other),
        }
    }

    /// Every raw value survives the trip through its code.
    pub proof fn lemma_raw_round_trip(b: u8)
        ensures
            CommandCode::of_raw(b).raw() == b,
    {
    }

    /// A code comes back from its raw value as a code with the same raw value,
    /// and as itself unless it is an `Other` that carries a named value.
    pub proof fn lemma_code_round_trip(code: CommandCode)
        ensures
            CommandCode::of_raw(code.raw()).raw() == code.raw(),
            !(code is Other) ==> CommandCode::of_raw(code.raw()) == code,
            code is Other && CommandCode::of_raw(code.raw()) is Other ==> CommandCode::of_raw(code.raw()) == code,
    {
    }
}

impl From<u8> for CommandCode {
    fn from(b: u8) -> (code: Self) {
        match b {
            0x80 => Self::ReadyCommand,
            0x81 => Self::GetDeviceNameCommand,
            0x82 => Self::GetVersionInfoCommand,
            0x83 => Self::SetDateTimeCommand,
            0x8E => Self::ReadPropertyCommand,
            0x8F => Self::SetPropertyCommand,
            0x90 => Self::GetAuxiliaryDataCommand,
            0x9A => Self::KeepAliveCommand,
            0x9B => Self::LiveDataCommand,
            0x9C => Self::AdvanceAndShowAutoRecordedFileHeaderCommand,
            0x9D => Self::ReadAutoRecordedFileCommand,
            0x9F => Self::FileStoreInfoCommand,
            0xA0 => Self::ManuallyRecordedFileMetadataCommand,
            0xA2 => Self::ReadPulseFromManuallyRecordedFileCommand,
            0xA3 => Self::ReadOxygenFromManuallyRecordedFileCommand,

            0xF0 => Self::ReadyResponse,
            0xF1 => Self::GetDeviceNameResponse,
            0xF2 => Self::GetVersionInfoResponse,
            0xD0 => Self::ManuallyRecordedFileMetadataResponse,
            0xD2 => Self::ReadPulseFromManuallyRecordedFileResponse,
            0xD3 => Self::ReadOxygenFromManuallyRecordedFileResponse,
            0xE0 => Self::GetAuxiliaryDataResponse,
            0xEB => Self::LiveDataResponse,
            0xEC => Self::AdvanceAndShowAutoRecordedFileHeaderResponse,
            0xED => Self::ReadAutoRecordedFileResponse,
            0xEF => Self::FileStoreInfoResponse,
            0xF3 => Self::SetDateTimeResponse,
            0xFE => Self::ReadPropertyResponse,
            0xFF => Self::SetPropertyResponse,

            other => Self::Other(other),
        }
    }
}

impl FromSpecImpl<u8> for CommandCode {
    open spec fn obeys_from_spec() -> bool {
        true
    }

    open spec fn from_spec(b: u8) -> Self {
        CommandCode::of_raw(b)
    }
}

impl From<&CommandCode> for u8 {
    fn from(code: &CommandCode) -> (b: Self) {
        match code {
            CommandCode::ReadyCommand => 0x80,
            CommandCode::GetDeviceNameCommand => 0x81,
            CommandCode::GetVersionInfoCommand => 0x82,
            CommandCode::SetDateTimeCommand => 0x83,
            CommandCode::ReadPropertyCommand => 0x8E,
            CommandCode::SetPropertyCommand => 0x8F,
            CommandCode::GetAuxiliaryDataCommand => 0x90,
            CommandCode::KeepAliveCommand => 0x9A,
            CommandCode::LiveDataCommand => 0x9B,
            CommandCode::AdvanceAndShowAutoRecordedFileHeaderCommand => 0x9C,
            CommandCode::ReadAutoRecordedFileCommand => 0x9D,
            CommandCode::FileStoreInfoCommand => 0x9F,
            CommandCode::ManuallyRecordedFileMetadataCommand => 0xA0,
            CommandCode::ReadPulseFromManuallyRecordedFileCommand => 0xA2,
            CommandCode::ReadOxygenFromManuallyRecordedFileCommand => 0xA3,

            CommandCode::ReadyResponse => 0xF0,
            CommandCode::GetDeviceNameResponse => 0xF1,
            CommandCode::GetVersionInfoResponse => 0xF2,
            CommandCode::ManuallyRecordedFileMetadataResponse => 0xD0,
            CommandCode::ReadPulseFromManuallyRecordedFileResponse => 0xD2,
            CommandCode::ReadOxygenFromManuallyRecordedFileResponse => 0xD3,
            CommandCode::GetAuxiliaryDataResponse => 0xE0,
            CommandCode::LiveDataResponse => 0xEB,
            CommandCode::AdvanceAndShowAutoRecordedFileHeaderResponse => 0xEC,
            CommandCode::ReadAutoRecordedFileResponse => 0xED,
            CommandCode::FileStoreInfoResponse => 0xEF,
            CommandCode::SetDateTimeResponse => 0xF3,
            CommandCode::ReadPropertyResponse => 0xFE,
            CommandCode::SetPropertyResponse => 0xFF,

            CommandCode::Other(b) => *b,
        }
    }
}

impl FromSpecImpl<&CommandCode> for u8 {
    open spec fn obeys_from_spec() -> bool {
        true
    }

    open spec fn from_spec(code: &CommandCode) -> Self {
        code.raw()
    }
}

impl From<CommandCode> for u8 {
    fn from(code: CommandCode) -> (b: Self) {
        u8::from(&code)
    }
}

impl FromSpecImpl<CommandCode> for u8 {
    open spec fn obeys_from_spec() -> bool {
        true
    }

    open spec fn from_spec(code: CommandCode) -> Self {
        code.raw()
    }
}

impl PartialEq for CommandCode {
    fn eq(&self, other: &Self) -> (equal: bool) {
        let self_raw = u8::from(self);
        let other_raw = u8::from(other);
        self_raw == other_raw
    }
}

impl PartialEqSpecImpl for CommandCode {
    open spec fn obeys_eq_spec() -> bool {
        true
    }

    open spec fn eq_spec(&self, other: &Self) -> bool {
        self.raw() == other.raw()
    }
}

impl Eq for CommandCode {

}

impl PartialOrd for CommandCode {
    fn partial_cmp(&self, other: &Self) -> (order: Option<Ordering>) {
        let self_raw = u8::from(self);
        let other_raw = u8::from(other);
        if self_raw < other_raw {
            Some(Ordering::Less)
        } else if self_raw > other_raw {
            Some(Ordering::Greater)
        } else {
            Some(Ordering::Equal)
        }
    }
}

impl PartialOrdSpecImpl for CommandCode {
    open spec fn obeys_partial_cmp_spec() -> bool {
        true
    }

    open spec fn partial_cmp_spec(&self, other: &Self) -> Option<Ordering> {
        if self.raw() < other.raw() {
            Some(Ordering::Less)
        } else if self.raw() > other.raw() {
            Some(Ordering::Greater)
        } else {
            Some(Ordering::Equal)
        }
    }
}

/// The code of a property. Properties can be read using `CommandCode::ReadPropertyCommand` and
/// written using `CommandCode::SetPropertyCommand`.
#[derive(Clone, Copy, Debug, Hash)]
pub enum PropertyCode {
    DeviceId,
    UnknownProperty04,
    AutoRecordedFiles,
    RecordingMode,

    Other(u8),
}

impl PropertyCode {
    /// The byte that stands for this property on the wire.
    pub open spec fn raw(self) -> u8 {
        match self {
            PropertyCode::DeviceId => 0x03,
            PropertyCode::UnknownProperty04 => 0x04,
            PropertyCode::AutoRecordedFiles => 0x06,
            PropertyCode::RecordingMode => 0x07,

            PropertyCode::Other(b) => b,
        }
    }

    /// The code that a raw value stands for; `Other` carries every value without a name.
    pub open spec fn of_raw(b: u8) -> PropertyCode {
        match b {
            0x03 => PropertyCode::DeviceId,
            0x04 => PropertyCode::UnknownProperty04,
            0x06 => PropertyCode::AutoRecordedFiles,
            0x07 => PropertyCode::RecordingMode,

            other => PropertyCode::Other(other),
        }
    }

    /// Every raw value survives the trip through its code.
    pub proof fn lemma_raw_round_trip(b: u8)
        ensures
            PropertyCode::of_raw(b).raw() == b,
    {
    }

    /// A code comes back from its raw value as a code with the same raw value,
    /// and as itself unless it is an `Other` that carries a named value.
    pub proof fn lemma_code_round_trip(code: PropertyCode)
        ensures
            PropertyCode::of_raw(code.raw()).raw() == code.raw(),
            !(code is Other) ==> PropertyCode::of_raw(code.raw()) == code,
            code is Other && PropertyCode::of_raw(code.raw()) is Other ==> PropertyCode::of_raw(code.raw()) == code,
    {
    }
}

impl From<u8> for PropertyCode {
    fn from(b: u8) -> (code: Self) {
        match b {
            0x03 => Self::DeviceId,
            0x04 => Self::UnknownProperty04,
            0x06 => Self::AutoRecordedFiles,
            0x07 => Self::RecordingMode,

            other => Self::Other(other),
        }
    }
}

impl FromSpecImpl<u8> for PropertyCode {
    open spec fn obeys_from_spec() -> bool {
        true
    }

    open spec fn from_spec(b: u8) -> Self {
        PropertyCode::of_raw(b)
    }
}

impl From<&PropertyCode> for u8 {
    fn from(code: &PropertyCode) -> (b: Self) {
        match code {
            PropertyCode::DeviceId => 0x03,
            PropertyCode::UnknownProperty04 => 0x04,
            PropertyCode::AutoRecordedFiles => 0x06,
            PropertyCode::RecordingMode => 0x07,

            PropertyCode::Other(b) => *b,
        }
    }
}

impl FromSpecImpl<&PropertyCode> for u8 {
    open spec fn obeys_from_spec() -> bool {
        true
    }

    open spec fn from_spec(code: &PropertyCode) -> Self {
        code.raw()
    }
}

impl From<PropertyCode> for u8 {
    fn from(code: PropertyCode) -> (b: Self) {
        u8::from(&code)
    }
}

impl FromSpecImpl<PropertyCode> for u8 {
    open spec fn obeys_from_spec() -> bool {
        true
    }

    open spec fn from_spec(code: PropertyCode) -> Self {
        code.raw()
    }
}

impl PartialEq for PropertyCode {
    fn eq(&self, other: &Self) -> (equal: bool) {
        let self_raw = u8::from(self);
        let other_raw = u8::from(other);
        self_raw == other_raw
    }
}

impl PartialEqSpecImpl for PropertyCode {
    open spec fn obeys_eq_spec() -> bool {
        true
    }

    open spec fn eq_spec(&self, other: &Self) -> bool {
        self.raw() == other.raw()
    }
}

impl Eq for PropertyCode {

}

impl PartialOrd for PropertyCode {
    fn partial_cmp(&self, other: &Self) -> (order: Option<Ordering>) {
        let self_raw = u8::from(self);
        let other_raw = u8::from(other);
        if self_raw < other_raw {
            Some(Ordering::Less)
        } else if self_raw > other_raw {
            Some(Ordering::Greater)
        } else {
            Some(Ordering::Equal)
        }
    }
}

impl PartialOrdSpecImpl for PropertyCode {
    open spec fn obeys_partial_cmp_spec() -> bool {
        true
    }

    open spec fn partial_cmp_spec(&self, other: &Self) -> Option<Ordering> {
        if self.raw() < other.raw() {
            Some(Ordering::Less)
        } else if self.raw() > other.raw() {
            Some(Ordering::Greater)
        } else {
            Some(Ordering::Equal)
        }
    }
}

/// The recording mode for which the oximeter is currently configured.
#[derive(Clone, Copy, Debug, Hash)]
pub enum RecordingMode {
    Automatic,
    Manual,

    Other(u16),
}

impl RecordingMode {
    /// The two-byte value that stands for this mode on the wire.
    pub open spec fn raw(self) -> u16 {
        match self {
            RecordingMode::Automatic => 0x0000,
            RecordingMode::Manual => 0x0001,

            RecordingMode::Other(b) => b,
        }
    }

    /// The code that a raw value stands for; `Other` carries every value without a name.
    pub open spec fn of_raw(b: u16) -> RecordingMode {
        match b {
            0x0000 => RecordingMode::Automatic,
            0x0001 => RecordingMode::Manual,

            other => RecordingMode::Other(other),
        }
    }

    /// Every raw value survives the trip through its code.
    pub proof fn lemma_raw_round_trip(b: u16)
        ensures
            RecordingMode::of_raw(b).raw() == b,
    {
    }

    /// A code comes back from its raw value as a code with the same raw value,
    /// and as itself unless it is an `Other` that carries a named value.
    pub proof fn lemma_code_round_trip(code: RecordingMode)
        ensures
            RecordingMode::of_raw(code.raw()).raw() == code.raw(),
            !(code is Other) ==> RecordingMode::of_raw(code.raw()) == code,
            code is Other && RecordingMode::of_raw(code.raw()) is Other ==> RecordingMode::of_raw(code.raw()) == code,
    {
    }
}

impl From<u16> for RecordingMode {
    fn from(b: u16) -> (code: Self) {
        match b {
            0x0000 => Self::Automatic,
            0x0001 => Self::Manual,

            other => Self::Other(other),
        }
    }
}

impl FromSpecImpl<u16> for RecordingMode {
    open spec fn obeys_from_spec() -> bool {
        true
    }

    open spec fn from_spec(b: u16) -> Self {
        RecordingMode::of_raw(b)
    }
}

impl From<&RecordingMode> for u16 {
    fn from(mode: &RecordingMode) -> (b: Self) {
        match mode {
            RecordingMode::Automatic => 0x0000,
            RecordingMode::Manual => 0x0001,

            RecordingMode::Other(b) => *b,
        }
    }
}

impl FromSpecImpl<&RecordingMode> for u16 {
    open spec fn obeys_from_spec() -> bool {
        true
    }

    open spec fn from_spec(mode: &RecordingMode) -> Self {
        mode.raw()
    }
}

impl From<RecordingMode> for u16 {
    fn from(mode: RecordingMode) -> (b: Self) {
        u16::from(&mode)
    }
}

impl FromSpecImpl<RecordingMode> for u16 {
    open spec fn obeys_from_spec() -> bool {
        true
    }

    open spec fn from_spec(mode: RecordingMode) -> Self {
        mode.raw()
    }
}

impl PartialEq for RecordingMode {
    fn eq(&self, other: &Self) -> (equal: bool) {
        let self_raw = u16::from(self);
        let other_raw = u16::from(other);
        self_raw == other_raw
    }
}

impl PartialEqSpecImpl for RecordingMode {
    open spec fn obeys_eq_spec() -> bool {
        true
    }

    open spec fn eq_spec(&self, other: &Self) -> bool {
        self.raw() == other.raw()
    }
}

impl Eq for RecordingMode {

}

impl PartialOrd for RecordingMode {
    fn partial_cmp(&self, other: &Self) -> (order: Option<Ordering>) {
        let self_raw = u16::from(self);
        let other_raw = u16::from(other);
        if self_raw < other_raw {
            Some(Ordering::Less)
        } else if self_raw > other_raw {
            Some(Ordering::Greater)
        } else {
            Some(Ordering::Equal)
        }
    }
}

impl PartialOrdSpecImpl for RecordingMode {
    open spec fn obeys_partial_cmp_spec() -> bool {
        true
    }

    open spec fn partial_cmp_spec(&self, other: &Self) -> Option<Ordering> {
        if self.raw() < other.raw() {
            Some(Ordering::Less)
        } else if self.raw() > other.raw() {
            Some(Ordering::Greater)
        } else {
            Some(Ordering::Equal)
        }
    }
}
} // verus!
