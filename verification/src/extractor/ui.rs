//! The choices the user interface offers: commands and baud rates.
use vstd::prelude::*;

verus! {

/// The baud rates offered.
pub const BAUD_RATE_LIST: [u32; 4] = [1200, 2400, 4800, 9600];

/// The baud rate chosen.
pub struct BaudRateSelector {
    pub baud_rate: u32,
}

impl Default for BaudRateSelector {
    /// Starts at 9600 baud.
    fn default() -> (r: Self)
        ensures
            r.baud_rate == 9600,
    {
        Self { baud_rate: 9600 }
    }
}

/// A command, without the data that some commands carry.
#[derive(PartialEq, Eq, Structural, Clone, Copy)]
pub enum NoDataCommand {
    Ping,
    SetSensorId,
    GetEverything,
    GetEverythingAndSave,
    ResetSensor,
    GetTime,
    SyncTime,
}

/// The commands offered, in order.
pub const COMMAND_LIST: [NoDataCommand; 7] = [
    NoDataCommand::Ping,
    NoDataCommand::SetSensorId,
    NoDataCommand::GetEverything,
    NoDataCommand::GetEverythingAndSave,
    NoDataCommand::ResetSensor,
    NoDataCommand::GetTime,
    NoDataCommand::SyncTime,
];

/// The label of a command: its name.
pub open spec fn command_label(c: NoDataCommand) -> Seq<char> {
    match c {
        NoDataCommand::Ping => "Ping"@,
        NoDataCommand::SetSensorId => "SetSensorId"@,
        NoDataCommand::GetEverything => "GetEverything"@,
        NoDataCommand::GetEverythingAndSave => "GetEverythingAndSave"@,
        NoDataCommand::ResetSensor => "ResetSensor"@,
        NoDataCommand::GetTime => "GetTime"@,
        NoDataCommand::SyncTime => "SyncTime"@,
    }
}

impl NoDataCommand {
    /// The label of this command: its name.
    pub fn to_string(&self) -> (r: String)
        ensures
            r@ == command_label(*self),
    {
        broadcast use vstd::string::to_string_from_display_ensures_for_str;

        match self {
            NoDataCommand::Ping => "Ping".to_string(),
            NoDataCommand::SetSensorId => "SetSensorId".to_string(),
            NoDataCommand::GetEverything => "GetEverything".to_string(),
            NoDataCommand::GetEverythingAndSave => "GetEverythingAndSave".to_string(),
            NoDataCommand::ResetSensor => "ResetSensor".to_string(),
            NoDataCommand::GetTime => "GetTime".to_string(),
            NoDataCommand::SyncTime => "SyncTime".to_string(),
        }
    }
}

/// The command chosen.
#[derive(Clone)]
pub struct CommandSelector {
    pub selected_command: NoDataCommand,
}

impl Default for CommandSelector {
    /// Starts on pinging.
    fn default() -> (r: Self)
        ensures
            r.selected_command == NoDataCommand::Ping,
    {
        Self { selected_command: NoDataCommand::Ping }
    }
}

} // verus!
