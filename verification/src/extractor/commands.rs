//! Commands the user can give to the sensor.
use vstd::prelude::*;
use std::path::PathBuf;
use crate::common_data::response::Response;

verus! {

#[verifier::external_type_specification]
#[verifier::external_body]
pub struct ExPathBuf(PathBuf);

/// `PathBuf::clone` copies an owned path; what the copy holds is left unsaid here.
pub assume_specification[ <PathBuf as Clone>::clone ](p: &PathBuf) -> PathBuf;

/// A command of the user.
#[derive(PartialEq, Clone)]
pub enum Command {
    Ping,
    SetSensorId(u64),
    GetEverything,
    GetEverythingAndSave(PathBuf),
    ResetSensor,
    GetTime,
    SyncTime,
}

/// What the command handler does with a command: only pinging is carried out, the
/// other commands are not implemented (the handler panics on them).
#[derive(PartialEq, Eq, Structural, Clone, Copy)]
pub enum CommandAction {
    Ping,
    NotImplemented,
}

/// What the command handler does with a command.
pub fn command_action(command: &Command) -> (r: CommandAction)
    ensures
        r == (if command is Ping {
            CommandAction::Ping
        } else {
            CommandAction::NotImplemented
        }),
{
    match command {
        Command::Ping => CommandAction::Ping,
        _ => CommandAction::NotImplemented,
    }
}

/// The index of a response's variant.
pub open spec fn response_kind(r: Response) -> int {
    match r {
        Response::Ack => 0,
        Response::Error => 1,
        Response::NumberOfEvent(_) => 2,
        Response::EventInfo(_) => 3,
        Response::SensorId(_) => 4,
        Response::EmbeddedTime(_) => 5,
    }
}

/// Whether two responses are built by the same variant, whatever they carry.
pub open spec fn same_variant(a: Response, b: Response) -> bool {
    ||| a is Ack && b is Ack
    ||| a is Error && b is Error
    ||| a is NumberOfEvent && b is NumberOfEvent
    ||| a is EventInfo && b is EventInfo
    ||| a is SensorId && b is SensorId
    ||| a is EmbeddedTime && b is EmbeddedTime
}

/// Two responses have the same kind exactly when they are of the same variant.
pub proof fn lemma_response_kind_is_variant(a: Response, b: Response)
    ensures
        (response_kind(a) == response_kind(b)) <==> same_variant(a, b),
{
}

/// Whether a response is of the variant expected, whatever it carries.
pub fn same_response_kind(response: &Response, expected: &Response) -> (r: bool)
    ensures
        r == (response_kind(*response) == response_kind(*expected)),
        r == same_variant(*response, *expected),
{
    let a: u8 = match response {
        Response::Ack => 0,
        Response::Error => 1,
        Response::NumberOfEvent(_) => 2,
        Response::EventInfo(_) => 3,
        Response::SensorId(_) => 4,
        Response::EmbeddedTime(_) => 5,
    };
    let b: u8 = match expected {
        Response::Ack => 0,
        Response::Error => 1,
        Response::NumberOfEvent(_) => 2,
        Response::EventInfo(_) => 3,
        Response::SensorId(_) => 4,
        Response::EmbeddedTime(_) => 5,
    };
    a == b
}

} // verus!
