use link_lib::common_data::response::{Response, MAX_RESPONSE_SIZE};
use link_lib::extractor::serial_messages::{read_response_step, ReadError, ReadStep};
use link_lib::extractor::commands::{command_action, same_response_kind, Command, CommandAction};
use link_lib::extractor::messages::Message;
use link_lib::extractor::ui::{BaudRateSelector, CommandSelector, NoDataCommand, BAUD_RATE_LIST, COMMAND_LIST};
use link_lib::extractor_iced::{MySerialPort, Ui};
use std::path::PathBuf;

#[test]
fn command_labels() {
    assert_eq!(NoDataCommand::Ping.to_string(), "Ping");
    assert_eq!(NoDataCommand::GetEverythingAndSave.to_string(), "GetEverythingAndSave");
    assert_eq!(NoDataCommand::SyncTime.to_string(), "SyncTime");
    let labels: Vec<String> = COMMAND_LIST.iter().map(|c| c.to_string()).collect();
    assert_eq!(
        labels,
        ["Ping", "SetSensorId", "GetEverything", "GetEverythingAndSave", "ResetSensor", "GetTime", "SyncTime"]
    );
}

#[test]
fn selector_defaults() {
    assert_eq!(BaudRateSelector::default().baud_rate, 9600);
    assert!(CommandSelector::default().selected_command == NoDataCommand::Ping);
    assert_eq!(BAUD_RATE_LIST, [1200, 2400, 4800, 9600]);
}

#[test]
fn only_ping_is_implemented() {
    assert!(command_action(&Command::Ping) == CommandAction::Ping);
    assert!(command_action(&Command::GetEverythingAndSave(PathBuf::from("/tmp/x"))) == CommandAction::NotImplemented);
    assert!(command_action(&Command::SetSensorId(3)) == CommandAction::NotImplemented);
    let message = Message::Command(Command::GetTime);
    assert!(matches!(message, Message::Command(Command::GetTime)));
    let connect = Message::Connect { path: "/dev/ttyUSB0".to_string(), baud: 9600 };
    assert!(matches!(connect, Message::Connect { baud: 9600, .. }));
}

#[test]
fn responses_compared_by_kind() {
    assert!(same_response_kind(&Response::Ack, &Response::Ack));
    assert!(same_response_kind(&Response::NumberOfEvent(1), &Response::NumberOfEvent(2)));
    assert!(!same_response_kind(&Response::Error, &Response::Ack));
}

#[test]
fn serial_ports_keep_their_path() {
    let port = MySerialPort::new("/dev/ttyACM0");
    assert_eq!(port.path, "/dev/ttyACM0");
    assert_eq!(port.clone(), port);
    let ui = Ui::empty();
    assert!(ui.available_serials.is_empty());
    assert!(ui.selected_serial.is_none());
}

#[test]
fn read_loop_decisions() {
    assert_eq!(read_response_step(1, Ok(None)), ReadStep::Continue);
    assert_eq!(read_response_step(2, Ok(Some(Response::Ack))), ReadStep::Done(Response::Ack));
    assert_eq!(read_response_step(2, Err(())), ReadStep::Failed(ReadError::Decoding));
    assert_eq!(
        read_response_step(MAX_RESPONSE_SIZE, Ok(None)),
        ReadStep::Failed(ReadError::NoResponse)
    );
    assert_eq!(read_response_step(MAX_RESPONSE_SIZE - 1, Ok(None)), ReadStep::Continue);
}
