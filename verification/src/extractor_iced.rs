//! The second user interface of the host tool: its serial ports and messages.
use vstd::prelude::*;

verus! {

/// A serial port, known by its path as the interface shows it.
#[derive(Debug, Clone, PartialEq, Eq, PartialOrd, Ord)]
pub struct MySerialPort {
    pub path: String,
}

impl MySerialPort {
    /// The serial port at `path`, holding its own copy of the path.
    pub fn new(path: &str) -> (r: Self)
        ensures
            r.path@ == path@,
    {
        Self { path: path.to_owned() }
    }
}

/// The state of the user interface: the serial ports found and the one chosen.
#[derive(Default)]
pub struct Ui {
    pub available_serials: Vec<MySerialPort>,
    pub selected_serial: Option<MySerialPort>,
}

/// A message of the user interface.
#[derive(Debug, Clone)]
pub enum Message {
    UpdateSerials,
    ConnectSerial(MySerialPort),
    SerialSelected(MySerialPort),
}

impl Ui {
    /// The interface at start: no serial port found, none chosen.
    pub fn empty() -> (r: Self)
        ensures
            r.available_serials@.len() == 0,
            r.selected_serial is None,
    {
        Self { available_serials: Vec::new(), selected_serial: None }
    }
}

} // verus!
