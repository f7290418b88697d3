# link_lib

Firmware logic and host tools of an ultra low power light sensor (STM32L011 with an
OPT3001 light sensor and a 24x256 EEPROM) that logs an event each time the luminosity
crosses a threshold.

- `src/` is the verified library (Verus):
  - `link/`: events, the request and response messages of the serial link, their
    postcard wire format and COBS framing (`wire.rs`), decoding and encoding
    (`convertion.rs`), the receive buffer (`input_buffer.rs`);
  - `common_data/`: the messages of the sensor's serial protocol;
  - `sensor/`: the compact event form, the EEPROM layouts of the event log with their
    laws, the light thresholds and the decisions of the firmware's tasks;
  - `extractor.rs`, `extractor_iced.rs`: the host tool's commands and interface state;
  - `rtc.rs`: the five-byte event record of the first firmware.
- `app/` holds what talks to hardware or to the operating system: the serial links,
  the EEPROM and light sensor drivers, the firmware's task bodies written over
  `embedded-hal` (blink, light interrupt, serial interrupt) and the host tool's command
  loop. The board bring-up (`init`), the interrupt bindings of the firmware and the two
  graphical interfaces need board and GUI crates that are not dependencies here, so
  they are not part of it.
- `tests/` runs the library on concrete values.
