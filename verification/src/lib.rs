//! Control logic for a single-board-computer power-button and fan add-on.
//!
//! The library holds the daemon's decision logic: pairing rising/falling
//! edges of the button line into pulse widths, classifying pulse widths into
//! button actions, buffering bursts of edge events in arrival order, parsing
//! sensor readings, and the hysteresis state machine that picks fan speeds.
//! The hardware I/O around it (GPIO line requests, the i2c bus, signals and
//! the async runtime) lives in the binary, which feeds plain values in and
//! carries the decisions out.

pub mod daemon;
pub mod edge_stream;
pub mod fan_control;
pub mod power_button_stream;
pub mod temperature_stream;
