//! Verified core of the flow-meter firmware: the HD44780 4-bit bus protocol,
//! HTTP request framing and the results page, pulse counting, and the
//! decision logic of the Wi-Fi and server tasks.
pub mod lcd_bus;
pub mod lcd;
pub mod lcd_controller;
pub mod http;
pub mod sensor;
pub mod wifi;
pub mod server;
pub mod scan;
