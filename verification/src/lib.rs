//! Frame building, probe planning and report formatting for the
//! KooSync / HF470 UART protocol spoken by the Kaotik "The Jetpack".

pub mod ble_run;
pub mod ble_sweep;
pub mod channel;
pub mod cli;
pub mod crc;
pub mod hex;
pub mod jetpack_probe;
pub mod jetpack_protocol;
pub mod jetpack_sweep;
pub mod text;
