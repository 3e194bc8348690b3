//! Destructive bad-sector checking of block devices.

pub mod bar;
pub mod board;
pub mod chunks;
pub mod eta;
pub mod event;
pub mod order;
pub mod pattern;
pub mod preflight;
pub mod readback;
pub mod report;
pub mod scan;
pub mod signature;
pub mod state;
pub mod table;
pub mod text;
pub mod timeout;
