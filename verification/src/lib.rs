//! Sensor polling and bounded reading history for a single-board grow controller.

pub mod board;
pub mod circular;
pub mod deploy;
pub mod humidity;
pub mod relay;
