//! Driver logic for a 240 by 240 SPI color panel: a transport that frames
//! opcodes and parameters on the bus and its control lines, the ordered
//! bring-up sequence that takes the controller from reset to drawable, and
//! the label that the frame loop redraws on each tick.

pub mod init;
pub mod render;
pub mod transport;
