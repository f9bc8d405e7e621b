//! Concatenation of XTC trajectory files that follow each other in time.
//!
//! When a simulation is split into segments, the first frame of each segment
//! repeats the last frame of the one before. Joining the segments therefore
//! copies the first file whole and every later file from its second frame on.
//! The position of the second frame is read from the size field of the first
//! frame's header.
pub mod backup;
pub mod header;
pub mod job;
pub mod laws;
pub mod progress;
