//! The logic of an MSX2 computer: slots and cartridges, the V9938 video
//! processor and its command engine, the keyboard, clock, floppy and sound
//! chips, and the bus that ties them together.
pub mod archive;
pub mod bus;
pub mod cli;
pub mod debug;
pub mod fdc;
pub mod frame;
pub mod keyboard;
pub mod log;
pub mod lut;
pub mod post;
pub mod ppi;
pub mod rtc;
pub mod scc;
pub mod slot;
pub mod sound;
pub mod text;
pub mod vdp;
pub mod ym2413;
