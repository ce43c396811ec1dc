//! Control core of a multi-channel component feeder for pick-and-place
//! machines.
//!
//! The crate reconstructs command lines from a raw byte stream, parses them
//! as G-code-like words, drives per-feeder servo state machines through a
//! capability interface, recognizes feedback-switch pulses, and reports
//! results as text replies.  All logic is verified; hardware access reaches
//! the library only through the `Servo`, `Input`, `ConfigStore` and
//! `OutputSink` traits.

pub mod client;
pub mod dispatcher;
pub mod error;
pub mod feeder;
pub mod framer;
pub mod gcode;
pub mod input;
pub mod laws;
pub mod pulse;
pub mod servo;
pub mod sink;
pub mod store;
pub mod text;
pub mod value;

pub use client::FeederClient;
pub use dispatcher::GCodeEvent;
pub use dispatcher::GCodeHandler;
pub use error::Error;
pub use feeder::Feeder;
pub use feeder::FeederCommand;
pub use feeder::FeederConfig;
pub use feeder::FeederResponse;
pub use framer::CharAssembler;
pub use framer::LineReader;
pub use gcode::Line;
pub use gcode::ParseError;
pub use gcode::Word;
pub use input::Input;
pub use input::SimInput;
pub use servo::PwmLimits;
pub use servo::Servo;
pub use servo::SimServo;
pub use sink::BufferSink;
pub use sink::OutputSink;
pub use store::ConfigStore;
pub use store::MemConfigStore;
pub use value::Value;
