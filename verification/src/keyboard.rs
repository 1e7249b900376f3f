//! Keys, keyboard state, decoding of raw input events, the registry of key
//! combinations and the event batches of the virtual keyboard.

pub mod error;
pub mod event;
pub mod keys;
pub mod listener;
pub mod names;
pub mod reader;
pub mod state;
pub mod writer;

pub use error::IoStage;
pub use error::KeyboardError;
pub use event::decode_events;
pub use event::RawEvent;
pub use event::EVENT_KIND_KEY;
pub use keys::Key;
pub use keys::KEY_COUNT;
pub use listener::KeyboardListener;
pub use names::ParseError;
pub use reader::InputDevice;
pub use reader::KeyboardReader;
pub use reader::ReadyDevice;
pub use state::KeyEvent;
pub use state::KeyPosition;
pub use state::KeyboardState;
pub use writer::KeyboardEmulator;
pub use writer::KeyboardWriter;
