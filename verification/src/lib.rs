//! Terminal-emulation core: the control-sequence decoder, the cursor tracker,
//! the scrollback store and the decisions of a pseudo-terminal session, each
//! with a machine-checked contract.
//!
//! The library does no input or output. A caller reads the descriptor of the
//! pseudo-terminal and hands the bytes to an [`Emulator`]; it asks a
//! [`PtySession`] when to read and what a result means, and a
//! [`PendingWrite`] what to offer to the descriptor next.

pub mod chunking;
pub mod csi;
pub mod cursor;
pub mod decoder;
pub mod emulator;
pub mod errno;
pub mod event;
pub mod lines;
pub mod pty;
pub mod scrollback;
pub mod spawn;
pub mod write;

pub use crate::cursor::{CursorPosition, CursorTracker};
pub use crate::decoder::OutputBuffer;
pub use crate::emulator::Emulator;
pub use crate::event::{DecodeAnomaly, TerminalEvent};
pub use crate::pty::PtySession;
pub use crate::scrollback::ScrollbackStore;
pub use crate::write::PendingWrite;
