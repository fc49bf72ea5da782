//! shelvd — the core of a terminal emulator that groups each command with its
//! output.
//!
//! Everything that decides anything is here: the [`Terminal`] with its command
//! blocks, scrollback, selection and input band; the scanner for shell-integration
//! markers; completion from the shell's own engine; the command palette; key and
//! mouse encoding; the [`Session`] that ties them together; and what a frame draws,
//! in cells. Windows, pixels, the child process and the clipboard belong to the
//! program around it.

use vstd::prelude::*;

pub mod band_laws;
pub mod block;
pub mod color;
pub mod commands;
pub mod completion;
pub mod config;
pub mod decimal;
pub mod emulator;
pub mod engine;
pub mod error;
pub mod freeze_laws;
pub mod frozen;
pub mod geometry;
pub mod hex;
pub mod history_laws;
pub mod keys;
pub mod layout;
pub mod lifecycle_laws;
pub mod model;
pub mod model_laws;
pub mod mouse;
pub mod osc133;
pub mod outcome_laws;
pub mod overlay;
pub mod paint;
pub mod palette;
pub mod pty;
pub mod resolve;
pub mod screen_laws;
pub mod selection;
pub mod selection_laws;
pub mod session;
pub mod session_laws;
pub mod session_model;
pub mod snapshot;
pub mod surface;
pub mod terminal;
pub mod text;
pub mod theme;
pub mod viewport_laws;
pub mod wide;

pub use block::{Block, BlockState};
pub use color::{ParseColorError, Rgba};
pub use completion::{CompletionItem, CompletionRequest, CompletionResponse};
pub use config::Config;
pub use error::{Error, Result};
pub use frozen::FrozenBlock;
pub use geometry::{GridSize, PixelSize, ResizeEdge, TitlebarHit};
pub use osc133::SemanticKind;
pub use overlay::{Overlay, OverlayColors, OverlayItem};
pub use palette::Palette;
pub use session::{Effect, Session};
pub use snapshot::{CellFlags, CellSnapshot, CursorShape, CursorSnapshot, GridSnapshot, RowDecor, StickyHeader};
pub use terminal::{BandState, TermEvent, Terminal};
pub use theme::{Padding, Theme};
