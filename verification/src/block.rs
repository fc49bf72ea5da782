//! The command-block model: one [`Block`] per shell command, delimited by the
//! OSC-133 semantic-prompt markers the tee recovers.
//!
//! A block accretes through a command's lifecycle: `A` opens it (prompt start),
//! `B` marks where the typed command begins, `C` marks where its output begins
//! (and is when the command text is captured), and `D` closes it with the exit
//! code. Line fields are **absolute** grid lines, so they stay put as content
//! scrolls into history.

use vstd::prelude::*;
use std::time::Instant;
use crate::completion::opt_text;
use crate::frozen::{FrozenBlock, lines_of, reflowed};
use crate::snapshot::CellSnapshot;

verus! {

/// `std`'s instant, opaque.
#[verifier::external_type_specification]
#[verifier::external_body]
pub struct ExInstant(std::time::Instant);

/// `Instant::now`: the time of the call, of which nothing is said.
#[verifier::external_body]
pub(crate) fn now() -> Instant {
    Instant::now()
}

/// Where a block is in its lifecycle.
#[derive(Clone, Copy, Debug, PartialEq, Eq, Structural)]
pub enum BlockState {
    /// Command submitted; still running (or finished without an exit code).
    Running,
    /// Finished with exit code 0.
    Success,
    /// Finished with a non-zero exit code.
    Failed,
}

/// The state of a command that finished with this exit code.
pub open spec fn finished_state(exit: Option<i32>) -> BlockState {
    match exit {
        None => BlockState::Running,
        Some(code) => if code == 0 {
            BlockState::Success
        } else {
            BlockState::Failed
        },
    }
}

/// The state of a command that finished with this exit code.
pub fn state_for_exit(exit: Option<i32>) -> (s: BlockState)
    ensures
        s == finished_state(exit),
{
    match exit {
        None => BlockState::Running,
        Some(code) => if code == 0 {
            BlockState::Success
        } else {
            BlockState::Failed
        },
    }
}

/// One command and its output, grouped as a navigable, decoratable unit.
#[derive(Clone, Debug)]
pub struct Block {
    /// Stable identifier (never 0; 0 means "no block" in row metadata).
    pub id: u32,
    /// Absolute line of the prompt start (OSC 133;A).
    pub prompt_line: i64,
    /// Absolute line where command input begins (OSC 133;B).
    pub command_line: i64,
    /// Column on `command_line` where command input begins.
    pub command_col: usize,
    /// Whether the command-start marker (OSC 133;B) has fired for this block.
    /// Distinct from `command_line`/`command_col`: [`Block::new`] pre-sets
    /// `command_line = prompt_line` at `A`, so the line/col shape alone cannot
    /// tell a post-`A` prompt from a post-`B` one (notably at a column-0 prompt
    /// where the two coincide). This flag records that `B` specifically arrived.
    pub command_started: bool,
    /// Absolute line where output begins (OSC 133;C), once known.
    pub output_line: Option<i64>,
    /// Absolute line the command finished on (OSC 133;D), once known.
    pub end_line: Option<i64>,
    /// The command text, captured from `B`..`C`.
    pub command: String,
    /// The prompt prefix as rendered — columns `[0, command_col)` of the command
    /// line, captured with their real colors. Drives the input band so it shows
    /// the prompt (e.g. `user@host:~$ `) in its normal style, with only the
    /// command portion distinct.
    pub prompt_prefix: Vec<CellSnapshot>,
    /// The command's exit code, if reported.
    pub exit_code: Option<i32>,
    /// Lifecycle state, derived from the exit code.
    pub state: BlockState,
    /// Working directory the command ran in (OSC 7), best-effort.
    pub cwd: Option<String>,
    /// When the command was submitted (at `C`).
    pub started_at: Option<Instant>,
    /// A trailing slice of the command's output, for later suggested actions.
    pub output_excerpt: String,
}

/// A block in mathematical terms. Of the time it was submitted, only whether
/// there is one.
pub ghost struct BlockView {
    pub id: int,
    pub prompt_line: int,
    pub command_line: int,
    pub command_col: int,
    pub command_started: bool,
    pub output_line: Option<int>,
    pub end_line: Option<int>,
    pub command: Seq<char>,
    pub prompt_prefix: Seq<CellSnapshot>,
    pub exit_code: Option<i32>,
    pub state: BlockState,
    pub cwd: Option<Seq<char>>,
    pub started: bool,
    pub output_excerpt: Seq<char>,
}

/// An optional line number as an integer.
pub open spec fn opt_int(n: Option<i64>) -> Option<int> {
    match n {
        Some(n) => Some(n as int),
        None => None,
    }
}

impl Block {
    pub open spec fn view(&self) -> BlockView {
        BlockView {
            id: self.id as int,
            prompt_line: self.prompt_line as int,
            command_line: self.command_line as int,
            command_col: self.command_col as int,
            command_started: self.command_started,
            output_line: opt_int(self.output_line),
            end_line: opt_int(self.end_line),
            command: self.command@,
            prompt_prefix: self.prompt_prefix@,
            exit_code: self.exit_code,
            state: self.state,
            cwd: opt_text(self.cwd),
            started: self.started_at.is_some(),
            output_excerpt: self.output_excerpt@,
        }
    }

    /// Open a fresh block at a prompt-start marker.
    pub fn new(id: u32, prompt_line: i64, cwd: Option<String>) -> (b: Self)
        ensures
            b@ == fresh_block(id as int, prompt_line as int, opt_text(cwd)),
    {
        Block {
            id,
            prompt_line,
            command_line: prompt_line,
            command_col: 0,
            command_started: false,
            output_line: None,
            end_line: None,
            command: String::new(),
            prompt_prefix: Vec::new(),
            exit_code: None,
            state: BlockState::Running,
            cwd,
            started_at: None,
            output_excerpt: String::new(),
        }
    }
}

/// A block that has just opened.
pub open spec fn fresh_block(id: int, prompt_line: int, cwd: Option<Seq<char>>) -> BlockView {
    BlockView {
        id,
        prompt_line,
        command_line: prompt_line,
        command_col: 0,
        command_started: false,
        output_line: None,
        end_line: None,
        command: Seq::empty(),
        prompt_prefix: Seq::empty(),
        exit_code: None,
        state: BlockState::Running,
        cwd,
        started: false,
        output_excerpt: Seq::empty(),
    }
}

/// Blocks as views.
pub open spec fn block_views(blocks: Seq<Block>) -> Seq<BlockView> {
    blocks.map_values(|b: Block| b@)
}

/// A frozen buffer in mathematical terms.
pub ghost struct FrozenView {
    pub id: int,
    pub command: Seq<char>,
    pub failed: bool,
    pub cwd: Option<Seq<char>>,
    pub cols: int,
    pub cells: Seq<CellSnapshot>,
    pub lines: Seq<Seq<CellSnapshot>>,
    pub blank: CellSnapshot,
}

impl FrozenView {
    /// Number of visual rows.
    pub open spec fn row_count(&self) -> int {
        if self.cols == 0 {
            0
        } else {
            self.cells.len() as int / self.cols
        }
    }

    /// Visual row `r`.
    pub open spec fn row(&self, r: int) -> Seq<CellSnapshot> {
        self.cells.subrange(r * self.cols, (r + 1) * self.cols)
    }

    /// This buffer with its lines re-wrapped to a width.
    pub open spec fn rewrapped(self, cols: int) -> FrozenView {
        FrozenView { cols, cells: reflowed(self.lines, cols, self.blank), ..self }
    }
}

impl FrozenBlock {
    pub open spec fn view(&self) -> FrozenView {
        FrozenView {
            id: self.id as int,
            command: self.command@,
            failed: self.failed,
            cwd: opt_text(self.cwd),
            cols: self.cols as int,
            cells: self.cells@,
            lines: lines_of(self.logical_lines@),
            blank: self.blank,
        }
    }
}

/// Frozen buffers as views.
pub open spec fn frozen_views(frozen: Seq<FrozenBlock>) -> Seq<FrozenView> {
    frozen.map_values(|f: FrozenBlock| f@)
}

} // verus!
