//! The location of one record in the log.

use std::ops::Range;
use vstd::prelude::*;
use vstd::std_specs::convert::FromSpecImpl;

verus! {

/// The byte span of one serialized command: it starts at offset `pos` and is
/// `len` bytes long.
#[derive(Clone, Copy, Debug, PartialEq, Eq, Structural)]
pub struct CommandPos {
    pub pos: u64,
    pub len: u64,
}

impl CommandPos {
    /// The offset one past the last byte of the span.
    pub open spec fn end(self) -> int {
        self.pos + self.len
    }

    /// The span of a range of offsets. A range whose end lies before its
    /// start holds no offset, so its span is empty.
    pub open spec fn of_range(range: Range<u64>) -> CommandPos {
        CommandPos {
            pos: range.start,
            len: if range.start <= range.end {
                (range.end - range.start) as u64
            } else {
                0
            },
        }
    }
}

impl From<Range<u64>> for CommandPos {
    fn from(range: Range<u64>) -> (span: CommandPos) {
        if range.start <= range.end {
            CommandPos { pos: range.start, len: range.end - range.start }
        } else {
            CommandPos { pos: range.start, len: 0 }
        }
    }
}

impl FromSpecImpl<Range<u64>> for CommandPos {
    open spec fn obeys_from_spec() -> bool {
        true
    }

    open spec fn from_spec(range: Range<u64>) -> CommandPos {
        CommandPos::of_range(range)
    }
}

} // verus!
