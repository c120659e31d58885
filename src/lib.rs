//! A cursor that reads, writes and seeks through storage one bit at a time.

pub mod bits;
pub mod storage;
pub mod view;
pub mod cursor;
pub mod buf;
pub mod laws;

pub use buf::{BitBuf, Bits, BitsMut};
pub use cursor::{BitCursor, SeekError, SeekFrom, SplitMut};
pub use storage::{BorrowBits, BorrowBitsMut, PackedBits};
pub use view::BitView;
