//! A cursor that reads fields of one to sixteen bits off a buffer.

use vstd::prelude::*;
use crate::bits::{bits_of_bytes, value_of_bits};
use crate::bitstream::{open_source, take_bits, unread_bits, BitSource};

verus! {

/// A reader over a buffer that hands out its bits in order, most
/// significant bit of each byte first.
pub struct BitCursor<'a> {
    source: BitSource<'a>,
}

impl<'a> BitCursor<'a> {
    /// The bits that the cursor has not handed out yet, next bit first.
    pub closed spec fn remaining(&self) -> Seq<bool> {
        unread_bits(self.source)
    }

    /// A cursor at the first bit of `bytes`.
    pub fn new(bytes: &'a [u8]) -> (cursor: BitCursor<'a>)
        ensures
            cursor.remaining() == bits_of_bytes(bytes@),
    {
        BitCursor { source: open_source(bytes) }
    }

    /// Reads a field of `width` bits. Where that many bits are left, the
    /// result is the number that they spell and the cursor moves past them.
    /// Where fewer are left, the result is `None`, and the cursor is left
    /// with no more bits than it had.
    pub fn read(&mut self, width: u32) -> (value: Option<u16>)
        requires
            1 <= width <= 16,
        ensures
            width <= old(self).remaining().len() ==> value is Some && value->0 as nat
                == value_of_bits(old(self).remaining().take(width as int))
                && final(self).remaining() == old(self).remaining().skip(width as int),
            width > old(self).remaining().len() ==> value is None && final(self).remaining().len()
                <= old(self).remaining().len(),
    {
        take_bits(&mut self.source, width)
    }
}

} // verus!
