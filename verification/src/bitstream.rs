//! Reading and writing runs of bits with the `bitstream_io` crate.
//!
//! The crate's reader and writer are kept behind two opaque types. What the
//! reader still holds and what the writer has taken are named as sequences
//! of bits, and every call into the crate is a small function whose contract
//! speaks of those sequences. The contracts of this file are taken on trust;
//! everything built on them is proved.

use vstd::prelude::*;
use vstd::arithmetic::power2::pow2;
use bitstream_io::{BigEndian, BitRead, BitReader, BitWrite, BitWriter};
use crate::bits::{bits_of_bytes, bits_of_value, bytes_of_bits, pad_to_byte, value_of_bits};

verus! {

/// A `bitstream_io::BitReader` over a byte slice, most significant bit first.
#[verifier::external_body]
pub struct BitSource<'a> {
    inner: BitReader<&'a [u8], BigEndian>,
}

/// A `bitstream_io::BitWriter` into a vector of bytes, most significant bit
/// first.
#[verifier::external_body]
pub struct BitSink {
    inner: BitWriter<Vec<u8>, BigEndian>,
}

/// The bits that a reader has not handed out yet, next bit first.
pub uninterp spec fn unread_bits(source: BitSource) -> Seq<bool>;

/// The bits that a writer has been given so far, first bit first.
pub uninterp spec fn written_bits(sink: BitSink) -> Seq<bool>;

/// `BitReader::endian` over `bytes`, big-endian.
///
/// Trusted: a new reader holds all the bits of the buffer.
#[verifier::external_body]
pub(crate) fn open_source<'a>(bytes: &'a [u8]) -> (source: BitSource<'a>)
    ensures
        unread_bits(source) == bits_of_bytes(bytes@),
{
    BitSource { inner: BitReader::endian(bytes, BigEndian) }
}

/// `BitRead::read` of `width` bits into a `u16`.
///
/// Trusted: where at least `width` bits are left, the call hands out the
/// number that the next `width` bits spell and the reader keeps the rest;
/// where fewer are left, the call fails and the reader holds no more bits
/// than before.
#[verifier::external_body]
pub(crate) fn take_bits(source: &mut BitSource, width: u32) -> (value: Option<u16>)
    requires
        1 <= width <= 16,
    ensures
        width <= unread_bits(*old(source)).len() ==> value is Some
            && value->0 as nat == value_of_bits(unread_bits(*old(source)).take(width as int))
            && unread_bits(*final(source)) == unread_bits(*old(source)).skip(width as int),
        width > unread_bits(*old(source)).len() ==> value is None
            && unread_bits(*final(source)).len() <= unread_bits(*old(source)).len(),
{
    source.inner.read::<u16>(width).ok()
}

/// `BitWriter::endian` over an empty vector, big-endian.
///
/// Trusted: a new writer has been given no bits.
#[verifier::external_body]
pub(crate) fn new_sink() -> (sink: BitSink)
    ensures
        written_bits(sink) == Seq::<bool>::empty(),
{
    BitSink { inner: BitWriter::endian(Vec::new(), BigEndian) }
}

/// `BitWrite::write` of the `width` low bits of `value`.
///
/// Trusted: the writer has then been given those bits, most significant
/// first, after all earlier ones. The crate refuses a value that does not
/// fit in `width` bits, so such a value is not admitted.
#[verifier::external_body]
pub(crate) fn put_bits(sink: &mut BitSink, width: u32, value: u8)
    requires
        1 <= width <= 8,
        (value as nat) < pow2(width as nat),
    ensures
        written_bits(*final(sink)) == written_bits(*old(sink)) + bits_of_value(
            value as nat,
            width as nat,
        ),
{
    sink.inner.write(width, value).unwrap();
}

/// `BitWrite::byte_align`.
///
/// Trusted: the writer is given zero bits until it holds whole bytes.
#[verifier::external_body]
pub(crate) fn align_sink(sink: &mut BitSink)
    ensures
        written_bits(*final(sink)) == pad_to_byte(written_bits(*old(sink))),
{
    sink.inner.byte_align().unwrap();
}

/// `BitWriter::into_writer`.
///
/// Trusted: the vector holds the whole bytes that the writer was given; bits
/// after the last whole byte are dropped.
#[verifier::external_body]
pub(crate) fn finish_sink(sink: BitSink) -> (bytes: Vec<u8>)
    ensures
        bytes@ == bytes_of_bits(written_bits(sink)),
{
    sink.inner.into_writer()
}

} // verus!
