//! The greeting that a sender opens a connection with.

use crate::wire::{put_be, ByteReader, ReadError};
use vstd::prelude::*;

verus! {

/// The audio parameters of a connection.
#[derive(Debug, Clone, Copy, PartialEq, Eq, Structural)]
pub struct Handshake {
    pub sample_rate: u32,
    pub buffer_size: u32,
}

impl Handshake {
    /// The handshake as bytes: two numbers of four bytes, the most significant byte first.
    pub open spec fn encoding(self) -> Seq<u8> {
        crate::wire::be_bytes(self.sample_rate as nat, 4) + crate::wire::be_bytes(
            self.buffer_size as nat,
            4,
        )
    }

    /// The handshake that bytes start with; `None` where they are too few.
    pub open spec fn decoding(bytes: Seq<u8>) -> Option<Handshake> {
        if bytes.len() < 8 {
            None
        } else {
            Some(
                Handshake {
                    sample_rate: crate::wire::be_value(bytes.subrange(0, 4)) as u32,
                    buffer_size: crate::wire::be_value(bytes.subrange(4, 8)) as u32,
                },
            )
        }
    }

    /// Appends the handshake to the buffer. Returns the number of bytes written.
    pub fn write(&self, buffer: &mut Vec<u8>) -> (n: u32)
        ensures
            n == 8,
            final(buffer)@ == old(buffer)@ + self.encoding(),
    {
        put_be(buffer, self.sample_rate as u64, 4);
        put_be(buffer, self.buffer_size as u64, 4);
        assert(buffer@ =~= old(buffer)@ + self.encoding());
        8
    }

    /// Reads a handshake off the front of the reader.
    pub fn read(reader: &mut ByteReader) -> (handshake: Result<Self, ReadError>)
        ensures
            match Self::decoding(old(reader)@) {
                Some(h) => handshake == Ok::<Self, ReadError>(h) && final(reader)@
                    == old(reader)@.skip(8),
                None => handshake == Err::<Self, ReadError>(ReadError::UnexpectedEof)
                    && final(reader)@ == Seq::<u8>::empty(),
            },
    {
        let ghost bytes = reader@;
        let sample_rate: u64 = match reader.read_be(4) {
            Ok(value) => value,
            Err(error) => {
                return Err(error);
            },
        };
        let buffer_size: u64 = match reader.read_be(4) {
            Ok(value) => value,
            Err(error) => {
                return Err(error);
            },
        };
        proof {
            assert(bytes.take(4) =~= bytes.subrange(0, 4));
            assert(bytes.skip(4).take(4) =~= bytes.subrange(4, 8));
            assert(bytes.skip(4).skip(4) =~= bytes.skip(8));
            crate::wire::law_be_value(bytes.subrange(0, 4));
            crate::wire::law_be_value(bytes.subrange(4, 8));
            crate::wire::lemma_byte_ranges();
        }
        Ok(Self { sample_rate: sample_rate as u32, buffer_size: buffer_size as u32 })
    }
}

/// A handshake is eight bytes long, and is read back as it was written, whatever follows it.
pub proof fn law_handshake_round_trip(handshake: Handshake, rest: Seq<u8>)
    ensures
        handshake.encoding().len() == 8,
        Handshake::decoding(handshake.encoding() + rest) == Some(handshake),
        (handshake.encoding() + rest).skip(8) == rest,
{
    let bytes = handshake.encoding() + rest;
    crate::wire::lemma_byte_ranges();
    crate::wire::law_be_round_trip(handshake.sample_rate as nat, 4);
    crate::wire::law_be_round_trip(handshake.buffer_size as nat, 4);
    assert(bytes.subrange(0, 4) =~= crate::wire::be_bytes(handshake.sample_rate as nat, 4));
    assert(bytes.subrange(4, 8) =~= crate::wire::be_bytes(handshake.buffer_size as nat, 4));
    assert(bytes.skip(8) =~= rest);
}

/// A handshake that was read is written as the bytes that it was read from.
pub proof fn law_handshake_bytes_round_trip(bytes: Seq<u8>, handshake: Handshake)
    requires
        Handshake::decoding(bytes) == Some(handshake),
    ensures
        handshake.encoding() == bytes.take(8),
{
    crate::wire::lemma_byte_ranges();
    crate::wire::law_be_value(bytes.subrange(0, 4));
    crate::wire::law_be_value(bytes.subrange(4, 8));
    assert(bytes.take(8) =~= bytes.subrange(0, 4) + bytes.subrange(4, 8));
}

/// A handshake is the sample rate and then the buffer size, each in four bytes with the most
/// significant first, and any eight bytes are a handshake.
pub proof fn law_handshake_layout(handshake: Handshake, bytes: Seq<u8>)
    ensures
        handshake.encoding().len() == 8,
        crate::wire::be_value(handshake.encoding().subrange(0, 4)) == handshake.sample_rate,
        crate::wire::be_value(handshake.encoding().subrange(4, 8)) == handshake.buffer_size,
        Handshake::decoding(bytes) is Some <==> bytes.len() >= 8,
        bytes.len() >= 8 ==> Handshake::decoding(bytes)->Some_0.sample_rate
            == crate::wire::be_value(bytes.subrange(0, 4)),
        bytes.len() >= 8 ==> Handshake::decoding(bytes)->Some_0.buffer_size
            == crate::wire::be_value(bytes.subrange(4, 8)),
{
    crate::wire::lemma_byte_ranges();
    crate::wire::law_be_round_trip(handshake.sample_rate as nat, 4);
    crate::wire::law_be_round_trip(handshake.buffer_size as nat, 4);
    let all = handshake.encoding();
    assert(all.subrange(0, 4) =~= crate::wire::be_bytes(handshake.sample_rate as nat, 4));
    assert(all.subrange(4, 8) =~= crate::wire::be_bytes(handshake.buffer_size as nat, 4));
    if bytes.len() >= 8 {
        crate::wire::law_be_value(bytes.subrange(0, 4));
        crate::wire::law_be_value(bytes.subrange(4, 8));
    }
}

} // verus!
