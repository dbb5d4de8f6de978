//! Audio on the wire: a message for each buffer of samples.
//!
//! A sample is a 32-bit floating-point number. It is kept and sent as its bits, which nothing here
//! computes with; all that matters of a number is whether it is zero.

use crate::wire::{put_be, put_le, ByteReader, ReadError};
use vstd::prelude::*;
use vstd::slice::slice_subrange;

verus! {

/// The number of bytes of a message before its samples.
pub const HEADER_LEN: usize = 17;

/// Whether the bits of a sample are those of a zero, of either sign.
pub open spec fn is_zero(sample: u32) -> bool {
    sample == 0 || sample == 0x8000_0000
}

/// Whether all samples are zero.
pub open spec fn is_silent(samples: Seq<u32>) -> bool {
    forall|i: int| 0 <= i < samples.len() ==> is_zero(#[trigger] samples[i])
}

/// Samples as bytes: four for each, the least significant first.
pub open spec fn sample_bytes(samples: Seq<u32>) -> Seq<u8>
    decreases samples.len(),
{
    if samples.len() == 0 {
        seq![]
    } else {
        sample_bytes(samples.drop_last()) + crate::wire::le_bytes(samples.last() as nat, 4)
    }
}

/// A message as bytes: its time in milliseconds, whether it is silent, the number of its samples,
/// and the samples.
pub open spec fn message_bytes(timestamp: u64, fully_silent: bool, data: Seq<u32>) -> Seq<u8> {
    crate::wire::be_bytes(timestamp as nat, 8) + seq![
        if fully_silent {
            1u8
        } else {
            0u8
        },
    ] + crate::wire::be_bytes(data.len(), 8) + sample_bytes(data)
}

/// The time in a message that starts with these bytes.
pub open spec fn timestamp_in(bytes: Seq<u8>) -> u64 {
    crate::wire::be_value(bytes.subrange(0, 8)) as u64
}

/// Whether a message that starts with these bytes says that it is silent.
pub open spec fn silent_in(bytes: Seq<u8>) -> bool {
    bytes[8] == 1
}

/// The number of samples in a message that starts with these bytes.
pub open spec fn length_in(bytes: Seq<u8>) -> usize {
    (crate::wire::be_value(bytes.subrange(9, 17)) as u64) as usize
}

/// The sample at an index of a message that starts with these bytes.
pub open spec fn sample_in(bytes: Seq<u8>, index: int) -> u32 {
    crate::wire::le_value(bytes.subrange(17 + 4 * index, 21 + 4 * index)) as u32
}

/// The first `n` samples of a message that starts with these bytes.
pub open spec fn samples_in(bytes: Seq<u8>, n: nat) -> Seq<u32> {
    Seq::new(n, |i: int| sample_in(bytes, i))
}

/// The first samples of a message, with the rest of an earlier buffer behind them.
pub open spec fn filled(bytes: Seq<u8>, n: nat, buffer: Seq<u32>) -> Seq<u32> {
    samples_in(bytes, n) + buffer.skip(n as int)
}

/// The number of samples in a message whose header these bytes are, and so how many more bytes it
/// has: four for each sample. Fails where there are too few bytes, and where the samples are more
/// than there is room for.
pub fn payload_samples(header: &[u8], room: usize) -> (length: Result<usize, ReadError>)
    ensures
        header@.len() < 17 ==> length == Err::<usize, ReadError>(ReadError::UnexpectedEof),
        header@.len() >= 17 && length_in(header@) > room ==> length == Err::<usize, ReadError>(
            ReadError::BufferTooSmall,
        ),
        header@.len() >= 17 && length_in(header@) <= room ==> length == Ok::<usize, ReadError>(
            length_in(header@),
        ),
{
    if header.len() < HEADER_LEN {
        return Err(ReadError::UnexpectedEof);
    }
    let mut reader = ByteReader::new(slice_subrange(header, 9, HEADER_LEN));
    let length: usize = match reader.read_be(8) {
        Ok(value) => {
            proof {
                let field = header@.subrange(9, 17);
                assert(field.take(8) =~= field);
                crate::wire::law_be_value(field);
                crate::wire::lemma_byte_ranges();
            }
            #[verifier::truncate]
            (value as usize)
        },
        Err(error) => {
            return Err(error);
        },
    };
    if length > room {
        return Err(ReadError::BufferTooSmall);
    }
    Ok(length)
}

/// A buffer of audio, as it is sent from one machine to another.
#[derive(Debug)]
pub struct AudioMessage<'a> {
    pub data: &'a [u32],
    pub timestamp: u64,
    pub fully_silent: bool,
}

impl<'a> AudioMessage<'a> {
    /// The message as bytes.
    pub open spec fn encoding(self) -> Seq<u8> {
        message_bytes(self.timestamp, self.fully_silent, self.data@)
    }

    /// The message for a buffer of samples. One that is all zeros is said to be silent, and its
    /// samples are left out.
    pub fn from_samples(samples: &'a [u32], timestamp: u64) -> (message: Self)
        ensures
            message.timestamp == timestamp,
            message.fully_silent == is_silent(samples@),
            is_silent(samples@) ==> message.data@ == Seq::<u32>::empty(),
            !is_silent(samples@) ==> message.data@ == samples@,
            message.fully_silent <==> forall|i: int|
                0 <= i < samples@.len() ==> #[trigger] samples@[i] & 0x7fff_ffff == 0,
    {
        proof {
            law_silence_has_no_bits(samples@);
        }
        let mut i: usize = 0;
        while i < samples.len()
            invariant
                i <= samples@.len(),
                is_silent(samples@) <==> forall|i: int|
                    0 <= i < samples@.len() ==> #[trigger] samples@[i] & 0x7fff_ffff == 0,
                forall|j: int| 0 <= j < i ==> is_zero(#[trigger] samples@[j]),
            decreases samples@.len() - i,
        {
            if samples[i] != 0 && samples[i] != 0x8000_0000 {
                assert(!is_zero(samples@[i as int]));
                return AudioMessage { data: samples, timestamp, fully_silent: false };
            }
            i += 1;
        }
        let none = slice_subrange(samples, 0, 0);
        assert(none@ =~= Seq::<u32>::empty());
        AudioMessage { data: none, timestamp, fully_silent: true }
    }

    /// Appends the message to the buffer. Returns the number of bytes written, modulo the 2^32 that
    /// a `u32` can count.
    pub fn write(&self, buffer: &mut Vec<u8>) -> (n: u32)
        ensures
            final(buffer)@ == old(buffer)@ + self.encoding(),
            final(buffer)@ == old(buffer)@ + message_bytes(
                self.timestamp,
                self.fully_silent,
                self.data@,
            ),
            n == (17 + 4 * self.data@.len()) % 0x1_0000_0000,
            n == self.encoding().len() % 0x1_0000_0000,
    {
        let len: usize = self.data.len();
        put_be(buffer, self.timestamp, 8);
        buffer.push(
            if self.fully_silent {
                1u8
            } else {
                0u8
            },
        );
        put_be(buffer, len as u64, 8);
        let ghost header = buffer@;
        let mut i: usize = 0;
        while i < len
            invariant
                i <= len == self.data@.len(),
                buffer@ == header + sample_bytes(self.data@.take(i as int)),
            decreases len - i,
        {
            put_le(buffer, self.data[i] as u64, 4);
            i += 1;
            proof {
                let prefix = self.data@.take(i as int);
                assert(prefix.drop_last() =~= self.data@.take(i - 1));
                assert(buffer@ =~= header + sample_bytes(prefix));
            }
        }
        proof {
            assert(self.data@.take(len as int) =~= self.data@);
            assert(buffer@ =~= old(buffer)@ + self.encoding());
            lemma_message_len(self.timestamp, self.fully_silent, self.data@);
        }
        let n: u128 = len as u128 * 4 + 17;
        (n % 0x1_0000_0000) as u32
    }

    /// Reads a message off the front of the reader, and its samples to the front of the buffer.
    /// Returns the number of bytes read, modulo the 2^32 that a `u32` can count, and the message,
    /// whose data is the whole buffer.
    pub fn read(buffer: &'a mut Vec<u32>, reader: &mut ByteReader) -> (message: Result<
        (u32, Self),
        ReadError,
    >)
        ensures
            ({
                let bytes = old(reader)@;
                let length = length_in(bytes);
                if bytes.len() < 17 {
                    &&& message == Err::<(u32, Self), ReadError>(ReadError::UnexpectedEof)
                    &&& final(reader)@ == Seq::<u8>::empty()
                    &&& final(buffer)@ == old(buffer)@
                } else if length > old(buffer)@.len() {
                    &&& message == Err::<(u32, Self), ReadError>(ReadError::BufferTooSmall)
                    &&& final(reader)@ == bytes.skip(17)
                    &&& final(buffer)@ == old(buffer)@
                } else if bytes.len() < 17 + 4 * length {
                    &&& message == Err::<(u32, Self), ReadError>(ReadError::UnexpectedEof)
                    &&& final(reader)@ == Seq::<u8>::empty()
                    &&& final(buffer)@ == filled(
                        bytes,
                        ((bytes.len() - 17) / 4) as nat,
                        old(buffer)@,
                    )
                } else {
                    &&& message is Ok
                    &&& message->Ok_0.0 == (17 + 4 * length) % 0x1_0000_0000
                    &&& message->Ok_0.1.timestamp == timestamp_in(bytes)
                    &&& message->Ok_0.1.fully_silent == silent_in(bytes)
                    &&& message->Ok_0.1.data@ == filled(bytes, length as nat, old(buffer)@)
                    &&& final(reader)@ == bytes.skip(17 + 4 * length)
                    &&& final(buffer)@ == filled(bytes, length as nat, old(buffer)@)
                }
            }),
    {
        let ghost bytes = reader@;
        let ghost before = buffer@;
        let timestamp: u64 = match reader.read_be(8) {
            Ok(value) => value,
            Err(error) => {
                return Err(error);
            },
        };
        let flag: u64 = match reader.read_be(1) {
            Ok(value) => value,
            Err(error) => {
                return Err(error);
            },
        };
        let length: usize = match reader.read_be(8) {
            #[verifier::truncate]
            Ok(value) => value as usize,
            Err(error) => {
                return Err(error);
            },
        };
        proof {
            crate::wire::lemma_byte_ranges();
            crate::wire::law_be_value(bytes.subrange(0, 8));
            crate::wire::law_be_value(bytes.subrange(9, 17));
            assert(bytes.take(8) =~= bytes.subrange(0, 8));
            assert(bytes.skip(8).take(1) =~= seq![bytes[8]]);
            reveal_with_fuel(crate::wire::be_value, 2);
            assert(seq![bytes[8]].drop_last() =~= Seq::<u8>::empty());
            assert(flag == bytes[8]);
            assert(bytes.skip(8).skip(1).take(8) =~= bytes.subrange(9, 17));
            assert(bytes.skip(8).skip(1).skip(8) =~= bytes.skip(17));
        }
        if length > buffer.len() {
            return Err(ReadError::BufferTooSmall);
        }
        let mut num_read: u32 = 17;
        let mut i: usize = 0;
        assert(buffer@ =~= filled(bytes, 0, before));
        while i < length
            invariant
                bytes == old(reader)@,
                before == old(buffer)@,
                length == length_in(bytes),
                i <= length <= before.len(),
                bytes.len() >= 17 + 4 * i,
                buffer@ == filled(bytes, i as nat, before),
                reader@ == bytes.skip(17 + 4 * i),
                num_read == (17 + 4 * i) % 0x1_0000_0000,
            decreases length - i,
        {
            let sample: u64 = match reader.read_le(4) {
                Ok(value) => value,
                Err(error) => {
                    assert((bytes.len() - 17) / 4 == i);
                    return Err(error);
                },
            };
            proof {
                let field = bytes.subrange(17 + 4 * i, 21 + 4 * i);
                assert(bytes.skip(17 + 4 * i).take(4) =~= field);
                assert(bytes.skip(17 + 4 * i).skip(4) =~= bytes.skip(17 + 4 * (i + 1)));
                crate::wire::law_le_value(field);
                crate::wire::lemma_byte_ranges();
            }
            buffer[i] = sample as u32;
            num_read = num_read.wrapping_add(4);
            i += 1;
            assert(buffer@ =~= filled(bytes, i as nat, before));
        }
        Ok((num_read, AudioMessage { data: buffer.as_slice(), timestamp, fully_silent: flag == 1 }))
    }
}

proof fn lemma_sample_bytes_len(samples: Seq<u32>)
    ensures
        sample_bytes(samples).len() == 4 * samples.len(),
    decreases samples.len(),
{
    if samples.len() > 0 {
        lemma_sample_bytes_len(samples.drop_last());
        crate::wire::lemma_byte_ranges();
        crate::wire::law_le_round_trip(samples.last() as nat, 4);
    }
}

/// A message has seventeen bytes and four more for each sample.
pub proof fn lemma_message_len(timestamp: u64, fully_silent: bool, data: Seq<u32>)
    requires
        data.len() <= usize::MAX,
    ensures
        message_bytes(timestamp, fully_silent, data).len() == 17 + 4 * data.len(),
{
    crate::wire::lemma_byte_ranges();
    crate::wire::law_be_round_trip(timestamp as nat, 8);
    crate::wire::law_be_round_trip(data.len(), 8);
    lemma_sample_bytes_len(data);
}

proof fn lemma_sample_bytes_at(samples: Seq<u32>, i: int)
    requires
        0 <= i < samples.len(),
    ensures
        sample_bytes(samples).len() == 4 * samples.len(),
        sample_bytes(samples).subrange(4 * i, 4 * i + 4) == crate::wire::le_bytes(
            samples[i] as nat,
            4,
        ),
    decreases samples.len(),
{
    lemma_sample_bytes_len(samples);
    lemma_sample_bytes_len(samples.drop_last());
    crate::wire::lemma_byte_ranges();
    crate::wire::law_le_round_trip(samples.last() as nat, 4);
    let bytes = sample_bytes(samples);
    if i < samples.len() - 1 {
        lemma_sample_bytes_at(samples.drop_last(), i);
        assert(bytes.subrange(4 * i, 4 * i + 4) =~= sample_bytes(samples.drop_last()).subrange(
            4 * i,
            4 * i + 4,
        ));
    } else {
        assert(bytes.subrange(4 * i, 4 * i + 4) =~= crate::wire::le_bytes(samples[i] as nat, 4));
    }
}

/// A message is read back as it was written, whatever follows it: its time, whether it is silent,
/// the number of its samples and each of them, and where it ends.
pub proof fn law_message_round_trip(
    timestamp: u64,
    fully_silent: bool,
    data: Seq<u32>,
    rest: Seq<u8>,
)
    requires
        data.len() <= usize::MAX,
    ensures
        ({
            let bytes = message_bytes(timestamp, fully_silent, data) + rest;
            &&& bytes.len() >= 17 + 4 * data.len()
            &&& timestamp_in(bytes) == timestamp
            &&& silent_in(bytes) == fully_silent
            &&& length_in(bytes) == data.len()
            &&& samples_in(bytes, data.len()) == data
            &&& bytes.skip((17 + 4 * data.len()) as int) == rest
        }),
{
    let time = crate::wire::be_bytes(timestamp as nat, 8);
    let count = crate::wire::be_bytes(data.len(), 8);
    let message = message_bytes(timestamp, fully_silent, data);
    let bytes = message + rest;
    lemma_message_len(timestamp, fully_silent, data);
    crate::wire::lemma_byte_ranges();
    crate::wire::law_be_round_trip(timestamp as nat, 8);
    crate::wire::law_be_round_trip(data.len(), 8);
    assert(bytes.subrange(0, 8) =~= time);
    assert(bytes.subrange(9, 17) =~= count);
    assert forall|i: int| 0 <= i < data.len() implies sample_in(bytes, i) == data[i] by {
        lemma_sample_bytes_at(data, i);
        assert(bytes.subrange(17 + 4 * i, 21 + 4 * i) =~= sample_bytes(data).subrange(
            4 * i,
            4 * i + 4,
        ));
        crate::wire::law_le_round_trip(data[i] as nat, 4);
    }
    assert(samples_in(bytes, data.len()) =~= data);
    assert(bytes.skip((17 + 4 * data.len()) as int) =~= rest);
}

/// Samples are silent if and only if no bit of any of them is set but for the sign.
pub proof fn law_silence_has_no_bits(samples: Seq<u32>)
    ensures
        is_silent(samples) <==> forall|i: int|
            0 <= i < samples.len() ==> #[trigger] samples[i] & 0x7fff_ffff == 0,
{
    assert forall|sample: u32| #[trigger] is_zero(sample) <==> sample & 0x7fff_ffff == 0 by {
        assert((sample == 0 || sample == 0x8000_0000) <==> sample & 0x7fff_ffff == 0) by (bit_vector);
    }
    if is_silent(samples) {
        assert forall|i: int| 0 <= i < samples.len() implies #[trigger] samples[i] & 0x7fff_ffff
            == 0 by {
            assert(is_zero(samples[i]));
        }
    } else {
        let i = choose|i: int| 0 <= i < samples.len() && !is_zero(#[trigger] samples[i]);
        assert(samples[i] & 0x7fff_ffff != 0);
    }
}

/// Where the parts of a message stand: eight bytes with its time, one that says whether it is
/// silent, eight with the number of its samples, and four for each sample.
pub proof fn law_message_layout(timestamp: u64, fully_silent: bool, data: Seq<u32>)
    requires
        data.len() <= usize::MAX,
    ensures
        ({
            let message = message_bytes(timestamp, fully_silent, data);
            &&& message.len() == 17 + 4 * data.len()
            &&& crate::wire::be_value(message.subrange(0, 8)) == timestamp
            &&& message[8] == if fully_silent {
                1u8
            } else {
                0u8
            }
            &&& crate::wire::be_value(message.subrange(9, 17)) == data.len()
            &&& forall|i: int|
                0 <= i < data.len() ==> crate::wire::le_value(
                    message.subrange(17 + 4 * i, 21 + 4 * i),
                ) == #[trigger] data[i]
        }),
{
    let message = message_bytes(timestamp, fully_silent, data);
    lemma_message_len(timestamp, fully_silent, data);
    crate::wire::lemma_byte_ranges();
    crate::wire::law_be_round_trip(timestamp as nat, 8);
    crate::wire::law_be_round_trip(data.len(), 8);
    assert(message.subrange(0, 8) =~= crate::wire::be_bytes(timestamp as nat, 8));
    assert(message.subrange(9, 17) =~= crate::wire::be_bytes(data.len(), 8));
    assert forall|i: int| 0 <= i < data.len() implies crate::wire::le_value(
        message.subrange(17 + 4 * i, 21 + 4 * i),
    ) == #[trigger] data[i] by {
        lemma_sample_bytes_at(data, i);
        assert(message.subrange(17 + 4 * i, 21 + 4 * i) =~= sample_bytes(data).subrange(
            4 * i,
            4 * i + 4,
        ));
        crate::wire::law_le_round_trip(data[i] as nat, 4);
    }
}

/// What is read of any bytes: the numbers that stand where a message has its parts. A message says
/// that it is silent only by a one. Samples that a message lacks are those that the buffer had.
pub proof fn law_message_fields(bytes: Seq<u8>, n: nat, buffer: Seq<u32>)
    requires
        bytes.len() >= 17 + 4 * n,
        n <= buffer.len(),
    ensures
        timestamp_in(bytes) == crate::wire::be_value(bytes.subrange(0, 8)),
        silent_in(bytes) <==> bytes[8] == 1,
        crate::wire::be_value(bytes.subrange(9, 17)) <= usize::MAX ==> length_in(bytes)
            == crate::wire::be_value(bytes.subrange(9, 17)),
        filled(bytes, n, buffer).len() == buffer.len(),
        forall|i: int|
            0 <= i < n ==> #[trigger] filled(bytes, n, buffer)[i] == crate::wire::le_value(
                bytes.subrange(17 + 4 * i, 21 + 4 * i),
            ),
        forall|i: int|
            n <= i < buffer.len() ==> #[trigger] filled(bytes, n, buffer)[i] == buffer[i],
{
    crate::wire::lemma_byte_ranges();
    crate::wire::law_be_value(bytes.subrange(0, 8));
    crate::wire::law_be_value(bytes.subrange(9, 17));
    assert forall|i: int| 0 <= i < n implies #[trigger] filled(bytes, n, buffer)[i]
        == crate::wire::le_value(bytes.subrange(17 + 4 * i, 21 + 4 * i)) by {
        crate::wire::law_le_value(bytes.subrange(17 + 4 * i, 21 + 4 * i));
    }
}

} // verus!
