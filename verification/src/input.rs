//! Recording: the samples that an input device delivers, until they are sent.

use crate::device::{find_device, AudioError, SampleFormat};
use crate::ring::{ring_new, ring_pop_slice, ring_push_slice, ring_try_pop, SampleRing};
use vstd::prelude::*;

verus! {

/// An input device with the samples that it has delivered.
pub struct AudioInput {
    ring: SampleRing,
    buffer_size: u32,
    sample_rate: u32,
    dropped: bool,
}

impl AudioInput {
    /// The samples that the device has delivered and that were not taken yet, the eldest first.
    pub closed spec fn queue(self) -> Seq<u32> {
        crate::ring::ring_samples(self.ring)
    }

    /// The number of samples that there is room for: those of two seconds.
    pub open spec fn capacity(self) -> nat {
        2 * self.rate()
    }

    /// The number of samples in a second.
    pub closed spec fn rate(self) -> nat {
        self.sample_rate as nat
    }

    /// The number of samples that are sent at once.
    pub closed spec fn size(self) -> nat {
        self.buffer_size as nat
    }

    /// Whether the device has stopped to deliver samples.
    pub closed spec fn is_dropped(self) -> bool {
        self.dropped
    }

    /// Whether there is the room for samples that there should be.
    pub closed spec fn wf(self) -> bool {
        &&& crate::ring::ring_capacity(self.ring) == self.capacity()
        &&& self.queue().len() <= self.capacity()
    }

    /// There are never more samples than there is room for.
    pub proof fn law_within_capacity(self)
        requires
            self.wf(),
        ensures
            self.queue().len() <= self.capacity(),
    {
    }

    /// There is room for the samples of two seconds, whatever the rate: samples that come while fewer
    /// wait are all kept, in order, and of those that do not fit the first are.
    pub proof fn law_room_for_two_seconds(self, samples: Seq<u32>)
        requires
            self.wf(),
        ensures
            self.queue().len() <= 2 * self.rate(),
            self.queue().len() + samples.len() <= 2 * self.rate() ==> crate::ring::queue_after_push(
                self.queue(),
                self.capacity(),
                samples,
            ) == self.queue() + samples,
            self.queue().len() + samples.len() > 2 * self.rate() ==> crate::ring::queue_after_push(
                self.queue(),
                self.capacity(),
                samples,
            ) == self.queue() + samples.take(2 * self.rate() - self.queue().len()),
    {
    }

    /// Whether only the queue differs.
    pub open spec fn same_device(self, other: AudioInput) -> bool {
        &&& self.rate() == other.rate()
        &&& self.size() == other.size()
        &&& self.is_dropped() == other.is_dropped()
    }

    /// Chooses the first of the input devices that goes by the name, and makes room for the samples
    /// of two seconds.
    pub fn new(
        names: &Vec<Option<String>>,
        device: &String,
        sr: u32,
        buffer_size: u32,
    ) -> (input: Result<(usize, Self), AudioError>)
        requires
            crate::device::has_named(names@, device@) ==> 0 < sr && 8 * sr <= isize::MAX,
        ensures
            crate::device::has_named(names@, device@) ==> {
                &&& input is Ok
                &&& crate::device::is_first_named(names@, device@, input->Ok_0.0 as int)
                &&& input->Ok_0.1.wf()
                &&& input->Ok_0.1.queue() == Seq::<u32>::empty()
                &&& input->Ok_0.1.rate() == sr
                &&& input->Ok_0.1.capacity() == 2 * sr
                &&& input->Ok_0.1.size() == buffer_size
                &&& !input->Ok_0.1.is_dropped()
            },
            !crate::device::has_named(names@, device@) ==> input == Err::<
                (usize, Self),
                AudioError,
            >(AudioError::DeviceNotFound(*device)),
    {
        let index: usize = match find_device(names, device) {
            Ok(index) => index,
            Err(error) => {
                return Err(error);
            },
        };
        let ring = ring_new(sr as usize * 2);
        Ok((index, AudioInput { ring, buffer_size, sample_rate: sr, dropped: false }))
    }

    /// The number of samples in a second.
    pub fn sample_rate(&self) -> (sample_rate: u32)
        ensures
            sample_rate == self.rate(),
    {
        self.sample_rate
    }

    /// The number of samples that are sent at once.
    pub fn buffer_size(&self) -> (buffer_size: u32)
        ensures
            buffer_size == self.size(),
    {
        self.buffer_size
    }

    /// Takes in samples that the device delivers, as the bits of 32-bit floating-point numbers.
    /// `format` is the format that the device has them in. Those that there is no room for are
    /// dropped. Returns the number of those that were not.
    pub fn capture(&mut self, format: SampleFormat, samples: &[u32]) -> (count: Result<
        usize,
        AudioError,
    >)
        requires
            old(self).wf(),
        ensures
            final(self).wf(),
            final(self).same_device(*old(self)),
            final(self).rate() == old(self).rate(),
            final(self).size() == old(self).size(),
            final(self).capacity() == old(self).capacity(),
            final(self).is_dropped() == old(self).is_dropped(),
            format is Other ==> count == Err::<usize, AudioError>(AudioError::UnsupportedFormat)
                && final(self).queue() == old(self).queue(),
            format !is Other ==> {
                &&& final(self).queue() == crate::ring::queue_after_push(
                    old(self).queue(),
                    old(self).capacity(),
                    samples@,
                )
                &&& count is Ok
                &&& count->Ok_0 == final(self).queue().len() - old(self).queue().len()
            },
    {
        match format {
            SampleFormat::F32 | SampleFormat::I16 => {
                let count: usize = ring_push_slice(&mut self.ring, samples);
                assert(samples@.take(samples@.len() as int) =~= samples@);
                Ok(count)
            },
            SampleFormat::Other => Err(AudioError::UnsupportedFormat),
        }
    }

    /// Notes that the device delivers no more samples.
    pub fn close(&mut self)
        requires
            old(self).wf(),
        ensures
            final(self).wf(),
            final(self).queue() == old(self).queue(),
            final(self).rate() == old(self).rate(),
            final(self).size() == old(self).size(),
            final(self).capacity() == old(self).capacity(),
            final(self).is_dropped(),
    {
        self.dropped = true;
    }

    /// Moves samples to a buffer of which the first `filled` places are filled already, and returns
    /// how many are filled now. Where that is not the whole buffer and the device delivers no more
    /// samples, it never will be: that is an error. Else the caller waits for samples and goes on.
    pub fn pop_slice(&mut self, buffer: &mut Vec<u32>, filled: usize) -> (now: Result<
        usize,
        AudioError,
    >)
        requires
            old(self).wf(),
            filled <= old(buffer)@.len(),
        ensures
            final(self).wf(),
            final(self).same_device(*old(self)),
            final(self).rate() == old(self).rate(),
            final(self).size() == old(self).size(),
            final(self).capacity() == old(self).capacity(),
            final(self).is_dropped() == old(self).is_dropped(),
            ({
                let n = crate::ring::popped(
                    old(self).queue(),
                    (old(buffer)@.len() - filled) as nat,
                );
                &&& final(self).queue() == old(self).queue().skip(n as int)
                &&& final(buffer)@ == old(buffer)@.take(filled as int) + old(self).queue().take(
                    n as int,
                ) + old(buffer)@.skip(filled + n)
                &&& if filled + n < old(buffer)@.len() && old(self).is_dropped() {
                    now == Err::<usize, AudioError>(AudioError::InputDropped)
                } else {
                    now == Ok::<usize, AudioError>((filled + n) as usize)
                }
            }),
    {
        let len: usize = buffer.len();
        let ghost before = buffer@;
        let (_, rest) = buffer.as_mut_slice().split_at_mut(filled);
        let count: usize = ring_pop_slice(&mut self.ring, rest);
        proof {
            let after = before.take(filled as int) + old(self).queue().take(count as int)
                + before.skip(filled + count);
            assert(before.skip(filled as int).skip(count as int) =~= before.skip(filled + count));
            assert(buffer@ =~= after);
        }
        if count < len - filled && self.dropped {
            return Err(AudioError::InputDropped);
        }
        Ok(filled + count)
    }

    /// Flushes the input audio buffer.
    pub fn flush(&mut self)
        requires
            old(self).wf(),
        ensures
            final(self).wf(),
            final(self).same_device(*old(self)),
            final(self).rate() == old(self).rate(),
            final(self).size() == old(self).size(),
            final(self).capacity() == old(self).capacity(),
            final(self).is_dropped() == old(self).is_dropped(),
            final(self).queue() == Seq::<u32>::empty(),
    {
        while ring_try_pop(&mut self.ring).is_some()
            invariant
                self.wf(),
                self.same_device(*old(self)),
                self.capacity() == old(self).capacity(),
            ensures
                self.queue().len() == 0,
            decreases self.queue().len(),
        {
        }
        assert(self.queue() =~= Seq::<u32>::empty());
    }
}

} // verus!
