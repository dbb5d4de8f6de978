//! Playback: the samples that were received, until an output device takes them.

use crate::device::{find_device, AudioError, SampleFormat};
use crate::ring::{ring_new, ring_pop_slice, ring_push_slice, SampleRing};
use vstd::prelude::*;
use vstd::slice::slice_subrange;

verus! {

/// An output device with the samples that wait for it.
pub struct AudioOutput {
    ring: SampleRing,
    buffer_size: u32,
    sample_rate: u32,
    dropped: bool,
}

impl AudioOutput {
    /// The samples that wait for the device, the eldest first.
    pub closed spec fn queue(self) -> Seq<u32> {
        crate::ring::ring_samples(self.ring)
    }

    /// The number of samples that there is room for: those of two seconds.
    pub open spec fn capacity(self) -> nat {
        2 * self.rate()
    }

    /// The number of samples in a second.
    pub closed spec fn rate(self) -> nat {
        self.sample_rate as nat
    }

    /// The number of samples that arrive at once.
    pub closed spec fn size(self) -> nat {
        self.buffer_size as nat
    }

    /// Whether the device has stopped to take samples.
    pub closed spec fn is_dropped(self) -> bool {
        self.dropped
    }

    /// Whether there is the room for samples that there should be.
    pub closed spec fn wf(self) -> bool {
        &&& crate::ring::ring_capacity(self.ring) == self.capacity()
        &&& self.queue().len() <= self.capacity()
    }

    /// There are never more samples than there is room for.
    pub proof fn law_within_capacity(self)
        requires
            self.wf(),
        ensures
            self.queue().len() <= self.capacity(),
    {
    }

    /// There is room for the samples of two seconds, whatever the rate: samples that come while fewer
    /// wait are all kept, in order, and of those that do not fit the first are.
    pub proof fn law_room_for_two_seconds(self, samples: Seq<u32>)
        requires
            self.wf(),
        ensures
            self.queue().len() <= 2 * self.rate(),
            self.queue().len() + samples.len() <= 2 * self.rate() ==> crate::ring::queue_after_push(
                self.queue(),
                self.capacity(),
                samples,
            ) == self.queue() + samples,
            self.queue().len() + samples.len() > 2 * self.rate() ==> crate::ring::queue_after_push(
                self.queue(),
                self.capacity(),
                samples,
            ) == self.queue() + samples.take(2 * self.rate() - self.queue().len()),
    {
    }

    /// Whether only the queue differs.
    pub open spec fn same_device(self, other: AudioOutput) -> bool {
        &&& self.rate() == other.rate()
        &&& self.size() == other.size()
        &&& self.is_dropped() == other.is_dropped()
    }

    /// Chooses the first of the output devices that goes by the name, and makes room for the samples
    /// of two seconds.
    pub fn new(
        names: &Vec<Option<String>>,
        device: &String,
        sr: u32,
        buffer_size: u32,
    ) -> (output: Result<(usize, Self), AudioError>)
        requires
            crate::device::has_named(names@, device@) ==> 0 < sr && 8 * sr <= isize::MAX,
        ensures
            crate::device::has_named(names@, device@) ==> {
                &&& output is Ok
                &&& crate::device::is_first_named(names@, device@, output->Ok_0.0 as int)
                &&& output->Ok_0.1.wf()
                &&& output->Ok_0.1.queue() == Seq::<u32>::empty()
                &&& output->Ok_0.1.rate() == sr
                &&& output->Ok_0.1.capacity() == 2 * sr
                &&& output->Ok_0.1.size() == buffer_size
                &&& !output->Ok_0.1.is_dropped()
            },
            !crate::device::has_named(names@, device@) ==> output == Err::<
                (usize, Self),
                AudioError,
            >(AudioError::DeviceNotFound(*device)),
    {
        let index: usize = match find_device(names, device) {
            Ok(index) => index,
            Err(error) => {
                return Err(error);
            },
        };
        let ring = ring_new(sr as usize * 2);
        Ok((index, AudioOutput { ring, buffer_size, sample_rate: sr, dropped: false }))
    }

    /// The number of samples that arrive at once.
    pub fn buffer_size(&self) -> (buffer_size: u32)
        ensures
            buffer_size == self.size(),
    {
        self.buffer_size
    }

    /// Gives the device samples, as the bits of 32-bit floating-point numbers. `format` is the
    /// format that the device takes. Places that no sample waits for stay as they are. Returns the
    /// number of samples that were given.
    pub fn play(&mut self, format: SampleFormat, data: &mut Vec<u32>) -> (count: Result<
        usize,
        AudioError,
    >)
        requires
            old(self).wf(),
        ensures
            final(self).wf(),
            final(self).same_device(*old(self)),
            final(self).rate() == old(self).rate(),
            final(self).size() == old(self).size(),
            final(self).capacity() == old(self).capacity(),
            final(self).is_dropped() == old(self).is_dropped(),
            format !is F32 ==> {
                &&& count == Err::<usize, AudioError>(AudioError::UnsupportedFormat)
                &&& final(self).queue() == old(self).queue()
                &&& final(data)@ == old(data)@
            },
            format is F32 ==> ({
                let n = crate::ring::popped(old(self).queue(), old(data)@.len());
                &&& count == Ok::<usize, AudioError>(n as usize)
                &&& final(self).queue() == old(self).queue().skip(n as int)
                &&& final(data)@ == old(self).queue().take(n as int) + old(data)@.skip(n as int)
            }),
    {
        match format {
            SampleFormat::F32 => {
                let count: usize = ring_pop_slice(&mut self.ring, data.as_mut_slice());
                Ok(count)
            },
            SampleFormat::I16 | SampleFormat::Other => Err(AudioError::UnsupportedFormat),
        }
    }

    /// Notes that the device takes no more samples.
    pub fn close(&mut self)
        requires
            old(self).wf(),
        ensures
            final(self).wf(),
            final(self).queue() == old(self).queue(),
            final(self).rate() == old(self).rate(),
            final(self).size() == old(self).size(),
            final(self).capacity() == old(self).capacity(),
            final(self).is_dropped(),
    {
        self.dropped = true;
    }

    /// Queues samples of a buffer of which the first `pushed` were queued already, as many as there
    /// is room for, and returns how many are queued now. Fails where the device takes no more
    /// samples. Where some are left the caller waits for room and goes on.
    pub fn push_slice(&mut self, buffer: &[u32], pushed: usize) -> (now: Result<usize, AudioError>)
        requires
            old(self).wf(),
            pushed <= buffer@.len(),
        ensures
            final(self).wf(),
            final(self).same_device(*old(self)),
            final(self).rate() == old(self).rate(),
            final(self).size() == old(self).size(),
            final(self).capacity() == old(self).capacity(),
            final(self).is_dropped() == old(self).is_dropped(),
            old(self).is_dropped() ==> now == Err::<usize, AudioError>(AudioError::OutputDropped)
                && final(self).queue() == old(self).queue(),
            !old(self).is_dropped() ==> {
                &&& final(self).queue() == crate::ring::queue_after_push(
                    old(self).queue(),
                    old(self).capacity(),
                    buffer@.skip(pushed as int),
                )
                &&& now is Ok
                &&& now->Ok_0 == pushed + final(self).queue().len() - old(self).queue().len()
            },
    {
        if self.dropped {
            return Err(AudioError::OutputDropped);
        }
        let rest = slice_subrange(buffer, pushed, buffer.len());
        let count: usize = ring_push_slice(&mut self.ring, rest);
        assert(rest@ =~= buffer@.skip(pushed as int));
        assert(rest@.take(rest@.len() as int) =~= rest@);
        Ok(pushed + count)
    }
}

} // verus!
