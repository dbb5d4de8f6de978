//! How a sender finds and greets a receiver, and what a receiver plays.

use crate::discover::DiscoveryResult;
use crate::handshake::Handshake;
use crate::message::AudioMessage;
use crate::wire::ReadError;
use vstd::prelude::*;
use vstd::slice::slice_to_vec;

verus! {

/// How long a sender waits before it tries again, in seconds.
pub const RETRY_SECONDS: u64 = 5;

/// How long a sender searches for a receiver, in milliseconds.
pub const SEARCH_MILLISECONDS: u32 = 2000;

/// Where a sender stands.
#[derive(Debug, Clone, Copy, PartialEq, Eq, Structural)]
pub enum SenderPhase {
    /// Between attempts.
    Idle,
    /// Connecting to the address that it was given.
    Dialing,
    /// Searching for the receiver of the name that it was given.
    Searching,
    /// Connecting to the receiver that it found.
    DialingFound,
    /// Sending the handshake.
    Greeting,
    /// Sending audio.
    Streaming,
    /// Ended by a failure.
    Ended,
}

/// What happens to a sender.
pub enum SenderEvent {
    /// It is time to try.
    Ready,
    /// The connection stands.
    Connected,
    /// The connection failed.
    ConnectFailed,
    /// The search is over, with a receiver or without one.
    Searched(Option<DiscoveryResult>),
    /// The search failed.
    SearchFailed,
    /// The handshake was sent.
    Greeted,
    /// The handshake could not be sent.
    GreetFailed,
    /// A message was sent.
    Sent,
    /// A message could not be sent.
    SendFailed,
    /// No more samples can be had.
    CaptureFailed,
}

/// What a sender does next.
pub enum SenderAction {
    /// Connect to this address.
    Connect(String),
    /// Search for the receiver of this name.
    Search(String),
    /// Wait this many seconds, and try again.
    Wait(u64),
    /// Send the handshake.
    Greet(Vec<u8>),
    /// Drop the samples that have been recorded so far, and send those that follow.
    Begin,
    /// Send the next samples.
    Continue,
    /// Try to connect again at once.
    Reconnect,
    /// End with a failure.
    Abort,
}

/// A sender: where it is to connect to, and with what audio parameters.
pub struct Sender {
    addr: Option<String>,
    name: Option<String>,
    handshake: Handshake,
    phase: SenderPhase,
}

/// Whether an event can happen in a phase.
pub open spec fn can_happen(phase: SenderPhase, event: SenderEvent) -> bool {
    match phase {
        SenderPhase::Idle => event is Ready,
        SenderPhase::Dialing => event is Connected || event is ConnectFailed,
        SenderPhase::Searching => event is Searched || event is SearchFailed,
        SenderPhase::DialingFound => event is Connected || event is ConnectFailed,
        SenderPhase::Greeting => event is Greeted || event is GreetFailed,
        SenderPhase::Streaming => event is Sent || event is SendFailed || event is CaptureFailed,
        SenderPhase::Ended => false,
    }
}

/// The phase that follows.
pub open spec fn next_phase(addressed: bool, phase: SenderPhase, event: SenderEvent) -> SenderPhase {
    match event {
        SenderEvent::Ready => if addressed {
            SenderPhase::Dialing
        } else {
            SenderPhase::Searching
        },
        SenderEvent::Connected => SenderPhase::Greeting,
        SenderEvent::ConnectFailed => if phase is Dialing {
            SenderPhase::Idle
        } else {
            SenderPhase::Ended
        },
        SenderEvent::Searched(Some(_)) => SenderPhase::DialingFound,
        SenderEvent::Searched(None) => SenderPhase::Idle,
        SenderEvent::SearchFailed => SenderPhase::Ended,
        SenderEvent::Greeted => SenderPhase::Streaming,
        SenderEvent::GreetFailed => SenderPhase::Ended,
        SenderEvent::Sent => SenderPhase::Streaming,
        SenderEvent::SendFailed => SenderPhase::Idle,
        SenderEvent::CaptureFailed => SenderPhase::Ended,
    }
}

impl Sender {
    /// The address that the sender was given.
    pub closed spec fn address(self) -> Option<String> {
        self.addr
    }

    /// The name of the receiver that the sender was given.
    pub closed spec fn receiver(self) -> Option<String> {
        self.name
    }

    /// The audio parameters.
    pub closed spec fn greeting(self) -> Handshake {
        self.handshake
    }

    /// Where the sender stands.
    pub closed spec fn at(self) -> SenderPhase {
        self.phase
    }

    /// Whether the sender has somewhere to connect to.
    pub open spec fn wf(self) -> bool {
        self.address() is Some || self.receiver() is Some
    }

    /// Whether two senders differ in their phase at most.
    pub open spec fn same_target(self, other: Sender) -> bool {
        &&& self.address() == other.address()
        &&& self.receiver() == other.receiver()
        &&& self.greeting() == other.greeting()
    }

    /// A sender to an address or to a receiver by its name.
    pub fn new(
        addr: Option<String>,
        name: Option<String>,
        sample_rate: u32,
        buffer_size: u32,
    ) -> (sender: Self)
        requires
            addr is Some || name is Some,
        ensures
            sender.wf(),
            sender.address() == addr,
            sender.receiver() == name,
            sender.greeting() == (Handshake { sample_rate, buffer_size }),
            sender.at() is Idle,
    {
        Sender {
            addr,
            name,
            handshake: Handshake { sample_rate, buffer_size },
            phase: SenderPhase::Idle,
        }
    }

    /// What the sender does after an event. An address that it was given goes before a name. A
    /// connection to that address that fails is tried again, and so is a search that finds nothing;
    /// a connection that breaks is made anew. What else fails ends the sender.
    pub fn step(&mut self, event: SenderEvent) -> (action: SenderAction)
        requires
            old(self).wf(),
            can_happen(old(self).at(), event),
        ensures
            final(self).wf(),
            final(self).same_target(*old(self)),
            final(self).at() == next_phase(old(self).address() is Some, old(self).at(), event),
            match event {
                SenderEvent::Ready => match old(self).address() {
                    Some(addr) => action == SenderAction::Connect(addr),
                    None => action == SenderAction::Search(old(self).receiver()->Some_0),
                },
                SenderEvent::Connected => action is Greet && action->Greet_0@
                    == old(self).greeting().encoding(),
                SenderEvent::ConnectFailed => if old(self).at() is Dialing {
                    action == SenderAction::Wait(RETRY_SECONDS)
                } else {
                    action is Abort
                },
                SenderEvent::Searched(Some(device)) => action == SenderAction::Connect(device.addr),
                SenderEvent::Searched(None) => action == SenderAction::Wait(RETRY_SECONDS),
                SenderEvent::SearchFailed => action is Abort,
                SenderEvent::Greeted => action is Begin,
                SenderEvent::GreetFailed => action is Abort,
                SenderEvent::Sent => action is Continue,
                SenderEvent::SendFailed => action is Reconnect,
                SenderEvent::CaptureFailed => action is Abort,
            },
            final(self).address() == old(self).address(),
            final(self).receiver() == old(self).receiver(),
            final(self).greeting() == old(self).greeting(),
            action matches SenderAction::Wait(seconds) ==> seconds == 5,
            match action {
                SenderAction::Connect(_) => if event is Ready {
                    final(self).at() is Dialing
                } else {
                    final(self).at() is DialingFound
                },
                SenderAction::Search(_) => final(self).at() is Searching,
                SenderAction::Wait(_) => final(self).at() is Idle,
                SenderAction::Greet(_) => final(self).at() is Greeting,
                SenderAction::Begin => final(self).at() is Streaming,
                SenderAction::Continue => final(self).at() is Streaming,
                SenderAction::Reconnect => final(self).at() is Idle,
                SenderAction::Abort => final(self).at() is Ended,
            },
    {
        match event {
            SenderEvent::Ready => {
                match &self.addr {
                    Some(addr) => {
                        self.phase = SenderPhase::Dialing;
                        SenderAction::Connect(addr.clone())
                    },
                    None => {
                        self.phase = SenderPhase::Searching;
                        match &self.name {
                            Some(name) => SenderAction::Search(name.clone()),
                            None => SenderAction::Abort,
                        }
                    },
                }
            },
            SenderEvent::Connected => {
                self.phase = SenderPhase::Greeting;
                let mut bytes: Vec<u8> = Vec::new();
                let _ = self.handshake.write(&mut bytes);
                assert(bytes@ =~= self.handshake.encoding());
                SenderAction::Greet(bytes)
            },
            SenderEvent::ConnectFailed => {
                if self.phase == SenderPhase::Dialing {
                    self.phase = SenderPhase::Idle;
                    SenderAction::Wait(RETRY_SECONDS)
                } else {
                    self.phase = SenderPhase::Ended;
                    SenderAction::Abort
                }
            },
            SenderEvent::Searched(Some(device)) => {
                self.phase = SenderPhase::DialingFound;
                SenderAction::Connect(device.addr)
            },
            SenderEvent::Searched(None) => {
                self.phase = SenderPhase::Idle;
                SenderAction::Wait(RETRY_SECONDS)
            },
            SenderEvent::Greeted => {
                self.phase = SenderPhase::Streaming;
                SenderAction::Begin
            },
            SenderEvent::Sent => SenderAction::Continue,
            SenderEvent::SendFailed => {
                self.phase = SenderPhase::Idle;
                SenderAction::Reconnect
            },
            SenderEvent::SearchFailed | SenderEvent::GreetFailed | SenderEvent::CaptureFailed => {
                self.phase = SenderPhase::Ended;
                SenderAction::Abort
            },
        }
    }
}

/// The name that a receiver answers discovery requests with: `None` where it is not to answer them.
/// Fails where it is and has no name.
pub fn answering_name(enable_discovery: bool, discovery_name: Option<String>) -> (name: Result<
    Option<String>,
    String,
>)
    ensures
        !enable_discovery ==> name == Ok::<Option<String>, String>(None),
        enable_discovery && discovery_name is Some ==> name == Ok::<Option<String>, String>(
            discovery_name,
        ),
        enable_discovery && discovery_name is None ==> name is Err && name->Err_0@
            == "Discovery name must be provided when discovery is enabled."@,
{
    if !enable_discovery {
        return Ok(None);
    }
    match discovery_name {
        Some(name) => Ok(Some(name)),
        None => Err("Discovery name must be provided when discovery is enabled.".to_owned()),
    }
}

/// Samples of silence.
pub open spec fn silence(n: nat) -> Seq<u32> {
    Seq::new(n, |i: int| 0u32)
}

/// What a receiver plays of a message, in buffers of a size.
pub open spec fn played(fully_silent: bool, data: Seq<u32>, buffer_size: nat) -> Seq<u32> {
    if fully_silent {
        silence(buffer_size)
    } else {
        data
    }
}

fn silent_samples(n: u32) -> (samples: Vec<u32>)
    ensures
        samples@ == silence(n as nat),
{
    let mut samples: Vec<u32> = Vec::new();
    let mut i: u32 = 0;
    while i < n
        invariant
            i <= n,
            samples@ == silence(i as nat),
        decreases n - i,
    {
        samples.push(0u32);
        i += 1;
        assert(samples@ =~= silence(i as nat));
    }
    samples
}

/// Where a receiver stands.
#[derive(Debug, Clone, Copy, PartialEq, Eq, Structural)]
pub enum ReceiverPhase {
    /// Waiting for a connection.
    Listening,
    /// Reading the handshake.
    Greeting,
    /// Opening the output device with these audio parameters.
    Opening(Handshake),
    /// Playing audio with these audio parameters.
    Playing(Handshake),
    /// Ended by a failure.
    Ended,
}

/// What happens to a receiver.
pub enum ReceiverEvent<'a> {
    /// A sender connected.
    Accepted,
    /// No connection can be accepted.
    AcceptFailed,
    /// The handshake was read, or could not be.
    Greeted(Result<Handshake, ReadError>),
    /// The output device is open.
    Opened,
    /// The output device could not be opened.
    OpenFailed,
    /// A message was read, or could not be.
    Message(Result<AudioMessage<'a>, ReadError>),
    /// Samples could not be played.
    PlayFailed,
}

/// What a receiver does next.
pub enum ReceiverAction {
    /// Read the handshake.
    ReadHandshake,
    /// Open the output device with these audio parameters.
    Open(Handshake),
    /// Play these samples, and read the next message.
    Play(Vec<u32>),
    /// Play these samples, and wait for another connection.
    PlayLast(Vec<u32>),
    /// End with a failure.
    Abort,
}

/// A receiver.
pub struct Receiver {
    phase: ReceiverPhase,
}

/// Whether an event can happen to a receiver in a phase.
pub open spec fn can_receive(phase: ReceiverPhase, event: ReceiverEvent) -> bool {
    match phase {
        ReceiverPhase::Listening => event is Accepted || event is AcceptFailed
            || event is PlayFailed,
        ReceiverPhase::Greeting => event is Greeted,
        ReceiverPhase::Opening(_) => event is Opened || event is OpenFailed,
        ReceiverPhase::Playing(_) => event is Message || event is PlayFailed,
        ReceiverPhase::Ended => false,
    }
}

/// The phase of a receiver that follows.
pub open spec fn next_receiver_phase(phase: ReceiverPhase, event: ReceiverEvent) -> ReceiverPhase {
    match (phase, event) {
        (ReceiverPhase::Listening, ReceiverEvent::Accepted) => ReceiverPhase::Greeting,
        (ReceiverPhase::Greeting, ReceiverEvent::Greeted(Ok(handshake))) => ReceiverPhase::Opening(
            handshake,
        ),
        (ReceiverPhase::Opening(handshake), ReceiverEvent::Opened) => ReceiverPhase::Playing(
            handshake,
        ),
        (ReceiverPhase::Playing(handshake), ReceiverEvent::Message(Ok(_))) => ReceiverPhase::Playing(
            handshake,
        ),
        (ReceiverPhase::Playing(_), ReceiverEvent::Message(Err(_))) => ReceiverPhase::Listening,
        _ => ReceiverPhase::Ended,
    }
}

impl Receiver {
    /// Where the receiver stands.
    pub closed spec fn at(self) -> ReceiverPhase {
        self.phase
    }

    /// A receiver that waits for a connection.
    pub fn new() -> (receiver: Self)
        ensures
            receiver.at() is Listening,
    {
        Receiver { phase: ReceiverPhase::Listening }
    }

    /// What the receiver does after an event. The first that it plays is a buffer of silence, so that
    /// there is something to play while the first messages arrive. Then it plays what it reads, and a
    /// buffer of silence for a message that is silent. Where a message cannot be read it plays a
    /// last buffer of silence and waits for another connection. What else fails ends the receiver.
    pub fn step(&mut self, event: ReceiverEvent) -> (action: ReceiverAction)
        requires
            can_receive(old(self).at(), event),
        ensures
            final(self).at() == next_receiver_phase(old(self).at(), event),
            match (old(self).at(), event) {
                (ReceiverPhase::Listening, ReceiverEvent::Accepted) => action is ReadHandshake,
                (ReceiverPhase::Greeting, ReceiverEvent::Greeted(Ok(handshake))) => action
                    == ReceiverAction::Open(handshake),
                (ReceiverPhase::Opening(handshake), ReceiverEvent::Opened) => action is Play
                    && action->Play_0@ == silence(handshake.buffer_size as nat),
                (ReceiverPhase::Playing(handshake), ReceiverEvent::Message(Ok(message))) => action
                    is Play && action->Play_0@ == played(
                    message.fully_silent,
                    message.data@,
                    handshake.buffer_size as nat,
                ),
                (ReceiverPhase::Playing(handshake), ReceiverEvent::Message(Err(_))) => action
                    is PlayLast && action->PlayLast_0@ == silence(handshake.buffer_size as nat),
                _ => action is Abort,
            },
            match (action, old(self).at()) {
                (ReceiverAction::ReadHandshake, _) => final(self).at() is Greeting,
                (ReceiverAction::Open(handshake), _) => final(self).at() == ReceiverPhase::Opening(
                    handshake,
                ),
                (ReceiverAction::Play(_), ReceiverPhase::Opening(handshake)) => final(self).at()
                    == ReceiverPhase::Playing(handshake),
                (ReceiverAction::Play(_), phase) => final(self).at() == phase,
                (ReceiverAction::PlayLast(_), _) => final(self).at() is Listening,
                (ReceiverAction::Abort, _) => final(self).at() is Ended,
            },
    {
        match (self.phase, event) {
            (ReceiverPhase::Listening, ReceiverEvent::Accepted) => {
                self.phase = ReceiverPhase::Greeting;
                ReceiverAction::ReadHandshake
            },
            (ReceiverPhase::Greeting, ReceiverEvent::Greeted(Ok(handshake))) => {
                self.phase = ReceiverPhase::Opening(handshake);
                ReceiverAction::Open(handshake)
            },
            (ReceiverPhase::Opening(handshake), ReceiverEvent::Opened) => {
                self.phase = ReceiverPhase::Playing(handshake);
                ReceiverAction::Play(silent_samples(handshake.buffer_size))
            },
            (ReceiverPhase::Playing(handshake), ReceiverEvent::Message(Ok(message))) => {
                if message.fully_silent {
                    ReceiverAction::Play(silent_samples(handshake.buffer_size))
                } else {
                    ReceiverAction::Play(slice_to_vec(message.data))
                }
            },
            (ReceiverPhase::Playing(handshake), ReceiverEvent::Message(Err(_))) => {
                self.phase = ReceiverPhase::Listening;
                ReceiverAction::PlayLast(silent_samples(handshake.buffer_size))
            },
            _ => {
                self.phase = ReceiverPhase::Ended;
                ReceiverAction::Abort
            },
        }
    }
}

/// The time that a message was on its way, in milliseconds. Where the clocks of the two machines
/// differ so much that it arrived before it was sent, the difference wraps around.
pub fn network_latency(now: u64, sent: u64) -> (latency: u64)
    ensures
        sent <= now ==> latency == now - sent,
        sent > now ==> latency == 0x1_0000_0000_0000_0000 - (sent - now),
{
    now.wrapping_sub(sent)
}

/// The samples that a message for a buffer of samples carries.
pub open spec fn carried(samples: Seq<u32>) -> Seq<u32> {
    if crate::message::is_silent(samples) {
        Seq::empty()
    } else {
        samples
    }
}

/// Whether samples are heard as others: bit by bit, but for the signs of zeros.
pub open spec fn heard_as(heard: Seq<u32>, samples: Seq<u32>) -> bool {
    &&& heard.len() == samples.len()
    &&& forall|i: int|
        0 <= i < samples.len() ==> #[trigger] heard[i] == samples[i] || (crate::message::is_zero(
            heard[i],
        ) && crate::message::is_zero(samples[i]))
}

/// Audio arrives as it was recorded: what a receiver plays of a message that a sender sent for a
/// buffer of samples, read over any earlier buffer of that size and whatever bytes follow, are those
/// samples, bit by bit, but for the signs of the zeros in a buffer of zeros.
pub proof fn law_audio_is_lossless(
    samples: Seq<u32>,
    timestamp: u64,
    earlier: Seq<u32>,
    rest: Seq<u8>,
)
    requires
        samples.len() <= u32::MAX,
        earlier.len() == samples.len(),
    ensures
        ({
            let bytes = crate::message::message_bytes(
                timestamp,
                crate::message::is_silent(samples),
                carried(samples),
            ) + rest;
            let length = crate::message::length_in(bytes);
            let data = crate::message::filled(bytes, length as nat, earlier);
            let heard = played(crate::message::silent_in(bytes), data, samples.len());
            &&& length <= earlier.len()
            &&& bytes.len() >= 17 + 4 * length
            &&& bytes.skip(17 + 4 * length) == rest
            &&& crate::message::timestamp_in(bytes) == timestamp
            &&& !crate::message::is_silent(samples) ==> heard == samples
            &&& heard_as(heard, samples)
            &&& heard.len() == samples.len()
            &&& forall|i: int|
                0 <= i < samples.len() ==> #[trigger] heard[i] & 0x7fff_ffff == samples[i]
                    & 0x7fff_ffff
            &&& (exists|i: int| 0 <= i < samples.len() && #[trigger] samples[i] & 0x7fff_ffff != 0)
                ==> heard == samples
        }),
{
    let silent = crate::message::is_silent(samples);
    let bytes = crate::message::message_bytes(timestamp, silent, carried(samples)) + rest;
    crate::message::law_message_round_trip(timestamp, silent, carried(samples), rest);
    let length = crate::message::length_in(bytes);
    let data = crate::message::filled(bytes, length as nat, earlier);
    let heard = played(crate::message::silent_in(bytes), data, samples.len());
    crate::message::law_silence_has_no_bits(samples);
    crate::message::law_silence_has_no_bits(silence(samples.len()));
    if silent {
        assert forall|i: int| 0 <= i < samples.len() implies #[trigger] heard[i] & 0x7fff_ffff
            == samples[i] & 0x7fff_ffff by {
            assert(silence(samples.len())[i] & 0x7fff_ffff == 0);
            assert(samples[i] & 0x7fff_ffff == 0);
        }
    }
    if !silent {
        assert(data =~= samples);
    } else {
        assert forall|i: int| 0 <= i < samples.len() implies #[trigger] heard[i] == samples[i] || (
        crate::message::is_zero(heard[i]) && crate::message::is_zero(samples[i])) by {
            assert(crate::message::is_zero(samples[i]));
        }
    }
}

/// What a sender sends for buffers of samples, one message after the other.
pub open spec fn stream_bytes(buffers: Seq<Seq<u32>>, timestamps: Seq<u64>) -> Seq<u8>
    decreases buffers.len(),
{
    if buffers.len() == 0 {
        seq![]
    } else {
        crate::message::message_bytes(
            timestamps[0],
            crate::message::is_silent(buffers[0]),
            carried(buffers[0]),
        ) + stream_bytes(buffers.drop_first(), timestamps.drop_first())
    }
}

/// What a receiver plays of the first `n` messages in bytes, where it reads each of them into the
/// buffer that the one before left.
pub open spec fn stream_played(bytes: Seq<u8>, n: nat, earlier: Seq<u32>) -> Seq<Seq<u32>>
    decreases n,
{
    if n == 0 {
        seq![]
    } else {
        let length = crate::message::length_in(bytes);
        let data = crate::message::filled(bytes, length as nat, earlier);
        seq![played(crate::message::silent_in(bytes), data, earlier.len())] + stream_played(
            bytes.skip(17 + 4 * length),
            (n - 1) as nat,
            data,
        )
    }
}

/// A whole stream arrives as it was recorded: every buffer that was sent is played, in order, and
/// none besides.
pub proof fn law_stream_is_lossless(
    buffers: Seq<Seq<u32>>,
    timestamps: Seq<u64>,
    earlier: Seq<u32>,
    rest: Seq<u8>,
)
    requires
        earlier.len() <= u32::MAX,
        timestamps.len() == buffers.len(),
        forall|i: int| 0 <= i < buffers.len() ==> (#[trigger] buffers[i]).len() == earlier.len(),
    ensures
        ({
            let heard = stream_played(
                stream_bytes(buffers, timestamps) + rest,
                buffers.len(),
                earlier,
            );
            &&& heard.len() == buffers.len()
            &&& forall|i: int| 0 <= i < buffers.len() ==> heard_as(#[trigger] heard[i], buffers[i])
            &&& forall|i: int|
                0 <= i < buffers.len() ==> (#[trigger] heard[i]).len() == buffers[i].len()
            &&& forall|i: int, k: int|
                0 <= i < buffers.len() && 0 <= k < buffers[i].len() ==> #[trigger] heard[i][k]
                    & 0x7fff_ffff == buffers[i][k] & 0x7fff_ffff
        }),
    decreases buffers.len(),
{
    if buffers.len() > 0 {
        let samples = buffers[0];
        let message = crate::message::message_bytes(
            timestamps[0],
            crate::message::is_silent(samples),
            carried(samples),
        );
        let later_buffers = buffers.drop_first();
        let later_timestamps = timestamps.drop_first();
        let later = stream_bytes(later_buffers, later_timestamps) + rest;
        let bytes = stream_bytes(buffers, timestamps) + rest;
        assert(bytes =~= message + later);
        law_audio_is_lossless(samples, timestamps[0], earlier, later);
        let length = crate::message::length_in(bytes);
        let data = crate::message::filled(bytes, length as nat, earlier);
        assert(data.len() == earlier.len());
        assert forall|i: int| 0 <= i < later_buffers.len() implies (
        #[trigger] later_buffers[i]).len() == data.len() by {
            assert(buffers[i + 1].len() == earlier.len());
        }
        law_stream_is_lossless(later_buffers, later_timestamps, data, rest);
        let heard = stream_played(bytes, buffers.len(), earlier);
        let heard_later = stream_played(later, later_buffers.len(), data);
        assert(heard =~= seq![
            played(crate::message::silent_in(bytes), data, earlier.len()),
        ] + heard_later);
        assert forall|i: int| 0 <= i < buffers.len() implies heard_as(
            #[trigger] heard[i],
            buffers[i],
        ) by {
            if i > 0 {
                assert(heard[i] == heard_later[i - 1]);
                assert(buffers[i] == later_buffers[i - 1]);
            }
        }
        assert forall|i: int, k: int|
            0 <= i < buffers.len() && 0 <= k < buffers[i].len() implies #[trigger] heard[i][k]
            & 0x7fff_ffff == buffers[i][k] & 0x7fff_ffff by {
            if i > 0 {
                assert(heard[i] == heard_later[i - 1]);
                assert(buffers[i] == later_buffers[i - 1]);
                assert(heard_later[i - 1][k] & 0x7fff_ffff == later_buffers[i - 1][k]
                    & 0x7fff_ffff);
            }
        }
    }
}

/// Silence costs next to nothing: the message for a buffer of zeros has seventeen bytes, however
/// many samples the buffer has.
pub proof fn law_silence_is_cheap(samples: Seq<u32>, timestamp: u64)
    requires
        crate::message::is_silent(samples),
    ensures
        crate::message::message_bytes(timestamp, true, carried(samples)).len() == 17,
{
    crate::message::lemma_message_len(timestamp, true, carried(samples));
}

/// Whether events can happen one after the other from a phase on.
pub open spec fn can_run(addressed: bool, phase: SenderPhase, events: Seq<SenderEvent>) -> bool
    decreases events.len(),
{
    events.len() > 0 ==> {
        &&& can_run(addressed, phase, events.drop_last())
        &&& can_happen(phase_after(addressed, phase, events.drop_last()), events.last())
    }
}

/// The phase of a sender after events.
pub open spec fn phase_after(
    addressed: bool,
    phase: SenderPhase,
    events: Seq<SenderEvent>,
) -> SenderPhase
    decreases events.len(),
{
    if events.len() == 0 {
        phase
    } else {
        next_phase(addressed, phase_after(addressed, phase, events.drop_last()), events.last())
    }
}

/// A sender that was given an address never gives up because it cannot connect or because its
/// connection breaks: only a handshake that cannot be sent and a device that delivers no more
/// samples end it.
pub proof fn law_sender_keeps_trying(events: Seq<SenderEvent>)
    requires
        can_run(true, SenderPhase::Idle, events),
        forall|i: int|
            0 <= i < events.len() ==> (#[trigger] events[i]) !is GreetFailed && events[i]
                !is CaptureFailed,
    ensures
        phase_after(true, SenderPhase::Idle, events) !is Ended,
        phase_after(true, SenderPhase::Idle, events) !is Searching,
        phase_after(true, SenderPhase::Idle, events) !is DialingFound,
    decreases events.len(),
{
    if events.len() > 0 {
        let before = events.drop_last();
        assert forall|i: int| 0 <= i < before.len() implies (#[trigger] before[i]) !is GreetFailed
            && before[i] !is CaptureFailed by {
            assert(events[i] == before[i]);
        }
        law_sender_keeps_trying(before);
        assert(events[events.len() - 1] == events.last());
    }
}

/// A sender sends audio only over a connection that it has greeted: where it sends audio, a handshake
/// was sent, and nothing but messages since.
pub proof fn law_no_audio_before_handshake(addressed: bool, events: Seq<SenderEvent>) -> (k: int)
    requires
        can_run(addressed, SenderPhase::Idle, events),
        phase_after(addressed, SenderPhase::Idle, events) is Streaming,
    ensures
        0 <= k < events.len(),
        events[k] is Greeted,
        forall|j: int| k < j < events.len() ==> (#[trigger] events[j]) is Sent,
    decreases events.len(),
{
    let before = events.drop_last();
    assert(events[events.len() - 1] == events.last());
    if events.last() is Greeted {
        events.len() - 1
    } else {
        let k = law_no_audio_before_handshake(addressed, before);
        assert forall|j: int| k < j < events.len() implies (#[trigger] events[j]) is Sent by {
            if j < before.len() {
                assert(before[j] is Sent);
            }
        }
        k
    }
}

/// The message for samples without a bit but for their signs has seventeen bytes, and every other
/// message carries all of its samples.
pub proof fn law_only_silence_is_left_out(samples: Seq<u32>, timestamp: u64)
    requires
        samples.len() <= usize::MAX,
    ensures
        ({
            let message = crate::message::message_bytes(
                timestamp,
                crate::message::is_silent(samples),
                carried(samples),
            );
            &&& (forall|i: int| 0 <= i < samples.len() ==> #[trigger] samples[i] & 0x7fff_ffff == 0)
                ==> message.len() == 17 && message[8] == 1
            &&& (exists|i: int| 0 <= i < samples.len() && #[trigger] samples[i] & 0x7fff_ffff != 0)
                ==> message.len() == 17 + 4 * samples.len() && message[8] == 0
        }),
{
    crate::message::law_silence_has_no_bits(samples);
    crate::message::law_message_layout(
        timestamp,
        crate::message::is_silent(samples),
        carried(samples),
    );
}

/// Silence is a buffer of positive zeros of the size that was asked for.
pub proof fn law_silence_is_zeros(data: Seq<u32>, n: nat)
    ensures
        silence(n).len() == n,
        forall|i: int| 0 <= i < n ==> #[trigger] silence(n)[i] == 0,
        played(true, data, n) == silence(n),
        played(false, data, n) == data,
{
}

/// Whatever a sender does, each outcome can be handed back to it, and nothing else: an attempt
/// succeeds or fails, and a sender that ended is told nothing.
pub proof fn law_outcomes_of_a_sender(event: SenderEvent)
    ensures
        can_happen(SenderPhase::Idle, event) <==> event is Ready,
        can_happen(SenderPhase::Dialing, event) <==> event is Connected || event is ConnectFailed,
        can_happen(SenderPhase::DialingFound, event) <==> event is Connected || event
            is ConnectFailed,
        can_happen(SenderPhase::Searching, event) <==> event is Searched || event is SearchFailed,
        can_happen(SenderPhase::Greeting, event) <==> event is Greeted || event is GreetFailed,
        can_happen(SenderPhase::Streaming, event) <==> event is Sent || event is SendFailed
            || event is CaptureFailed,
        !can_happen(SenderPhase::Ended, event),
{
}

/// Whatever a receiver does, each outcome can be handed back to it, and nothing else.
pub proof fn law_outcomes_of_a_receiver(event: ReceiverEvent, handshake: Handshake)
    ensures
        can_receive(ReceiverPhase::Listening, event) <==> event is Accepted || event is AcceptFailed
            || event is PlayFailed,
        can_receive(ReceiverPhase::Greeting, event) <==> event is Greeted,
        can_receive(ReceiverPhase::Opening(handshake), event) <==> event is Opened || event
            is OpenFailed,
        can_receive(ReceiverPhase::Playing(handshake), event) <==> event is Message || event
            is PlayFailed,
        !can_receive(ReceiverPhase::Ended, event),
{
}

/// A sender that can connect comes to send audio, and goes on until a message cannot be sent: then
/// it starts over, as often as it takes.
pub proof fn law_sender_starts_over(addressed: bool, event: SenderEvent)
    ensures
        next_phase(true, SenderPhase::Idle, SenderEvent::Ready) is Dialing,
        next_phase(false, SenderPhase::Idle, SenderEvent::Ready) is Searching,
        next_phase(addressed, SenderPhase::Dialing, SenderEvent::Connected) is Greeting,
        next_phase(addressed, SenderPhase::DialingFound, SenderEvent::Connected) is Greeting,
        next_phase(addressed, SenderPhase::Greeting, SenderEvent::Greeted) is Streaming,
        next_phase(addressed, SenderPhase::Streaming, SenderEvent::Sent) is Streaming,
        next_phase(addressed, SenderPhase::Streaming, SenderEvent::SendFailed) is Idle,
        next_phase(addressed, SenderPhase::Dialing, SenderEvent::ConnectFailed) is Idle,
        next_phase(addressed, SenderPhase::DialingFound, SenderEvent::ConnectFailed) is Ended,
        event matches SenderEvent::Searched(found) ==> next_phase(
            addressed,
            SenderPhase::Searching,
            event,
        ) == if found is Some {
            SenderPhase::DialingFound
        } else {
            SenderPhase::Idle
        },
        event is SearchFailed || event is GreetFailed || event is CaptureFailed ==> forall|phase|
            next_phase(addressed, phase, event) is Ended,
{
}

} // verus!
