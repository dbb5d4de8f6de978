//! Finding audio receivers on the local network by name.

use crate::json::json_object_text;
use crate::text::{decimal_text, utf8_text};
use vstd::prelude::*;
use vstd::slice::{slice_subrange, slice_to_vec};
use vstd::string::StringExecFns;

verus! {

/// An audio receiver that answered: its name and its address.
#[derive(Debug, Clone)]
pub struct DiscoveryResult {
    pub name: String,
    pub addr: String,
}

/// Why discovery came to an end.
#[derive(Debug, Clone)]
pub enum DiscoveryError {
    /// A receiver answered with a name that is not valid UTF-8.
    InvalidName,
    /// The socket failed.
    Socket(String),
    /// Nothing listens for answers any more.
    Closed,
}

/// The answer to a discovery request.
#[derive(Debug, Clone)]
pub struct DiscoveryMessage {
    pub name: String,
}

/// A name as it is sent: one byte with the number of its bytes modulo 256, then its UTF-8 bytes.
pub open spec fn name_bytes(name: Seq<char>) -> Seq<u8> {
    let bytes = vstd::utf8::encode_utf8(name);
    seq![(bytes.len() % 256) as u8] + bytes
}

/// Whether a buffer holds all the bytes that its first byte announces.
pub open spec fn is_complete(buffer: Seq<u8>) -> bool {
    buffer.len() > 0 && buffer[0] < buffer.len()
}

/// The bytes of the name in a complete buffer.
pub open spec fn name_part(buffer: Seq<u8>) -> Seq<u8> {
    buffer.subrange(1, buffer[0] + 1)
}

/// The name in a complete buffer; `None` where it is not valid UTF-8.
pub open spec fn parsed_name(buffer: Seq<u8>) -> Option<Seq<char>> {
    if vstd::utf8::valid_utf8(name_part(buffer)) {
        Some(vstd::utf8::decode_utf8(name_part(buffer)))
    } else {
        None
    }
}

impl DiscoveryMessage {
    /// Reads the name of a receiver out of its answer.
    pub fn from_buffer(buffer: &[u8]) -> (message: Result<Self, DiscoveryError>)
        requires
            is_complete(buffer@),
        ensures
            match parsed_name(buffer@) {
                Some(name) => message is Ok && message->Ok_0.name@ == name,
                None => message == Err::<Self, DiscoveryError>(DiscoveryError::InvalidName),
            },
    {
        let name_len: usize = buffer[0] as usize;
        match utf8_text(slice_to_vec(slice_subrange(buffer, 1, name_len + 1))) {
            Some(name) => Ok(Self { name }),
            None => Err(DiscoveryError::InvalidName),
        }
    }

    /// The answer as bytes.
    pub fn to_buffer(&self) -> (buffer: Result<Vec<u8>, DiscoveryError>)
        ensures
            buffer is Ok,
            buffer->Ok_0@ == name_bytes(self.name@),
    {
        let name = self.name.as_str().as_bytes();
        let mut buffer: Vec<u8> = Vec::new();
        buffer.push((name.len() % 256) as u8);
        buffer.extend_from_slice(name);
        assert(buffer@ =~= name_bytes(self.name@));
        Ok(buffer)
    }
}

/// The time between two requests of a listing, in milliseconds.
pub const REQUEST_MILLISECONDS: u64 = 100;

/// The text of a discovery request.
pub const REQUEST: &'static str = "audio-stream discovery";

/// The bytes of a discovery request.
pub open spec fn request_bytes() -> Seq<u8> {
    vstd::utf8::encode_utf8(REQUEST@)
}

/// The address that a discovery request is broadcast to.
pub open spec fn broadcast_address(port: u16) -> Seq<char> {
    "255.255.255.255:"@ + crate::text::decimal(port as nat)
}

/// What comes out of a socket that listens for answers.
pub enum Received<'a> {
    /// A datagram, and the address that it came from.
    Datagram(&'a [u8], String),
    /// The socket failed.
    Failed(String),
}

/// Whether a datagram holds all that it announces; the failure of a socket is whole in any case.
pub open spec fn is_whole(received: Received) -> bool {
    received matches Received::Datagram(datagram, _) ==> is_complete(datagram@)
}

/// The name and the address of the receiver that is heard of, or the failure that ends listening.
pub open spec fn answer_in(received: Received) -> Result<(Seq<char>, Seq<char>), DiscoveryError> {
    match received {
        Received::Datagram(datagram, addr) => match parsed_name(datagram@) {
            Some(name) => Ok((name, addr@)),
            None => Err(DiscoveryError::InvalidName),
        },
        Received::Failed(reason) => Err(DiscoveryError::Socket(reason)),
    }
}

/// The name and the address of a receiver that was delivered, or the failure.
pub open spec fn answer_of(delivered: Result<DiscoveryResult, DiscoveryError>) -> Result<
    (Seq<char>, Seq<char>),
    DiscoveryError,
> {
    match delivered {
        Ok(device) => Ok((device.name@, device.addr@)),
        Err(error) => Err(error),
    }
}

/// Listening for answers.
#[derive(Debug)]
pub struct Listening {
    ended: bool,
}

impl Listening {
    /// Whether a failure has ended the listening.
    pub closed spec fn has_ended(self) -> bool {
        self.ended
    }

    /// Starts to listen.
    pub fn new() -> (listening: Self)
        ensures
            !listening.has_ended(),
    {
        Listening { ended: false }
    }

    /// Whether a failure has ended the listening.
    pub fn ended(&self) -> (ended: bool)
        ensures
            ended == self.has_ended(),
    {
        self.ended
    }
}

/// What a search for a receiver hears.
pub enum SearchEvent {
    /// A receiver answered, or listening for answers failed.
    Device(Result<DiscoveryResult, DiscoveryError>),
    /// Nothing listens for answers any more.
    Closed,
    /// The time to wait for an answer is over.
    TimedOut,
}

/// What a search does next.
pub enum SearchStep {
    /// Wait for the next event.
    Wait,
    /// End the search with this result.
    Done(Result<Option<DiscoveryResult>, DiscoveryError>),
}

/// How a search for a name goes on after an event: the first receiver of that name ends it, and so
/// do the first failure and the timeout; receivers of other names are passed over.
pub open spec fn search_step(name: Seq<char>, event: SearchEvent) -> SearchStep {
    match event {
        SearchEvent::Device(Ok(device)) => if device.name@ == name {
            SearchStep::Done(Ok(Some(device)))
        } else {
            SearchStep::Wait
        },
        SearchEvent::Device(Err(error)) => SearchStep::Done(Err(error)),
        SearchEvent::Closed => SearchStep::Done(Err(DiscoveryError::Closed)),
        SearchEvent::TimedOut => SearchStep::Done(Ok(None)),
    }
}

/// What happens to a listing of receivers.
pub enum ListEvent {
    /// There is no socket to list receivers with.
    OpenFailed(String),
    /// A receiver answered, or listening for answers failed.
    Device(Result<DiscoveryResult, DiscoveryError>),
    /// Nothing listens for answers any more.
    Closed,
    /// A request could not be sent.
    RequestFailed(String),
}

/// What a listing of receivers does next.
pub enum ListStep {
    /// Wait for the next event.
    Wait,
    /// Remember the receiver and print the line.
    Announce(DiscoveryResult, String),
    /// End the listing with this result.
    Finish(Result<(), DiscoveryError>),
}

/// The line that tells of a receiver that was found or lost.
pub open spec fn event_line(
    json: bool,
    event: Seq<char>,
    name: Seq<char>,
    addr: Seq<char>,
) -> Seq<char> {
    if json {
        crate::json::json_object(seq![("addr"@, addr), ("event"@, event), ("name"@, name)])
    } else {
        "  \""@ + name + "\" at "@ + addr + " "@ + event
    }
}

/// The line for a receiver that answered: one that is known already gets none.
pub open spec fn discovered_text(json: bool, known: bool, device: DiscoveryResult) -> Option<
    Seq<char>,
> {
    if known {
        None
    } else {
        Some(event_line(json, "discovered"@, device.name@, device.addr@))
    }
}

/// The line for a receiver that has not answered for too long.
pub open spec fn lost_text(json: bool, device: DiscoveryResult) -> Seq<char> {
    event_line(json, "lost"@, device.name@, device.addr@)
}

fn event_text(json: bool, event: &str, name: &str, addr: &str) -> (line: String)
    ensures
        line@ == event_line(json, event@, name@, addr@),
{
    if json {
        let mut members: Vec<(String, String)> = Vec::new();
        members.push(("addr".to_owned(), addr.to_owned()));
        members.push(("event".to_owned(), event.to_owned()));
        members.push(("name".to_owned(), name.to_owned()));
        proof {
            reveal_strlit("addr");
            reveal_strlit("event");
            reveal_strlit("name");
            assert(crate::json::members_of(members@) =~= seq![
                ("addr"@, addr@),
                ("event"@, event@),
                ("name"@, name@),
            ]);
        }
        json_object_text(members)
    } else {
        let mut line = "  \"".to_owned();
        line.append(name);
        line.append("\" at ");
        line.append(addr);
        line.append(" ");
        line.append(event);
        line
    }
}

fn same_bytes(a: &[u8], b: &[u8]) -> (same: bool)
    ensures
        same == (a@ == b@),
{
    if a.len() != b.len() {
        return false;
    }
    let mut i: usize = 0;
    while i < a.len()
        invariant
            a@.len() == b@.len(),
            i <= a@.len(),
            forall|j: int| 0 <= j < i ==> a@[j] == b@[j],
        decreases a@.len() - i,
    {
        if a[i] != b[i] {
            return false;
        }
        i += 1;
    }
    assert(a@ =~= b@);
    true
}

/// Discovery of receivers: how a receiver answers, and what becomes of its answers.
pub struct Discovery;

impl Discovery {
    /// What a receiver of the given name sends back to the sender of a datagram: its name where the
    /// datagram is a discovery request, nothing where it is anything else.
    pub fn start(name: &String, datagram: &[u8]) -> (answer: Option<Vec<u8>>)
        ensures
            datagram@ == request_bytes() ==> answer is Some && answer->Some_0@ == name_bytes(name@),
            datagram@ != request_bytes() ==> answer is None,
    {
        if !same_bytes(datagram, REQUEST.as_bytes()) {
            return None;
        }
        let message = DiscoveryMessage { name: name.clone() };
        match message.to_buffer() {
            Ok(buffer) => Some(buffer),
            Err(_) => None,
        }
    }

    /// The datagram that asks the receivers on a port for their names, and the address that it is
    /// broadcast to.
    pub fn send_discovery(port: u16) -> (request: (Vec<u8>, String))
        ensures
            request.0@ == request_bytes(),
            request.1@ == broadcast_address(port),
            request.0@ == vstd::utf8::encode_utf8("audio-stream discovery"@),
            request.1@ == "255.255.255.255:"@ + crate::text::decimal(port as nat),
    {
        let mut addr = "255.255.255.255:".to_owned();
        addr.append(decimal_text(port as u32).as_str());
        (slice_to_vec(REQUEST.as_bytes()), addr)
    }

    /// What a listener delivers of what comes out of its socket: the receiver that a datagram tells
    /// of, or the failure that ends the listening. Nothing is delivered after that.
    pub fn recv_discovery(listening: &mut Listening, received: Received) -> (delivered: Option<
        Result<DiscoveryResult, DiscoveryError>,
    >)
        requires
            !old(listening).has_ended() ==> is_whole(received),
        ensures
            old(listening).has_ended() ==> delivered is None && final(listening).has_ended(),
            !old(listening).has_ended() ==> {
                &&& delivered is Some
                &&& answer_of(delivered->Some_0) == answer_in(received)
                &&& final(listening).has_ended() == (answer_in(received) is Err)
                &&& final(listening).has_ended() == (delivered->Some_0 is Err)
                &&& match received {
                    Received::Datagram(datagram, addr) => match parsed_name(datagram@) {
                        Some(name) => delivered->Some_0 is Ok && delivered->Some_0->Ok_0.name@
                            == name && delivered->Some_0->Ok_0.addr == addr,
                        None => delivered->Some_0 == Err::<DiscoveryResult, DiscoveryError>(
                            DiscoveryError::InvalidName,
                        ),
                    },
                    Received::Failed(reason) => delivered->Some_0 == Err::<
                        DiscoveryResult,
                        DiscoveryError,
                    >(DiscoveryError::Socket(reason)),
                }
            },
    {
        if listening.ended {
            return None;
        }
        let answer = match received {
            Received::Datagram(datagram, addr) => match DiscoveryMessage::from_buffer(datagram) {
                Ok(message) => Ok(DiscoveryResult { name: message.name, addr }),
                Err(error) => Err(error),
            },
            Received::Failed(reason) => Err(DiscoveryError::Socket(reason)),
        };
        listening.ended = answer.is_err();
        Some(answer)
    }

    /// How a search for a name goes on after an event.
    pub fn search(name: &String, event: SearchEvent) -> (step: SearchStep)
        ensures
            step == search_step(name@, event),
            match event {
                SearchEvent::Device(Ok(device)) => if device.name@ == name@ {
                    step == SearchStep::Done(Ok(Some(device)))
                } else {
                    step is Wait
                },
                SearchEvent::Device(Err(error)) => step == SearchStep::Done(Err(error)),
                SearchEvent::Closed => step == SearchStep::Done(Err(DiscoveryError::Closed)),
                SearchEvent::TimedOut => step == SearchStep::Done(Ok(None)),
            },
    {
        match event {
            SearchEvent::Device(Ok(device)) => {
                if device.name == *name {
                    SearchStep::Done(Ok(Some(device)))
                } else {
                    SearchStep::Wait
                }
            },
            SearchEvent::Device(Err(error)) => SearchStep::Done(Err(error)),
            SearchEvent::Closed => SearchStep::Done(Err(DiscoveryError::Closed)),
            SearchEvent::TimedOut => SearchStep::Done(Ok(None)),
        }
    }

    /// How a listing goes on after an event. `known` says of a receiver that answered whether it is
    /// remembered: one that is gets no second line. A listing without a socket is a failure; one
    /// that ends later, for whatever reason, is not.
    pub fn print_all(event: ListEvent, known: bool, json: bool) -> (step: ListStep)
        ensures
            match event {
                ListEvent::OpenFailed(reason) => step == ListStep::Finish(
                    Err(DiscoveryError::Socket(reason)),
                ),
                ListEvent::Device(Ok(device)) => match discovered_text(json, known, device) {
                    Some(line) => step is Announce && step->Announce_0 == device
                        && step->Announce_1@ == line,
                    None => step is Wait,
                },
                ListEvent::Device(Err(_)) => step == ListStep::Finish(Ok(())),
                ListEvent::Closed => step == ListStep::Finish(Ok(())),
                ListEvent::RequestFailed(_) => step == ListStep::Finish(Ok(())),
            },
    {
        match event {
            ListEvent::OpenFailed(reason) => ListStep::Finish(Err(DiscoveryError::Socket(reason))),
            ListEvent::Device(Ok(device)) => {
                if known {
                    ListStep::Wait
                } else {
                    let line = event_text(
                        json,
                        "discovered",
                        device.name.as_str(),
                        device.addr.as_str(),
                    );
                    ListStep::Announce(device, line)
                }
            },
            ListEvent::Device(Err(_)) | ListEvent::Closed | ListEvent::RequestFailed(_) => {
                ListStep::Finish(Ok(()))
            },
        }
    }

    /// The line that a listing starts with; lines for machines have none.
    pub fn list_heading(json: bool) -> (heading: Option<String>)
        ensures
            json ==> heading is None,
            !json ==> heading is Some && heading->Some_0@ == "Discovered audio receivers:"@,
    {
        if json {
            None
        } else {
            Some("Discovered audio receivers:".to_owned())
        }
    }

    /// The line for a receiver that has not answered for too long.
    pub fn lost_line(device: &DiscoveryResult, json: bool) -> (line: String)
        ensures
            line@ == lost_text(json, *device),
    {
        event_text(json, "lost", device.name.as_str(), device.addr.as_str())
    }
}

/// All that a listener delivers of what comes out of its socket, one after the other.
pub open spec fn answers(ended: bool, received: Seq<Received>) -> Seq<
    Result<(Seq<char>, Seq<char>), DiscoveryError>,
>
    decreases received.len(),
{
    if ended || received.len() == 0 {
        seq![]
    } else {
        let answer = answer_in(received[0]);
        seq![answer] + answers(answer is Err, received.drop_first())
    }
}

/// Answers are delivered in the order in which they arrive, none left out or repeated, up to the
/// first failure: that is delivered once, and nothing after it, whatever arrives.
pub proof fn law_answers_end_with_the_first_failure(received: Seq<Received>, k: int)
    requires
        0 <= k < received.len(),
        forall|i: int| 0 <= i < k ==> answer_in(#[trigger] received[i]) is Ok,
        answer_in(received[k]) is Err,
    ensures
        answers(false, received).len() == k + 1,
        forall|i: int|
            0 <= i <= k ==> #[trigger] answers(false, received)[i] == answer_in(received[i]),
    decreases k,
{
    let rest = received.drop_first();
    if k > 0 {
        assert(answer_in(received[0]) is Ok);
        assert forall|i: int| 0 <= i < k - 1 implies answer_in(#[trigger] rest[i]) is Ok by {
            assert(rest[i] == received[i + 1]);
        }
        assert(rest[k - 1] == received[k]);
        law_answers_end_with_the_first_failure(rest, k - 1);
        assert forall|i: int| 0 <= i <= k implies #[trigger] answers(false, received)[i]
            == answer_in(received[i]) by {
            if i > 0 {
                assert(answers(false, received)[i] == answers(false, rest)[i - 1]);
                assert(rest[i - 1] == received[i]);
            }
        }
    } else {
        assert(answers(true, rest) =~= seq![]);
    }
}

/// While nothing fails every answer is delivered, in the order in which they arrive.
pub proof fn law_answers_keep_order(received: Seq<Received>)
    requires
        forall|i: int| 0 <= i < received.len() ==> answer_in(#[trigger] received[i]) is Ok,
    ensures
        answers(false, received).len() == received.len(),
        forall|i: int|
            0 <= i < received.len() ==> #[trigger] answers(false, received)[i] == answer_in(
                received[i],
            ),
    decreases received.len(),
{
    if received.len() > 0 {
        let rest = received.drop_first();
        assert(answer_in(received[0]) is Ok);
        assert forall|i: int| 0 <= i < rest.len() implies answer_in(#[trigger] rest[i]) is Ok by {
            assert(rest[i] == received[i + 1]);
        }
        law_answers_keep_order(rest);
        assert forall|i: int| 0 <= i < received.len() implies #[trigger] answers(false, received)[i]
            == answer_in(received[i]) by {
            if i > 0 {
                assert(answers(false, received)[i] == answers(false, rest)[i - 1]);
                assert(rest[i - 1] == received[i]);
            }
        }
    }
}

/// What happens to the receivers of a listing, and when, in milliseconds.
pub enum Sighting {
    /// A receiver answered.
    Heard(DiscoveryResult, u64),
    /// A receiver that was remembered has not answered for too long, and is forgotten.
    Lost(DiscoveryResult, u64),
}

impl Sighting {
    /// The receiver.
    pub open spec fn device(self) -> DiscoveryResult {
        match self {
            Sighting::Heard(device, _) => device,
            Sighting::Lost(device, _) => device,
        }
    }

    /// The name of the receiver.
    pub open spec fn name(self) -> Seq<char> {
        self.device().name@
    }

    /// When it happens.
    pub open spec fn time(self) -> u64 {
        match self {
            Sighting::Heard(_, time) => time,
            Sighting::Lost(_, time) => time,
        }
    }

    /// Whether this is an answer of a receiver of the given name.
    pub open spec fn hears(self, name: Seq<char>) -> bool {
        self is Heard && self.name() == name
    }
}

/// The receivers that a listing remembers, by their names: those that it announced and has not lost
/// since. Beside each stands the time at which it was last asked for, that is, when it was announced
/// or when a receiver of its name answered after that.
pub open spec fn remembered(sightings: Seq<Sighting>) -> Map<Seq<char>, (DiscoveryResult, u64)>
    decreases sightings.len(),
{
    if sightings.len() == 0 {
        Map::empty()
    } else {
        let before = remembered(sightings.drop_last());
        match sightings.last() {
            Sighting::Heard(device, time) => if before.contains_key(device.name@) {
                before.insert(device.name@, (before[device.name@].0, time))
            } else {
                before.insert(device.name@, (device, time))
            },
            Sighting::Lost(device, _) => before.remove(device.name@),
        }
    }
}

/// Whether the receiver of a sighting is remembered when it happens.
pub open spec fn is_known(sightings: Seq<Sighting>, i: int) -> bool {
    remembered(sightings.take(i)).contains_key(sightings[i].name())
}

/// What is remembered under the name of a sighting when it happens.
pub open spec fn known_as(sightings: Seq<Sighting>, i: int) -> (DiscoveryResult, u64) {
    remembered(sightings.take(i))[sightings[i].name()]
}

/// Whether only receivers that are remembered are lost, as they are remembered.
pub open spec fn loses_what_it_remembers(sightings: Seq<Sighting>) -> bool {
    forall|i: int|
        0 <= i < sightings.len() && (#[trigger] sightings[i]) is Lost ==> is_known(sightings, i)
            && known_as(sightings, i).0 == sightings[i].device()
}

/// Whether time does not run backwards.
pub open spec fn in_time(sightings: Seq<Sighting>) -> bool {
    forall|i: int, j: int|
        0 <= i <= j < sightings.len() ==> (#[trigger] sightings[i]).time() <= (
        #[trigger] sightings[j]).time()
}

/// Whether a receiver is forgotten exactly when nothing has asked for it for `timeout` milliseconds:
/// one that is lost was not asked for that long, and one that is found was.
pub open spec fn forgets_when_idle(sightings: Seq<Sighting>, timeout: u64) -> bool {
    &&& loses_what_it_remembers(sightings)
    &&& in_time(sightings)
    &&& forall|i: int|
        0 <= i < sightings.len() && (#[trigger] sightings[i]) is Lost ==> known_as(sightings, i).1
            + timeout <= sightings[i].time()
    &&& forall|i: int|
        0 <= i < sightings.len() && (#[trigger] sightings[i]) is Heard && is_known(sightings, i)
            ==> sightings[i].time() < known_as(sightings, i).1 + timeout
}

/// The line that a sighting prints, if it prints one.
pub open spec fn printed(json: bool, sightings: Seq<Sighting>, i: int) -> Option<Seq<char>> {
    match sightings[i] {
        Sighting::Heard(device, _) => discovered_text(json, is_known(sightings, i), device),
        Sighting::Lost(device, _) => Some(lost_text(json, device)),
    }
}

/// A receiver that is remembered after `n` sightings was announced at one of them, and nothing was
/// printed of its name since.
proof fn lemma_remembered_was_announced(sightings: Seq<Sighting>, name: Seq<char>, n: int) -> (i: int)
    requires
        0 <= n <= sightings.len(),
        remembered(sightings.take(n)).contains_key(name),
    ensures
        0 <= i < n,
        sightings[i].hears(name),
        sightings[i].device() == remembered(sightings.take(n))[name].0,
        !is_known(sightings, i),
        forall|k: int|
            i < k < n && (#[trigger] sightings[k]).name() == name ==> sightings[k] is Heard
                && is_known(sightings, k),
    decreases n,
{
    let taken = sightings.take(n);
    assert(n > 0);
    assert(taken.drop_last() =~= sightings.take(n - 1));
    assert(taken.last() == sightings[n - 1]);
    let before = remembered(sightings.take(n - 1));
    if before.contains_key(name) {
        let i = lemma_remembered_was_announced(sightings, name, n - 1);
        assert(remembered(taken)[name].0 == before[name].0);
        i
    } else {
        n - 1
    }
}

/// A receiver that is remembered after `n` sightings was last asked for by the last answer of its
/// name among them.
proof fn lemma_last_asked(sightings: Seq<Sighting>, name: Seq<char>, n: int) -> (i: int)
    requires
        0 <= n <= sightings.len(),
        remembered(sightings.take(n)).contains_key(name),
    ensures
        0 <= i < n,
        sightings[i].hears(name),
        sightings[i].time() == remembered(sightings.take(n))[name].1,
        forall|k: int| i < k < n ==> !(#[trigger] sightings[k]).hears(name),
    decreases n,
{
    let taken = sightings.take(n);
    assert(n > 0);
    assert(taken.drop_last() =~= sightings.take(n - 1));
    assert(taken.last() == sightings[n - 1]);
    if sightings[n - 1].hears(name) {
        n - 1
    } else {
        let before = remembered(sightings.take(n - 1));
        assert(remembered(taken)[name] == before[name]);
        lemma_last_asked(sightings, name, n - 1)
    }
}

/// A line that says that a receiver is lost follows a line that says that it was discovered, with
/// the same address, and between the two no line tells of its name.
pub proof fn law_lost_was_discovered(json: bool, sightings: Seq<Sighting>, j: int) -> (i: int)
    requires
        loses_what_it_remembers(sightings),
        0 <= j < sightings.len(),
        sightings[j] is Lost,
    ensures
        ({
            let device = sightings[j].device();
            &&& 0 <= i < j
            &&& sightings[i] is Heard
            &&& sightings[i].device() == device
            &&& printed(json, sightings, i) == Some(
                event_line(json, "discovered"@, device.name@, device.addr@),
            )
            &&& printed(json, sightings, j) == Some(
                event_line(json, "lost"@, device.name@, device.addr@),
            )
            &&& forall|k: int|
                i < k < j && (#[trigger] sightings[k]).name() == device.name@ ==> printed(
                    json,
                    sightings,
                    k,
                ) is None
        }),
{
    assert(is_known(sightings, j));
    lemma_remembered_was_announced(sightings, sightings[j].name(), j)
}

/// A line that says that a receiver is lost comes only when no receiver of its name has answered
/// for `timeout` milliseconds.
pub proof fn law_lost_was_silent(sightings: Seq<Sighting>, timeout: u64, j: int)
    requires
        forgets_when_idle(sightings, timeout),
        0 <= j < sightings.len(),
        sightings[j] is Lost,
    ensures
        forall|k: int|
            0 <= k < j && (#[trigger] sightings[k]).hears(sightings[j].name()) ==> sightings[k].time()
                + timeout <= sightings[j].time(),
{
    let name = sightings[j].name();
    assert(is_known(sightings, j));
    let last = lemma_last_asked(sightings, name, j);
    assert forall|k: int| 0 <= k < j && (#[trigger] sightings[k]).hears(name) implies sightings[k].time()
        + timeout <= sightings[j].time() by {
        assert(k <= last);
    }
}

/// A receiver that answers is announced, with its name and its address, if and only if no receiver
/// of its name answered less than `timeout` milliseconds before.
pub proof fn law_announced_unless_heard_lately(
    json: bool,
    sightings: Seq<Sighting>,
    timeout: u64,
    j: int,
)
    requires
        forgets_when_idle(sightings, timeout),
        0 <= j < sightings.len(),
        sightings[j] is Heard,
    ensures
        ({
            let device = sightings[j].device();
            let lately = exists|k: int|
                0 <= k < j && (#[trigger] sightings[k]).hears(device.name@) && sightings[j].time()
                    - sightings[k].time() < timeout;
            printed(json, sightings, j) == if lately {
                None
            } else {
                Some(event_line(json, "discovered"@, device.name@, device.addr@))
            }
        }),
{
    let name = sightings[j].name();
    if is_known(sightings, j) {
        let last = lemma_last_asked(sightings, name, j);
        assert(sightings[last].hears(name));
    } else {
        assert forall|k: int| 0 <= k < j && (#[trigger] sightings[k]).hears(name) implies sightings[j].time()
            - sightings[k].time() >= timeout by {
            assert(sightings.take(k + 1).drop_last() =~= sightings.take(k));
            assert(sightings.take(k + 1).last() == sightings[k]);
            if forall|m: int|
                k + 1 <= m < j && (#[trigger] sightings[m]) is Lost ==> sightings[m].name() != name {
                lemma_stays_remembered(sightings, name, k + 1, j);
            }
            let lost = choose|m: int|
                k + 1 <= m < j && (#[trigger] sightings[m]) is Lost && sightings[m].name() == name;
            law_lost_was_silent(sightings, timeout, lost);
            assert(sightings[k].time() + timeout <= sightings[lost].time());
        }
    }
}

proof fn lemma_stays_remembered(sightings: Seq<Sighting>, name: Seq<char>, from: int, to: int)
    requires
        0 <= from <= to <= sightings.len(),
        remembered(sightings.take(from)).contains_key(name),
        forall|k: int|
            from <= k < to && (#[trigger] sightings[k]) is Lost ==> sightings[k].name()
                != name,
    ensures
        remembered(sightings.take(to)).contains_key(name),
    decreases to - from,
{
    if from < to {
        lemma_stays_remembered(sightings, name, from, to - 1);
        assert(sightings.take(to).drop_last() =~= sightings.take(to - 1));
        assert(sightings.take(to).last() == sightings[to - 1]);
    }
}

/// Between two lines that say that a receiver of one name was discovered, it was lost.
pub proof fn law_discovered_once_until_lost(sightings: Seq<Sighting>, i: int, j: int)
    requires
        0 <= i < j < sightings.len(),
        sightings[i] is Heard,
        sightings[j] is Heard,
        sightings[i].name() == sightings[j].name(),
        !is_known(sightings, i),
        !is_known(sightings, j),
    ensures
        exists|k: int|
            i < k < j && (#[trigger] sightings[k]) is Lost && sightings[k].name()
                == sightings[i].name(),
{
    let name = sightings[i].name();
    assert(sightings.take(i + 1).drop_last() =~= sightings.take(i));
    assert(sightings.take(i + 1).last() == sightings[i]);
    if forall|k: int|
        i < k < j && (#[trigger] sightings[k]) is Lost ==> sightings[k].name() != name {
        lemma_stays_remembered(sightings, name, i + 1, j);
    }
}

/// What a search makes of a sequence of events: the step that ends it, or that it still waits.
pub open spec fn search_run(name: Seq<char>, events: Seq<SearchEvent>) -> SearchStep
    decreases events.len(),
{
    if events.len() == 0 {
        SearchStep::Wait
    } else {
        match search_step(name, events[0]) {
            SearchStep::Wait => search_run(name, events.drop_first()),
            done => done,
        }
    }
}

/// Whether an event tells of a receiver of another name.
pub open spec fn passed_over(name: Seq<char>, event: SearchEvent) -> bool {
    event matches SearchEvent::Device(Ok(device)) && device.name@ != name
}

/// A name comes back as it was sent, whatever follows the answer in the datagram, if it has at most
/// 255 bytes.
pub proof fn law_name_round_trip(name: Seq<char>, rest: Seq<u8>)
    requires
        vstd::utf8::encode_utf8(name).len() <= 255,
    ensures
        is_complete(name_bytes(name) + rest),
        parsed_name(name_bytes(name) + rest) == Some(name),
{
    let bytes = vstd::utf8::encode_utf8(name);
    vstd::utf8::encode_utf8_valid_utf8(name);
    vstd::utf8::encode_utf8_decode_utf8(name);
    assert(name_part(name_bytes(name) + rest) =~= bytes);
}

/// Every answer that a receiver sends is complete, however long its name.
pub proof fn law_answer_is_complete(name: Seq<char>)
    ensures
        is_complete(name_bytes(name)),
{
}

/// A search returns the first receiver of the name that it looks for, if the events before it all
/// tell of receivers of other names.
pub proof fn law_search_finds_first(
    name: Seq<char>,
    events: Seq<SearchEvent>,
    k: int,
    device: DiscoveryResult,
)
    requires
        0 <= k < events.len(),
        forall|j: int| 0 <= j < k ==> passed_over(name, #[trigger] events[j]),
        events[k] == SearchEvent::Device(Ok(device)),
        device.name@ == name,
    ensures
        search_run(name, events) == SearchStep::Done(Ok(Some(device))),
    decreases k,
{
    if k > 0 {
        assert(passed_over(name, events[0]));
        let rest = events.drop_first();
        assert forall|j: int| 0 <= j < k - 1 implies passed_over(name, #[trigger] rest[j]) by {
            assert(passed_over(name, events[j + 1]));
        }
        law_search_finds_first(name, rest, k - 1, device);
    }
}

/// A search that returns a receiver returns one that answered, under the name that was looked for.
pub proof fn law_search_is_sound(
    name: Seq<char>,
    events: Seq<SearchEvent>,
    device: DiscoveryResult,
)
    requires
        search_run(name, events) == SearchStep::Done(Ok(Some(device))),
    ensures
        device.name@ == name,
        events.contains(SearchEvent::Device(Ok(device))),
    decreases events.len(),
{
    if events.len() > 0 {
        if search_step(name, events[0]) is Wait {
            law_search_is_sound(name, events.drop_first(), device);
            let k = choose|k: int|
                0 <= k < events.drop_first().len() && events.drop_first()[k]
                    == SearchEvent::Device(Ok(device));
            assert(events[k + 1] == SearchEvent::Device(Ok(device)));
        } else {
            assert(events[0] == SearchEvent::Device(Ok(device)));
        }
    }
}

/// A search that returns nothing ran out of time, and every receiver that answered before that had
/// another name.
pub proof fn law_search_gives_up_on_timeout(name: Seq<char>, events: Seq<SearchEvent>) -> (k: int)
    requires
        search_run(name, events) == SearchStep::Done(
            Ok::<Option<DiscoveryResult>, DiscoveryError>(None),
        ),
    ensures
        0 <= k < events.len(),
        events[k] is TimedOut,
        forall|j: int| 0 <= j < k ==> passed_over(name, #[trigger] events[j]),
    decreases events.len(),
{
    if search_step(name, events[0]) is Wait {
        let rest = events.drop_first();
        let k = law_search_gives_up_on_timeout(name, rest);
        assert forall|j: int| 0 <= j < k + 1 implies passed_over(name, #[trigger] events[j]) by {
            if j > 0 {
                assert(passed_over(name, rest[j - 1]));
            }
        }
        k + 1
    } else {
        0
    }
}

/// A line for machines is one line, whatever name and address a receiver has.
pub proof fn law_json_event_is_one_line(event: Seq<char>, name: Seq<char>, addr: Seq<char>)
    ensures
        !event_line(true, event, name, addr).contains('\n'),
        crate::text::trimmed(event_line(true, event, name, addr).push('\n')) == event_line(
            true,
            event,
            name,
            addr,
        ),
{
    crate::json::law_object_is_one_line(
        seq![("addr"@, addr), ("event"@, event), ("name"@, name)],
    );
}

/// The members of a line for machines, one after the other.
proof fn lemma_json_event_parts(event: Seq<char>, name: Seq<char>, addr: Seq<char>)
    ensures
        event_line(true, event, name, addr) == seq!['{'] + crate::json::json_string("addr"@) + seq![
            ':',
        ] + (crate::json::json_string(addr) + (seq![','] + crate::json::json_string("event"@)
            + seq![':'] + (crate::json::json_string(event) + (seq![',']
            + crate::json::json_string("name"@) + seq![':'] + (crate::json::json_string(name)
            + seq!['}']))))),
{
    let m0 = ("addr"@, addr);
    let m1 = ("event"@, event);
    let m2 = ("name"@, name);
    let members = seq![m0, m1, m2];
    assert(members.drop_last() =~= seq![m0, m1]);
    assert(seq![m0, m1].drop_last() =~= seq![m0]);
    assert(crate::json::json_members(seq![m0]) == crate::json::json_member(m0));
    assert(crate::json::json_members(seq![m0, m1]) == crate::json::json_member(m0) + seq![',']
        + crate::json::json_member(m1));
    assert(crate::json::json_members(members) == crate::json::json_member(m0) + seq![',']
        + crate::json::json_member(m1) + seq![','] + crate::json::json_member(m2));
    assert(event_line(true, event, name, addr) =~= seq!['{'] + crate::json::json_string("addr"@)
        + seq![':'] + (crate::json::json_string(addr) + (seq![','] + crate::json::json_string(
        "event"@,
    ) + seq![':'] + (crate::json::json_string(event) + (seq![','] + crate::json::json_string(
        "name"@,
    ) + seq![':'] + (crate::json::json_string(name) + seq!['}']))))));
}

proof fn lemma_same_prefix(prefix: Seq<char>, x: Seq<char>, y: Seq<char>)
    requires
        prefix + x == prefix + y,
    ensures
        x == y,
{
    assert(x =~= (prefix + x).skip(prefix.len() as int));
    assert(y =~= (prefix + y).skip(prefix.len() as int));
}

/// A line for machines tells what happened to which receiver: no other event, name or address has
/// the same line.
pub proof fn law_json_event_is_unambiguous(
    event1: Seq<char>,
    name1: Seq<char>,
    addr1: Seq<char>,
    event2: Seq<char>,
    name2: Seq<char>,
    addr2: Seq<char>,
)
    requires
        event_line(true, event1, name1, addr1) == event_line(true, event2, name2, addr2),
    ensures
        event1 == event2,
        name1 == name2,
        addr1 == addr2,
{
    lemma_json_event_parts(event1, name1, addr1);
    lemma_json_event_parts(event2, name2, addr2);
    let head = seq!['{'] + crate::json::json_string("addr"@) + seq![':'];
    let middle = seq![','] + crate::json::json_string("event"@) + seq![':'];
    let last = seq![','] + crate::json::json_string("name"@) + seq![':'];
    let n1 = crate::json::json_string(name1) + seq!['}'];
    let n2 = crate::json::json_string(name2) + seq!['}'];
    let e1 = crate::json::json_string(event1) + (last + n1);
    let e2 = crate::json::json_string(event2) + (last + n2);
    let a1 = crate::json::json_string(addr1) + (middle + e1);
    let a2 = crate::json::json_string(addr2) + (middle + e2);
    lemma_same_prefix(head, a1, a2);
    crate::json::law_json_string_is_unambiguous(addr1, addr2, middle + e1, middle + e2);
    lemma_same_prefix(middle, e1, e2);
    crate::json::law_json_string_is_unambiguous(event1, event2, last + n1, last + n2);
    lemma_same_prefix(last, n1, n2);
    crate::json::law_json_string_is_unambiguous(name1, name2, seq!['}'], seq!['}']);
}

/// No answer is taken for a request: receivers never answer each other.
pub proof fn law_answer_is_no_request(name: Seq<char>)
    ensures
        name_bytes(name) != request_bytes(),
{
    reveal_strlit("audio-stream discovery");
    vstd::utf8::is_ascii_chars_encode_utf8(REQUEST@);
    assert(request_bytes().len() == 22);
    assert(REQUEST@[0] as u8 == request_bytes()[0]);
    assert(request_bytes()[0] == 97);
}

/// An answer is the name's number of bytes, modulo 256, and then its UTF-8 bytes; a request is the
/// UTF-8 form of its words.
pub proof fn law_answer_layout(name: Seq<char>)
    ensures
        ({
            let bytes = vstd::utf8::encode_utf8(name);
            &&& name_bytes(name).len() == 1 + bytes.len()
            &&& name_bytes(name)[0] == bytes.len() % 256
            &&& name_bytes(name).skip(1) == bytes
        }),
        request_bytes() == vstd::utf8::encode_utf8("audio-stream discovery"@),
{
    assert(name_bytes(name).skip(1) =~= vstd::utf8::encode_utf8(name));
}

/// Of a datagram its first byte says how many of those behind it are the name, and what follows does
/// not matter. A name is read if and only if its bytes are valid UTF-8.
pub proof fn law_name_is_behind_its_length(bytes: Seq<u8>, rest: Seq<u8>, cut: Seq<u8>)
    requires
        bytes.len() <= 255,
        cut.len() < bytes.len(),
    ensures
        ({
            let datagram = seq![bytes.len() as u8] + bytes + rest;
            &&& is_complete(datagram)
            &&& parsed_name(datagram) is Some <==> vstd::utf8::valid_utf8(bytes)
            &&& parsed_name(datagram) is Some ==> parsed_name(datagram)->Some_0
                == vstd::utf8::decode_utf8(bytes)
        }),
        !is_complete(Seq::<u8>::empty()),
        !is_complete(seq![bytes.len() as u8] + cut),
{
    let datagram = seq![bytes.len() as u8] + bytes + rest;
    assert(name_part(datagram) =~= bytes);
}

/// Every receiver is heard: the answer that a receiver of a name of at most 255 bytes sends, from
/// whatever address and with whatever bytes behind it, is delivered with exactly that name and that
/// address, and listening goes on to what comes next.
pub proof fn law_answer_is_delivered(
    name: Seq<char>,
    rest: Seq<u8>,
    received: Received,
    later: Seq<Received>,
)
    requires
        vstd::utf8::encode_utf8(name).len() <= 255,
        received is Datagram,
        received->Datagram_0@ == seq![vstd::utf8::encode_utf8(name).len() as u8]
            + vstd::utf8::encode_utf8(name) + rest,
    ensures
        is_whole(received),
        answer_in(received) == Ok::<(Seq<char>, Seq<char>), DiscoveryError>(
            (name, received->Datagram_1@),
        ),
        answers(false, seq![received] + later) == seq![
            Ok::<(Seq<char>, Seq<char>), DiscoveryError>((name, received->Datagram_1@)),
        ] + answers(false, later),
{
    let datagram = received->Datagram_0@;
    assert(datagram =~= name_bytes(name) + rest);
    law_name_round_trip(name, rest);
    assert((seq![received] + later).drop_first() =~= later);
}

/// Only a name that is not valid UTF-8 and a failed socket end the listening.
pub proof fn law_only_failures_end_listening(received: Received)
    ensures
        match received {
            Received::Datagram(datagram, addr) => {
                &&& is_whole(received) <==> datagram@.len() > 0 && datagram@[0] < datagram@.len()
                &&& answer_in(received) is Err <==> !vstd::utf8::valid_utf8(
                    datagram@.subrange(1, datagram@[0] + 1),
                )
                &&& answer_in(received) is Err ==> answer_in(received) == Err::<
                    (Seq<char>, Seq<char>),
                    DiscoveryError,
                >(DiscoveryError::InvalidName)
                &&& answer_in(received) is Ok ==> answer_in(received)->Ok_0 == (
                    vstd::utf8::decode_utf8(datagram@.subrange(1, datagram@[0] + 1)),
                    addr@,
                )
            },
            Received::Failed(reason) => is_whole(received) && answer_in(received) == Err::<
                (Seq<char>, Seq<char>),
                DiscoveryError,
            >(DiscoveryError::Socket(reason)),
        },
{
}

/// What is delivered tells the name and the address of the receiver, or the failure, as they are.
pub proof fn law_delivered_as_it_is(delivered: Result<DiscoveryResult, DiscoveryError>)
    ensures
        match delivered {
            Ok(device) => answer_of(delivered) == Ok::<(Seq<char>, Seq<char>), DiscoveryError>(
                (device.name@, device.addr@),
            ),
            Err(error) => answer_of(delivered) == Err::<(Seq<char>, Seq<char>), DiscoveryError>(
                error,
            ),
        },
{
}

/// The words of a line: what happened stands behind the name in quotes and the address, or under
/// names of their own in a JSON object.
pub proof fn law_event_line_words(event: Seq<char>, name: Seq<char>, addr: Seq<char>)
    ensures
        event_line(false, event, name, addr) == "  \""@ + name + "\" at "@ + addr + " "@ + event,
        event_line(true, event, name, addr) == seq!['{'] + crate::json::json_string("addr"@) + seq![
            ':',
        ] + (crate::json::json_string(addr) + (seq![','] + crate::json::json_string("event"@)
            + seq![':'] + (crate::json::json_string(event) + (seq![',']
            + crate::json::json_string("name"@) + seq![':'] + (crate::json::json_string(name)
            + seq!['}']))))),
{
    lemma_json_event_parts(event, name, addr);
}

/// A receiver that answers gets a line if and only if it is not known, and one that is lost always:
/// the line says which of the two happened to the receiver of that name at that address.
pub proof fn law_listing_lines(json: bool, device: DiscoveryResult)
    ensures
        discovered_text(json, true, device) is None,
        discovered_text(json, false, device) == Some(
            event_line(json, "discovered"@, device.name@, device.addr@),
        ),
        lost_text(json, device) == event_line(json, "lost"@, device.name@, device.addr@),
        lost_text(json, device) != event_line(json, "discovered"@, device.name@, device.addr@),
{
    reveal_strlit("lost");
    reveal_strlit("discovered");
    if lost_text(json, device) == event_line(json, "discovered"@, device.name@, device.addr@) {
        if json {
            law_json_event_is_unambiguous(
                "lost"@,
                device.name@,
                device.addr@,
                "discovered"@,
                device.name@,
                device.addr@,
            );
        } else {
            let front = "  \""@ + device.name@ + "\" at "@ + device.addr@ + " "@;
            assert((front + "lost"@).len() == front.len() + 4);
            assert((front + "discovered"@).len() == front.len() + 10);
        }
        assert("lost"@.len() == "discovered"@.len());
    }
}

} // verus!
