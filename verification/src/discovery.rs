//! The discovery engine: the question and the answer it sends, and what it
//! does with each datagram it receives.

use crate::dns::{datagram_of, lemma_same_name_reflexive, message_of, same_name};
use crate::dns::{DomainName, MdnsMessage, MessageKind, MessageView, RecordView, TxtRecord};
pub use crate::peer::DiscoveryPeer;
use crate::peer::{decoded, lemma_own_fields_keep_token, txt_fields, PeerView};
use crate::rendezvous::{rendezvous_name, rendezvous_of};
use vstd::prelude::*;

verus! {

/// Milliseconds between two broadcasts of the question.
pub const QUESTION_INTERVAL_MS: u64 = 60000;

/// The UDP port of multicast DNS.
pub const MDNS_PORT: u16 = 5353;

/// The IPv4 group address of multicast DNS, 224.0.0.251.
pub const MDNS_ADDRESS: [u8; 4] = [224, 0, 0, 251];

/// Where a datagram comes from or goes to: an IPv4 address and a UDP port.
#[derive(Clone, Copy, Debug, PartialEq, Eq)]
pub struct Endpoint {
    pub addr: [u8; 4],
    pub port: u16,
}

/// The multicast group that questions are sent to.
pub fn multicast_group() -> (group: Endpoint)
    ensures
        group == (Endpoint { addr: MDNS_ADDRESS, port: MDNS_PORT }),
{
    Endpoint { addr: MDNS_ADDRESS, port: MDNS_PORT }
}

/// Why an engine cannot be set up.
#[derive(Clone, Copy, Debug, PartialEq, Eq, Structural)]
pub enum DiscoveryError {
    /// The discovery key has fewer than twenty bytes.
    KeyTooShort,
    /// The token is empty.
    EmptyToken,
    /// The text of a name is refused as a domain name, or it is read as
    /// another name than the one it must spell.
    InvalidName,
    /// The question or the answer cannot be written as a datagram that
    /// reads back as the same message.
    Unencodable,
}

/// The question: one query for TXT records under `name`.
pub open spec fn question_view(name: Seq<Seq<u8>>) -> MessageView {
    MessageView { kind: MessageKind::Query, questions: seq![name], answers: Seq::empty() }
}

/// The answer: a response with the question's query section and one TXT
/// record under `name` that carries the peer's two fields.
pub open spec fn answer_view(name: Seq<Seq<u8>>, peer: PeerView) -> MessageView {
    MessageView {
        kind: MessageKind::Response,
        questions: seq![name],
        answers: seq![RecordView { name, ttl: 0, texts: txt_fields(peer) }],
    }
}

/// Whether one of the message's questions is about `name`.
pub open spec fn asks_about(message: MessageView, name: Seq<Seq<u8>>) -> bool {
    exists|i: int| 0 <= i < message.questions.len() && same_name(#[trigger] message.questions[i], name)
}

/// The peer of the first answer whose strings describe one.
pub open spec fn first_peer(answers: Seq<RecordView>) -> Option<PeerView>
    decreases answers.len(),
{
    if answers.len() == 0 {
        None
    } else {
        match decoded(answers[0].texts) {
            Ok(peer) => Some(peer),
            Err(_) => first_peer(answers.drop_first()),
        }
    }
}

/// What a rendezvous is made of: its name and the peer that this process
/// announces under it.
#[derive(Clone, Debug, PartialEq, Eq)]
pub struct DiscoveryChannel {
    pub name: DomainName,
    pub peer: DiscoveryPeer,
}

impl DiscoveryChannel {
    /// The message that asks who else is at the rendezvous.
    pub fn create_mdns_question(&self) -> (message: MdnsMessage)
        ensures
            message@ == question_view(self.name@),
    {
        let mut questions: Vec<DomainName> = Vec::new();
        questions.push(self.name.clone());
        let message = MdnsMessage { kind: MessageKind::Query, questions, answers: Vec::new() };
        assert(message@.questions =~= seq![self.name@]);
        assert(message@.answers =~= Seq::<RecordView>::empty());
        message
    }

    /// The message that tells a questioner about this process's peer. The
    /// peer that it announces is that peer.
    pub fn create_mdns_answer(&self) -> (message: MdnsMessage)
        ensures
            message@ == answer_view(self.name@, self.peer@),
            first_peer(message@.answers) == Some(self.peer@),
    {
        let mut message = self.create_mdns_question();
        message.kind = MessageKind::Response;
        let record = TxtRecord { name: self.name.clone(), ttl: 0, texts: self.peer.to_txt_fields() };
        message.answers.push(record);
        assert(message@.answers =~= seq![
            RecordView { name: self.name@, ttl: 0, texts: txt_fields(self.peer@) },
        ]);
        assert(first_peer(message@.answers) == Some(self.peer@)) by {
            reveal_with_fuel(first_peer, 2);
        }
        message
    }
}

impl DiscoveryPeer {
    /// The peer that a message announces: that of its first answer whose
    /// strings describe one.
    pub fn from_message(message: &MdnsMessage) -> (peer: Option<DiscoveryPeer>)
        ensures
            match peer {
                Some(p) => p.wf() && first_peer(message@.answers) == Some(p@),
                None => first_peer(message@.answers) is None,
            },
    {
        let ghost answers = message@.answers;
        let mut i: usize = 0;
        assert(answers.skip(0) =~= answers);
        while i < message.answers.len()
            invariant
                i <= message.answers.len(),
                answers == message@.answers,
                first_peer(answers) == first_peer(answers.skip(i as int)),
            decreases message.answers.len() - i,
        {
            proof {
                assert(answers.skip(i as int).drop_first() =~= answers.skip(i + 1));
            }
            match DiscoveryPeer::from_txt_fields(&message.answers[i].texts) {
                Ok(peer) => {
                    return Some(peer);
                },
                Err(_) => {},
            }
            i += 1;
        }
        None
    }
}

/// What happens to the engine.
#[derive(Clone, Debug, PartialEq, Eq)]
pub enum Event {
    /// The broadcast timer fired.
    Tick,
    /// A datagram came in from the given sender.
    Datagram(Endpoint, Vec<u8>),
}

/// An event as mathematics sees it.
pub enum EventView {
    Tick,
    Datagram(Endpoint, Seq<u8>),
}

impl View for Event {
    type V = EventView;

    open spec fn view(&self) -> EventView {
        match self {
            Event::Tick => EventView::Tick,
            Event::Datagram(source, bytes) => EventView::Datagram(*source, bytes@),
        }
    }
}

/// What the engine wants done after an event.
#[derive(Clone, Debug, PartialEq, Eq)]
pub enum Action {
    /// Nothing: the event was of no concern.
    Ignore,
    /// Send the question to the multicast group.
    Broadcast(Vec<u8>),
    /// Send the answer to the given endpoint.
    Answer(Endpoint, Vec<u8>),
    /// Hand this peer to the consumer.
    Found(DiscoveryPeer),
}

/// An action as mathematics sees it.
pub enum ActionView {
    Ignore,
    Broadcast(Seq<u8>),
    Answer(Endpoint, Seq<u8>),
    Found(PeerView),
}

impl View for Action {
    type V = ActionView;

    open spec fn view(&self) -> ActionView {
        match self {
            Action::Ignore => ActionView::Ignore,
            Action::Broadcast(bytes) => ActionView::Broadcast(bytes@),
            Action::Answer(to, bytes) => ActionView::Answer(*to, bytes@),
            Action::Found(peer) => ActionView::Found(peer@),
        }
    }
}

/// What an engine at rendezvous `name`, with token `token` and answer
/// datagram `answer`, does with a message that came from `source`.
///
/// A message that does not ask about the rendezvous is ignored. A query is
/// answered, and the answer goes to where the query came from. A response
/// yields the peer it announces, unless that peer has the engine's own
/// token.
pub open spec fn reaction(
    name: Seq<Seq<u8>>,
    token: Seq<char>,
    answer: Seq<u8>,
    source: Endpoint,
    message: MessageView,
) -> ActionView {
    if !asks_about(message, name) {
        ActionView::Ignore
    } else {
        match message.kind {
            MessageKind::Query => ActionView::Answer(source, answer),
            MessageKind::Response => match first_peer(message.answers) {
                Some(peer) => if peer.token == token {
                    ActionView::Ignore
                } else {
                    ActionView::Found(peer)
                },
                None => ActionView::Ignore,
            },
        }
    }
}

/// Self-suppression: the answer that an engine builds for its own peer,
/// classified by that engine, yields no peer and no reply, wherever it comes
/// from.
pub proof fn lemma_own_answer_is_suppressed(
    name: Seq<Seq<u8>>,
    peer: PeerView,
    answer: Seq<u8>,
    source: Endpoint,
)
    ensures
        reaction(name, peer.token, answer, source, answer_view(name, peer)) == ActionView::Ignore,
{
    lemma_same_name_reflexive(name);
    lemma_own_fields_keep_token(peer);
    reveal_with_fuel(first_peer, 2);
}

/// Name filtering: a message none of whose questions is about the
/// rendezvous is ignored, whatever it is and whatever it announces.
pub proof fn lemma_other_name_is_ignored(
    name: Seq<Seq<u8>>,
    token: Seq<char>,
    answer: Seq<u8>,
    source: Endpoint,
    message: MessageView,
)
    requires
        forall|i: int| 0 <= i < message.questions.len() ==> !same_name(#[trigger] message.questions[i], name),
    ensures
        reaction(name, token, answer, source, message) == ActionView::Ignore,
{
}

/// Query auto-answer: a query about the rendezvous gets the answer, sent to
/// where the query came from, and yields no peer.
pub proof fn lemma_query_is_answered(
    name: Seq<Seq<u8>>,
    token: Seq<char>,
    answer: Seq<u8>,
    source: Endpoint,
    message: MessageView,
    i: int,
)
    requires
        message.kind == MessageKind::Query,
        0 <= i < message.questions.len(),
        same_name(message.questions[i], name),
    ensures
        reaction(name, token, answer, source, message) == ActionView::Answer(source, answer),
{
}

/// An engine never yields a peer with its own token, and every peer it
/// yields is announced by a response about the rendezvous.
pub proof fn lemma_found_is_foreign(
    name: Seq<Seq<u8>>,
    token: Seq<char>,
    answer: Seq<u8>,
    source: Endpoint,
    message: MessageView,
)
    ensures
        reaction(name, token, answer, source, message) matches ActionView::Found(peer) ==> {
            &&& peer.token != token
            &&& message.kind == MessageKind::Response
            &&& asks_about(message, name)
            &&& first_peer(message.answers) == Some(peer)
        },
{
}

/// The discovery engine of one process at one rendezvous. It holds the
/// rendezvous name, the local peer and the two datagrams it ever sends.
#[derive(Debug, PartialEq, Eq)]
pub struct Discovery {
    inner: DiscoveryChannel,
    question: Vec<u8>,
    answer: Vec<u8>,
}

impl Discovery {
    /// The rendezvous name.
    pub closed spec fn name(&self) -> Seq<Seq<u8>> {
        self.inner.name@
    }

    /// The peer that this engine announces.
    pub closed spec fn peer(&self) -> PeerView {
        self.inner.peer@
    }

    /// The datagram of the question.
    pub closed spec fn question(&self) -> Seq<u8> {
        self.question@
    }

    /// The datagram of the answer.
    pub closed spec fn answer(&self) -> Seq<u8> {
        self.answer@
    }

    /// What holds of every engine: the local peer is valid and has no address
    /// of its own; the two datagrams are the question and the answer of the
    /// rendezvous as `trust_dns` writes them, and it reads them back as such;
    /// and the peer that the answer announces is the local peer.
    #[verifier::type_invariant]
    pub open spec fn wf(&self) -> bool {
        &&& self.peer().wf()
        &&& self.peer().addr == seq![0u8, 0u8, 0u8, 0u8]
        &&& datagram_of(question_view(self.name())) == Some(self.question())
        &&& datagram_of(answer_view(self.name(), self.peer())) == Some(self.answer())
        &&& first_peer(answer_view(self.name(), self.peer()).answers) == Some(self.peer())
    }

    /// What the engine does with an event: on a tick it broadcasts the
    /// question; a datagram that is no DNS message it ignores; to any other
    /// it reacts as [`reaction`] says.
    pub open spec fn step_spec(&self, event: EventView) -> ActionView {
        match event {
            EventView::Tick => ActionView::Broadcast(self.question()),
            EventView::Datagram(source, bytes) => match message_of(bytes) {
                Some(message) => reaction(
                    self.name(),
                    self.peer().token,
                    self.answer(),
                    source,
                    message,
                ),
                None => ActionView::Ignore,
            },
        }
    }

    /// Why an engine at this rendezvous name, with this port and token,
    /// cannot be set up, if it cannot: the token is empty, or the question
    /// or the answer does not survive the wire.
    pub open spec fn setup_error_at(name: Seq<Seq<u8>>, port: u16, token: Seq<char>) -> Option<
        DiscoveryError,
    > {
        let peer = PeerView { addr: seq![0u8, 0u8, 0u8, 0u8], port, token };
        if token.len() == 0 {
            Some(DiscoveryError::EmptyToken)
        } else if datagram_of(question_view(name)) is None || datagram_of(answer_view(name, peer))
            is None {
            Some(DiscoveryError::Unencodable)
        } else {
            None
        }
    }

    /// Why an engine for this key, port and token cannot be set up, if it
    /// cannot: there is no rendezvous name, or there is no engine at it.
    pub open spec fn setup_error(key: Seq<u8>, port: u16, token: Seq<char>) -> Option<
        DiscoveryError,
    > {
        match rendezvous_of(key) {
            Err(e) => Some(e),
            Ok(name) => Self::setup_error_at(name, port, token),
        }
    }

    /// An engine at the rendezvous `name`, announcing a peer at the
    /// unspecified address with the given port and token.
    pub fn with_name(name: DomainName, port: u16, token: String) -> (engine: Result<
        Discovery,
        DiscoveryError,
    >)
        ensures
            match engine {
                Ok(d) => {
                    &&& Self::setup_error_at(name@, port, token@) is None
                    &&& d.name() == name@
                    &&& d.peer() == (PeerView { addr: seq![0u8, 0u8, 0u8, 0u8], port, token: token@ })
                    &&& d.wf()
                },
                Err(e) => Self::setup_error_at(name@, port, token@) == Some(e),
            },
    {
        let peer = match DiscoveryPeer::new([0, 0, 0, 0], port, token) {
            Some(peer) => peer,
            None => { return Err(DiscoveryError::EmptyToken); },
        };
        let inner = DiscoveryChannel { name, peer };
        let question_message = inner.create_mdns_question();
        assert(question_message.fits()) by {
            assert(question_message@.questions.len() == 1);
            assert(question_message@.answers.len() == 0);
        }
        let question = match question_message.to_datagram() {
            Some(bytes) => bytes,
            None => { return Err(DiscoveryError::Unencodable); },
        };
        let answer_message = inner.create_mdns_answer();
        assert(answer_message.fits()) by {
            assert(answer_message@.questions.len() == 1);
        }
        let answer = match answer_message.to_datagram() {
            Some(bytes) => bytes,
            None => { return Err(DiscoveryError::Unencodable); },
        };
        Ok(Discovery { inner, question, answer })
    }

    /// An engine for the rendezvous of `discovery_key_full`, announcing a
    /// peer at the unspecified address with the given port and token.
    pub fn new(discovery_key_full: &[u8], port: u16, token: String) -> (engine: Result<
        Discovery,
        DiscoveryError,
    >)
        ensures
            match engine {
                Ok(d) => {
                    &&& Self::setup_error(discovery_key_full@, port, token@) is None
                    &&& rendezvous_of(discovery_key_full@) == Ok::<Seq<Seq<u8>>, DiscoveryError>(d.name())
                    &&& d.peer() == (PeerView { addr: seq![0u8, 0u8, 0u8, 0u8], port, token: token@ })
                    &&& d.wf()
                },
                Err(e) => Self::setup_error(discovery_key_full@, port, token@) == Some(e),
            },
    {
        match rendezvous_name(discovery_key_full) {
            Ok(name) => Discovery::with_name(name, port, token),
            Err(e) => Err(e),
        }
    }

    /// The rendezvous name.
    pub fn rendezvous(&self) -> (name: DomainName)
        ensures
            name@ == self.name(),
    {
        self.inner.name.clone()
    }

    /// The peer that this engine announces.
    pub fn local_peer(&self) -> (peer: DiscoveryPeer)
        ensures
            peer@ == self.peer(),
    {
        self.inner.peer.clone()
    }

    /// The datagram to broadcast on every tick of the timer.
    pub fn question_datagram(&self) -> (bytes: Vec<u8>)
        ensures
            self.wf(),
            bytes@ == self.question(),
    {
        proof {
            use_type_invariant(self);
        }
        self.question.clone()
    }

    /// The datagram to send to whoever asks about the rendezvous.
    pub fn answer_datagram(&self) -> (bytes: Vec<u8>)
        ensures
            self.wf(),
            bytes@ == self.answer(),
    {
        proof {
            use_type_invariant(self);
        }
        self.answer.clone()
    }

    /// The token of the local peer.
    pub fn token(&self) -> (token: String)
        ensures
            self.wf(),
            token@ == self.peer().token,
    {
        proof {
            use_type_invariant(self);
        }
        self.inner.peer.token()
    }

    /// Whether one of the message's questions is about the rendezvous.
    pub fn concerns(&self, message: &MdnsMessage) -> (found: bool)
        ensures
            found == asks_about(message@, self.name()),
    {
        let mut i: usize = 0;
        while i < message.questions.len()
            invariant
                i <= message.questions.len(),
                forall|j: int| 0 <= j < i ==> !same_name(#[trigger] message@.questions[j], self.name()),
            decreases message.questions.len() - i,
        {
            if message.questions[i].matches(&self.inner.name) {
                assert(same_name(message@.questions[i as int], self.name()));
                return true;
            }
            i += 1;
        }
        false
    }

    /// What to do with a message that came in from `source`.
    pub fn classify(&self, source: Endpoint, message: &MdnsMessage) -> (action: Action)
        ensures
            action@ == reaction(self.name(), self.peer().token, self.answer(), source, message@),
    {
        if !self.concerns(message) {
            return Action::Ignore;
        }
        match message.kind {
            MessageKind::Query => Action::Answer(source, self.answer.clone()),
            MessageKind::Response => match DiscoveryPeer::from_message(message) {
                Some(peer) => {
                    if peer.token() == self.inner.peer.token() {
                        Action::Ignore
                    } else {
                        Action::Found(peer)
                    }
                },
                None => Action::Ignore,
            },
        }
    }

    /// What to do after one event.
    pub fn step(&self, event: &Event) -> (action: Action)
        ensures
            action@ == self.step_spec(event@),
    {
        match event {
            Event::Tick => Action::Broadcast(self.question.clone()),
            Event::Datagram(source, bytes) => match MdnsMessage::from_wire(bytes.as_slice()) {
                Some(message) => self.classify(*source, &message),
                None => Action::Ignore,
            },
        }
    }

    /// Runs the engine over a sequence of events and gives the action for
    /// each, in order: every tick broadcasts the question, every query about
    /// the rendezvous is answered to its sender, and every response about it
    /// that announces another process's peer yields that peer.
    pub fn find_peers(&self, events: &Vec<Event>) -> (actions: Vec<Action>)
        ensures
            actions@.len() == events@.len(),
            forall|i: int| 0 <= i < events@.len() ==> (#[trigger] actions@[i])@ == self.step_spec(events@[i]@),
    {
        let mut actions: Vec<Action> = Vec::new();
        let mut i: usize = 0;
        while i < events.len()
            invariant
                i <= events.len(),
                actions@.len() == i,
                forall|j: int| 0 <= j < i ==> (#[trigger] actions@[j])@ == self.step_spec(events@[j]@),
            decreases events.len() - i,
        {
            let action = self.step(&events[i]);
            actions.push(action);
            i += 1;
        }
        actions
    }
}

/// Self-suppression: an engine that hears its own answer ignores it,
/// wherever the datagram comes from.
pub proof fn lemma_engine_ignores_own_answer(engine: Discovery, source: Endpoint)
    requires
        engine.wf(),
    ensures
        engine.step_spec(EventView::Datagram(source, engine.answer())) == ActionView::Ignore,
{
    lemma_own_answer_is_suppressed(engine.name(), engine.peer(), engine.answer(), source);
}

/// Query auto-answer: an engine that hears the question of an engine at the
/// same rendezvous sends its answer to where the question came from, and
/// yields no peer.
pub proof fn lemma_engine_answers_question(engine: Discovery, asker: Discovery, source: Endpoint)
    requires
        engine.wf(),
        asker.wf(),
        same_name(asker.name(), engine.name()),
    ensures
        engine.step_spec(EventView::Datagram(source, asker.question())) == ActionView::Answer(
            source,
            engine.answer(),
        ),
{
    let message = question_view(asker.name());
    assert(same_name(message.questions[0], engine.name()));
}

/// Two engines at the same rendezvous with different tokens find each
/// other: an engine that hears the other's answer yields the other's peer,
/// as the other announces it.
pub proof fn lemma_engines_find_each_other(engine: Discovery, other: Discovery, source: Endpoint)
    requires
        engine.wf(),
        other.wf(),
        same_name(other.name(), engine.name()),
        other.peer().token != engine.peer().token,
    ensures
        engine.step_spec(EventView::Datagram(source, other.answer())) == ActionView::Found(
            other.peer(),
        ),
{
    let message = answer_view(other.name(), other.peer());
    assert(same_name(message.questions[0], engine.name()));
}

/// A datagram that is no DNS message is ignored, whatever it holds.
pub proof fn lemma_engine_ignores_garbage(engine: Discovery, source: Endpoint, bytes: Seq<u8>)
    requires
        message_of(bytes) is None,
    ensures
        engine.step_spec(EventView::Datagram(source, bytes)) == ActionView::Ignore,
{
}

/// Name filtering: an engine ignores the question and the answer of an
/// engine at another rendezvous.
pub proof fn lemma_engine_ignores_other_rendezvous(
    engine: Discovery,
    other: Discovery,
    source: Endpoint,
)
    requires
        engine.wf(),
        other.wf(),
        !same_name(other.name(), engine.name()),
    ensures
        engine.step_spec(EventView::Datagram(source, other.question())) == ActionView::Ignore,
        engine.step_spec(EventView::Datagram(source, other.answer())) == ActionView::Ignore,
{
    let question = question_view(other.name());
    let answer = answer_view(other.name(), other.peer());
    lemma_other_name_is_ignored(
        engine.name(),
        engine.peer().token,
        engine.answer(),
        source,
        question,
    );
    lemma_other_name_is_ignored(engine.name(), engine.peer().token, engine.answer(), source, answer);
}

} // verus!
