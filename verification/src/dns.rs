//! The part of a DNS message that discovery reads and writes: whether it is
//! a query or a response, the names it asks about, and the strings of its
//! TXT answers. Turning such a message into bytes and back is left to
//! `trust_dns`.

use crate::peer::byte_strings;
use trust_dns::op::{Message, MessageType, Query};
use trust_dns::rr::rdata::TXT;
use trust_dns::rr::{Name, RData, Record, RecordType};
use vstd::prelude::*;
use vstd::slice::slice_to_vec;

verus! {

/// Most entries that one section of a DNS message can count.
pub const MAX_SECTION_LEN: usize = 65535;

/// A domain name as its labels, leftmost first, without the dots.
#[derive(Debug, PartialEq, Eq)]
pub struct DomainName {
    pub labels: Vec<Vec<u8>>,
}

impl View for DomainName {
    type V = Seq<Seq<u8>>;

    open spec fn view(&self) -> Seq<Seq<u8>> {
        byte_strings(self.labels@)
    }
}

/// Whether a message asks or answers.
#[derive(Clone, Copy, Debug, PartialEq, Eq, Structural)]
pub enum MessageKind {
    Query,
    Response,
}

/// An answer record: the name it is about, the seconds it may be cached
/// for, and its strings. A record of another type than TXT has no strings.
#[derive(Clone, Debug, PartialEq, Eq)]
pub struct TxtRecord {
    pub name: DomainName,
    pub ttl: u32,
    pub texts: Vec<Vec<u8>>,
}

/// A record as mathematics sees it.
pub struct RecordView {
    pub name: Seq<Seq<u8>>,
    pub ttl: u32,
    pub texts: Seq<Seq<u8>>,
}

impl View for TxtRecord {
    type V = RecordView;

    open spec fn view(&self) -> RecordView {
        RecordView { name: self.name@, ttl: self.ttl, texts: byte_strings(self.texts@) }
    }
}

/// A message: its kind, the names of its questions (each asks for TXT
/// records) and its answers.
#[derive(Clone, Debug, PartialEq, Eq)]
pub struct MdnsMessage {
    pub kind: MessageKind,
    pub questions: Vec<DomainName>,
    pub answers: Vec<TxtRecord>,
}

/// A message as mathematics sees it.
pub struct MessageView {
    pub kind: MessageKind,
    pub questions: Seq<Seq<Seq<u8>>>,
    pub answers: Seq<RecordView>,
}

impl View for MdnsMessage {
    type V = MessageView;

    open spec fn view(&self) -> MessageView {
        MessageView {
            kind: self.kind,
            questions: self.questions@.map_values(|name: DomainName| name@),
            answers: self.answers@.map_values(|record: TxtRecord| record@),
        }
    }
}

/// A byte with an upper-case ASCII letter turned into its lower-case form.
pub open spec fn fold_case(byte: u8) -> u8 {
    if 'A' as u8 <= byte <= 'Z' as u8 {
        (byte + 0x20) as u8
    } else {
        byte
    }
}

/// Two labels are the same if they differ at most in the case of ASCII
/// letters.
pub open spec fn same_label(a: Seq<u8>, b: Seq<u8>) -> bool {
    &&& a.len() == b.len()
    &&& forall|i: int| #![auto] 0 <= i < a.len() ==> fold_case(a[i]) == fold_case(b[i])
}

/// Two names are the same if they have the same labels, one by one.
pub open spec fn same_name(a: Seq<Seq<u8>>, b: Seq<Seq<u8>>) -> bool {
    &&& a.len() == b.len()
    &&& forall|i: int| #![auto] 0 <= i < a.len() ==> same_label(a[i], b[i])
}

/// Every name is the same as itself.
pub proof fn lemma_same_name_reflexive(name: Seq<Seq<u8>>)
    ensures
        same_name(name, name),
{
}

/// If one name is the same as another, the other is the same as the one.
pub proof fn lemma_same_name_symmetric(a: Seq<Seq<u8>>, b: Seq<Seq<u8>>)
    requires
        same_name(a, b),
    ensures
        same_name(b, a),
{
}

/// Two names that are the same as a third are the same.
pub proof fn lemma_same_name_transitive(a: Seq<Seq<u8>>, b: Seq<Seq<u8>>, c: Seq<Seq<u8>>)
    requires
        same_name(a, b),
        same_name(b, c),
    ensures
        same_name(a, c),
{
}

/// A copy of a list of byte strings.
pub fn copy_byte_strings(items: &Vec<Vec<u8>>) -> (copy: Vec<Vec<u8>>)
    ensures
        byte_strings(copy@) == byte_strings(items@),
{
    let mut copy: Vec<Vec<u8>> = Vec::new();
    let mut i: usize = 0;
    while i < items.len()
        invariant
            i <= items.len(),
            copy.len() == i,
            forall|j: int| 0 <= j < i ==> copy@[j]@ == items@[j]@,
        decreases items.len() - i,
    {
        copy.push(slice_to_vec(items[i].as_slice()));
        i += 1;
    }
    copy
}

/// The lower-case form of a byte.
pub fn lower(byte: u8) -> (folded: u8)
    ensures
        folded == fold_case(byte),
{
    if 'A' as u8 <= byte && byte <= 'Z' as u8 {
        byte + 0x20
    } else {
        byte
    }
}

/// Whether two labels are the same but for the case of their letters.
pub fn labels_match(a: &Vec<u8>, b: &Vec<u8>) -> (same: bool)
    ensures
        same == same_label(a@, b@),
{
    if a.len() != b.len() {
        return false;
    }
    let mut i: usize = 0;
    while i < a.len()
        invariant
            i <= a.len() == b.len(),
            forall|j: int| #![auto] 0 <= j < i ==> fold_case(a@[j]) == fold_case(b@[j]),
        decreases a.len() - i,
    {
        if lower(a[i]) != lower(b[i]) {
            return false;
        }
        i += 1;
    }
    true
}

impl Clone for DomainName {
    fn clone(&self) -> (name: DomainName)
        ensures
            name@ == self@,
    {
        DomainName { labels: copy_byte_strings(&self.labels) }
    }
}

/// Whether two byte strings are equal.
pub fn bytes_equal(a: &Vec<u8>, b: &Vec<u8>) -> (same: bool)
    ensures
        same == (a@ == b@),
{
    if a.len() != b.len() {
        return false;
    }
    let mut i: usize = 0;
    while i < a.len()
        invariant
            i <= a.len() == b.len(),
            forall|j: int| 0 <= j < i ==> a@[j] == b@[j],
        decreases a.len() - i,
    {
        if a[i] != b[i] {
            return false;
        }
        i += 1;
    }
    assert(a@ =~= b@);
    true
}

/// Whether two lists of byte strings are equal.
pub fn byte_strings_equal(a: &Vec<Vec<u8>>, b: &Vec<Vec<u8>>) -> (same: bool)
    ensures
        same == (byte_strings(a@) == byte_strings(b@)),
{
    if a.len() != b.len() {
        assert(byte_strings(a@).len() != byte_strings(b@).len());
        return false;
    }
    let mut i: usize = 0;
    while i < a.len()
        invariant
            i <= a.len() == b.len(),
            forall|j: int| 0 <= j < i ==> a@[j]@ == b@[j]@,
        decreases a.len() - i,
    {
        if !bytes_equal(&a[i], &b[i]) {
            assert(byte_strings(a@)[i as int] != byte_strings(b@)[i as int]);
            return false;
        }
        i += 1;
    }
    assert(byte_strings(a@) =~= byte_strings(b@));
    true
}

impl TxtRecord {
    /// Whether this record and `other` have the same name, time to live and
    /// strings.
    pub fn equals(&self, other: &TxtRecord) -> (same: bool)
        ensures
            same == (self@ == other@),
    {
        self.name.equals(&other.name) && self.ttl == other.ttl && byte_strings_equal(
            &self.texts,
            &other.texts,
        )
    }
}

impl MdnsMessage {
    /// Whether this message and `other` are of the same kind and have the
    /// same questions and answers.
    pub fn equals(&self, other: &MdnsMessage) -> (same: bool)
        ensures
            same == (self@ == other@),
    {
        if self.kind != other.kind {
            return false;
        }
        if self.questions.len() != other.questions.len() {
            assert(self@.questions.len() != other@.questions.len());
            return false;
        }
        if self.answers.len() != other.answers.len() {
            assert(self@.answers.len() != other@.answers.len());
            return false;
        }
        let mut i: usize = 0;
        while i < self.questions.len()
            invariant
                i <= self.questions.len() == other.questions.len(),
                forall|j: int| 0 <= j < i ==> self@.questions[j] == other@.questions[j],
            decreases self.questions.len() - i,
        {
            if !self.questions[i].equals(&other.questions[i]) {
                assert(self@.questions[i as int] != other@.questions[i as int]);
                return false;
            }
            i += 1;
        }
        let mut k: usize = 0;
        while k < self.answers.len()
            invariant
                k <= self.answers.len() == other.answers.len(),
                forall|j: int| 0 <= j < k ==> self@.answers[j] == other@.answers[j],
            decreases self.answers.len() - k,
        {
            if !self.answers[k].equals(&other.answers[k]) {
                assert(self@.answers[k as int] != other@.answers[k as int]);
                return false;
            }
            k += 1;
        }
        assert(self@.questions =~= other@.questions);
        assert(self@.answers =~= other@.answers);
        true
    }
}

impl DomainName {
    /// Whether this name and `other` have the very same labels, byte for
    /// byte.
    pub fn equals(&self, other: &DomainName) -> (same: bool)
        ensures
            same == (self@ == other@),
    {
        byte_strings_equal(&self.labels, &other.labels)
    }

    /// Whether this name and `other` are the same domain name: label by
    /// label, ASCII letters compared without regard to case.
    pub fn matches(&self, other: &DomainName) -> (same: bool)
        ensures
            same == same_name(self@, other@),
    {
        if self.labels.len() != other.labels.len() {
            return false;
        }
        let mut i: usize = 0;
        while i < self.labels.len()
            invariant
                i <= self.labels.len() == other.labels.len(),
                forall|j: int| #![auto] 0 <= j < i ==> same_label(self@[j], other@[j]),
            decreases self.labels.len() - i,
        {
            if !labels_match(&self.labels[i], &other.labels[i]) {
                assert(!same_label(self@[i as int], other@[i as int]));
                return false;
            }
            i += 1;
        }
        true
    }
}

/// The labels that `trust_dns` reads out of a dotted ASCII name with
/// `Name::from_ascii`, or `None` where it refuses the text.
pub uninterp spec fn name_of(text: Seq<char>) -> Option<Seq<Seq<u8>>>;

/// The bytes that `trust_dns` writes with `Message::to_vec` for a message
/// with these questions and answers, or `None` where it cannot.
pub uninterp spec fn wire_of(message: MessageView) -> Option<Seq<u8>>;

/// What `trust_dns` reads out of a datagram with `Message::from_vec`, or
/// `None` where the bytes are no DNS message.
pub uninterp spec fn message_of(wire: Seq<u8>) -> Option<MessageView>;

/// The datagram of a message that survives the wire: `trust_dns` writes it,
/// and reads the very same message back out of what it wrote.
pub open spec fn datagram_of(message: MessageView) -> Option<Seq<u8>> {
    match wire_of(message) {
        Some(bytes) => if message_of(bytes) == Some(message) {
            Some(bytes)
        } else {
            None
        },
        None => None,
    }
}

/// Trusted: `Name::from_ascii`, then the labels of the name it made.
///
/// Claims only that the result is what the crate makes of `text`.
#[verifier::external_body]
fn name_from_ascii(text: &str) -> (name: Option<DomainName>)
    ensures
        match name {
            Some(n) => name_of(text@) == Some(n@),
            None => name_of(text@) is None,
        },
{
    let name = Name::from_ascii(text).ok()?;
    Some(DomainName { labels: name.iter().map(Vec::from).collect() })
}

/// Trusted: `Message::to_vec`, on a `Message` built from `message`.
///
/// Each question becomes a `Query` for TXT records, each answer a `Record`
/// of type TXT. Claims only that the result is what the crate writes for
/// such a message; it is `None` where the crate refuses a name, where a
/// string is not UTF-8 (the crate makes TXT data from `String`s) or where
/// writing fails. The crate counts each section in sixteen bits and panics
/// beyond; `requires` leaves such messages out.
#[verifier::external_body]
fn message_to_vec(message: &MdnsMessage) -> (wire: Option<Vec<u8>>)
    requires
        message.questions@.len() <= MAX_SECTION_LEN,
        message.answers@.len() <= MAX_SECTION_LEN,
    ensures
        match wire {
            Some(bytes) => wire_of(message@) == Some(bytes@),
            None => wire_of(message@) is None,
        },
{
    let mut out = Message::new();
    out.set_message_type(match message.kind {
        MessageKind::Query => MessageType::Query,
        MessageKind::Response => MessageType::Response,
    });
    for q in &message.questions {
        out.add_query(Query::query(Name::from_labels(q.labels.clone()).ok()?, RecordType::TXT));
    }
    for a in &message.answers {
        let texts = a.texts.iter().map(|t| String::from_utf8(t.clone()).ok()).collect::<Option<_>>()?;
        out.add_answer(Record::from_rdata(Name::from_labels(a.name.labels.clone()).ok()?, a.ttl, RecordType::TXT, RData::TXT(TXT::new(texts))));
    }
    out.to_vec().ok()
}

/// Trusted: `Message::from_vec`, then what discovery reads of the result.
///
/// Claims only that the result is what the crate reads out of `wire`: the
/// message type, the labels of each query's name, and for each answer the
/// labels of its name, its time to live and, where its data is TXT, its
/// strings.
#[verifier::external_body]
fn message_from_vec(wire: &[u8]) -> (message: Option<MdnsMessage>)
    ensures
        match message {
            Some(m) => message_of(wire@) == Some(m@),
            None => message_of(wire@) is None,
        },
{
    let parsed = Message::from_vec(wire).ok()?;
    let labels = |name: &Name| DomainName { labels: name.iter().map(Vec::from).collect() };
    Some(MdnsMessage {
        kind: match parsed.message_type() {
            MessageType::Query => MessageKind::Query,
            MessageType::Response => MessageKind::Response,
        },
        questions: parsed.queries().iter().map(Query::name).map(labels).collect(),
        answers: parsed.answers().iter().map(|r| TxtRecord { name: labels(r.name()), ttl: r.ttl(), texts: match r.rdata() {
            RData::TXT(txt) => txt.iter().map(|t| t.to_vec()).collect(),
            _ => vec![],
        } }).collect(),
    })
}

impl DomainName {
    /// The name that a dotted ASCII text spells, as `trust_dns` reads it;
    /// `None` where it refuses the text.
    pub fn from_ascii(text: &str) -> (name: Option<DomainName>)
        ensures
            match name {
                Some(n) => name_of(text@) == Some(n@),
                None => name_of(text@) is None,
            },
    {
        name_from_ascii(text)
    }
}

impl MdnsMessage {
    /// The datagram for this message, or `None` where a section has more
    /// entries than a DNS header can count or `trust_dns` cannot write it.
    pub fn to_wire(&self) -> (wire: Option<Vec<u8>>)
        ensures
            match wire {
                Some(bytes) => self.fits() && wire_of(self@) == Some(bytes@),
                None => !self.fits() || wire_of(self@) is None,
            },
    {
        if self.questions.len() > MAX_SECTION_LEN || self.answers.len() > MAX_SECTION_LEN {
            None
        } else {
            message_to_vec(self)
        }
    }

    /// The datagram for this message, checked: it is written, read back, and
    /// given only where what is read is this message again.
    pub fn to_datagram(&self) -> (datagram: Option<Vec<u8>>)
        ensures
            match datagram {
                Some(bytes) => self.fits() && datagram_of(self@) == Some(bytes@),
                None => !self.fits() || datagram_of(self@) is None,
            },
    {
        let bytes = match self.to_wire() {
            Some(bytes) => bytes,
            None => { return None; },
        };
        match MdnsMessage::from_wire(bytes.as_slice()) {
            Some(read) => if read.equals(self) {
                Some(bytes)
            } else {
                None
            },
            None => None,
        }
    }

    /// Whether both sections are short enough for a DNS header to count.
    pub open spec fn fits(&self) -> bool {
        self.questions@.len() <= MAX_SECTION_LEN && self.answers@.len() <= MAX_SECTION_LEN
    }

    /// The message in a datagram, or `None` where the bytes are none.
    pub fn from_wire(wire: &[u8]) -> (message: Option<MdnsMessage>)
        ensures
            match message {
                Some(m) => message_of(wire@) == Some(m@),
                None => message_of(wire@) is None,
            },
    {
        message_from_vec(wire)
    }
}

} // verus!
