//! A discoverable peer and the six-byte payload that carries its address.

use crate::encoding::{base64_bytes, base64_decode, base64_encode, base64_text};
use crate::encoding::{u16_from_be, u16_to_be, utf8_string};
use vstd::prelude::*;
use vstd::slice::{slice_subrange, slice_to_vec};
use vstd::utf8::*;

verus! {

/// Number of bytes in the binary payload: four address octets and a port.
pub const PAYLOAD_LEN: usize = 6;

/// Longest character-string a TXT record can hold.
pub const MAX_TEXT_LEN: usize = 255;

/// The byte `=`, which ends a field's key.
pub const SEPARATOR: u8 = 0x3d;

/// Why a set of TXT fields does not describe a peer.
#[derive(Clone, Copy, Debug, PartialEq, Eq, Structural)]
pub enum DecodeError {
    /// A key is missing or repeated, the token is empty or not UTF-8, or the
    /// `peers` value is not the base64 text of exactly six bytes.
    MalformedPayload,
}

/// One peer as mathematics sees it.
pub struct PeerView {
    pub addr: Seq<u8>,
    pub port: u16,
    pub token: Seq<char>,
}

impl PeerView {
    /// Four address octets and a token that is not empty.
    pub open spec fn wf(self) -> bool {
        self.addr.len() == 4 && self.token.len() > 0
    }
}

/// A peer that can be reached for replication: an IPv4 address, a port and
/// the token by which its process is told apart from every other.
#[derive(Debug, PartialEq, Eq)]
pub struct DiscoveryPeer {
    addr: [u8; 4],
    port: u16,
    token: String,
}

impl View for DiscoveryPeer {
    type V = PeerView;

    closed spec fn view(&self) -> PeerView {
        PeerView { addr: self.addr@, port: self.port, token: self.token@ }
    }
}

impl Clone for DiscoveryPeer {
    fn clone(&self) -> (copy: DiscoveryPeer)
        ensures
            copy@ == self@,
    {
        proof {
            use_type_invariant(self);
        }
        DiscoveryPeer { addr: self.addr, port: self.port, token: self.token.clone() }
    }
}

/// The payload of an address and a port: the octets in network order, then
/// the port with its high byte first.
pub open spec fn payload_of(addr: Seq<u8>, port: u16) -> Seq<u8> {
    addr + seq![(port / 256) as u8, (port % 256) as u8]
}

/// The address and port that a payload holds, if it has the right length.
pub open spec fn payload_parts(payload: Seq<u8>) -> Option<(Seq<u8>, u16)> {
    if payload.len() == PAYLOAD_LEN {
        Some((payload.take(4), (payload[4] * 256 + payload[5]) as u16))
    } else {
        None
    }
}

/// The address and port that the value of a `peers` field stands for: the
/// value fits in a TXT string and is base64 text of a six-byte payload.
pub open spec fn peers_field_parts(text: Seq<u8>) -> Option<(Seq<u8>, u16)> {
    if text.len() > MAX_TEXT_LEN {
        None
    } else {
        match base64_bytes(text) {
            Some(payload) => payload_parts(payload),
            None => None,
        }
    }
}

/// The key of the field that carries a peer's token: `token`.
pub open spec fn token_key() -> Seq<u8> {
    seq!['t' as u8, 'o' as u8, 'k' as u8, 'e' as u8, 'n' as u8]
}

/// The key of the field that carries a peer's address and port: `peers`.
pub open spec fn peers_key() -> Seq<u8> {
    seq!['p' as u8, 'e' as u8, 'e' as u8, 'r' as u8, 's' as u8]
}

/// The field `key=value`.
pub open spec fn entry(key: Seq<u8>, value: Seq<u8>) -> Seq<u8> {
    key + seq![SEPARATOR] + value
}

/// Whether `field` reads `key=...`. For a key without `=` in it, this says
/// that the text before the field's first `=` is the key.
pub open spec fn has_key(field: Seq<u8>, key: Seq<u8>) -> bool {
    &&& field.len() > key.len()
    &&& field.take(key.len() as int) == key
    &&& field[key.len() as int] == SEPARATOR
}

/// What follows `key=` in a field that has that key.
pub open spec fn value_of(field: Seq<u8>, key: Seq<u8>) -> Seq<u8> {
    field.skip(key.len() as int + 1)
}

/// The values of the fields that have the given key, in the fields' order.
pub open spec fn entry_values(fields: Seq<Seq<u8>>, key: Seq<u8>) -> Seq<Seq<u8>>
    decreases fields.len(),
{
    if fields.len() == 0 {
        Seq::empty()
    } else {
        let before = entry_values(fields.drop_last(), key);
        if has_key(fields.last(), key) {
            before.push(value_of(fields.last(), key))
        } else {
            before
        }
    }
}

/// The peer that a TXT record's strings describe.
///
/// Fields with other keys are passed over. The record must hold `token` and
/// `peers` once each; the token must be UTF-8 text and not empty; the value
/// of `peers` must stand for an address and a port.
pub open spec fn decoded(fields: Seq<Seq<u8>>) -> Result<PeerView, DecodeError> {
    let tokens = entry_values(fields, token_key());
    let peers = entry_values(fields, peers_key());
    if tokens.len() == 1 && peers.len() == 1 && tokens[0].len() > 0 && valid_utf8(tokens[0]) {
        match peers_field_parts(peers[0]) {
            Some((addr, port)) => Ok(PeerView { addr, port, token: decode_utf8(tokens[0]) }),
            None => Err(DecodeError::MalformedPayload),
        }
    } else {
        Err(DecodeError::MalformedPayload)
    }
}

/// The two strings that announce a peer: its token, then its payload as
/// base64 text.
pub open spec fn txt_fields(peer: PeerView) -> Seq<Seq<u8>> {
    seq![
        entry(token_key(), encode_utf8(peer.token)),
        entry(peers_key(), encode_utf8(base64_text(payload_of(peer.addr, peer.port)))),
    ]
}

/// The strings of a record as sequences of bytes.
pub open spec fn byte_strings(texts: Seq<Vec<u8>>) -> Seq<Seq<u8>> {
    texts.map_values(|text: Vec<u8>| text@)
}

impl DiscoveryPeer {
    /// What holds of every peer: four address octets, and a token that is
    /// not empty.
    #[verifier::type_invariant]
    pub open spec fn wf(&self) -> bool {
        self@.wf()
    }

    /// A peer with the given address, port and token; `None` for an empty
    /// token, which no peer may have.
    pub fn new(addr: [u8; 4], port: u16, token: String) -> (peer: Option<DiscoveryPeer>)
        ensures
            token@.len() == 0 <==> peer is None,
            peer matches Some(p) ==> p.wf() && p@ == (PeerView { addr: addr@, port, token: token@ }),
    {
        if token.as_str().is_empty() {
            None
        } else {
            Some(DiscoveryPeer { addr, port, token })
        }
    }

    /// The four octets of the peer's IPv4 address.
    pub fn addr(&self) -> (addr: [u8; 4])
        ensures
            addr@ == self@.addr,
    {
        self.addr
    }

    /// The port at which the peer listens.
    pub fn port(&self) -> (port: u16)
        ensures
            port == self@.port,
    {
        self.port
    }

    /// The token of the peer's process.
    pub fn token(&self) -> (token: String)
        ensures
            token@ == self@.token,
    {
        self.token.clone()
    }

    /// The six payload bytes of this peer's address and port.
    pub fn payload(&self) -> (bytes: Vec<u8>)
        ensures
            bytes@ == payload_of(self@.addr, self@.port),
    {
        let port_bytes = u16_to_be(self.port);
        let mut bytes: Vec<u8> = Vec::new();
        bytes.push(self.addr[0]);
        bytes.push(self.addr[1]);
        bytes.push(self.addr[2]);
        bytes.push(self.addr[3]);
        bytes.push(port_bytes[0]);
        bytes.push(port_bytes[1]);
        bytes
    }

    /// The value of the `peers` field: the payload as base64 text.
    ///
    /// Reading the text back with [`DiscoveryPeer::decode_peers_field`] gives
    /// this peer's address and port.
    pub fn encode_peers_field(&self) -> (text: String)
        ensures
            text@ == base64_text(payload_of(self@.addr, self@.port)),
            is_ascii_chars(text@),
            text@.len() == 8,
            peers_field_parts(encode_utf8(text@)) == Some((self@.addr, self@.port)),
    {
        let payload = self.payload();
        let text = base64_encode(payload.as_slice());
        proof {
            is_ascii_chars_encode_utf8(text@);
            lemma_payload_round_trip(self@.addr, self@.port);
        }
        text
    }

    /// The address and port in the value of a `peers` field, or `None` where
    /// the value is longer than a TXT string, is not base64, or does not
    /// decode to exactly six bytes.
    pub fn decode_peers_field(data: &[u8]) -> (parts: Option<([u8; 4], u16)>)
        ensures
            match parts {
                Some((addr, port)) => peers_field_parts(data@) == Some((addr@, port)),
                None => peers_field_parts(data@) is None,
            },
    {
        if data.len() > MAX_TEXT_LEN {
            return None;
        }
        match base64_decode(data) {
            Some(payload) => DiscoveryPeer::split_payload(payload.as_slice()),
            None => None,
        }
    }

    /// The address and port in a payload, or `None` where it has not
    /// exactly six bytes.
    pub fn split_payload(payload: &[u8]) -> (parts: Option<([u8; 4], u16)>)
        ensures
            match parts {
                Some((addr, port)) => payload_parts(payload@) == Some((addr@, port)),
                None => payload_parts(payload@) is None,
            },
    {
        if payload.len() != PAYLOAD_LEN {
            None
        } else {
            let addr: [u8; 4] = [payload[0], payload[1], payload[2], payload[3]];
            let port = u16_from_be(payload[4], payload[5]);
            Some((addr, port))
        }
    }

    /// The strings of the TXT record that announces this peer.
    ///
    /// Decoding them gives this peer back, whatever its address, port and
    /// token are.
    pub fn to_txt_fields(&self) -> (fields: Vec<Vec<u8>>)
        ensures
            byte_strings(fields@) == txt_fields(self@),
            decoded(txt_fields(self@)) == Ok::<PeerView, DecodeError>(self@),
    {
        proof {
            use_type_invariant(self);
        }
        let peers_text = self.encode_peers_field();
        let token_field = make_entry(&token_key_bytes(), self.token.as_str().as_bytes());
        let peers_field = make_entry(&peers_key_bytes(), peers_text.as_str().as_bytes());
        let mut fields: Vec<Vec<u8>> = Vec::new();
        fields.push(token_field);
        fields.push(peers_field);
        proof {
            lemma_own_fields_decode(self@);
        }
        fields
    }

    /// The peer that a TXT record's strings describe, or `MalformedPayload`
    /// where they describe none.
    pub fn from_txt_fields(fields: &Vec<Vec<u8>>) -> (peer: Result<DiscoveryPeer, DecodeError>)
        ensures
            match peer {
                Ok(p) => p.wf() && decoded(byte_strings(fields@)) == Ok::<PeerView, DecodeError>(p@),
                Err(e) => decoded(byte_strings(fields@)) == Err::<PeerView, DecodeError>(e),
            },
    {
        let ghost texts = byte_strings(fields@);
        let token_name = token_key_bytes();
        let peers_name = peers_key_bytes();
        let mut tokens: usize = 0;
        let mut token_at: usize = 0;
        let mut peers: usize = 0;
        let mut peers_at: usize = 0;
        let mut i: usize = 0;
        while i < fields.len()
            invariant
                i <= fields.len(),
                texts == byte_strings(fields@),
                token_name@ == token_key(),
                peers_name@ == peers_key(),
                tokens == entry_values(texts.take(i as int), token_key()).len(),
                peers == entry_values(texts.take(i as int), peers_key()).len(),
                tokens <= i,
                peers <= i,
                tokens > 0 ==> token_at < i && has_key(texts[token_at as int], token_key())
                    && entry_values(texts.take(i as int), token_key()).last() == value_of(
                    texts[token_at as int],
                    token_key(),
                ),
                peers > 0 ==> peers_at < i && has_key(texts[peers_at as int], peers_key())
                    && entry_values(texts.take(i as int), peers_key()).last() == value_of(
                    texts[peers_at as int],
                    peers_key(),
                ),
            decreases fields.len() - i,
        {
            proof {
                assert(texts.take(i + 1).drop_last() =~= texts.take(i as int));
            }
            if field_has_key(&fields[i], &token_name) {
                tokens += 1;
                token_at = i;
            }
            if field_has_key(&fields[i], &peers_name) {
                peers += 1;
                peers_at = i;
            }
            i += 1;
        }
        proof {
            assert(texts.take(i as int) =~= texts);
        }
        if tokens != 1 || peers != 1 {
            return Err(DecodeError::MalformedPayload);
        }
        let token_bytes = field_value(&fields[token_at], &token_name);
        let peers_bytes = field_value(&fields[peers_at], &peers_name);
        if token_bytes.len() == 0 {
            return Err(DecodeError::MalformedPayload);
        }
        let token = match utf8_string(token_bytes) {
            Some(token) => token,
            None => { return Err(DecodeError::MalformedPayload); },
        };
        proof {
            encode_utf8_decode_utf8(token@);
            assert(token@.len() > 0);
        }
        match DiscoveryPeer::decode_peers_field(peers_bytes.as_slice()) {
            Some((addr, port)) => Ok(DiscoveryPeer { addr, port, token }),
            None => Err(DecodeError::MalformedPayload),
        }
    }
}

/// The bytes of `token`.
pub fn token_key_bytes() -> (key: Vec<u8>)
    ensures
        key@ == token_key(),
{
    vec!['t' as u8, 'o' as u8, 'k' as u8, 'e' as u8, 'n' as u8]
}

/// The bytes of `peers`.
pub fn peers_key_bytes() -> (key: Vec<u8>)
    ensures
        key@ == peers_key(),
{
    vec!['p' as u8, 'e' as u8, 'e' as u8, 'r' as u8, 's' as u8]
}

/// Whether `field` reads `key=...`.
pub fn field_has_key(field: &Vec<u8>, key: &Vec<u8>) -> (found: bool)
    ensures
        found == has_key(field@, key@),
{
    if field.len() <= key.len() {
        return false;
    }
    let mut i: usize = 0;
    while i < key.len()
        invariant
            i <= key.len() < field.len(),
            field@.take(i as int) == key@.take(i as int),
        decreases key.len() - i,
    {
        if field[i] != key[i] {
            return false;
        }
        i += 1;
    }
    assert(key@.take(key.len() as int) =~= key@);
    field[key.len()] == SEPARATOR
}

/// The field `key=value`.
pub fn make_entry(key: &Vec<u8>, value: &[u8]) -> (field: Vec<u8>)
    ensures
        field@ == entry(key@, value@),
{
    let mut field: Vec<u8> = key.clone();
    field.push(SEPARATOR);
    field.extend_from_slice(value);
    field
}

/// What follows `key=` in a field that has that key.
pub fn field_value(field: &Vec<u8>, key: &Vec<u8>) -> (value: Vec<u8>)
    requires
        has_key(field@, key@),
    ensures
        value@ == value_of(field@, key@),
{
    let end = field.len();
    let start = key.len() + 1;
    slice_to_vec(slice_subrange(field.as_slice(), start, end))
}

/// Reading a payload gives back what it was made from.
pub proof fn lemma_payload_round_trip(addr: Seq<u8>, port: u16)
    requires
        addr.len() == 4,
    ensures
        payload_parts(payload_of(addr, port)) == Some((addr, port)),
{
}

/// The values that the two fields of a peer hold: its token under `token`,
/// its payload text under `peers`, and nothing else under either key.
pub proof fn lemma_own_field_values(peer: PeerView)
    ensures
        entry_values(txt_fields(peer), token_key()) == seq![encode_utf8(peer.token)],
        entry_values(txt_fields(peer), peers_key()) == seq![
            encode_utf8(base64_text(payload_of(peer.addr, peer.port))),
        ],
{
    let token_value = encode_utf8(peer.token);
    let peers_value = encode_utf8(base64_text(payload_of(peer.addr, peer.port)));
    let first = entry(token_key(), token_value);
    let second = entry(peers_key(), peers_value);
    assert(first.take(5) =~= token_key());
    assert(second.take(5) =~= peers_key());
    assert(value_of(first, token_key()) =~= token_value);
    assert(value_of(second, peers_key()) =~= peers_value);
    reveal_with_fuel(entry_values, 3);
}

/// The fields of a peer decode to that peer, once the peers value is known
/// to read back.
proof fn lemma_own_fields_decode(peer: PeerView)
    requires
        peer.wf(),
        peers_field_parts(encode_utf8(base64_text(payload_of(peer.addr, peer.port)))) == Some(
            (peer.addr, peer.port),
        ),
    ensures
        decoded(txt_fields(peer)) == Ok::<PeerView, DecodeError>(peer),
{
    lemma_own_field_values(peer);
    encode_utf8_valid_utf8(peer.token);
    encode_utf8_decode_utf8(peer.token);
    assert(encode_utf8(peer.token).len() > 0) by {
        encode_utf8_first_scalar(peer.token);
    }
}

/// Whatever the fields of a peer decode to has that peer's token: the token
/// travels verbatim.
pub proof fn lemma_own_fields_keep_token(peer: PeerView)
    ensures
        decoded(txt_fields(peer)) matches Ok(other) ==> other.token == peer.token,
{
    lemma_own_field_values(peer);
    encode_utf8_decode_utf8(peer.token);
}

/// A field with the key contributes its value.
pub proof fn lemma_value_is_listed(fields: Seq<Seq<u8>>, key: Seq<u8>, i: int)
    requires
        0 <= i < fields.len(),
        has_key(fields[i], key),
    ensures
        entry_values(fields, key).contains(value_of(fields[i], key)),
    decreases fields.len(),
{
    let values = entry_values(fields, key);
    if i == fields.len() - 1 {
        assert(values.last() == value_of(fields[i], key));
    } else {
        lemma_value_is_listed(fields.drop_last(), key, i);
        let before = entry_values(fields.drop_last(), key);
        let j = choose|j: int| 0 <= j < before.len() && before[j] == value_of(fields[i], key);
        assert(values[j] == value_of(fields[i], key));
    }
}

/// Where no field has the key, there are no values.
pub proof fn lemma_no_key_no_values(fields: Seq<Seq<u8>>, key: Seq<u8>)
    requires
        forall|i: int| 0 <= i < fields.len() ==> !has_key(#[trigger] fields[i], key),
    ensures
        entry_values(fields, key).len() == 0,
    decreases fields.len(),
{
    if fields.len() > 0 {
        lemma_no_key_no_values(fields.drop_last(), key);
    }
}

/// A record without a `token` field, or without a `peers` field, describes
/// no peer. This covers a record that holds unrelated fields only, and one
/// that holds no field at all.
pub proof fn lemma_missing_key_is_rejected(fields: Seq<Seq<u8>>, key: Seq<u8>)
    requires
        key == token_key() || key == peers_key(),
        forall|i: int| 0 <= i < fields.len() ==> !has_key(#[trigger] fields[i], key),
    ensures
        decoded(fields) == Err::<PeerView, DecodeError>(DecodeError::MalformedPayload),
{
    lemma_no_key_no_values(fields, key);
}

/// A record with a `peers` field whose value is not base64, or is base64 of
/// other than six bytes, describes no peer.
pub proof fn lemma_bad_peers_value_is_rejected(fields: Seq<Seq<u8>>, i: int)
    requires
        0 <= i < fields.len(),
        has_key(fields[i], peers_key()),
        match base64_bytes(value_of(fields[i], peers_key())) {
            Some(payload) => payload.len() != PAYLOAD_LEN,
            None => true,
        },
    ensures
        decoded(fields) == Err::<PeerView, DecodeError>(DecodeError::MalformedPayload),
{
    lemma_value_is_listed(fields, peers_key(), i);
}

/// Whatever a record decodes to is a valid peer: four address octets and a
/// token that is not empty.
pub proof fn lemma_decoded_is_well_formed(fields: Seq<Seq<u8>>)
    ensures
        decoded(fields) matches Ok(peer) ==> peer.wf(),
{
    if decoded(fields) is Ok {
        let token = entry_values(fields, token_key())[0];
        decode_utf8_first_scalar(token);
    }
}

} // verus!
