//! The rendezvous name: the domain name under which the peers of one
//! discovery key ask for each other and answer.

use crate::discovery::DiscoveryError;
use crate::dns::{fold_case, name_of, same_label, same_name, DomainName};
use crate::encoding::{hex_encode, hex_text};
use vstd::prelude::*;
use vstd::slice::slice_subrange;
use vstd::string::{StrSliceExecFns, StringExecFns};
use vstd::utf8::*;

verus! {

/// Number of bytes of a discovery key that go into the rendezvous name.
pub const KEY_PREFIX_LEN: usize = 20;

/// The rendezvous name of a discovery key as dotted text: the first twenty
/// bytes in hexadecimal, under `dat.local`.
pub open spec fn rendezvous_text(key: Seq<u8>) -> Seq<char> {
    hex_text(key.take(KEY_PREFIX_LEN as int)) + ".dat.local"@
}

/// The digits of hexadecimal text as bytes.
pub open spec fn hex_bytes(data: Seq<u8>) -> Seq<u8> {
    hex_text(data).map_values(|digit: char| digit as u8)
}

/// The labels `dat` and `local`, under which every rendezvous name lies.
pub open spec fn suffix_labels() -> Seq<Seq<u8>> {
    seq![
        seq!['d' as u8, 'a' as u8, 't' as u8],
        seq!['l' as u8, 'o' as u8, 'c' as u8, 'a' as u8, 'l' as u8],
    ]
}

/// The labels of the rendezvous name of a discovery key: the forty
/// hexadecimal digits of its first twenty bytes, then `dat`, then `local`.
pub open spec fn rendezvous_labels(key: Seq<u8>) -> Seq<Seq<u8>> {
    seq![hex_bytes(key.take(KEY_PREFIX_LEN as int))] + suffix_labels()
}

/// The rendezvous name of a discovery key. A key of fewer than twenty bytes
/// has none. Nor has one for whose rendezvous text `trust_dns` makes
/// anything but the name with the rendezvous labels.
pub open spec fn rendezvous_of(key: Seq<u8>) -> Result<Seq<Seq<u8>>, DiscoveryError> {
    if key.len() < KEY_PREFIX_LEN {
        Err(DiscoveryError::KeyTooShort)
    } else if name_of(rendezvous_text(key)) == Some(rendezvous_labels(key)) {
        Ok(rendezvous_labels(key))
    } else {
        Err(DiscoveryError::InvalidName)
    }
}

/// The dotted text of the rendezvous name for `discovery_key`.
pub fn rendezvous_name_text(discovery_key: &[u8]) -> (text: String)
    requires
        discovery_key@.len() >= KEY_PREFIX_LEN,
    ensures
        text@ == rendezvous_text(discovery_key@),
{
    let prefix = slice_subrange(discovery_key, 0, KEY_PREFIX_LEN);
    let digits = hex_encode(prefix);
    digits.concat(".dat.local")
}

/// The labels that the rendezvous name for `discovery_key` must have.
pub fn rendezvous_name_labels(discovery_key: &[u8]) -> (name: DomainName)
    requires
        discovery_key@.len() >= KEY_PREFIX_LEN,
    ensures
        name@ == rendezvous_labels(discovery_key@),
{
    let prefix = slice_subrange(discovery_key, 0, KEY_PREFIX_LEN);
    let digits = hex_encode(prefix);
    proof {
        lemma_hex_text_is_ascii(prefix@);
    }
    let mut labels: Vec<Vec<u8>> = Vec::new();
    labels.push(digits.as_str().as_bytes_vec());
    labels.push(vec!['d' as u8, 'a' as u8, 't' as u8]);
    labels.push(vec!['l' as u8, 'o' as u8, 'c' as u8, 'a' as u8, 'l' as u8]);
    let name = DomainName { labels };
    assert(name@ =~= rendezvous_labels(discovery_key@));
    name
}

/// The name that a dotted text spells, or `InvalidName` where `trust_dns`
/// refuses the text.
pub fn name_from_text(text: &str) -> (name: Result<DomainName, DiscoveryError>)
    ensures
        match name {
            Ok(n) => name_of(text@) == Some(n@),
            Err(e) => name_of(text@) is None && e == DiscoveryError::InvalidName,
        },
{
    match DomainName::from_ascii(text) {
        Some(name) => Ok(name),
        None => Err(DiscoveryError::InvalidName),
    }
}

/// The rendezvous name for `discovery_key`: `trust_dns` reads it out of the
/// rendezvous text, and it is held against the labels it must have.
pub fn rendezvous_name(discovery_key: &[u8]) -> (name: Result<DomainName, DiscoveryError>)
    ensures
        match name {
            Ok(n) => rendezvous_of(discovery_key@) == Ok::<Seq<Seq<u8>>, DiscoveryError>(n@),
            Err(e) => rendezvous_of(discovery_key@) == Err::<Seq<Seq<u8>>, DiscoveryError>(e),
        },
{
    if discovery_key.len() < KEY_PREFIX_LEN {
        return Err(DiscoveryError::KeyTooShort);
    }
    let text = rendezvous_name_text(discovery_key);
    let expected = rendezvous_name_labels(discovery_key);
    match name_from_text(text.as_str()) {
        Ok(name) => {
            if name.equals(&expected) {
                Ok(name)
            } else {
                Err(DiscoveryError::InvalidName)
            }
        },
        Err(e) => Err(e),
    }
}

/// The hexadecimal text of the first bytes of a key is the start of the
/// hexadecimal text of the whole key: truncating the forty digits out of the
/// full text gives the same name.
pub proof fn lemma_hex_of_prefix(key: Seq<u8>, n: int)
    requires
        0 <= n <= key.len(),
    ensures
        hex_text(key.take(n)) == hex_text(key).take(2 * n),
{
}

/// The rendezvous text of a key of twenty bytes or more has fifty
/// characters: forty lower-case hexadecimal digits, then `.dat.local`.
pub proof fn lemma_rendezvous_text_shape(key: Seq<u8>)
    requires
        key.len() >= KEY_PREFIX_LEN,
    ensures
        rendezvous_text(key).len() == 50,
        rendezvous_text(key).skip(40) == ".dat.local"@,
        forall|i: int|
            0 <= i < 40 ==> {
                let digit = #[trigger] rendezvous_text(key)[i];
                ('0' <= digit <= '9') || ('a' <= digit <= 'f')
            },
{
    reveal_strlit(".dat.local");
}

/// Hexadecimal text is ASCII, so its UTF-8 bytes are its digits.
pub proof fn lemma_hex_text_is_ascii(data: Seq<u8>)
    ensures
        is_ascii_chars(hex_text(data)),
        encode_utf8(hex_text(data)) == hex_bytes(data),
{
    is_ascii_chars_encode_utf8(hex_text(data));
}

/// The rendezvous name depends on the first twenty bytes of the key and on
/// nothing else: keys that agree there have the same name, and keys that
/// differ there have names that are not the same domain name.
pub proof fn lemma_rendezvous_names_differ(first: Seq<u8>, second: Seq<u8>)
    requires
        first.len() >= KEY_PREFIX_LEN,
        second.len() >= KEY_PREFIX_LEN,
    ensures
        first.take(KEY_PREFIX_LEN as int) == second.take(KEY_PREFIX_LEN as int) <==> same_name(
            rendezvous_labels(first),
            rendezvous_labels(second),
        ),
{
    let a = first.take(KEY_PREFIX_LEN as int);
    let b = second.take(KEY_PREFIX_LEN as int);
    let digits_a = hex_bytes(a);
    let digits_b = hex_bytes(b);
    assert(rendezvous_labels(second)[0] == digits_b);
    if a == b {
        assert(same_name(rendezvous_labels(first), rendezvous_labels(second))) by {
            assert forall|i: int| 0 <= i < rendezvous_labels(first).len() implies same_label(
                rendezvous_labels(first)[i],
                rendezvous_labels(second)[i],
            ) by {}
        }
    } else {
        assert(!(a =~= b));
        let i = choose|i: int| 0 <= i < 20 && a[i] != b[i];
        assert(fold_case(digits_a[2 * i]) != fold_case(digits_b[2 * i]) || fold_case(
            digits_a[2 * i + 1],
        ) != fold_case(digits_b[2 * i + 1]));
    }
}

} // verus!
