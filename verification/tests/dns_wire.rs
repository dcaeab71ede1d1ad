use dat_discovery::dns::{byte_strings_equal, bytes_equal, copy_byte_strings, labels_match, lower};
use dat_discovery::dns::{DomainName, MdnsMessage, MessageKind, TxtRecord};

fn name(labels: &[&str]) -> DomainName {
    DomainName { labels: labels.iter().map(|label| label.as_bytes().to_vec()).collect() }
}

#[test]
fn from_ascii_splits_at_the_dots() {
    assert_eq!(DomainName::from_ascii("abc.dat.local"), Some(name(&["abc", "dat", "local"])));
    assert_eq!(DomainName::from_ascii("abc.dat.local."), Some(name(&["abc", "dat", "local"])));
    assert_eq!(DomainName::from_ascii("."), Some(name(&[])));
}

#[test]
fn from_ascii_refuses_what_is_no_name() {
    assert_eq!(DomainName::from_ascii("a b.local"), None);
    assert_eq!(DomainName::from_ascii("ż.local"), None);
    let long = "a".repeat(64);
    assert_eq!(DomainName::from_ascii(&format!("{}.local", long)), None);
}

#[test]
fn names_match_without_regard_to_case() {
    assert!(name(&["abc", "dat", "local"]).matches(&name(&["ABC", "Dat", "LOCAL"])));
    assert!(name(&["a-1", "local"]).matches(&name(&["A-1", "local"])));
    assert!(name(&[]).matches(&name(&[])));
}

#[test]
fn names_differ_in_labels_or_length() {
    assert!(!name(&["abc", "dat", "local"]).matches(&name(&["abd", "dat", "local"])));
    assert!(!name(&["abc", "dat", "local"]).matches(&name(&["abc", "dat"])));
    assert!(!name(&["abc", "dat"]).matches(&name(&["abc", "dat", "local"])));
    assert!(!name(&["abc", "dat", "local"]).matches(&name(&["abcdat", "local"])));
    assert!(!name(&["ab"]).matches(&name(&["abc"])));
    // '@' and '`' sit right before 'A' and 'a', '[' and '{' right after 'Z' and 'z'
    assert!(!name(&["@"]).matches(&name(&["`"])));
    assert!(!name(&["["]).matches(&name(&["{"])));
}

#[test]
fn names_are_equal_byte_for_byte() {
    assert!(name(&["abc", "dat", "local"]).equals(&name(&["abc", "dat", "local"])));
    assert!(!name(&["abc", "dat", "local"]).equals(&name(&["ABC", "dat", "local"])));
    assert!(!name(&["abc", "dat", "local"]).equals(&name(&["abc", "dat"])));
    assert!(!name(&["abc", "dat"]).equals(&name(&["abc", "dat", "local"])));
    assert!(!name(&["abc", "dat"]).equals(&name(&["abc", "dau"])));
    assert!(name(&[]).equals(&name(&[])));
    assert!(bytes_equal(&b"dat".to_vec(), &b"dat".to_vec()));
    assert!(!bytes_equal(&b"dat".to_vec(), &b"da".to_vec()));
    assert!(!bytes_equal(&b"dat".to_vec(), &b"Dat".to_vec()));
    assert!(bytes_equal(&Vec::new(), &Vec::new()));
    assert!(byte_strings_equal(&vec![b"a".to_vec(), b"".to_vec()], &vec![b"a".to_vec(), b"".to_vec()]));
    assert!(!byte_strings_equal(&vec![b"a".to_vec(), b"".to_vec()], &vec![b"a".to_vec()]));
    assert!(!byte_strings_equal(&vec![b"a".to_vec()], &vec![b"b".to_vec()]));
}

#[test]
fn lower_folds_upper_case_letters_only() {
    assert_eq!(lower(b'A'), b'a');
    assert_eq!(lower(b'Z'), b'z');
    assert_eq!(lower(b'a'), b'a');
    assert_eq!(lower(b'@'), b'@');
    assert_eq!(lower(b'['), b'[');
    assert_eq!(lower(b'0'), b'0');
    assert_eq!(lower(0xc1), 0xc1);
    assert!(labels_match(&b"DaT".to_vec(), &b"dAt".to_vec()));
    assert!(!labels_match(&b"dat".to_vec(), &b"dot".to_vec()));
}

#[test]
fn copies_are_equal() {
    let n = name(&["abc", "dat", "local"]);
    assert_eq!(n.clone(), n);
    assert_eq!(copy_byte_strings(&n.labels), n.labels);
    assert_eq!(copy_byte_strings(&Vec::new()), Vec::<Vec<u8>>::new());
}

#[test]
fn message_survives_the_wire() {
    let message = MdnsMessage {
        kind: MessageKind::Response,
        questions: vec![name(&["abc", "dat", "local"]), name(&["other", "local"])],
        answers: vec![
            TxtRecord { name: name(&["abc", "dat", "local"]), ttl: 120, texts: vec![b"token=t".to_vec(), b"k=v".to_vec()] },
            TxtRecord { name: name(&["x", "local"]), ttl: 0, texts: vec![b"one".to_vec()] },
        ],
    };
    let wire = message.to_wire().unwrap();
    assert_eq!(MdnsMessage::from_wire(&wire), Some(message));
}

#[test]
fn query_survives_the_wire() {
    let message = MdnsMessage { kind: MessageKind::Query, questions: vec![name(&["abc", "local"])], answers: vec![] };
    let wire = message.to_wire().unwrap();
    // header, then 3 "abc" 5 "local" 0, type TXT (16), class IN (1)
    assert_eq!(
        wire,
        vec![
            0, 0, 0, 0, 0, 1, 0, 0, 0, 0, 0, 0, 3, b'a', b'b', b'c', 5, b'l', b'o', b'c', b'a', b'l', 0, 0, 16, 0, 1,
        ]
    );
    assert_eq!(MdnsMessage::from_wire(&wire), Some(message));
}

#[test]
fn answer_of_another_type_has_no_strings() {
    // a response with one A record for "a.local" -> 1.2.3.4
    let wire = vec![
        0, 0, 0x80, 0, 0, 0, 0, 1, 0, 0, 0, 0, 1, b'a', 5, b'l', b'o', b'c', b'a', b'l', 0, 0, 1, 0, 1, 0, 0, 0, 9, 0, 4,
        1, 2, 3, 4,
    ];
    assert_eq!(
        MdnsMessage::from_wire(&wire),
        Some(MdnsMessage {
            kind: MessageKind::Response,
            questions: vec![],
            answers: vec![TxtRecord { name: name(&["a", "local"]), ttl: 9, texts: vec![] }],
        })
    );
}

#[test]
fn what_cannot_be_written_gives_none() {
    let long_label = MdnsMessage {
        kind: MessageKind::Query,
        questions: vec![DomainName { labels: vec![vec![b'a'; 64]] }],
        answers: vec![],
    };
    assert_eq!(long_label.to_wire(), None);
    let not_utf8 = MdnsMessage {
        kind: MessageKind::Response,
        questions: vec![],
        answers: vec![TxtRecord { name: name(&["a", "local"]), ttl: 0, texts: vec![vec![0xff]] }],
    };
    assert_eq!(not_utf8.to_wire(), None);
    let long_text = MdnsMessage {
        kind: MessageKind::Response,
        questions: vec![],
        answers: vec![TxtRecord { name: name(&["a", "local"]), ttl: 0, texts: vec![vec![b'x'; 256]] }],
    };
    assert_eq!(long_text.to_wire(), None);
}

#[test]
fn truncated_datagram_is_no_message() {
    let message = MdnsMessage { kind: MessageKind::Query, questions: vec![name(&["abc", "local"])], answers: vec![] };
    let wire = message.to_wire().unwrap();
    assert_eq!(MdnsMessage::from_wire(&wire[..wire.len() - 3]), None);
    assert_eq!(MdnsMessage::from_wire(&wire[..5]), None);
}

#[test]
fn datagram_is_given_where_the_message_reads_back() {
    let message = MdnsMessage {
        kind: MessageKind::Response,
        questions: vec![name(&["abc", "dat", "local"])],
        answers: vec![TxtRecord { name: name(&["abc", "dat", "local"]), ttl: 0, texts: vec![b"token=t".to_vec()] }],
    };
    assert_eq!(message.to_datagram(), message.to_wire());
    assert!(message.to_datagram().is_some());
}

#[test]
fn datagram_is_withheld_where_the_message_changes_on_the_wire() {
    // an empty label ends a name on the wire
    let message = MdnsMessage { kind: MessageKind::Query, questions: vec![name(&["", "local"])], answers: vec![] };
    assert!(message.to_wire().is_some());
    assert_eq!(message.to_datagram(), None);
    let unwritable = MdnsMessage {
        kind: MessageKind::Query,
        questions: vec![DomainName { labels: vec![vec![b'a'; 64]] }],
        answers: vec![],
    };
    assert_eq!(unwritable.to_datagram(), None);
}

#[test]
fn messages_are_equal_field_by_field() {
    let base = MdnsMessage {
        kind: MessageKind::Response,
        questions: vec![name(&["abc", "local"])],
        answers: vec![TxtRecord { name: name(&["abc", "local"]), ttl: 5, texts: vec![b"a=b".to_vec()] }],
    };
    assert!(base.equals(&base.clone()));
    let mut other = base.clone();
    other.kind = MessageKind::Query;
    assert!(!base.equals(&other));
    let mut other = base.clone();
    other.questions.push(name(&["x"]));
    assert!(!base.equals(&other));
    let mut other = base.clone();
    other.questions[0] = name(&["ABC", "local"]);
    assert!(!base.equals(&other));
    let mut other = base.clone();
    other.answers.clear();
    assert!(!base.equals(&other));
    let mut other = base.clone();
    other.answers[0].ttl = 6;
    assert!(!base.equals(&other));
    assert!(!base.answers[0].equals(&other.answers[0]));
    let mut other = base.clone();
    other.answers[0].texts[0] = b"a=c".to_vec();
    assert!(!base.equals(&other));
    let mut other = base.clone();
    other.answers[0].name = name(&["abd", "local"]);
    assert!(!base.equals(&other));
    assert!(base.answers[0].equals(&base.answers[0].clone()));
}
