use ros_client::api::ListCollector;
use ros_client::api::TalkState;
use ros_client::api::add_request_words;
use ros_client::api::delete_request_words;
use ros_client::api::list_request_words;
use ros_client::api::login_request_words;
use ros_client::api::login_succeeded;
use ros_client::api::set_request_words;
use ros_client::frame::decode_len;
use ros_client::frame::encode_len;
use ros_client::frame::len_extra_bytes;
use ros_client::resources::BridgePort;
use ros_client::words::ApiReplyType;
use ros_client::words::ApiWord;
use ros_client::words::Query;

fn word_text(w: &ApiWord) -> String {
    w.encode()
}

#[test]
fn length_prefix_round_trip_and_minimal_width() {
    let cases: [(u32, usize); 11] = [
        (0, 1),
        (0x7F, 1),
        (0x80, 2),
        (0x3FFF, 2),
        (0x4000, 3),
        (0x1F_FFFF, 3),
        (0x20_0000, 4),
        (0xFFF_FFFF, 4),
        (0x1000_0000, 5),
        (0x1234_5678, 5),
        (u32::MAX, 5),
    ];
    for (n, width) in cases {
        let encoded = encode_len(n);
        assert_eq!(width, encoded.len());
        let decoded = decode_len(&encoded, 0);
        assert_eq!(Some((n, width)), decoded);
    }
}

#[test]
fn length_prefix_forms() {
    assert_eq!(vec![0x05u8], encode_len(5));
    assert_eq!(vec![0x80u8, 0x80], encode_len(0x80));
    assert_eq!(vec![0xC0u8, 0x40, 0x00], encode_len(0x4000));
    assert_eq!(Some(0u8), len_extra_bytes(0x05));
    assert_eq!(Some(1u8), len_extra_bytes(0x80));
    assert_eq!(Some(2u8), len_extra_bytes(0xC0));
    assert_eq!(Some(3u8), len_extra_bytes(0xE0));
    assert_eq!(Some(4u8), len_extra_bytes(0xF0));
    assert_eq!(None, len_extra_bytes(0xF8));
    // a non-minimal but well-formed length is still accepted
    let wide = vec![0x80u8, 0x05];
    assert_eq!(Some((5, 2)), decode_len(&wide, 0));
}

#[test]
fn word_grammar_parses() {
    match ApiWord::parse("/interface/bridge/print").unwrap().unwrap() {
        ApiWord::Command(p) => assert_eq!("interface/bridge/print", p),
        w => panic!("unexpected word: {:?}", w),
    }
    match ApiWord::parse("=comment=hello").unwrap().unwrap() {
        ApiWord::Attribute { key, value } => {
            assert_eq!("comment", key);
            assert_eq!("hello", value);
        },
        w => panic!("unexpected word: {:?}", w),
    }
    match ApiWord::parse("=disabled").unwrap().unwrap() {
        ApiWord::Attribute { key, value } => {
            assert_eq!("disabled", key);
            assert_eq!("", value);
        },
        w => panic!("unexpected word: {:?}", w),
    }
    match ApiWord::parse(".id=*1").unwrap().unwrap() {
        ApiWord::ApiAttribute { key, value } => {
            assert_eq!("id", key);
            assert_eq!("*1", value);
        },
        w => panic!("unexpected word: {:?}", w),
    }
    assert!(matches!(
        ApiWord::parse("!done").unwrap().unwrap(),
        ApiWord::Reply(ApiReplyType::Done)
    ));
    assert!(matches!(
        ApiWord::parse("!re").unwrap().unwrap(),
        ApiWord::Reply(ApiReplyType::Data)
    ));
    assert!(matches!(
        ApiWord::parse("!trap").unwrap().unwrap(),
        ApiWord::Reply(ApiReplyType::Trap)
    ));
    assert!(matches!(
        ApiWord::parse("!anything").unwrap().unwrap(),
        ApiWord::Reply(ApiReplyType::Fatal)
    ));
    assert!(ApiWord::parse("").unwrap().is_none());
    assert!(ApiWord::parse("bogus").is_err());
}

#[test]
fn query_grammar() {
    assert!(matches!(
        ApiWord::parse("?name").unwrap().unwrap(),
        ApiWord::Query(Query::HasValue(k)) if k == "name"
    ));
    assert!(matches!(
        ApiWord::parse("?-name").unwrap().unwrap(),
        ApiWord::Query(Query::HasNoValue(k)) if k == "name"
    ));
    assert!(matches!(
        ApiWord::parse("?=name=x").unwrap().unwrap(),
        ApiWord::Query(Query::Equals { key, value }) if key == "name" && value == "x"
    ));
    assert!(matches!(
        ApiWord::parse("?<mtu=1500").unwrap().unwrap(),
        ApiWord::Query(Query::Lt { key, value }) if key == "mtu" && value == "1500"
    ));
    assert!(matches!(
        ApiWord::parse("?>mtu=1500").unwrap().unwrap(),
        ApiWord::Query(Query::Gt { key, value }) if key == "mtu" && value == "1500"
    ));
    assert_eq!("?name", word_text(&ApiWord::Query(Query::HasValue("name".into()))));
    assert_eq!("?-name", word_text(&ApiWord::Query(Query::HasNoValue("name".into()))));
    assert_eq!(
        "?<mtu=1500",
        word_text(&ApiWord::Query(Query::Lt { key: "mtu".into(), value: "1500".into() }))
    );
    assert_eq!(
        "?>mtu=1500",
        word_text(&ApiWord::Query(Query::Gt { key: "mtu".into(), value: "1500".into() }))
    );
}

#[test]
fn word_encode() {
    assert_eq!("/login", word_text(&ApiWord::command("login")));
    assert_eq!("=name=dev", word_text(&ApiWord::attribute("name", "dev")));
    assert_eq!("!done", word_text(&ApiWord::Reply(ApiReplyType::Done)));
    assert_eq!("!fatal", word_text(&ApiWord::Reply(ApiReplyType::Fatal)));
}

#[test]
fn request_sentences() {
    let mut port = BridgePort::default();
    port.id.set_from_api("*1").unwrap();
    port.comment.set(String::from("hi"));
    let set_words: Vec<String> = set_request_words(&port).iter().map(word_text).collect();
    assert_eq!(
        vec!["/interface/bridge/port/set", "=.id=*1", "=comment=hi"],
        set_words
    );
    let add_words: Vec<String> = add_request_words(&port).iter().map(word_text).collect();
    assert_eq!(vec!["/interface/bridge/port/add", "=comment=hi"], add_words);
    let del_words: Vec<String> = delete_request_words(&port).iter().map(word_text).collect();
    assert_eq!(vec!["/interface/bridge/port/remove", "=.id=*1"], del_words);
    let fresh = BridgePort::default();
    assert!(delete_request_words(&fresh).is_empty());
    let list_words: Vec<String> = list_request_words::<BridgePort>().iter().map(word_text).collect();
    assert_eq!(vec!["/interface/bridge/port/print"], list_words);
    let login: Vec<String> = login_request_words("dev", "secret").iter().map(word_text).collect();
    assert_eq!(vec!["/login", "=name=dev", "=password=secret"], login);
}

#[test]
fn login_check() {
    let ok = vec![ApiWord::Reply(ApiReplyType::Done)];
    assert!(login_succeeded(&ok));
    let trap = vec![ApiWord::Reply(ApiReplyType::Trap)];
    assert!(!login_succeeded(&trap));
    assert!(!login_succeeded(&Vec::new()));
}

#[test]
fn talk_state_machine() {
    let mut talk = TalkState::new();
    // a terminator with no row open ends the conversation
    assert!(talk.on_word(&None));
    let mut talk = TalkState::new();
    assert!(!talk.on_word(&Some(ApiWord::Reply(ApiReplyType::Data))));
    // the terminator after a row only closes the row
    assert!(!talk.on_word(&None));
    assert!(talk.on_word(&None));
    assert!(talk.finish().is_ok());
    let mut failing = TalkState::new();
    failing.push_err(ros_client::RosError::SimpleMessage(String::from("boom")));
    failing.push_err(ros_client::RosError::SimpleMessage(String::from("again")));
    match failing.finish() {
        Err(ros_client::RosError::Umbrella(collected)) => {
            assert_eq!(2, collected.len());
            assert!(matches!(
                &collected[0],
                ros_client::RosError::SimpleMessage(m) if m == "boom"
            ));
            assert!(matches!(
                &collected[1],
                ros_client::RosError::SimpleMessage(m) if m == "again"
            ));
        },
        other => panic!("expected the collected failures, got {:?}", other),
    }
}

#[test]
fn list_collector_rows() {
    let mut collector: ListCollector<BridgePort> = ListCollector::new();
    collector.on_word(ApiWord::Reply(ApiReplyType::Data)).unwrap();
    collector.on_word(ApiWord::attribute("comment", "hi")).unwrap();
    collector.on_word(ApiWord::attribute("pvid", "7")).unwrap();
    collector.on_word(ApiWord::Reply(ApiReplyType::Done)).unwrap();
    let rows = collector.finish();
    assert_eq!(1, rows.len());
    assert_eq!(Some(String::from("hi")), *rows[0].comment.get());
    assert_eq!(Some(7u16), *rows[0].pvid.get());
}

#[test]
fn list_collector_unknown_field() {
    let mut collector: ListCollector<BridgePort> = ListCollector::new();
    collector.on_word(ApiWord::Reply(ApiReplyType::Data)).unwrap();
    match collector.on_word(ApiWord::attribute("nonsense", "1")) {
        Err(ros_client::RosError::FieldMissingError { field_name, field_value }) => {
            assert_eq!("nonsense", field_name);
            assert_eq!("1", field_value);
        },
        other => panic!("expected a missing-field failure, got {:?}", other),
    }
}

#[test]
fn list_collector_bad_value() {
    let mut collector: ListCollector<BridgePort> = ListCollector::new();
    collector.on_word(ApiWord::Reply(ApiReplyType::Data)).unwrap();
    let out = collector.on_word(ApiWord::attribute("pvid", "abc"));
    match out {
        Err(ros_client::RosError::FieldWriteError { field_name, field_value, .. }) => {
            assert_eq!("pvid", field_name);
            assert_eq!("abc", field_value);
        },
        other => panic!("expected a field write failure, got {:?}", other),
    }
}

#[test]
fn list_collector_missing_category() {
    let mut collector: ListCollector<BridgePort> = ListCollector::new();
    collector.on_word(ApiWord::Reply(ApiReplyType::Trap)).unwrap();
    collector
        .on_word(ApiWord::attribute("message", "no such command prefix"))
        .unwrap();
    collector.on_word(ApiWord::Reply(ApiReplyType::Done)).unwrap();
    let rows = collector.finish();
    assert_eq!(0, rows.len());
}

#[test]
fn list_collector_real_trap() {
    let mut collector: ListCollector<BridgePort> = ListCollector::new();
    collector.on_word(ApiWord::Reply(ApiReplyType::Trap)).unwrap();
    collector.on_word(ApiWord::attribute("message", "permission denied")).unwrap();
    assert!(collector.on_word(ApiWord::Reply(ApiReplyType::Done)).is_err());
}
