use daman_bridge::intent::{dispatch_from_tone, parse_inbound_dispatch, DispatchIntent};
use daman_bridge::json::encode_line;
use daman_bridge::tone::{hello, log_to_tone, logs_to_tones, RpcLog, BEE_NAME};
use daman_bridge::topics::{topic_table, TopicTable};
use serde_json::Value;

const LEADER_BOND_POSTED: &str =
    "0x2402c0dbbc8b5765a080ccdfb859dcedece472471154be2ace8e133a66a55a74";
const ARBITER_RULED: &str = "0xbfdeb5082f9a3b9991c7886e4c09995c3ec67eed1f89b3134fd154b86817764b";

fn log(topics: &[&str], block_number: &str) -> RpcLog {
    RpcLog {
        address: "0xc0ffee".to_string(),
        topics: topics.iter().map(|t| t.to_string()).collect(),
        data: "0x01\n\"\\".to_string(),
        block_number: block_number.to_string(),
        tx_hash: "0xfeed".to_string(),
    }
}

fn value(text: &str) -> Value {
    serde_json::from_str(text).unwrap()
}

#[test]
fn topic_table_contains_known_signatures() {
    let t = topic_table();
    // Check that all 8 mappings are present.
    assert_eq!(t.by_hash.len(), 8);
}

#[test]
fn parse_inbound_dispatch_handles_slash_claim() {
    let raw = r#"{"chi":"slash-claim","args":{"leader":"0xabc","evidenceHash":"0xdef","builder":"0xf00d"}}"#;
    let intent = parse_inbound_dispatch(raw).unwrap();
    match intent {
        DispatchIntent::AttestDegradation { leader, evidence_hash, builder } => {
            assert_eq!(leader, "0xabc");
            assert_eq!(evidence_hash, "0xdef");
            assert_eq!(builder, "0xf00d");
        }
        _ => panic!("expected AttestDegradation"),
    }
}

#[test]
fn topics_map_to_their_chis() {
    let t = topic_table();
    assert_eq!(t.chi_of(LEADER_BOND_POSTED), Some("leader-bond-posted"));
    assert_eq!(t.chi_of(ARBITER_RULED), Some("ruling"));
    assert_eq!(t.chi_of("0x00"), None);
    assert_eq!(t.chi_of(""), None);
    let chis: Vec<&str> = t.by_hash.iter().map(|e| e.1).collect();
    assert_eq!(
        chis,
        vec![
            "leader-bond-posted",
            "follower-subscribed",
            "trade-executed",
            "settlement-completed",
            "degradation-detected",
            "dispute-opened",
            "ruling",
            "bond-slashed",
        ]
    );
}

#[test]
fn topics_are_prefixed_digests() {
    for entry in topic_table().by_hash.iter() {
        assert_eq!(entry.0.len(), 66);
        assert!(entry.0.starts_with("0x"));
    }
}

#[test]
fn a_later_chi_replaces_an_earlier_one() {
    let mut t = TopicTable::new();
    assert_eq!(t.chi_of("0x1"), None);
    t.insert("0x1".to_string(), "first");
    t.insert("0x2".to_string(), "second");
    t.insert("0x1".to_string(), "third");
    assert_eq!(t.by_hash.len(), 2);
    assert_eq!(t.chi_of("0x1"), Some("third"));
    assert_eq!(t.chi_of("0x2"), Some("second"));
}

#[test]
fn ruling_is_parsed() {
    let raw = r#"{"chi":"ruling","args":{"claimId":"0x7","slashAmount":"0x64","upheld":true}}"#;
    match parse_inbound_dispatch(raw).unwrap() {
        DispatchIntent::ArbiterRule { claim_id, slash_amount, upheld, builder } => {
            assert_eq!(claim_id, "0x7");
            assert_eq!(slash_amount, "0x64");
            assert!(upheld);
            assert_eq!(builder, "0x".to_string() + &"0".repeat(64));
        }
        _ => panic!("expected ArbiterRule"),
    }
}

#[test]
fn builder_defaults_to_zeros() {
    for builder in ["", r#","builder":7"#, r#","builder":null"#] {
        let raw = format!(
            r#"{{"chi":"slash-claim","args":{{"leader":"a","evidenceHash":"b"{}}}}}"#,
            builder
        );
        match parse_inbound_dispatch(&raw).unwrap() {
            DispatchIntent::AttestDegradation { builder, .. } => {
                assert_eq!(builder, "0x".to_string() + &"0".repeat(64));
            }
            _ => panic!("expected AttestDegradation"),
        }
    }
}

#[test]
fn other_lines_ask_for_nothing() {
    let lines = [
        "",
        "not json",
        "[]",
        "7",
        "{}",
        r#"{"chi":"slash-claim"}"#,
        r#"{"args":{}}"#,
        r#"{"chi":7,"args":{}}"#,
        r#"{"chi":"slash-claim","args":[]}"#,
        r#"{"chi":"slash-claim","args":{"leader":"a"}}"#,
        r#"{"chi":"slash-claim","args":{"leader":1,"evidenceHash":"b"}}"#,
        r#"{"chi":"ruling","args":{"claimId":"a","slashAmount":"b"}}"#,
        r#"{"chi":"ruling","args":{"claimId":"a","slashAmount":"b","upheld":"true"}}"#,
        r#"{"chi":"ruling","args":{"claimId":"a","slashAmount":5,"upheld":true}}"#,
        r#"{"chi":"hello","args":{"leader":"a","evidenceHash":"b"}}"#,
        r#"{"chi":"slash-claim","args":{"leader":"a","evidenceHash":"b"}} x"#,
    ];
    for line in lines {
        assert!(parse_inbound_dispatch(line).is_none());
    }
}

#[test]
fn a_tone_value_is_read_like_its_line() {
    let raw = r#"{"chi":"slash-claim","args":{"leader":"a","evidenceHash":"b"}}"#;
    assert!(matches!(
        dispatch_from_tone(&value(raw)),
        Some(DispatchIntent::AttestDegradation { .. })
    ));
    assert!(dispatch_from_tone(&Value::Null).is_none());
}

#[test]
fn a_listed_event_becomes_a_tone() {
    let t = topic_table();
    let tone = log_to_tone(&log(&[LEADER_BOND_POSTED, "0xaa"], "0x1f"), &t).unwrap();
    let expected = format!(
        r#"{{"chi":"leader-bond-posted","args":{{"topics":["{}","0xaa"],"data":"0x01\n\"\\","blockNumber":31,"txHash":"0xfeed"}}}}"#,
        LEADER_BOND_POSTED
    );
    assert_eq!(tone, value(&expected));
}

#[test]
fn a_block_may_be_written_in_several_ways() {
    let t = topic_table();
    for block in ["0x1f", "0x001F", "1f", "0x0x1f", "+1f"] {
        let tone = log_to_tone(&log(&[LEADER_BOND_POSTED], block), &t).unwrap();
        assert_eq!(tone.pointer("/args/blockNumber"), Some(&Value::from(31u64)));
    }
}

#[test]
fn other_logs_have_no_tone() {
    let t = topic_table();
    assert!(log_to_tone(&log(&[], "0x1"), &t).is_none());
    assert!(log_to_tone(&log(&["0xaa", LEADER_BOND_POSTED], "0x1"), &t).is_none());
    assert!(log_to_tone(&log(&[LEADER_BOND_POSTED], "0xzz"), &t).is_none());
    assert!(log_to_tone(&log(&[LEADER_BOND_POSTED], ""), &t).is_none());
}

#[test]
fn tones_keep_the_order_of_the_logs() {
    let t = topic_table();
    let logs = vec![
        log(&[LEADER_BOND_POSTED], "0x1"),
        log(&["0xaa"], "0x2"),
        log(&[ARBITER_RULED], "0x3"),
        log(&[LEADER_BOND_POSTED], "latest"),
        log(&[LEADER_BOND_POSTED], "0x5"),
    ];
    let tones = logs_to_tones(&logs, &t);
    let numbers: Vec<u64> =
        tones.iter().map(|v| v.pointer("/args/blockNumber").unwrap().as_u64().unwrap()).collect();
    assert_eq!(numbers, vec![1, 3, 5]);
    let mut pieces = logs_to_tones(&logs[..2].to_vec(), &t);
    pieces.extend(logs_to_tones(&logs[2..].to_vec(), &t));
    assert_eq!(pieces, tones);
}

#[test]
fn own_tones_are_not_answered() {
    let t = topic_table();
    let tone = log_to_tone(&log(&[ARBITER_RULED], "0x3"), &t).unwrap();
    assert_eq!(tone.get("chi"), Some(&Value::from("ruling")));
    assert!(dispatch_from_tone(&tone).is_none());
    let line = encode_line(&tone);
    assert!(parse_inbound_dispatch(line.trim_end()).is_none());
    assert!(dispatch_from_tone(&hello("1")).is_none());
}

#[test]
fn a_line_has_one_line_feed_and_reads_back() {
    let t = topic_table();
    let tone = log_to_tone(&log(&[ARBITER_RULED], "0xffffffffffffffff"), &t).unwrap();
    let line = encode_line(&tone);
    assert!(line.ends_with('\n'));
    assert_eq!(line.matches('\n').count(), 1);
    assert_eq!(value(&line), tone);
    assert_eq!(encode_line(&Value::Null), "null\n");
    assert_eq!(encode_line(&value(r#"{"b":[1,true],"a":"x"}"#)), "{\"a\":\"x\",\"b\":[1,true]}\n");
}

#[test]
fn integers_read_back() {
    for n in [-1, -9, -10, -4096, i64::MIN + 1, i64::MIN] {
        let v = Value::Array(vec![Value::from(n), Value::from(u64::MAX), Value::from(0u64)]);
        let line = encode_line(&v);
        assert_eq!(line, format!("[{},18446744073709551615,0]\n", n));
        assert_eq!(value(&line), v);
    }
}

#[test]
fn nesting_up_to_the_limit_reads_back() {
    let mut v = Value::from(1u64);
    for _ in 0..127 {
        v = Value::Array(vec![v]);
    }
    assert_eq!(value(&encode_line(&v)), v);
    let deeper = Value::Array(vec![v]);
    assert!(serde_json::from_str::<Value>(&encode_line(&deeper)).is_err());
}

#[test]
fn greeting_announces_the_bridge() {
    let greeting = hello("0.1.0");
    let expected = r#"{
        "chi": "hello",
        "bee": ["forager"],
        "chis": [
            "leader-bond-posted","follower-subscribed","trade-executed","settlement-completed",
            "degradation-detected","dispute-opened","ruling","bond-slashed",
            "slash-claim"
        ],
        "name": "daman-bridge",
        "version": "0.1.0"
    }"#;
    assert_eq!(greeting, value(expected));
    assert_eq!(BEE_NAME, "daman-bridge");
    for entry in topic_table().by_hash.iter() {
        let chis = greeting.get("chis").unwrap().as_array().unwrap();
        assert!(chis.contains(&Value::from(entry.1)));
    }
}
