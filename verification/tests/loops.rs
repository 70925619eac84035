use daman_bridge::config::{Config, ConfigError, Environment, VariableError};
use daman_bridge::intent::DispatchIntent;
use daman_bridge::mesh::{on_event, MeshAction, MeshEvent, MeshStop};
use daman_bridge::poll::{ChainReader, PollAction};
use daman_bridge::quantity::NumberError;
use daman_bridge::rpc::{
    block_number_from, block_number_request, dispatch_request, logs_from, logs_request,
    tx_hash_from, JsonRpcResponse, RpcError,
};
use daman_bridge::tone::RpcLog;
use daman_bridge::topics::topic_table;
use serde_json::Value;

fn value(text: &str) -> Value {
    serde_json::from_str(text).unwrap()
}

fn reply<T>(result: Option<T>, error: Option<Value>) -> JsonRpcResponse<T> {
    JsonRpcResponse { jsonrpc: Some("2.0".to_string()), result, error, id: Some(1) }
}

fn environment() -> Environment {
    Environment {
        runtime_dir: None,
        sock: None,
        rpc: None,
        copy_bond_addr: Ok("0xbond".to_string()),
        sender: Ok("0xsender".to_string()),
        poll_ms: None,
        euid: 1000,
    }
}

#[test]
fn defaults_apply() {
    let config = Config::from_env(environment()).unwrap();
    assert_eq!(config.sock_path, "/run/user/1000/hum/thrum.sock");
    assert_eq!(config.rpc_url, "https://rpc.testnet.arc.network");
    assert_eq!(config.copy_bond_addr, "0xbond");
    assert_eq!(config.sender, "0xsender");
    assert_eq!(config.poll_interval_ms, 4000);
}

#[test]
fn settings_override_defaults() {
    let mut env = environment();
    env.runtime_dir = Some("/tmp/run".to_string());
    env.rpc = Some("http://localhost:8545".to_string());
    env.poll_ms = Some("250".to_string());
    let config = Config::from_env(env).unwrap();
    assert_eq!(config.sock_path, "/tmp/run/hum/thrum.sock");
    assert_eq!(config.rpc_url, "http://localhost:8545");
    assert_eq!(config.poll_interval_ms, 250);
    let mut env = environment();
    env.runtime_dir = Some("/tmp/run".to_string());
    env.sock = Some("/tmp/s".to_string());
    env.poll_ms = Some("fast".to_string());
    let config = Config::from_env(env).unwrap();
    assert_eq!(config.sock_path, "/tmp/s");
    assert_eq!(config.poll_interval_ms, 4000);
}

#[test]
fn required_settings_are_required() {
    let garbled = VariableError::NotUnicode("\"\\xFF\"".to_string());
    let mut env = environment();
    env.sender = Err(VariableError::NotPresent);
    let e = Config::from_env(env).unwrap_err();
    assert_eq!(e, ConfigError::Sender(VariableError::NotPresent));
    assert_eq!(
        e.message(),
        "DAMAN_BRIDGE_SENDER is required: the EVM address the RPC will sign for"
    );
    assert_eq!(e.cause().message(), "environment variable not found");
    let mut env = environment();
    env.copy_bond_addr = Err(garbled.clone());
    let e = Config::from_env(env).unwrap_err();
    assert_eq!(e, ConfigError::CopyBondAddr(garbled.clone()));
    assert_eq!(e.message(), "DAMAN_COPY_BOND_ADDR is required");
    assert_eq!(
        e.cause().message(),
        "environment variable was not valid unicode: \"\\xFF\""
    );
    let mut env = environment();
    env.copy_bond_addr = Err(VariableError::NotPresent);
    env.sender = Err(garbled);
    let e = Config::from_env(env).unwrap_err();
    assert_eq!(e, ConfigError::CopyBondAddr(VariableError::NotPresent));
    assert_eq!(e.cause(), &VariableError::NotPresent);
}

#[test]
fn requests_have_their_parameters() {
    let r = block_number_request();
    assert_eq!((r.jsonrpc, r.method, r.id), ("2.0", "eth_blockNumber", 1));
    assert_eq!(r.params, value("[]"));

    let t = topic_table();
    let r = logs_request("0xbond", 10, 255, &t);
    assert_eq!((r.jsonrpc, r.method, r.id), ("2.0", "eth_getLogs", 2));
    let topics: Vec<String> = t.by_hash.iter().map(|e| format!("\"{}\"", e.0)).collect();
    let expected = format!(
        r#"[{{"fromBlock":"0xa","toBlock":"0xff","address":"0xbond","topics":[[{}]]}}]"#,
        topics.join(",")
    );
    assert_eq!(r.params, value(&expected));

    let intent = DispatchIntent::AttestDegradation {
        leader: "0x1".to_string(),
        evidence_hash: "0x2".to_string(),
        builder: "0x3".to_string(),
    };
    let r = dispatch_request("0xsender", "0xbond", &intent);
    assert_eq!((r.jsonrpc, r.method, r.id), ("2.0", "eth_sendTransaction", 1));
    let zeros = "0".repeat(63);
    let expected = format!(
        r#"[{{"from":"0xsender","to":"0xbond","data":"0xc0dd590e{}1{}2{}3"}}]"#,
        zeros, zeros, zeros
    );
    assert_eq!(r.params, value(&expected));
}

#[test]
fn replies_are_understood() {
    assert_eq!(block_number_from(reply(Some("0x10".to_string()), None)).unwrap(), 16);
    assert_eq!(tx_hash_from(reply(Some("0xab".to_string()), None)).unwrap(), "0xab");
    assert_eq!(logs_from(reply(None, None)).unwrap().len(), 0);
    let log = RpcLog {
        address: String::new(),
        topics: vec![],
        data: "d".to_string(),
        block_number: String::new(),
        tx_hash: String::new(),
    };
    let logs = logs_from(reply(Some(vec![log]), None)).unwrap();
    assert_eq!(logs.len(), 1);
    assert_eq!(logs[0].data, "d");
}

#[test]
fn failures_in_replies_are_reported() {
    let error = value(r#"{"message":"nope","code":-32000}"#);
    let text = r#"rpc error: {"code":-32000,"message":"nope"}"#;
    // An error counts even beside a result.
    let e = block_number_from(reply(Some("0x10".to_string()), Some(error.clone()))).unwrap_err();
    assert_eq!(e.message(), text);
    let e = tx_hash_from(reply(None, Some(error.clone()))).unwrap_err();
    assert!(matches!(e, RpcError::Reported(_)));
    assert_eq!(e.message(), text);
    let e = logs_from(reply(None, Some(error))).unwrap_err();
    assert_eq!(e.message(), text);
    assert_eq!(tx_hash_from(reply(None, None)).unwrap_err().message(), "missing tx hash");
    assert_eq!(block_number_from(reply(None, None)).unwrap_err().message(), "missing block number");
    let e = block_number_from(reply(Some("zz".to_string()), None)).unwrap_err();
    assert!(matches!(e, RpcError::Number(_)));
    assert_eq!(e.message(), "parse u64 from hex");
    assert_eq!(e.cause(), Some(NumberError::InvalidDigit));
    let e = block_number_from(reply(Some("0x".to_string()), None)).unwrap_err();
    assert_eq!(e.cause(), Some(NumberError::Empty));
    assert_eq!(tx_hash_from(reply(None, None)).unwrap_err().cause(), None);
}

#[test]
fn polls_read_each_block_once() {
    let t = topic_table();
    let mut reader = ChainReader::start(100);
    assert_eq!(reader.on_head(Some(100)), PollAction::Wait);
    assert_eq!(reader.on_head(Some(99)), PollAction::Wait);
    assert_eq!(reader.on_head(None), PollAction::Wait);
    assert_eq!(reader.on_head(Some(103)), PollAction::Fetch { from: 101, to: 103 });
    assert_eq!(reader.on_logs(103, None, &t).len(), 0);
    assert_eq!(reader.cursor, 100);
    assert_eq!(reader.on_head(Some(104)), PollAction::Fetch { from: 101, to: 104 });
    let log = RpcLog {
        address: "0xbond".to_string(),
        topics: vec![t.by_hash[5].0.clone()],
        data: "0x".to_string(),
        block_number: "0x66".to_string(),
        tx_hash: "0x1".to_string(),
    };
    let tones = reader.on_logs(104, Some(vec![log]), &t);
    assert_eq!(tones.len(), 1);
    assert_eq!(tones[0].get("chi"), Some(&Value::from("dispute-opened")));
    assert_eq!(reader.cursor, 104);
    assert_eq!(
        ChainReader::start(u64::MAX - 1).on_head(Some(u64::MAX)),
        PollAction::Fetch { from: u64::MAX, to: u64::MAX }
    );
}

#[test]
fn mesh_events_lead_to_actions() {
    match on_event(MeshEvent::Tone(value(r#"{"chi":"x"}"#))) {
        MeshAction::Send(line) => assert_eq!(line, "{\"chi\":\"x\"}\n"),
        _ => panic!("expected Send"),
    }
    let raw = r#"  {"chi":"ruling","args":{"claimId":"1","slashAmount":"2","upheld":false}}  "#;
    match on_event(MeshEvent::Line(raw.to_string())) {
        MeshAction::Dispatch(DispatchIntent::ArbiterRule { upheld, .. }) => assert!(!upheld),
        _ => panic!("expected Dispatch"),
    }
    for line in ["", "   \t", "garbage", r#"{"chi":"hello"}"#] {
        assert!(matches!(on_event(MeshEvent::Line(line.to_string())), MeshAction::Ignore));
    }
}

#[test]
fn mesh_failures_stop_the_loop() {
    match on_event(MeshEvent::Closed) {
        MeshAction::Stop(stop) => assert_eq!(stop.message(), "humd socket closed"),
        _ => panic!("expected Stop"),
    }
    match on_event(MeshEvent::ReadFailed("broken".to_string())) {
        MeshAction::Stop(stop) => {
            assert!(matches!(stop, MeshStop::ReadFailed(_)));
            assert_eq!(stop.message(), "humd read failed: broken");
        }
        _ => panic!("expected Stop"),
    }
}
