use light_ffi::{get_startus_v2, status_response, BlockCounters, Config, ConnectedNode};

fn sample() -> (Config, ConnectedNode, BlockCounters) {
    (
        Config {
            avail_path: "avail_path".to_string(),
            full_node_ws: "ws://127.0.0.1:9944".to_string(),
            app_id: Some(42),
        },
        ConnectedNode {
            host: "ws://127.0.0.1:9944".to_string(),
            system_version: "1.8.0".to_string(),
            spec_version: 11,
            genesis_hash: "0xabc".to_string(),
        },
        BlockCounters { latest: 1005, available: Some((900, 1004)) },
    )
}

#[test]
fn status_text_is_exact() {
    let (cfg, node, blocks) = sample();
    assert_eq!(
        get_startus_v2(&cfg, &node, &blocks),
        "{\"app_id\":42,\"genesis_hash\":\"0xabc\",\"network\":\"ws://127.0.0.1:9944/1.8.0/11\",\
         \"blocks\":{\"latest\":1005,\"available\":{\"first\":900,\"last\":1004}}}"
    );
}

#[test]
fn status_without_app_or_range_uses_null() {
    let (mut cfg, node, mut blocks) = sample();
    cfg.app_id = None;
    blocks.available = None;
    blocks.latest = 0;
    assert_eq!(
        get_startus_v2(&cfg, &node, &blocks),
        "{\"app_id\":null,\"genesis_hash\":\"0xabc\",\"network\":\"ws://127.0.0.1:9944/1.8.0/11\",\
         \"blocks\":{\"latest\":0,\"available\":null}}"
    );
}

#[test]
fn two_status_queries_agree() {
    let (cfg, node, blocks) = sample();
    assert_eq!(get_startus_v2(&cfg, &node, &blocks), get_startus_v2(&cfg, &node, &blocks));
}

#[test]
fn status_parses_back_to_its_fields() {
    let (cfg, node, blocks) = sample();
    let value: serde_json::Value =
        serde_json::from_str(&get_startus_v2(&cfg, &node, &blocks)).unwrap();
    assert_eq!(value["app_id"].as_u64(), Some(42));
    assert_eq!(value["genesis_hash"].as_str(), Some("0xabc"));
    assert_eq!(value["network"].as_str(), Some("ws://127.0.0.1:9944/1.8.0/11"));
    assert_eq!(value["blocks"]["latest"].as_u64(), Some(1005));
    assert_eq!(value["blocks"]["available"]["first"].as_u64(), Some(900));
    assert_eq!(value["blocks"]["available"]["last"].as_u64(), Some(1004));
}

#[test]
fn status_handles_largest_numbers() {
    let (mut cfg, node, mut blocks) = sample();
    cfg.app_id = Some(u32::MAX);
    blocks.latest = u32::MAX;
    let text = get_startus_v2(&cfg, &node, &blocks);
    assert!(text.starts_with("{\"app_id\":4294967295,"));
    assert!(text.contains("\"latest\":4294967295,"));
}

#[test]
fn failed_status_read_gives_error_envelope() {
    let (cfg, _, _) = sample();
    assert_eq!(
        status_response(&cfg, Err("node unreachable".to_string())),
        "{\"message\":\"node unreachable\"}"
    );
}

#[test]
fn successful_status_read_gives_status_text() {
    let (cfg, node, blocks) = sample();
    let expected = get_startus_v2(&cfg, &node, &blocks);
    assert_eq!(status_response(&cfg, Ok((node, blocks))), expected);
}
