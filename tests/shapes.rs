use localchain::api::{Api, ChainAction};
use localchain::block::{BlockHeader, BlockResponse, Transaction};
use localchain::chain_config::{ChainConfig, ChainStatus};
use localchain::process::{launch_args, probe_address, ws_url, LogLine};

fn cfg(name: &str, id: u64, port: u16) -> ChainConfig {
    ChainConfig {
        name: name.to_string(),
        id,
        port,
        block_time: 1,
        fork_url: None,
        status: ChainStatus::Stopped,
    }
}

#[test]
fn next_config_on_empty_list() {
    let c = ChainConfig::next(&Vec::new());
    assert_eq!(c.name, "Chain-1");
    assert_eq!(c.id, 1);
    assert_eq!(c.port, 8545);
    assert_eq!(c.block_time, 1);
    assert_eq!(c.fork_url, None);
    assert_eq!(c.status, ChainStatus::Stopped);
}

#[test]
fn next_config_goes_above_largest() {
    let existing = vec![cfg("a", 3, 9000), cfg("b", 7, 8600), cfg("c", 5, 100)];
    let c = ChainConfig::next(&existing);
    assert_eq!(c.name, "Chain-4");
    assert_eq!(c.id, 8);
    assert_eq!(c.port, 9001);
    let low = ChainConfig::next(&vec![cfg("a", 1, 100), cfg("b", 2, 300), cfg("c", 3, 200)]);
    assert_eq!(low.port, 301);
}

#[test]
fn next_config_uses_largest_port_even_when_low() {
    let c = ChainConfig::next(&vec![cfg("a", 12, 80)]);
    assert_eq!(c.port, 81);
    assert_eq!(c.id, 13);
    assert_eq!(c.name, "Chain-2");
}

#[test]
fn status_offers() {
    assert!(ChainStatus::Stopped.can_start());
    assert!(!ChainStatus::Running.can_start());
    assert!(ChainStatus::Running.can_stop());
    assert!(!ChainStatus::Error.can_stop());
    assert!(ChainStatus::Error.can_restart());
    assert!(ChainStatus::Running.can_restart());
    assert!(!ChainStatus::Starting.can_restart());
    assert_eq!(ChainStatus::Starting.label(), "Starting");
}

#[test]
fn launch_arguments() {
    let mut c = cfg("a", 31337, 9000);
    c.block_time = 12;
    assert_eq!(
        launch_args(&c),
        vec!["--port", "9000", "--chain-id", "31337", "--block-time", "12"]
    );
    c.fork_url = Some("https://rpc.example".to_string());
    assert_eq!(
        launch_args(&c),
        vec![
            "--port",
            "9000",
            "--chain-id",
            "31337",
            "--block-time",
            "12",
            "--fork-url",
            "https://rpc.example"
        ]
    );
    assert_eq!(probe_address(9000), "127.0.0.1:9000");
    assert_eq!(ws_url(8545), "ws://127.0.0.1:8545");
}

#[test]
fn log_lines_render_with_origin() {
    assert_eq!(LogLine::Stdout("hi".to_string()).render(), "[stdout] hi");
    assert_eq!(LogLine::Stderr("oops".to_string()).render(), "[stderr] oops");
    assert_eq!(LogLine::Stopped.render(), "[manager] stopped");
}

#[test]
fn block_projection() {
    let header = BlockHeader {
        beneficiary: "0xabc".to_string(),
        gas_limit: 100,
        gas_used: 42,
        number: 9,
        hash: "0xh9".to_string(),
        time: 1_700_000_000,
        nonce: "0x00".to_string(),
    };
    let txs = vec![
        ("0xt1".to_string(), "0xf1".to_string()),
        ("0xt2".to_string(), "0xf2".to_string()),
    ];
    let r = BlockResponse::project(header, &txs);
    assert_eq!(r.block.number, 9);
    assert_eq!(r.block.transactions, 2);
    assert_eq!(r.block.gas_used, 42);
    assert_eq!(r.block.hash, "0xh9");
    assert_eq!(
        r.transactions[1],
        Transaction {
            hash: "0xt2".to_string(),
            from: "0xf2".to_string(),
            block_number: 9,
            index: 1
        }
    );
}

#[test]
fn api_urls() {
    let api = Api::init("http://localhost:3000".to_string());
    let same = api.instance();
    assert_eq!(same.chains_url(), "http://localhost:3000/api/chains");
    assert_eq!(
        api.action_url(12, ChainAction::Restart),
        "http://localhost:3000/api/chains/12/restart"
    );
    assert_eq!(api.block_url(1, 250), "http://localhost:3000/api/1/250");
    assert_eq!(Api::log_stream_url(4), "/api/chains/4/logstream");
    assert_eq!(Api::block_stream_url(4), "/api/chains/4/blockstream");
    assert_eq!(Api::init(String::new()).chains_url(), "/api/chains");
}

#[test]
fn api_status_check() {
    assert_eq!(Api::check_status(200), Ok(()));
    assert_eq!(Api::check_status(204), Ok(()));
    assert_eq!(Api::check_status(404), Err("HTTP 404".to_string()));
    assert_eq!(Api::check_status(199), Err("HTTP 199".to_string()));
}
