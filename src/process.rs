use vstd::prelude::*;

use crate::chain_config::{decimal, decimal_string, ChainConfig};

verus! {

/// Number of failed connection probes after which a start gives up.
pub const PROBE_LIMIT: u32 = 50;

/// Milliseconds to wait between two connection probes, and the time each
/// probe may take.
pub const PROBE_INTERVAL_MS: u64 = 100;

/// One line of a chain's log, tagged with where it came from.
#[derive(Debug, PartialEq, Eq)]
pub enum LogLine {
    Stdout(String),
    Stderr(String),
    /// Written by the manager when a chain has been stopped.
    Stopped,
}

impl Clone for LogLine {
    fn clone(&self) -> (r: Self)
        ensures
            r == *self,
    {
        match self {
            LogLine::Stdout(s) => LogLine::Stdout(s.clone()),
            LogLine::Stderr(s) => LogLine::Stderr(s.clone()),
            LogLine::Stopped => LogLine::Stopped,
        }
    }
}

pub open spec fn rendered(line: LogLine) -> Seq<char> {
    match line {
        LogLine::Stdout(s) => "[stdout] "@ + s@,
        LogLine::Stderr(s) => "[stderr] "@ + s@,
        LogLine::Stopped => "[manager] stopped"@,
    }
}

impl LogLine {
    /// The line as shown to log viewers, prefixed by its origin.
    pub fn render(&self) -> (r: String)
        ensures
            r@ == rendered(*self),
    {
        match self {
            LogLine::Stdout(s) => {
                let mut r = String::from_str("[stdout] ");
                r.append(s.as_str());
                r
            },
            LogLine::Stderr(s) => {
                let mut r = String::from_str("[stderr] ");
                r.append(s.as_str());
                r
            },
            LogLine::Stopped => String::from_str("[manager] stopped"),
        }
    }
}

/// Command-line arguments of the node for `cfg`.
pub open spec fn launch_args_of(cfg: ChainConfig) -> Seq<Seq<char>> {
    let base = seq![
        "--port"@,
        decimal(cfg.port as nat),
        "--chain-id"@,
        decimal(cfg.id as nat),
        "--block-time"@,
        decimal(cfg.block_time as nat),
    ];
    match cfg.fork_url {
        Some(u) => base + seq!["--fork-url"@, u@],
        None => base,
    }
}

/// The arguments the node is launched with: its port, chain id, block time
/// and, when set, the endpoint to fork from.
pub fn launch_args(cfg: &ChainConfig) -> (r: Vec<String>)
    ensures
        r@.map_values(|s: String| s@) == launch_args_of(*cfg),
{
    let mut r: Vec<String> = Vec::new();
    r.push(String::from_str("--port"));
    r.push(decimal_string(cfg.port as u64));
    r.push(String::from_str("--chain-id"));
    r.push(decimal_string(cfg.id));
    r.push(String::from_str("--block-time"));
    r.push(decimal_string(cfg.block_time));
    match &cfg.fork_url {
        Some(u) => {
            r.push(String::from_str("--fork-url"));
            r.push(u.clone());
        },
        None => {},
    }
    assert(r@.map_values(|s: String| s@) =~= launch_args_of(*cfg));
    r
}

/// Local address at which the node's endpoint is probed.
pub fn probe_address(port: u16) -> (r: String)
    ensures
        r@ == "127.0.0.1:"@ + decimal(port as nat),
{
    let mut r = String::from_str("127.0.0.1:");
    let digits = decimal_string(port as u64);
    r.append(digits.as_str());
    r
}

/// WebSocket URL of the node's endpoint.
pub fn ws_url(port: u16) -> (r: String)
    ensures
        r@ == "ws://127.0.0.1:"@ + decimal(port as nat),
{
    let mut r = String::from_str("ws://127.0.0.1:");
    let digits = decimal_string(port as u64);
    r.append(digits.as_str());
    r
}

/// Outcome of a piece of outside work that a step asked for.
#[derive(Debug)]
pub enum Event {
    /// The node process was asked to terminate; the error is the kill call's.
    Killed(Result<(), String>),
    /// The node process was launched, or could not be.
    Spawned(Result<(), String>),
    /// Whether a TCP connection to the node's port succeeded.
    Probed(bool),
    /// The RPC connection and head subscription were opened, or failed.
    Connected(Result<(), String>),
}

/// What the caller must do next for a chain.
#[derive(Debug, PartialEq, Eq)]
pub enum Step {
    /// Terminate the node process and wait for it, then report `Killed`.
    Kill,
    /// Launch the node with `launch_args`, pipe its output, report `Spawned`.
    Spawn,
    /// Try to connect to `probe_address`, report `Probed`.
    Probe,
    /// Wait `PROBE_INTERVAL_MS`, then probe again.
    RetryProbe,
    /// Open the RPC connection at `ws_url` and subscribe to new heads,
    /// report `Connected`.
    Connect,
    /// The request was recorded while another operation on the chain was
    /// under way (a stop, or a delete); that operation carries it out at its
    /// next step. Wait until the chain is settled.
    Await,
    /// The operation is over.
    Done(Result<(), crate::registry::ManagerError>),
}

} // verus!
