use localchain::block::{Block, BlockHeader};
use localchain::fanout::Received;
use localchain::chain_config::{ChainConfig, ChainStatus};
use localchain::process::{Event, LogLine, Step, PROBE_LIMIT};
use localchain::registry::{ChainsManager, ManagerError};

fn config(id: u64, port: u16, block_time: u64) -> ChainConfig {
    ChainConfig {
        name: format!("chain{}", id),
        id,
        port,
        block_time,
        fork_url: None,
        status: ChainStatus::Stopped,
    }
}

fn status_of(m: &ChainsManager, id: u64) -> ChainStatus {
    m.config(id).unwrap().status
}

fn head(number: u64) -> BlockHeader {
    BlockHeader {
        beneficiary: "0x0000000000000000000000000000000000000000".to_string(),
        gas_limit: 30_000_000,
        gas_used: 21_000,
        number,
        hash: format!("0xhash{}", number),
        time: 1_700_000_000 + number,
        nonce: "0x0000000000000000".to_string(),
    }
}

/// Drives a start from its first step to the end with a node that behaves.
fn run_start(m: &mut ChainsManager, id: u64) -> Step {
    let mut step = m.start(id);
    loop {
        step = match step {
            Step::Kill => m.on_event(id, Event::Killed(Ok(()))),
            Step::Spawn => m.on_event(id, Event::Spawned(Ok(()))),
            Step::Probe | Step::RetryProbe => m.on_event(id, Event::Probed(true)),
            Step::Connect => m.on_event(id, Event::Connected(Ok(()))),
            other => return other,
        }
    }
}

#[test]
fn create_lists_the_chain_once_stopped() {
    let mut m = ChainsManager::new();
    let mut cfg = config(7, 9100, 2);
    cfg.status = ChainStatus::Running;
    assert_eq!(m.create(cfg), Ok(7));
    m.create(config(8, 9101, 1)).unwrap();
    let list = m.list();
    let hits: Vec<&ChainConfig> = list.iter().filter(|c| c.id == 7).collect();
    assert_eq!(hits.len(), 1);
    let mut expected = config(7, 9100, 2);
    expected.status = ChainStatus::Stopped;
    assert_eq!(hits[0], &expected);
    assert_eq!(list.len(), 2);
}

#[test]
fn create_with_taken_id_fails_and_keeps_entry() {
    let mut m = ChainsManager::new();
    m.create(config(1, 9000, 1)).unwrap();
    let mut other = config(1, 9999, 5);
    other.name = "other".to_string();
    assert_eq!(m.create(other), Err(ManagerError::DuplicateId));
    let list = m.list();
    assert_eq!(list.len(), 1);
    assert_eq!(list[0], config(1, 9000, 1));
}

#[test]
fn start_unknown_is_not_found_and_changes_nothing() {
    let mut m = ChainsManager::new();
    m.create(config(1, 9000, 1)).unwrap();
    let before = m.list();
    assert_eq!(m.start(5), Step::Done(Err(ManagerError::NotFound)));
    assert_eq!(m.list(), before);
}

#[test]
fn start_then_stop_sets_status_and_marks_log() {
    let mut m = ChainsManager::new();
    m.create(config(1, 9000, 1)).unwrap();
    let sub = m.subscribe_logs(1).unwrap();
    assert_eq!(m.start(1), Step::Spawn);
    assert_eq!(status_of(&m, 1), ChainStatus::Starting);
    assert_eq!(m.on_event(1, Event::Spawned(Ok(()))), Step::Probe);
    assert_eq!(m.on_event(1, Event::Probed(true)), Step::Connect);
    assert_eq!(m.on_event(1, Event::Connected(Ok(()))), Step::Done(Ok(())));
    assert_eq!(status_of(&m, 1), ChainStatus::Running);
    assert_eq!(m.query(1), Ok(()));
    assert_eq!(m.stop(1), Step::Kill);
    assert_eq!(m.on_event(1, Event::Killed(Ok(()))), Step::Done(Ok(())));
    assert_eq!(status_of(&m, 1), ChainStatus::Stopped);
    assert_eq!(m.query(1), Err(ManagerError::NotConnected));
    assert_eq!(m.next_log(1, sub), Ok(Received::Item(LogLine::Stopped)));
    assert_eq!(m.next_log(1, sub), Ok(Received::Empty));
}

#[test]
fn stop_reports_kill_failure_but_counts_as_stopped() {
    let mut m = ChainsManager::new();
    m.create(config(1, 9000, 1)).unwrap();
    assert_eq!(run_start(&mut m, 1), Step::Done(Ok(())));
    let sub = m.subscribe_logs(1).unwrap();
    assert_eq!(m.stop(1), Step::Kill);
    assert_eq!(
        m.on_event(1, Event::Killed(Err("no such process".to_string()))),
        Step::Done(Err(ManagerError::Terminate("no such process".to_string())))
    );
    assert_eq!(status_of(&m, 1), ChainStatus::Stopped);
    assert_eq!(m.next_log(1, sub), Ok(Received::Item(LogLine::Stopped)));
    assert_eq!(m.next_log(1, sub), Ok(Received::Empty));
    assert_eq!(m.start(1), Step::Spawn);
}

#[test]
fn stop_of_stopped_chain_is_immediate() {
    let mut m = ChainsManager::new();
    m.create(config(3, 9003, 1)).unwrap();
    assert_eq!(m.stop(3), Step::Done(Ok(())));
    assert_eq!(status_of(&m, 3), ChainStatus::Stopped);
}

#[test]
fn restart_marks_stop_before_new_output() {
    let mut m = ChainsManager::new();
    m.create(config(1, 9000, 1)).unwrap();
    assert_eq!(run_start(&mut m, 1), Step::Done(Ok(())));
    let sub = m.subscribe_logs(1).unwrap();
    m.publish_log(1, LogLine::Stdout("old".to_string())).unwrap();
    assert_eq!(m.restart(1), Step::Kill);
    assert_eq!(m.on_event(1, Event::Killed(Ok(()))), Step::Spawn);
    assert_eq!(status_of(&m, 1), ChainStatus::Starting);
    assert_eq!(m.on_event(1, Event::Spawned(Ok(()))), Step::Probe);
    m.publish_log(1, LogLine::Stdout("new".to_string())).unwrap();
    assert_eq!(m.on_event(1, Event::Probed(true)), Step::Connect);
    assert_eq!(m.on_event(1, Event::Connected(Ok(()))), Step::Done(Ok(())));
    assert_eq!(status_of(&m, 1), ChainStatus::Running);
    assert_eq!(m.next_log(1, sub), Ok(Received::Item(LogLine::Stdout("old".to_string()))));
    assert_eq!(m.next_log(1, sub), Ok(Received::Item(LogLine::Stopped)));
    assert_eq!(m.next_log(1, sub), Ok(Received::Item(LogLine::Stdout("new".to_string()))));
}

#[test]
fn restart_matches_stop_then_start() {
    let mut a = ChainsManager::new();
    let mut b = ChainsManager::new();
    a.create(config(1, 9000, 1)).unwrap();
    b.create(config(1, 9000, 1)).unwrap();
    let sa = a.subscribe_logs(1).unwrap();
    let sb = b.subscribe_logs(1).unwrap();
    assert_eq!(a.restart(1), Step::Spawn);
    assert_eq!(b.stop(1), Step::Done(Ok(())));
    assert_eq!(b.start(1), Step::Spawn);
    assert_eq!(a.list(), b.list());
    assert_eq!(a.next_log(1, sa), b.next_log(1, sb));
    assert_eq!(a.next_log(1, sa), Ok(Received::Empty));
}

#[test]
fn delete_makes_chain_unknown() {
    let mut m = ChainsManager::new();
    m.create(config(1, 9000, 1)).unwrap();
    assert_eq!(run_start(&mut m, 1), Step::Done(Ok(())));
    assert_eq!(m.delete(1), Step::Kill);
    assert_eq!(m.start(1), Step::Done(Err(ManagerError::NotFound)));
    assert_eq!(m.subscribe_logs(1), Err(ManagerError::NotFound));
    assert!(m.list().is_empty());
    assert!(m.holds(1));
    assert_eq!(m.on_event(1, Event::Killed(Ok(()))), Step::Done(Ok(())));
    assert!(!m.holds(1));
    assert_eq!(m.stop(1), Step::Done(Err(ManagerError::NotFound)));
    assert_eq!(m.delete(1), Step::Done(Err(ManagerError::NotFound)));
    assert_eq!(m.restart(1), Step::Done(Err(ManagerError::NotFound)));
    assert_eq!(m.query(1), Err(ManagerError::NotFound));
}

#[test]
fn delete_of_stopped_chain_is_immediate() {
    let mut m = ChainsManager::new();
    m.create(config(1, 9000, 1)).unwrap();
    assert_eq!(m.delete(1), Step::Done(Ok(())));
    assert!(!m.holds(1));
    assert_eq!(m.create(config(1, 9000, 1)), Ok(1));
}

#[test]
fn delete_mid_start_terminates_the_new_process() {
    let mut m = ChainsManager::new();
    m.create(config(1, 9000, 1)).unwrap();
    assert_eq!(m.start(1), Step::Spawn);
    assert_eq!(m.delete(1), Step::Await);
    assert_eq!(m.start(1), Step::Done(Err(ManagerError::NotFound)));
    assert_eq!(m.on_event(1, Event::Spawned(Ok(()))), Step::Kill);
    assert!(m.holds(1));
    assert_eq!(m.on_event(1, Event::Killed(Ok(()))), Step::Done(Err(ManagerError::NotFound)));
    assert!(!m.holds(1));
}

#[test]
fn delete_mid_probe_terminates_the_process() {
    let mut m = ChainsManager::new();
    m.create(config(1, 9000, 1)).unwrap();
    m.start(1);
    assert_eq!(m.on_event(1, Event::Spawned(Ok(()))), Step::Probe);
    assert_eq!(m.delete(1), Step::Await);
    assert_eq!(m.on_event(1, Event::Probed(false)), Step::Kill);
    assert_eq!(m.on_event(1, Event::Killed(Ok(()))), Step::Done(Err(ManagerError::NotFound)));
    assert!(!m.holds(1));
}

#[test]
fn probe_budget_exhaustion_fails_start() {
    let mut m = ChainsManager::new();
    m.create(config(1, 9000, 1)).unwrap();
    assert_eq!(m.start(1), Step::Spawn);
    assert_eq!(m.on_event(1, Event::Spawned(Ok(()))), Step::Probe);
    for _ in 0..PROBE_LIMIT - 1 {
        assert_eq!(m.on_event(1, Event::Probed(false)), Step::RetryProbe);
    }
    assert_eq!(m.on_event(1, Event::Probed(false)), Step::Kill);
    assert_eq!(status_of(&m, 1), ChainStatus::Starting);
    assert_eq!(
        m.on_event(1, Event::Killed(Ok(()))),
        Step::Done(Err(ManagerError::ConnectTimeout))
    );
    assert_eq!(status_of(&m, 1), ChainStatus::Error);
    assert_eq!(m.stop(1), Step::Done(Ok(())));
    assert_eq!(status_of(&m, 1), ChainStatus::Stopped);
}

#[test]
fn spawn_failure_sets_error() {
    let mut m = ChainsManager::new();
    m.create(config(1, 9000, 1)).unwrap();
    m.start(1);
    assert_eq!(
        m.on_event(1, Event::Spawned(Err("not installed".to_string()))),
        Step::Done(Err(ManagerError::Spawn("not installed".to_string())))
    );
    assert_eq!(status_of(&m, 1), ChainStatus::Error);
}

#[test]
fn connect_failure_kills_then_sets_error() {
    let mut m = ChainsManager::new();
    m.create(config(1, 9000, 1)).unwrap();
    m.start(1);
    m.on_event(1, Event::Spawned(Ok(())));
    m.on_event(1, Event::Probed(true));
    assert_eq!(m.on_event(1, Event::Connected(Err("refused".to_string()))), Step::Kill);
    assert_eq!(
        m.on_event(1, Event::Killed(Ok(()))),
        Step::Done(Err(ManagerError::Rpc("refused".to_string())))
    );
    assert_eq!(status_of(&m, 1), ChainStatus::Error);
}

#[test]
fn second_start_while_starting_is_busy() {
    let mut m = ChainsManager::new();
    m.create(config(1, 9000, 1)).unwrap();
    assert_eq!(m.start(1), Step::Spawn);
    assert_eq!(m.start(1), Step::Done(Err(ManagerError::Busy)));
    assert_eq!(m.restart(1), Step::Done(Err(ManagerError::Busy)));
    assert_eq!(m.on_event(1, Event::Spawned(Ok(()))), Step::Probe);
}

#[test]
fn stop_mid_start_kills_and_stops() {
    let mut m = ChainsManager::new();
    m.create(config(1, 9000, 1)).unwrap();
    let sub = m.subscribe_logs(1).unwrap();
    assert_eq!(m.start(1), Step::Spawn);
    assert_eq!(m.on_event(1, Event::Spawned(Ok(()))), Step::Probe);
    assert!(m.settled(1) == false);
    assert_eq!(m.stop(1), Step::Await);
    assert_eq!(m.on_event(1, Event::Probed(false)), Step::Kill);
    assert_eq!(status_of(&m, 1), ChainStatus::Starting);
    assert_eq!(
        m.on_event(1, Event::Killed(Ok(()))),
        Step::Done(Err(ManagerError::Cancelled))
    );
    assert!(m.settled(1));
    assert_eq!(status_of(&m, 1), ChainStatus::Stopped);
    assert_eq!(m.next_log(1, sub), Ok(Received::Item(LogLine::Stopped)));
    assert_eq!(m.start(1), Step::Spawn);
}

#[test]
fn stop_while_spawning_fails_spawn_and_stops() {
    let mut m = ChainsManager::new();
    m.create(config(1, 9000, 1)).unwrap();
    m.start(1);
    assert_eq!(m.stop(1), Step::Await);
    assert_eq!(
        m.on_event(1, Event::Spawned(Err("gone".to_string()))),
        Step::Done(Err(ManagerError::Spawn("gone".to_string())))
    );
    assert_eq!(status_of(&m, 1), ChainStatus::Stopped);
}

#[test]
fn stop_mid_connect_kills_and_stops() {
    let mut m = ChainsManager::new();
    m.create(config(1, 9000, 1)).unwrap();
    m.start(1);
    m.on_event(1, Event::Spawned(Ok(())));
    assert_eq!(m.on_event(1, Event::Probed(true)), Step::Connect);
    assert_eq!(m.stop(1), Step::Await);
    assert_eq!(m.on_event(1, Event::Connected(Ok(()))), Step::Kill);
    assert_eq!(
        m.on_event(1, Event::Killed(Err("denied".to_string()))),
        Step::Done(Err(ManagerError::Cancelled))
    );
    assert_eq!(status_of(&m, 1), ChainStatus::Stopped);
    assert_eq!(m.query(1), Err(ManagerError::NotConnected));
}

#[test]
fn start_of_running_chain_relaunches_it() {
    let mut m = ChainsManager::new();
    m.create(config(1, 9000, 1)).unwrap();
    run_start(&mut m, 1);
    assert_eq!(m.start(1), Step::Kill);
    assert_eq!(status_of(&m, 1), ChainStatus::Starting);
    assert_eq!(m.on_event(1, Event::Killed(Ok(()))), Step::Spawn);
}

#[test]
fn unexpected_event_is_out_of_step() {
    let mut m = ChainsManager::new();
    m.create(config(1, 9000, 1)).unwrap();
    assert_eq!(m.on_event(1, Event::Probed(true)), Step::Done(Err(ManagerError::OutOfStep)));
    assert_eq!(m.on_event(2, Event::Probed(true)), Step::Done(Err(ManagerError::NotFound)));
    assert_eq!(status_of(&m, 1), ChainStatus::Stopped);
}

#[test]
fn scenario_start_and_first_block() {
    let mut m = ChainsManager::new();
    m.create(config(1, 9000, 1)).unwrap();
    let blocks = m.subscribe_blocks(1).unwrap();
    assert_eq!(run_start(&mut m, 1), Step::Done(Ok(())));
    assert_eq!(status_of(&m, 1), ChainStatus::Running);
    let block = Block::from_header(head(1), 0);
    m.publish_block(1, block.clone()).unwrap();
    assert_eq!(m.next_block(1, blocks), Ok(Received::Item(block)));
}

#[test]
fn scenario_subscribe_logs_on_empty_registry() {
    let mut m = ChainsManager::new();
    assert_eq!(m.subscribe_logs(42), Err(ManagerError::NotFound));
    assert_eq!(m.subscribe_blocks(42), Err(ManagerError::NotFound));
    assert_eq!(m.next_log(42, 0), Err(ManagerError::NotFound));
}

#[test]
fn unknown_subscription_is_not_found() {
    let mut m = ChainsManager::new();
    m.create(config(1, 9000, 1)).unwrap();
    assert_eq!(m.next_log(1, 0), Err(ManagerError::NotFound));
    assert_eq!(m.next_block(1, 3), Err(ManagerError::NotFound));
}

#[test]
fn error_messages_and_statuses() {
    assert_eq!(ManagerError::NotFound.message(), "not found");
    assert_eq!(ManagerError::NotFound.http_status(), 404);
    assert_eq!(ManagerError::DuplicateId.http_status(), 400);
    assert_eq!(
        ManagerError::Spawn("boom".to_string()).message(),
        "failed to launch node: boom"
    );
    assert_eq!(ManagerError::ConnectTimeout.message(), "Failed to connect to websocket");
    assert_eq!(ManagerError::Rpc("x".to_string()).message(), "x");
    assert_eq!(ManagerError::Cancelled.message(), "stopped before the start finished");
}
