//! Facts about sequences of registry operations.
use vstd::prelude::*;

use crate::fanout::lemma_publish_appends;
use crate::chain_config::{ChainConfig, ChainStatus};
use crate::process::{Event, LogLine, Step};
use crate::registry::{
    create_outcome, delete_outcome, lemma_find_update, lemma_registry_remove_wf,
    lemma_registry_update_wf, event_outcome, find, listed, query_outcome, registry_wf, restart_outcome,
    start_outcome, stop_outcome, subscribe_blocks_outcome, subscribe_logs_outcome, visible, AfterKill,
    EntryView, ManagerError, Task,
};

verus! {

proof fn lemma_listed_from(s: Seq<EntryView>)
    ensures
        forall|k: int|
            0 <= k < listed(s).len() ==> exists|j: int|
                0 <= j < s.len() && #[trigger] listed(s)[k] == s[j].config,
    decreases s.len(),
{
    if s.len() > 0 {
        let p = s.drop_last();
        lemma_listed_from(p);
        assert forall|k: int| 0 <= k < listed(s).len() implies exists|j: int|
            0 <= j < s.len() && #[trigger] listed(s)[k] == s[j].config by {
            if k < listed(p).len() {
                assert(listed(s)[k] == listed(p)[k]);
                let j = choose|j: int| 0 <= j < p.len() && listed(p)[k] == p[j].config;
                assert(p[j] == s[j]);
            } else {
                assert(listed(s)[k] == s[s.len() - 1].config);
            }
        }
    }
}

proof fn lemma_find_removed(s: Seq<EntryView>, i: int)
    requires
        registry_wf(s),
        0 <= i < s.len(),
    ensures
        find(s.remove(i), s[i].config.id) < 0,
{
    let t = s.remove(i);
    if exists|k: int| 0 <= k < t.len() && t[k].config.id == s[i].config.id {
        let k = choose|k: int| 0 <= k < t.len() && t[k].config.id == s[i].config.id;
        let k2 = if k < i {
            k
        } else {
            k + 1
        };
        assert(t[k] == s[k2]);
    }
}

proof fn lemma_find_is(s: Seq<EntryView>, id: u64)
    requires
        registry_wf(s),
        find(s, id) >= 0,
    ensures
        0 <= find(s, id) < s.len(),
        s[find(s, id)].config.id == id,
{
}

/// Creating a chain under an id that is not registered lists it exactly
/// once: as given, with status `Stopped`.
pub proof fn lemma_create_lists_once(s: Seq<EntryView>, cfg: ChainConfig)
    requires
        registry_wf(s),
        find(s, cfg.id) < 0,
    ensures
        create_outcome(s, cfg).1 == Ok::<u64, ManagerError>(cfg.id),
        registry_wf(create_outcome(s, cfg).0),
        ({
            let l = listed(create_outcome(s, cfg).0);
            &&& exists|k: int| 0 <= k < l.len() && l[k] == cfg.with_status(ChainStatus::Stopped)
            &&& forall|j: int, k: int|
                0 <= j < l.len() && 0 <= k < l.len() && l[j].id == cfg.id && l[k].id == cfg.id
                    ==> j == k
        }),
{
    let t = create_outcome(s, cfg).0;
    assert(t.drop_last() =~= s);
    let l = listed(t);
    let n = listed(s).len();
    assert(l == listed(s).push(cfg.with_status(ChainStatus::Stopped)));
    lemma_listed_from(s);
    assert forall|k: int| 0 <= k < n implies l[k].id != cfg.id by {
        assert(l[k] == listed(s)[k]);
        let j = choose|j: int| 0 <= j < s.len() && listed(s)[k] == s[j].config;
        assert(s[j].config.id != cfg.id);
    }
    assert(l[n as int] == cfg.with_status(ChainStatus::Stopped));
    assert forall|a: int, b: int|
        0 <= a < t.len() && 0 <= b < t.len() && a != b implies t[a].config.id
        != t[b].config.id by {
        if a == s.len() {
            assert(s[b].config.id != cfg.id);
        } else if b == s.len() {
            assert(s[a].config.id != cfg.id);
        }
    }
    assert forall|a: int| 0 <= a < t.len() implies (#[trigger] t[a]).wf() by {
        if a < s.len() {
            assert(t[a] == s[a]);
        } else {
            assert(t[a].logs.cursors =~= Seq::<nat>::empty());
        }
    }
}

/// Creating a chain under a registered id fails and changes nothing.
pub proof fn lemma_create_duplicate(s: Seq<EntryView>, cfg: ChainConfig)
    requires
        find(s, cfg.id) >= 0,
    ensures
        create_outcome(s, cfg) == (s, Err::<u64, ManagerError>(ManagerError::DuplicateId)),
{
}

/// Starting an unknown chain fails with `NotFound` and changes nothing.
pub proof fn lemma_start_unknown(s: Seq<EntryView>, id: u64)
    requires
        !visible(s, id),
    ensures
        start_outcome(s, id) == (s, Step::Done(Err(ManagerError::NotFound))),
{
}

/// The operation under way is a start, or the start half of a restart.
pub open spec fn starting(t: Task) -> bool {
    match t {
        Task::Killing(after) => after == AfterKill::Start || after == AfterKill::Restart,
        Task::Spawning | Task::Probing(_) | Task::Connecting | Task::Aborting(_) => true,
        _ => false,
    }
}

/// A start that finishes successfully leaves the chain `Running`, with its
/// process live and its connection open.
pub proof fn lemma_start_success(s: Seq<EntryView>, id: u64, ev: Event)
    requires
        registry_wf(s),
        visible(s, id),
        starting(s[find(s, id)].task),
        event_outcome(s, id, ev).1 == Step::Done(Ok(())),
    ensures
        ({
            let t = event_outcome(s, id, ev).0;
            let i = find(s, id);
            &&& find(t, id) == i
            &&& t[i].config.status == ChainStatus::Running
            &&& t[i].live
            &&& t[i].connected
        }),
{
    let i = find(s, id);
    lemma_find_is(s, id);
    let t = event_outcome(s, id, ev).0;
    assert(t == s.update(i, t[i]));
    lemma_find_update(s, i, t[i], id);
}

/// Stopping an idle chain ends with status `Stopped`, no live process and
/// the stop marker in its log: at once when it has no process, else once
/// the process is terminated, whatever the kill call reports.
pub proof fn lemma_stop_outcome(s: Seq<EntryView>, id: u64, res: Result<(), String>)
    requires
        registry_wf(s),
        visible(s, id),
        s[find(s, id)].task is Idle,
    ensures
        ({
            let i = find(s, id);
            let (t, st) = stop_outcome(s, id);
            let (u, st2) = event_outcome(t, id, Event::Killed(res));
            &&& find(t, id) == i
            &&& st == Step::Done(Ok(())) ==> {
                &&& !t[i].live
                &&& t[i].config.status == ChainStatus::Stopped
                &&& t[i].logs == s[i].logs.publish(LogLine::Stopped)
            }
            &&& st != Step::Done(Ok(())) ==> {
                &&& st == Step::Kill
                &&& find(u, id) == i
                &&& !u[i].live
                &&& u[i].config.status == ChainStatus::Stopped
                &&& u[i].logs == s[i].logs.publish(LogLine::Stopped)
                &&& st2 is Done
                &&& res is Ok ==> st2 == Step::Done(Ok(()))
            }
        }),
{
    let i = find(s, id);
    lemma_find_is(s, id);
    let (t, st) = stop_outcome(s, id);
    assert(t == s.update(i, t[i]));
    lemma_find_update(s, i, t[i], id);
    let u = event_outcome(t, id, Event::Killed(res)).0;
    if st == Step::Kill {
        assert(u == t.update(i, u[i]));
        lemma_find_update(t, i, u[i], id);
    }
}

/// A stop that arrives while another operation is under way is recorded,
/// and that operation ends at its next step, or the kill it asks for then,
/// with the chain `Stopped` and no live process. An outcome the operation
/// was not waiting for changes nothing.
pub proof fn lemma_stop_mid_operation(
    s: Seq<EntryView>,
    id: u64,
    ev: Event,
    res: Result<(), String>,
)
    requires
        registry_wf(s),
        visible(s, id),
        !(s[find(s, id)].task is Idle),
    ensures
        ({
            let i = find(s, id);
            let (t, st) = stop_outcome(s, id);
            let (u, st2) = event_outcome(t, id, ev);
            let (w, st3) = event_outcome(u, id, Event::Killed(res));
            &&& st == Step::Await
            &&& find(t, id) == i
            &&& registry_wf(t)
            &&& st2 == Step::Done(Err(ManagerError::OutOfStep)) ==> u == t
            &&& st2 != Step::Done(Err(ManagerError::OutOfStep)) ==> {
                ||| st2 is Done && find(u, id) == i && !u[i].live && u[i].config.status
                    == ChainStatus::Stopped
                ||| st2 == Step::Kill && st3 is Done && find(w, id) == i && !w[i].live
                    && w[i].config.status == ChainStatus::Stopped
            }
        }),
{
    let i = find(s, id);
    lemma_find_is(s, id);
    let (t, st) = stop_outcome(s, id);
    assert(t == s.update(i, t[i]));
    lemma_find_update(s, i, t[i], id);
    lemma_registry_update_wf(s, i, t[i]);
    let (u, st2) = event_outcome(t, id, ev);
    if st2 == Step::Done(Err(ManagerError::OutOfStep)) {
        assert(u =~= t);
    } else {
        assert(u == t.update(i, u[i]));
        lemma_find_update(t, i, u[i], id);
        if st2 == Step::Kill {
            let w = event_outcome(u, id, Event::Killed(res)).0;
            assert(w == u.update(i, w[i]));
            lemma_find_update(u, i, w[i], id);
        }
    }
}

/// Restarting an idle chain is stopping it and then starting it: the same
/// states and the same steps, with the stop marker published to the log
/// before anything the new process writes. A subscriber with room left in
/// the backlog gets the marker after what it had pending.
pub proof fn lemma_restart_is_stop_then_start(
    s: Seq<EntryView>,
    id: u64,
    res: Result<(), String>,
    sub: int,
)
    requires
        registry_wf(s),
        visible(s, id),
        s[find(s, id)].task is Idle,
    ensures
        ({
            let i = find(s, id);
            let e = s[i];
            let (r, rst) = restart_outcome(s, id);
            let (p, pst) = stop_outcome(s, id);
            &&& !e.live ==> {
                &&& pst == Step::Done(Ok(()))
                &&& (r, rst) == start_outcome(p, id)
                &&& r[i].logs == e.logs.publish(LogLine::Stopped)
            }
            &&& e.live ==> {
                let (r2, rst2) = event_outcome(r, id, Event::Killed(res));
                let (p2, pst2) = event_outcome(p, id, Event::Killed(res));
                &&& rst == Step::Kill
                &&& pst == Step::Kill
                &&& res is Ok ==> pst2 == Step::Done(Ok(())) && (r2, rst2) == start_outcome(p2, id)
                    && r2[i].logs == e.logs.publish(LogLine::Stopped)
                &&& res is Err ==> (r2, rst2) == (p2, pst2)
            }
            &&& 0 <= sub < e.logs.subscribers() && e.logs.pending(sub).len() < e.logs.capacity
                ==> e.logs.publish(LogLine::Stopped).pending(sub) == e.logs.pending(sub).push(
                LogLine::Stopped,
            )
        }),
{
    let i = find(s, id);
    lemma_find_is(s, id);
    let e = s[i];
    if 0 <= sub < e.logs.subscribers() && e.logs.pending(sub).len() < e.logs.capacity {
        lemma_publish_appends(e.logs, sub, LogLine::Stopped);
    }
    let (r, rst) = restart_outcome(s, id);
    let (p, pst) = stop_outcome(s, id);
    assert(r == s.update(i, r[i]));
    assert(p == s.update(i, p[i]));
    lemma_find_update(s, i, r[i], id);
    lemma_find_update(s, i, p[i], id);
    if !e.live {
        let (q, qst) = start_outcome(p, id);
        assert(q =~= r);
    } else {
        let (r2, rst2) = event_outcome(r, id, Event::Killed(res));
        let (p2, pst2) = event_outcome(p, id, Event::Killed(res));
        assert(r2 == r.update(i, r2[i]));
        assert(p2 == p.update(i, p2[i]));
        lemma_find_update(r, i, r2[i], id);
        lemma_find_update(p, i, p2[i], id);
        if res is Ok {
            let (q, qst) = start_outcome(p2, id);
            assert(q =~= r2);
        } else {
            assert(r2 =~= p2);
        }
    }
}

/// After a delete the chain is not found by any operation, and it holds no
/// process: it is gone at once, or once the process it had is terminated.
pub proof fn lemma_delete_hides(s: Seq<EntryView>, id: u64, res: Result<(), String>)
    requires
        registry_wf(s),
        visible(s, id),
    ensures
        ({
            let (t, st) = delete_outcome(s, id);
            &&& registry_wf(t)
            &&& !visible(t, id)
            &&& start_outcome(t, id) == (t, Step::Done(Err(ManagerError::NotFound)))
            &&& stop_outcome(t, id) == (t, Step::Done(Err(ManagerError::NotFound)))
            &&& restart_outcome(t, id) == (t, Step::Done(Err(ManagerError::NotFound)))
            &&& delete_outcome(t, id) == (t, Step::Done(Err(ManagerError::NotFound)))
            &&& subscribe_logs_outcome(t, id) == (t, Err::<usize, ManagerError>(
                ManagerError::NotFound,
            ))
            &&& subscribe_blocks_outcome(t, id) == (t, Err::<usize, ManagerError>(
                ManagerError::NotFound,
            ))
            &&& query_outcome(t, id) == Err::<(), ManagerError>(ManagerError::NotFound)
            &&& st == Step::Done(Ok(())) ==> find(t, id) < 0
            &&& st == Step::Kill ==> find(event_outcome(t, id, Event::Killed(res)).0, id) < 0
                && event_outcome(t, id, Event::Killed(res)).1 == Step::Done(Ok(()))
        }),
{
    let i = find(s, id);
    lemma_find_is(s, id);
    let (t, st) = delete_outcome(s, id);
    if st == Step::Done(Ok(())) {
        lemma_find_removed(s, i);
        lemma_registry_remove_wf(s, i);
    } else {
        assert(t == s.update(i, t[i]));
        lemma_find_update(s, i, t[i], id);
        lemma_registry_update_wf(s, i, t[i]);
        if st == Step::Kill {
            lemma_find_removed(t, i);
        }
    }
}

/// A deleted chain whose operation is still under way holds no process for
/// long: the next outcome it waits for either removes it, or asks to
/// terminate its process, after which it is removed.
pub proof fn lemma_deleted_process_ends(
    s: Seq<EntryView>,
    id: u64,
    ev: Event,
    res: Result<(), String>,
)
    requires
        registry_wf(s),
        find(s, id) >= 0,
        s[find(s, id)].doomed,
    ensures
        ({
            let (t, st) = event_outcome(s, id, ev);
            ||| find(t, id) < 0
            ||| st == Step::Kill && find(t, id) >= 0 && find(
                event_outcome(t, id, Event::Killed(res)).0,
                id,
            ) < 0
            ||| st == Step::Done(Err(ManagerError::OutOfStep)) && t == s
        }),
{
    let i = find(s, id);
    lemma_find_is(s, id);
    let (t, st) = event_outcome(s, id, ev);
    if crate::registry::entry_event(s[i], ev).0 is None {
        lemma_find_removed(s, i);
    } else {
        assert(t == s.update(i, t[i]));
        lemma_find_update(s, i, t[i], id);
        lemma_registry_update_wf(s, i, t[i]);
        if st == Step::Kill {
            lemma_find_removed(t, i);
        }
    }
}

} // verus!
