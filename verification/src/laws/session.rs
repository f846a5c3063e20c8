//! What the calls of a session come to.

use vstd::prelude::*;

use crate::dict::DictItem;
use crate::session::{
    access, debug_text, execution_timeout_ms, repr_with, set_execution_timeout_ms,
    timeout_from_millis, timeout_to_millis, ExecutionStep, Inner, Session, Task, Timeout,
};
use crate::text::decimal;
use crate::tracker::HostMemoryTracker;

verus! {

/// The message for an executor that cannot be had.
pub open spec fn says_no_executor<T>(inner: Inner<T>, message: Seq<char>) -> bool {
    ||| inner is Poisoned && message == "session lock poisoned"@
    ||| inner is Missing && message == "session is not initialized"@
}

/// Access gives what is there, and otherwise says why nothing is.
pub proof fn access_gives_the_executor<T>(inner: Inner<T>, r: Result<T, String>)
    requires
        call_ensures(access::<T>, (inner,), r),
    ensures
        r is Ok <==> inner is Present,
        r matches Ok(value) ==> inner == Inner::Present(value),
        r matches Err(e) ==> says_no_executor(inner, e@),
{
}

/// Task `task` is started before the code is run, and awaited after it.
pub open spec fn serves(steps: Seq<ExecutionStep>, task: Task) -> bool {
    exists|start: int, run: int, end: int|
        #![trigger steps[start], steps[run], steps[end]]
        {
            &&& 0 <= start < run < end < steps.len()
            &&& steps[start] matches ExecutionStep::Start { task: started, .. } && started == task
            &&& steps[run] is Run
            &&& steps[end] == (ExecutionStep::Await { task })
        }
}

/// Task `task` has no part in the execution.
pub open spec fn has_no_part(steps: Seq<ExecutionStep>, task: Task) -> bool {
    forall|i: int|
        0 <= i < steps.len() ==> (#[trigger] steps[i] matches ExecutionStep::Start {
            task: started,
            ..
        } ==> started != task) && steps[i] != (ExecutionStep::Await { task })
}

/// Each task serves an execution for its own reason, whatever the others do: the callbacks always,
/// the network exactly if networking is configured, the output exactly if it is streamed.
pub proof fn tasks_serve_for_their_own_reason(
    session: Session,
    inner: Inner<()>,
    r: Result<Vec<ExecutionStep>, String>,
)
    requires
        call_ensures(Session::execution_steps, (&session, inner), r),
    ensures
        r is Ok <==> inner is Present,
        r matches Err(e) ==> says_no_executor(inner, e@),
        r matches Ok(steps) ==> {
            &&& serves(steps@, Task::Callbacks)
            &&& session.networking ==> serves(steps@, Task::Network)
            &&& !session.networking ==> has_no_part(steps@, Task::Network)
            &&& session.streaming ==> serves(steps@, Task::Output)
            &&& !session.streaming ==> has_no_part(steps@, Task::Output)
        },
{
    if let Ok(steps) = r {
        execution_steps_are_in_order(session, inner, steps);
        let n: int = if session.networking { 1 } else { 0 };
        let s: int = if session.streaming { 1 } else { 0 };
        assert(steps@[0] is Start && steps@[1 + n + s] is Run && steps@[2 + n + s] is Await);
        if session.networking {
            assert(steps@[1] is Start && steps@[1 + n + s] is Run && steps@[3 + n + s] is Await);
        }
        if session.streaming {
            assert(steps@[1 + n] is Start && steps@[1 + n + s] is Run);
            assert(steps@[3 + 2 * n + s] is Await);
        }
    }
}

/// The steps of an execution, place by place: the callback task is started with room for 32
/// requests, then the network task with as much room, then the output task without a limit; the
/// code is run once; the tasks are awaited in the same order.
pub proof fn execution_steps_are_in_order(
    session: Session,
    inner: Inner<()>,
    steps: Vec<ExecutionStep>,
)
    requires
        call_ensures(Session::execution_steps, (&session, inner), Ok(steps)),
    ensures
        ({
            let n: int = if session.networking { 1 } else { 0 };
            let s: int = if session.streaming { 1 } else { 0 };
            &&& steps@.len() == 3 + 2 * n + 2 * s
            &&& steps@[0] == (ExecutionStep::Start { task: Task::Callbacks, capacity: Some(32) })
            &&& session.networking ==> steps@[1] == (ExecutionStep::Start {
                task: Task::Network,
                capacity: Some(32),
            })
            &&& session.streaming ==> steps@[1 + n] == (ExecutionStep::Start {
                task: Task::Output,
                capacity: None,
            })
            &&& steps@[1 + n + s] == ExecutionStep::Run
            &&& steps@[2 + n + s] == (ExecutionStep::Await { task: Task::Callbacks })
            &&& session.networking ==> steps@[3 + n + s] == (ExecutionStep::Await {
                task: Task::Network,
            })
            &&& session.streaming ==> steps@[3 + 2 * n + s] == (ExecutionStep::Await {
                task: Task::Output,
            })
        }),
{
}

/// `timeout` is `ms` milliseconds, to the nanosecond.
pub open spec fn lasts(timeout: Timeout, ms: int) -> bool {
    timeout.secs * 1_000_000_000 + timeout.nanos == ms * 1_000_000 && timeout.nanos < 1_000_000_000
}

/// A timeout lasts the milliseconds that it is made of; a timeout that lasts a number of
/// milliseconds is read as that number.
pub proof fn timeouts_last_their_milliseconds(
    ms: u64,
    made: Timeout,
    timeout: Timeout,
    millis: u64,
)
    requires
        call_ensures(timeout_from_millis, (ms,), made),
        call_ensures(timeout_to_millis, (timeout,), millis),
    ensures
        lasts(made, ms as int),
        lasts(timeout, ms as int) ==> millis == ms,
        millis == (timeout.secs * 1000 + timeout.nanos as int / 1_000_000)
            % 0x1_0000_0000_0000_0000,
        timeout.secs < 0x20_0000_0000_0000 ==> millis * 1_000_000 <= timeout.secs * 1_000_000_000
            + timeout.nanos < (millis + 1) * 1_000_000,
{
}

/// What is set is what is read: the timeout that is set for a number of milliseconds lasts as long,
/// none is set for none, and reading it gives the number again. Both say why where there is no
/// executor.
pub proof fn set_timeout_is_read(
    timeout_ms: Option<u64>,
    inner: Inner<()>,
    set: Result<Option<Timeout>, String>,
    current: Inner<Option<Timeout>>,
    read: Result<Option<u64>, String>,
)
    requires
        call_ensures(set_execution_timeout_ms, (inner, timeout_ms), set),
        call_ensures(execution_timeout_ms, (current,), read),
    ensures
        set is Ok <==> inner is Present,
        set matches Err(e) ==> says_no_executor(inner, e@),
        set matches Ok(timeout) ==> match (timeout_ms, timeout) {
            (Some(ms), Some(timeout)) => lasts(timeout, ms as int),
            (None, None) => true,
            _ => false,
        },
        read is Ok <==> current is Present,
        read matches Err(e) ==> says_no_executor(current, e@),
        current matches Inner::Present(None) ==> read == Ok::<Option<u64>, String>(None),
        current matches Inner::Present(Some(timeout)) ==> (read matches Ok(Some(ms)) && ms == (
        timeout.secs * 1000 + timeout.nanos as int / 1_000_000) % 0x1_0000_0000_0000_0000),
        set matches Ok(timeout) ==> current == Inner::Present(timeout) ==> read == Ok::<
            Option<u64>,
            String,
        >(timeout_ms),
{
}

/// A session shows its mount path where it has a virtual filesystem: the one that was asked for,
/// and `/data` if none was.
pub proof fn mount_path_is_the_one_asked_for(session: Session, r: Option<String>)
    requires
        call_ensures(Session::vfs_mount_path, (&session,), r),
    ensures
        r is Some <==> session.has_vfs,
        r matches Some(path) ==> match session.vfs_mount_path {
            Some(asked) => path@ == asked@,
            None => path@ == "/data"@,
        },
{
}

/// The representation shows the number of executions, 0 where it cannot be read, and after it the
/// mount path in quotes, where there is one.
pub proof fn representation_shows_count_and_path(
    session: Session,
    inner: Inner<u32>,
    count: u32,
    r: String,
    path: Option<String>,
)
    requires
        call_ensures(Session::repr, (&session, inner), r),
        call_ensures(Session::vfs_mount_path, (&session,), path),
        match inner {
            Inner::Present(present) => count == present,
            _ => count == 0,
        },
    ensures
        match path {
            Some(path) => r@ == "Session(execution_count="@ + decimal(count as nat)
                + ", vfs_mount_path="@ + debug_text(path@) + ")"@,
            None => r@ == "Session(execution_count="@ + decimal(count as nat) + ")"@,
        },
{
    if let Some(path) = path {
        assert(r@ =~= "Session(execution_count="@ + decimal(count as nat) + ", vfs_mount_path="@
            + debug_text(path@) + ")"@);
    } else {
        assert(r@ =~= "Session(execution_count="@ + decimal(count as nat) + ")"@);
    }
}

/// The same of a path that is already in quotes.
pub proof fn representation_takes_the_quoted_path(
    count: u32,
    quoted: &str,
    with_path: String,
    without: String,
)
    requires
        call_ensures(repr_with, (count, Some(quoted)), with_path),
        call_ensures(repr_with, (count, None), without),
    ensures
        with_path@ == "Session(execution_count="@ + decimal(count as nat) + ", vfs_mount_path="@
            + quoted@ + ")"@,
        without@ == "Session(execution_count="@ + decimal(count as nat) + ")"@,
{
    assert(with_path@ =~= "Session(execution_count="@ + decimal(count as nat)
        + ", vfs_mount_path="@ + quoted@ + ")"@);
    assert(without@ =~= "Session(execution_count="@ + decimal(count as nat) + ")"@);
}

/// Why a session has no tracker to speak of.
pub open spec fn says_no_tracker(session: Session, has_tracker: bool, message: Seq<char>) -> bool {
    if !session.unix {
        message == "linear-memory tracking is only supported on Unix platforms"@
    } else {
        !has_tracker && message == "session was not created with track_linear_memory=True"@
    }
}

/// A session tracks linear memories exactly if that was asked for on a Unix. On a Unix with a
/// tracker it has that tracker; elsewhere all that would speak of it say why there is none.
pub proof fn session_has_its_own_tracker(
    session: Session,
    enabled: bool,
    tracker: Option<&HostMemoryTracker>,
    found: Result<&HostMemoryTracker, String>,
    stats: Result<Vec<DictItem>, String>,
    regions: Result<Vec<Vec<DictItem>>, String>,
)
    requires
        call_ensures(Session::linear_memory_tracking_enabled, (&session,), enabled),
        call_ensures(Session::linear_memory_tracker, (&session, tracker), found),
        call_ensures(Session::linear_memory_stats, (&session, tracker), stats),
        call_ensures(Session::linear_memory_regions, (&session, tracker), regions),
    ensures
        enabled <==> session.unix && session.tracks_linear_memory,
        found is Ok <==> session.unix && tracker is Some,
        found matches Ok(its) ==> tracker == Some(its),
        found matches Err(e) ==> says_no_tracker(session, tracker is Some, e@),
        stats is Ok <==> found is Ok,
        stats matches Err(e) ==> says_no_tracker(session, tracker is Some, e@),
        regions is Ok <==> found is Ok,
        regions matches Err(e) ==> says_no_tracker(session, tracker is Some, e@),
{
}

/// The same of a snapshot.
pub proof fn snapshot_needs_the_tracker(
    session: Session,
    tracker: Option<&HostMemoryTracker>,
    contents: std::collections::HashMap<u64, Vec<u8>>,
    r: Result<Vec<Vec<DictItem>>, String>,
)
    requires
        call_ensures(
            Session::snapshot_linear_memory_regions,
            (&session, tracker, contents),
            r,
        ),
    ensures
        r is Ok <==> session.unix && tracker is Some,
        r matches Err(e) ==> says_no_tracker(session, tracker is Some, e@),
{
}

} // verus!
