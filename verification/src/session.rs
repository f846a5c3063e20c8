//! What a session decides of its own: access to the executor behind it, its settings, and its
//! view of the linear memories.

use std::collections::HashMap;

use vstd::prelude::*;
use vstd::string::*;

use crate::dict::{
    entries, first_error, read_regions, region_entries, region_items, restore_entries,
    restore_items, snapshot_entries, snapshot_items, stands_for, stats_entries, stats_items,
    DictItem, RegionArgumentError, RegionsArgument,
};
use crate::snapshot::{
    covers_regions, lists_snapshots, restores, total_bytes, HostMemoryRegionSnapshot,
    HostMemoryRestore, HostMemoryWrite, RestoreMode,
};
use crate::text::{decimal, with_number};
use crate::tracker::{lists_regions, HostMemoryRegion, HostMemoryTracker};

verus! {

/// What taking the lock of a session's executor gave.
#[derive(Debug)]
pub enum Inner<T> {
    /// The lock is poisoned.
    Poisoned,
    /// There is no executor.
    Missing,
    /// The executor, or what was read of it.
    Present(T),
}

/// The settings of a session.
#[derive(Debug)]
pub struct Session {
    /// Whether the platform is a Unix.
    pub unix: bool,
    /// Whether linear memories are tracked.
    pub tracks_linear_memory: bool,
    /// Whether there is a virtual filesystem.
    pub has_vfs: bool,
    /// Where it was asked to be mounted.
    pub vfs_mount_path: Option<String>,
    /// Whether networking is configured.
    pub networking: bool,
    /// Whether output is streamed.
    pub streaming: bool,
}

/// The message of a failed access to the executor; `None` if there is one.
pub open spec fn access_failure<T>(inner: Inner<T>) -> Option<Seq<char>> {
    match inner {
        Inner::Poisoned => Some("session lock poisoned"@),
        Inner::Missing => Some("session is not initialized"@),
        Inner::Present(_) => None,
    }
}

/// The executor, or why there is none.
pub fn access<T>(inner: Inner<T>) -> (r: Result<T, String>)
    ensures
        match r {
            Ok(value) => inner == Inner::Present(value),
            Err(e) => access_failure(inner) == Some(e@),
        },
{
    match inner {
        Inner::Poisoned => Err("session lock poisoned".to_owned()),
        Inner::Missing => Err("session is not initialized".to_owned()),
        Inner::Present(value) => Ok(value),
    }
}

/// A timeout, as whole seconds and the nanoseconds beyond them.
#[derive(Debug, Clone, Copy, PartialEq, Eq, Structural)]
pub struct Timeout {
    /// Whole seconds.
    pub secs: u64,
    /// Nanoseconds beyond them.
    pub nanos: u32,
}

impl Timeout {
    /// The timeout in whole milliseconds.
    pub open spec fn millis(self) -> int {
        self.secs * 1000 + self.nanos as int / 1_000_000
    }
}

/// The timeout that stands for `ms` milliseconds.
pub open spec fn timeout_of(ms: u64) -> Timeout {
    Timeout { secs: ms / 1000, nanos: (ms % 1000 * 1_000_000) as u32 }
}

/// The timeout of `ms` milliseconds.
pub fn timeout_from_millis(ms: u64) -> (r: Timeout)
    ensures
        r == timeout_of(ms),
        r.secs == ms / 1000,
        r.nanos == ms % 1000 * 1_000_000,
        r.millis() == ms,
{
    let rest: u64 = ms % 1000;
    Timeout { secs: ms / 1000, nanos: rest as u32 * 1_000_000 }
}

/// The whole milliseconds of a timeout, modulo the range of a `u64`.
pub fn timeout_to_millis(timeout: Timeout) -> (r: u64)
    ensures
        r == timeout.millis() % 0x1_0000_0000_0000_0000,
{
    let millis: u128 = timeout.secs as u128 * 1000 + (timeout.nanos / 1_000_000) as u128;
    assert(millis as u64 == millis % 0x1_0000_0000_0000_0000) by (bit_vector);
    #[verifier::truncate]
    let low = millis as u64;
    low
}

/// Setting a timeout in milliseconds and reading it gives the number that was set.
pub proof fn timeout_is_read_back(ms: u64, timeout: Timeout)
    requires
        timeout.secs == ms / 1000,
        timeout.nanos == ms % 1000 * 1_000_000,
    ensures
        timeout.millis() % 0x1_0000_0000_0000_0000 == ms,
{
}

/// The executor's timeout in milliseconds, if one is set.
pub fn execution_timeout_ms(inner: Inner<Option<Timeout>>) -> (r: Result<Option<u64>, String>)
    ensures
        match r {
            Ok(ms) => inner matches Inner::Present(timeout) && match (timeout, ms) {
                (Some(timeout), Some(ms)) => ms == timeout.millis() % 0x1_0000_0000_0000_0000,
                (None, None) => true,
                _ => false,
            },
            Err(e) => access_failure(inner) == Some(e@),
        },
{
    match access(inner) {
        Ok(Some(timeout)) => Ok(Some(timeout_to_millis(timeout))),
        Ok(None) => Ok(None),
        Err(e) => Err(e),
    }
}

/// The timeout to set on the executor for `timeout_ms` milliseconds; none if `None`.
pub fn set_execution_timeout_ms(inner: Inner<()>, timeout_ms: Option<u64>) -> (r: Result<
    Option<Timeout>,
    String,
>)
    ensures
        match r {
            Ok(timeout) => inner is Present && match (timeout_ms, timeout) {
                (Some(ms), Some(timeout)) => timeout.secs == ms / 1000 && timeout.nanos == ms % 1000
                    * 1_000_000,
                (None, None) => true,
                _ => false,
            },
            Err(e) => access_failure(inner) == Some(e@),
        },
{
    match access(inner) {
        Ok(()) => match timeout_ms {
            Some(ms) => Ok(Some(timeout_from_millis(ms))),
            None => Ok(None),
        },
        Err(e) => Err(e),
    }
}

/// Capacity of the channels on which an execution's requests arrive.
pub const REQUEST_CHANNEL: usize = 32;

/// A task that serves one execution.
#[derive(Debug, Clone, Copy, PartialEq, Eq, Structural)]
pub enum Task {
    /// Serves callback requests.
    Callbacks,
    /// Serves network requests.
    Network,
    /// Collects output as it comes.
    Output,
}

/// A step of one execution.
#[derive(Debug, Clone, Copy, PartialEq, Eq, Structural)]
pub enum ExecutionStep {
    /// Start the task on a channel of this capacity, without a limit if `None`, and hand the
    /// other end to the run.
    Start { task: Task, capacity: Option<usize> },
    /// Run the code, and keep its result.
    Run,
    /// Wait until the task has finished.
    Await { task: Task },
}

/// The tasks that serve an execution, in the order in which they are started.
pub open spec fn execution_tasks(networking: bool, streaming: bool) -> Seq<Task> {
    seq![Task::Callbacks] + if networking {
        seq![Task::Network]
    } else {
        seq![]
    } + if streaming {
        seq![Task::Output]
    } else {
        seq![]
    }
}

/// The capacity of the channel of a task.
pub open spec fn channel_capacity(task: Task) -> Option<usize> {
    match task {
        Task::Callbacks | Task::Network => Some(REQUEST_CHANNEL),
        Task::Output => None,
    }
}

/// The steps of an execution: every task is started, the code is run, and whatever came of it
/// every task is awaited, in the same order.
pub open spec fn steps_of(tasks: Seq<Task>) -> Seq<ExecutionStep> {
    tasks.map_values(
        |task: Task| ExecutionStep::Start { task, capacity: channel_capacity(task) },
    ).push(ExecutionStep::Run) + tasks.map_values(|task: Task| ExecutionStep::Await { task })
}

/// No task of an execution is left running, and none is awaited before the code has run: each
/// task that is started is awaited after the one run, and only tasks that were started are
/// awaited.
pub proof fn started_tasks_are_awaited(tasks: Seq<Task>, i: int)
    requires
        0 <= i < steps_of(tasks).len(),
    ensures
        steps_of(tasks)[i] is Run <==> i == tasks.len(),
        steps_of(tasks)[i] matches ExecutionStep::Start { task, .. } ==> i < tasks.len()
            && steps_of(tasks)[tasks.len() + 1 + i] == (ExecutionStep::Await { task }),
        steps_of(tasks)[i] matches ExecutionStep::Await { task } ==> i > tasks.len() && steps_of(
            tasks,
        )[i - tasks.len() - 1] == (ExecutionStep::Start { task, capacity: channel_capacity(task) }),
{
}

/// What Rust's `Debug` formatting makes of a text: the text in double quotes, with what needs it
/// escaped.
pub uninterp spec fn debug_text(text: Seq<char>) -> Seq<char>;

/// Calls the `Debug` formatting of `str`. Its result is named, and depends on the text alone;
/// which characters are escaped is left unsaid.
#[verifier::external_body]
fn debug_quoted(text: &str) -> (r: String)
    ensures
        r@ == debug_text(text@),
{
    format!("{:?}", text)
}

/// The representation of a session, given its mount path in quotes.
pub open spec fn repr_text(execution_count: u32, quoted_path: Option<Seq<char>>) -> Seq<char> {
    "Session(execution_count="@ + decimal(execution_count as nat) + match quoted_path {
        Some(path) => ", vfs_mount_path="@ + path,
        None => Seq::empty(),
    } + ")"@
}

/// The representation of a session, given its mount path in quotes.
pub fn repr_with(execution_count: u32, quoted_path: Option<&str>) -> (r: String)
    ensures
        r@ == repr_text(
            execution_count,
            match quoted_path {
                Some(path) => Some(path@),
                None => None,
            },
        ),
{
    let text = with_number(String::new(), "Session(execution_count=", execution_count as u64);
    match quoted_path {
        Some(path) => {
            let text = text.concat(", vfs_mount_path=").concat(path).concat(")");
            assert(text@ =~= repr_text(execution_count, Some(path@)));
            text
        },
        None => {
            let text = text.concat(")");
            assert(text@ =~= repr_text(execution_count, None));
            text
        },
    }
}

/// What a restore from Python comes to.
#[derive(Debug)]
pub struct SessionRestore {
    /// The snapshots that were given; the writes name them by their place.
    pub snapshots: Vec<HostMemoryRegionSnapshot>,
    /// What the host is to write, in this order, whatever the outcome.
    pub writes: Vec<HostMemoryWrite>,
    /// The report, or why the restore stopped.
    pub outcome: Result<Vec<DictItem>, SessionError>,
}

/// Why a session refuses.
#[derive(Debug)]
pub enum SessionError {
    /// `InitializationError` with this message.
    Initialization { message: String },
    /// The regions are not as they should be.
    Argument { error: RegionArgumentError },
}

/// The bytes that the given regions hold.
pub open spec fn argument_bytes(argument: RegionsArgument) -> nat {
    match argument {
        RegionsArgument::NotList => 0,
        RegionsArgument::List(list) => list_bytes(list@, list@.len()),
    }
}

/// The bytes that the first `n` entries of a list of regions hold.
pub open spec fn list_bytes(list: Seq<crate::dict::RegionEntry>, n: nat) -> nat
    decreases n,
{
    if n == 0 {
        0
    } else {
        list_bytes(list, (n - 1) as nat) + match crate::dict::entry_snapshot(
            list[n - 1],
            (n - 1) as usize,
        ) {
            Ok(snapshot) => snapshot.bytes.len(),
            Err(_) => 0,
        }
    }
}

/// Snapshots have the bytes of the entries that stand for them.
pub(crate) proof fn lemma_list_bytes(
    list: Seq<crate::dict::RegionEntry>,
    snapshots: Seq<HostMemoryRegionSnapshot>,
    n: nat,
)
    requires
        stands_for(list, snapshots),
        n <= list.len(),
    ensures
        total_bytes(snapshots, n) == list_bytes(list, n),
    decreases n,
{
    if n > 0 {
        lemma_list_bytes(list, snapshots, (n - 1) as nat);
        assert(crate::dict::entry_snapshot(list[n - 1], (n - 1) as usize) is Ok);
    }
}

impl Session {
    /// Where the virtual filesystem is mounted; `None` without one.
    pub open spec fn mount_path(self) -> Option<Seq<char>> {
        if self.has_vfs {
            Some(
                match self.vfs_mount_path {
                    Some(path) => path@,
                    None => "/data"@,
                },
            )
        } else {
            None
        }
    }

    /// Get the VFS mount path, if VFS is enabled.
    pub fn vfs_mount_path(&self) -> (r: Option<String>)
        ensures
            match r {
                Some(path) => self.mount_path() == Some(path@),
                None => self.mount_path() is None,
            },
    {
        if self.has_vfs {
            match &self.vfs_mount_path {
                Some(path) => Some(path.clone()),
                None => Some("/data".to_owned()),
            }
        } else {
            None
        }
    }

    /// The number of executions to show: 0 where it cannot be read.
    pub open spec fn shown_count(inner: Inner<u32>) -> u32 {
        match inner {
            Inner::Present(count) => count,
            _ => 0,
        }
    }

    /// The representation of the session, given the number of its executions.
    pub fn repr(&self, inner: Inner<u32>) -> (r: String)
        ensures
            r@ == repr_text(
                Self::shown_count(inner),
                match self.mount_path() {
                    Some(path) => Some(debug_text(path)),
                    None => None,
                },
            ),
    {
        let count: u32 = match inner {
            Inner::Present(count) => count,
            _ => 0,
        };
        match self.vfs_mount_path() {
            Some(path) => {
                let quoted = debug_quoted(path.as_str());
                repr_with(count, Some(quoted.as_str()))
            },
            None => repr_with(count, None),
        }
    }

    /// The steps to execute code, if there is an executor.
    pub fn execution_steps(&self, inner: Inner<()>) -> (r: Result<Vec<ExecutionStep>, String>)
        ensures
            match r {
                Ok(steps) => inner is Present && steps@ == steps_of(
                    execution_tasks(self.networking, self.streaming),
                ),
                Err(e) => access_failure(inner) == Some(e@),
            },
    {
        if let Err(e) = access(inner) {
            return Err(e);
        }
        let mut steps: Vec<ExecutionStep> = Vec::new();
        steps.push(
            ExecutionStep::Start { task: Task::Callbacks, capacity: Some(REQUEST_CHANNEL) },
        );
        if self.networking {
            steps.push(
                ExecutionStep::Start { task: Task::Network, capacity: Some(REQUEST_CHANNEL) },
            );
        }
        if self.streaming {
            steps.push(ExecutionStep::Start { task: Task::Output, capacity: None });
        }
        steps.push(ExecutionStep::Run);
        steps.push(ExecutionStep::Await { task: Task::Callbacks });
        if self.networking {
            steps.push(ExecutionStep::Await { task: Task::Network });
        }
        if self.streaming {
            steps.push(ExecutionStep::Await { task: Task::Output });
        }
        assert(steps@ =~= steps_of(execution_tasks(self.networking, self.streaming)));
        Ok(steps)
    }

    /// The session was created with linear-memory tracking.
    pub open spec fn tracking_enabled(self) -> bool {
        self.unix && self.tracks_linear_memory
    }

    /// `tracker` is what a session of these settings has: a tracker where linear memories are
    /// tracked, and none elsewhere.
    pub open spec fn has_its_tracker(self, tracker: Option<&HostMemoryTracker>) -> bool {
        tracker is Some <==> self.tracking_enabled()
    }

    /// Whether this session was created with linear-memory tracking.
    pub fn linear_memory_tracking_enabled(&self) -> (r: bool)
        ensures
            r == self.tracking_enabled(),
    {
        self.unix && self.tracks_linear_memory
    }

    /// Why there is no tracker to speak of; `None` if there is one.
    pub open spec fn tracker_failure(self, tracker: Option<&HostMemoryTracker>) -> Option<
        Seq<char>,
    > {
        if !self.unix {
            Some("linear-memory tracking is only supported on Unix platforms"@)
        } else if tracker is None {
            Some("session was not created with track_linear_memory=True"@)
        } else {
            None
        }
    }

    /// The tracker of the session's linear memories, or why there is none.
    pub fn linear_memory_tracker<'a>(&self, tracker: Option<&'a HostMemoryTracker>) -> (r: Result<
        &'a HostMemoryTracker,
        String,
    >)
        ensures
            match r {
                Ok(found) => self.tracker_failure(tracker) is None && tracker == Some(found),
                Err(e) => self.tracker_failure(tracker) == Some(e@),
            },
    {
        if !self.unix {
            return Err("linear-memory tracking is only supported on Unix platforms".to_owned());
        }
        match tracker {
            Some(found) => Ok(found),
            None => Err("session was not created with track_linear_memory=True".to_owned()),
        }
    }

    /// Return aggregate stats for host-managed Wasm linear memories.
    pub fn linear_memory_stats(&self, tracker: Option<&HostMemoryTracker>) -> (r: Result<
        Vec<DictItem>,
        String,
    >)
        ensures
            match r {
                Ok(items) => self.tracker_failure(tracker) is None && entries(items@)
                    == stats_entries(tracker->0@.stats),
                Err(e) => self.tracker_failure(tracker) == Some(e@),
            },
    {
        match self.linear_memory_tracker(tracker) {
            Ok(found) => Ok(stats_items(&found.stats())),
            Err(e) => Err(e),
        }
    }

    /// Return metadata for live host-managed Wasm linear-memory regions, without their bytes.
    pub fn linear_memory_regions(&self, tracker: Option<&HostMemoryTracker>) -> (r: Result<
        Vec<Vec<DictItem>>,
        String,
    >)
        ensures
            match r {
                Ok(dicts) => self.tracker_failure(tracker) is None && reports_regions(
                    dicts@,
                    tracker->0@.regions,
                ),
                Err(e) => self.tracker_failure(tracker) == Some(e@),
            },
    {
        let found = match self.linear_memory_tracker(tracker) {
            Ok(found) => found,
            Err(e) => return Err(e),
        };
        let regions = found.live_regions();
        let mut dicts: Vec<Vec<DictItem>> = Vec::new();
        for i in 0..regions.len()
            invariant
                dicts.len() == i,
                forall|j: int|
                    0 <= j < i ==> entries(#[trigger] dicts@[j]@) == region_entries(regions@[j]),
        {
            dicts.push(region_items(&regions[i]));
        }
        assert(describes_regions(dicts@, regions@));
        Ok(dicts)
    }

    /// Reports the snapshots of the live regions, made out of the bytes that the host copied,
    /// by region id; see [`HostMemoryTracker::snapshot_reads`].
    pub fn snapshot_linear_memory_regions(
        &self,
        tracker: Option<&HostMemoryTracker>,
        contents: HashMap<u64, Vec<u8>>,
    ) -> (r: Result<Vec<Vec<DictItem>>, String>)
        requires
            self.tracker_failure(tracker) is None ==> covers_regions(
                contents@,
                tracker->0@.regions,
            ),
        ensures
            match r {
                Ok(dicts) => self.tracker_failure(tracker) is None && reports_snapshots(
                    dicts@,
                    tracker->0@.regions,
                    contents@,
                ),
                Err(e) => self.tracker_failure(tracker) == Some(e@),
            },
    {
        let found = match self.linear_memory_tracker(tracker) {
            Ok(found) => found,
            Err(e) => return Err(e),
        };
        let snapshots = found.snapshot_live_regions(contents);
        let ghost all = snapshots@;
        let mut dicts: Vec<Vec<DictItem>> = Vec::new();
        for snapshot in it: snapshots
            invariant
                it.seq() == all,
                dicts.len() == it.index(),
                forall|j: int|
                    0 <= j < dicts.len() ==> entries(#[trigger] dicts@[j]@) == snapshot_entries(
                        all[j],
                    ),
        {
            dicts.push(snapshot_items(snapshot));
        }
        assert(describes_snapshots(dicts@, all));
        Ok(dicts)
    }

    /// Restores the regions given from Python into the live linear memories; see
    /// [`HostMemoryTracker::restore_live_regions`].
    pub fn restore_linear_memory_regions(
        &self,
        tracker: Option<&HostMemoryTracker>,
        regions: &RegionsArgument,
    ) -> (r: SessionRestore)
        requires
            argument_bytes(*regions) <= usize::MAX,
        ensures
            self.is_restore(tracker, *regions, r),
    {
        let found = match self.linear_memory_tracker(tracker) {
            Ok(found) => found,
            Err(message) => return SessionRestore {
                snapshots: Vec::new(),
                writes: Vec::new(),
                outcome: Err(SessionError::Initialization { message }),
            },
        };
        let snapshots = match read_regions(regions) {
            Ok(snapshots) => snapshots,
            Err(error) => return SessionRestore {
                snapshots: Vec::new(),
                writes: Vec::new(),
                outcome: Err(SessionError::Argument { error }),
            },
        };
        proof {
            if let RegionsArgument::List(list) = regions {
                lemma_list_bytes(list@, snapshots@, list@.len());
            }
        }
        let restore = found.restore_live_regions(snapshots.as_slice());
        let ghost restored = restore;
        let outcome = match restore.outcome {
            Ok(stats) => Ok(restore_items(&stats)),
            Err(message) => Err(SessionError::Initialization { message }),
        };
        let result = SessionRestore { snapshots, writes: restore.writes, outcome };
        assert(carries(result, restored));
        assert(passes_on(result, tracker->0@.regions));
        result
    }

    /// `r` is what restoring `regions` comes to.
    pub open spec fn is_restore(
        self,
        tracker: Option<&HostMemoryTracker>,
        regions: RegionsArgument,
        r: SessionRestore,
    ) -> bool {
        match self.tracker_failure(tracker) {
            Some(text) => {
                &&& r.snapshots@.len() == 0 && r.writes@.len() == 0
                &&& r.outcome matches Err(SessionError::Initialization { message }) && message@
                    == text
            },
            None => match regions {
                RegionsArgument::NotList => {
                    &&& r.snapshots@.len() == 0 && r.writes@.len() == 0
                    &&& r.outcome matches Err(SessionError::Argument { error }) && error
                        == RegionArgumentError::NotList
                },
                RegionsArgument::List(list) => match r.outcome {
                    Err(SessionError::Argument { error }) => r.snapshots@.len() == 0
                        && r.writes@.len() == 0 && first_error(list@, error),
                    _ => stands_for(list@, r.snapshots@) && passes_on(r, tracker->0@.regions),
                },
            },
        }
    }
}

/// `r` carries the writes and the outcome of `restore`.
pub open spec fn carries(r: SessionRestore, restore: HostMemoryRestore) -> bool {
    &&& r.writes == restore.writes
    &&& match restore.outcome {
        Ok(stats) => r.outcome matches Ok(items) && entries(items@) == restore_entries(stats),
        Err(e) => r.outcome matches Err(SessionError::Initialization { message }) && message == e,
    }
}

/// `r` carries what restoring its snapshots into the live regions comes to.
pub open spec fn passes_on(
    r: SessionRestore,
    regions: Map<u64, crate::tracker::RegionRecord>,
) -> bool {
    exists|restore: HostMemoryRestore| #[trigger]
        carries(r, restore) && restores(RestoreMode::Exact, regions, r.snapshots@, restore)
}

/// `dicts` reports `regions`, one for one.
pub open spec fn describes_regions(
    dicts: Seq<Vec<DictItem>>,
    regions: Seq<HostMemoryRegion>,
) -> bool {
    &&& dicts.len() == regions.len()
    &&& forall|i: int|
        0 <= i < dicts.len() ==> entries(#[trigger] dicts[i]@) == region_entries(regions[i])
}

/// `dicts` reports every live region exactly once, in some order.
pub open spec fn reports_regions(
    dicts: Seq<Vec<DictItem>>,
    regions: Map<u64, crate::tracker::RegionRecord>,
) -> bool {
    exists|list: Seq<HostMemoryRegion>|
        #[trigger] describes_regions(dicts, list) && lists_regions(list, regions)
}

/// `dicts` reports `snapshots`, one for one.
pub open spec fn describes_snapshots(
    dicts: Seq<Vec<DictItem>>,
    snapshots: Seq<HostMemoryRegionSnapshot>,
) -> bool {
    &&& dicts.len() == snapshots.len()
    &&& forall|i: int|
        0 <= i < dicts.len() ==> entries(#[trigger] dicts[i]@) == snapshot_entries(snapshots[i])
}

/// `dicts` reports the snapshot of every live region exactly once, in some order, with the bytes
/// out of `contents`.
pub open spec fn reports_snapshots(
    dicts: Seq<Vec<DictItem>>,
    regions: Map<u64, crate::tracker::RegionRecord>,
    contents: Map<u64, Vec<u8>>,
) -> bool {
    exists|snapshots: Seq<HostMemoryRegionSnapshot>| #[trigger]
        describes_snapshots(dicts, snapshots) && lists_snapshots(snapshots, regions, contents)
}

} // verus!
