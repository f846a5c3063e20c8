use std::collections::HashMap;

use eryx_host::dict::{
    DictItem, DictValue, ErrorKind, RegionArgumentError, RegionEntry, RegionsArgument,
};
use eryx_host::session::{
    access, execution_timeout_ms, repr_with, set_execution_timeout_ms, timeout_from_millis,
    timeout_to_millis, ExecutionStep, Inner, Session, SessionError, Task, Timeout,
};
use eryx_host::setup::{
    first_step, limits_to_set, merge_callbacks, next_step, CallbackSource, Limit, SessionOptions,
    SetupError, SetupStep,
};
use eryx_host::snapshot::HostMemoryWrite;
use eryx_host::tracker::HostMemoryTracker;

fn session() -> Session {
    Session {
        unix: true,
        tracks_linear_memory: true,
        has_vfs: false,
        vfs_mount_path: None,
        networking: false,
        streaming: false,
    }
}

fn options() -> SessionOptions {
    SessionOptions {
        vfs: false,
        vfs_mount_path: None,
        execution_timeout_ms: None,
        max_fuel: None,
        network: false,
        volumes: None,
        on_stdout: false,
        on_stderr: false,
        result_variable: None,
        track_linear_memory: false,
    }
}

fn tracker() -> HostMemoryTracker {
    let mut tracker = HostMemoryTracker::default();
    tracker.record_allocation(100, 3, 8, 8, 16, 8);
    tracker
}

fn number(items: &[DictItem], key: &str) -> u64 {
    let item = items.iter().find(|item| item.key == key).expect("key should be there");
    match item.value {
        DictValue::Unsigned(n) => n,
        _ => panic!("{} is no number", key),
    }
}

fn item(key: &str, value: DictValue) -> DictItem {
    DictItem { key: key.to_string(), value }
}

#[test]
fn access_needs_a_lock_and_an_executor() {
    assert_eq!(access::<u32>(Inner::Poisoned), Err("session lock poisoned".to_string()));
    assert_eq!(access::<u32>(Inner::Missing), Err("session is not initialized".to_string()));
    assert_eq!(access(Inner::Present(7)), Ok(7));
}

#[test]
fn timeouts_are_read_back() {
    assert_eq!(timeout_from_millis(2500), Timeout { secs: 2, nanos: 500_000_000 });
    assert_eq!(timeout_to_millis(Timeout { secs: 2, nanos: 500_999_999 }), 2500);
    for ms in [0, 1, 999, 1000, u64::MAX] {
        let set = set_execution_timeout_ms(Inner::Present(()), Some(ms)).unwrap();
        assert_eq!(execution_timeout_ms(Inner::Present(set)), Ok(Some(ms)));
    }
    assert_eq!(set_execution_timeout_ms(Inner::Present(()), None), Ok(None));
    assert_eq!(execution_timeout_ms(Inner::Present(None)), Ok(None));
    assert_eq!(
        set_execution_timeout_ms(Inner::Poisoned, Some(1)),
        Err("session lock poisoned".to_string())
    );
    assert_eq!(
        execution_timeout_ms(Inner::Missing),
        Err("session is not initialized".to_string())
    );
    // Only the low bits of a longer timeout are kept.
    assert_eq!(timeout_to_millis(Timeout { secs: u64::MAX, nanos: 0 }), u64::MAX - 999);
}

#[test]
fn mount_path_defaults_to_data() {
    assert_eq!(session().vfs_mount_path(), None);
    let path = Some("/work".to_string());
    assert_eq!(Session { vfs_mount_path: path.clone(), ..session() }.vfs_mount_path(), None);
    let with_vfs = Session { has_vfs: true, ..session() };
    assert_eq!(with_vfs.vfs_mount_path(), Some("/data".to_string()));
    assert_eq!(Session { has_vfs: true, vfs_mount_path: path.clone(), ..session() }.vfs_mount_path(), path);
}

#[test]
fn representation_shows_count_and_mount_path() {
    assert_eq!(session().repr(Inner::Present(12)), "Session(execution_count=12)");
    assert_eq!(session().repr(Inner::Poisoned), "Session(execution_count=0)");
    let with_vfs = Session { has_vfs: true, ..session() };
    assert_eq!(
        with_vfs.repr(Inner::Missing),
        "Session(execution_count=0, vfs_mount_path=\"/data\")"
    );
    let odd = Session { has_vfs: true, vfs_mount_path: Some("a\"b\n".to_string()), ..session() };
    assert_eq!(
        odd.repr(Inner::Present(1)),
        "Session(execution_count=1, vfs_mount_path=\"a\\\"b\\n\")"
    );
    assert_eq!(repr_with(3, Some("<p>")), "Session(execution_count=3, vfs_mount_path=<p>)");
}

#[test]
fn execution_steps_follow_the_settings() {
    let start = |task, capacity| ExecutionStep::Start { task, capacity };
    let wait = |task| ExecutionStep::Await { task };
    assert_eq!(
        session().execution_steps(Inner::Present(())),
        Ok(vec![start(Task::Callbacks, Some(32)), ExecutionStep::Run, wait(Task::Callbacks)])
    );
    assert_eq!(
        Session { networking: true, streaming: true, ..session() }.execution_steps(Inner::Present(())),
        Ok(vec![
            start(Task::Callbacks, Some(32)),
            start(Task::Network, Some(32)),
            start(Task::Output, None),
            ExecutionStep::Run,
            wait(Task::Callbacks),
            wait(Task::Network),
            wait(Task::Output),
        ])
    );
    assert_eq!(
        Session { streaming: true, ..session() }.execution_steps(Inner::Present(())),
        Ok(vec![
            start(Task::Callbacks, Some(32)),
            start(Task::Output, None),
            ExecutionStep::Run,
            wait(Task::Callbacks),
            wait(Task::Output),
        ])
    );
    assert_eq!(
        session().execution_steps(Inner::Poisoned),
        Err("session lock poisoned".to_string())
    );
}

#[test]
fn tracking_needs_a_unix_and_a_tracker() {
    assert!(session().linear_memory_tracking_enabled());
    assert!(!Session { unix: false, ..session() }.linear_memory_tracking_enabled());
    assert!(!Session { tracks_linear_memory: false, ..session() }.linear_memory_tracking_enabled());
    assert_eq!(
        session().linear_memory_stats(None).unwrap_err(),
        "session was not created with track_linear_memory=True"
    );
    assert_eq!(
        Session { unix: false, ..session() }.linear_memory_regions(Some(&tracker())).unwrap_err(),
        "linear-memory tracking is only supported on Unix platforms"
    );
}

#[test]
fn stats_and_regions_are_reported() {
    let tracker = tracker();
    let stats = session().linear_memory_stats(Some(&tracker)).unwrap();
    let keys: Vec<&str> = stats.iter().map(|item| item.key.as_str()).collect();
    assert_eq!(
        keys,
        vec![
            "allocations",
            "deallocations",
            "mapped_bytes",
            "peak_mapped_bytes",
            "accessible_bytes",
            "peak_accessible_bytes",
            "grow_count"
        ]
    );
    assert_eq!(number(&stats, "allocations"), 1);
    assert_eq!(number(&stats, "mapped_bytes"), 16);
    assert_eq!(number(&stats, "accessible_bytes"), 8);

    let regions = session().linear_memory_regions(Some(&tracker)).unwrap();
    assert_eq!(regions.len(), 1);
    assert_eq!(number(&regions[0], "id"), 1);
    assert_eq!(number(&regions[0], "base_addr"), 100);
    assert_eq!(number(&regions[0], "byte_size"), 3);
    assert_eq!(number(&regions[0], "byte_capacity"), 8);
    assert_eq!(number(&regions[0], "guard_bytes"), 8);
}

#[test]
fn reported_regions_can_be_given_back() {
    let tracker = tracker();
    let contents = HashMap::from([(1, b"abc".to_vec())]);
    let dicts = session().snapshot_linear_memory_regions(Some(&tracker), contents).unwrap();
    assert_eq!(number(&dicts[0], "byte_size"), 3);
    let list = dicts.into_iter().map(RegionEntry::Dict).collect();
    let restore =
        session().restore_linear_memory_regions(Some(&tracker), &RegionsArgument::List(list));
    let report = restore.outcome.unwrap();
    assert_eq!(number(&report, "restored_regions"), 1);
    assert_eq!(number(&report, "restored_bytes"), 3);
    assert_eq!(restore.writes, vec![HostMemoryWrite { base_addr: 100, snapshot: 0 }]);
    assert_eq!(restore.snapshots[0].bytes, b"abc".to_vec());
}

#[test]
fn a_snapshot_after_a_restore_reports_the_same_bytes() {
    let mut tracker = tracker();
    tracker.record_allocation(200, 2, 8, 8, 16, 8);
    let mut memory = vec![0u8; 300];
    memory[100..103].copy_from_slice(b"abc");
    memory[200..202].copy_from_slice(b"de");
    let snapshot = |memory: &[u8]| {
        let contents = tracker
            .snapshot_reads()
            .into_iter()
            .map(|r| (r.id, memory[r.base_addr..r.base_addr + r.byte_size].to_vec()))
            .collect();
        let mut dicts =
            session().snapshot_linear_memory_regions(Some(&tracker), contents).unwrap();
        dicts.sort_by_key(|dict| number(dict, "id"));
        dicts
    };
    let reported = snapshot(&memory);
    memory.fill(b'x');

    let list = snapshot_entries(&reported);
    let restore =
        session().restore_linear_memory_regions(Some(&tracker), &RegionsArgument::List(list));
    for write in &restore.writes {
        let bytes = &restore.snapshots[write.snapshot].bytes;
        memory[write.base_addr..write.base_addr + bytes.len()].copy_from_slice(bytes);
    }
    let report = restore.outcome.unwrap();
    assert_eq!(number(&report, "restored_regions"), 2);
    assert_eq!(number(&report, "restored_bytes"), 5);
    assert_eq!(&memory[99..104], b"xabcx");

    let again = snapshot(&memory);
    assert_eq!(again.len(), 2);
    assert_eq!(bytes_by_id(&again), bytes_by_id(&reported));
    assert_eq!(bytes_by_id(&again), vec![(1, b"abc".to_vec()), (2, b"de".to_vec())]);
}

fn bytes_by_id(dicts: &[Vec<DictItem>]) -> Vec<(u64, Vec<u8>)> {
    dicts
        .iter()
        .map(|dict| {
            let item = dict.iter().find(|item| item.key == "bytes").expect("bytes are reported");
            match &item.value {
                DictValue::Bytes(bytes) => (number(dict, "id"), bytes.clone()),
                _ => panic!("bytes are no bytes"),
            }
        })
        .collect()
}

fn snapshot_entries(dicts: &[Vec<DictItem>]) -> Vec<RegionEntry> {
    bytes_by_id(dicts)
        .into_iter()
        .zip(dicts)
        .map(|((id, bytes), dict)| {
            RegionEntry::Dict(vec![
                item("id", DictValue::Unsigned(id)),
                item("byte_capacity", DictValue::Unsigned(number(dict, "byte_capacity"))),
                item("bytes", DictValue::Bytes(bytes)),
            ])
        })
        .collect()
}

fn argument_error(items: Option<Vec<DictItem>>) -> RegionArgumentError {
    let entry = match items {
        Some(items) => RegionEntry::Dict(items),
        None => RegionEntry::NotDict,
    };
    let restore = session()
        .restore_linear_memory_regions(Some(&tracker()), &RegionsArgument::List(vec![entry]));
    assert!(restore.writes.is_empty());
    match restore.outcome {
        Err(SessionError::Argument { error }) => error,
        _ => panic!("the argument should be refused"),
    }
}

#[test]
fn regions_that_are_not_as_they_should_be_are_refused() {
    let id = || item("id", DictValue::Unsigned(1));
    let capacity = || item("byte_capacity", DictValue::Unsigned(8));

    let not_list =
        session().restore_linear_memory_regions(Some(&tracker()), &RegionsArgument::NotList);
    match not_list.outcome {
        Err(SessionError::Argument { error }) => {
            assert_eq!(error.kind(), ErrorKind::Type);
            assert_eq!(error.message(), "linear-memory regions must be a list of dicts");
        }
        _ => panic!("the argument should be refused"),
    }

    let error = argument_error(None);
    assert_eq!((error.kind(), error.message().as_str()), (ErrorKind::Type, "linear-memory region entries must be dicts"));
    let error = argument_error(Some(vec![capacity()]));
    assert_eq!((error.kind(), error.message().as_str()), (ErrorKind::Key, "missing 'id'"));
    let error = argument_error(Some(vec![item("id", DictValue::Other)]));
    assert_eq!((error, error.kind()), (RegionArgumentError::BadId { entry: 0 }, ErrorKind::Conversion));
    assert_eq!(error.message(), "");
    let error = argument_error(Some(vec![id()]));
    assert_eq!((error.kind(), error.message().as_str()), (ErrorKind::Key, "missing 'byte_capacity'"));
    let error = argument_error(Some(vec![id(), item("byte_capacity", DictValue::Bytes(vec![]))]));
    assert_eq!(error, RegionArgumentError::BadCapacity { entry: 0 });
    assert_eq!(error.message(), "");
    let error = argument_error(Some(vec![id(), capacity()]));
    assert_eq!((error.kind(), error.message().as_str()), (ErrorKind::Key, "missing 'bytes'"));
    let error = argument_error(Some(vec![id(), capacity(), item("bytes", DictValue::Unsigned(0))]));
    assert_eq!(
        (error.kind(), error.message().as_str()),
        (ErrorKind::Type, "linear-memory region 'bytes' must be bytes")
    );
}

#[test]
fn a_refused_restore_is_an_initialization_error() {
    let items = vec![
        item("id", DictValue::Unsigned(5)),
        item("byte_capacity", DictValue::Unsigned(8)),
        item("bytes", DictValue::Bytes(vec![1])),
    ];
    let list = RegionsArgument::List(vec![RegionEntry::Dict(items)]);
    match session().restore_linear_memory_regions(Some(&tracker()), &list).outcome {
        Err(SessionError::Initialization { message }) => {
            assert_eq!(message, "linear-memory region 5 is not live");
        }
        _ => panic!("the restore should be refused"),
    }
    match session().restore_linear_memory_regions(None, &list).outcome {
        Err(SessionError::Initialization { message }) => {
            assert_eq!(message, "session was not created with track_linear_memory=True");
        }
        _ => panic!("the restore should be refused"),
    }
}

fn failure(step: SetupStep) -> String {
    match step {
        SetupStep::Failed { error: SetupError::Initialization { message } } => message,
        _ => panic!("the setup should have failed"),
    }
}

#[test]
fn a_setup_runs_through_its_steps() {
    let options = SessionOptions {
        vfs_mount_path: Some("/work".to_string()),
        execution_timeout_ms: Some(5),
        max_fuel: Some(6),
        network: true,
        volumes: Some(vec![("/h".to_string(), "/g".to_string(), true)]),
        on_stderr: true,
        result_variable: Some("result".to_string()),
        track_linear_memory: true,
        ..options()
    };
    let step = next_step(&options, true, first_step(), Ok(()));
    match &step {
        SetupStep::CreateExecutor { track_memory, result_variable } => {
            assert!(*track_memory);
            assert_eq!(result_variable.as_deref(), Some("result"));
        }
        _ => panic!("the executor comes first"),
    }
    let step = next_step(&options, true, step, Ok(()));
    assert!(matches!(step, SetupStep::CollectCallbacks));
    let step = next_step(&options, true, step, Ok(()));
    match &step {
        SetupStep::OpenSession { vfs: Some(vfs) } => {
            assert!(vfs.fresh_storage);
            assert_eq!(vfs.mount_path.as_deref(), Some("/work"));
            assert_eq!(vfs.volumes.len(), 1);
            assert_eq!(vfs.volumes[0].host_path, "/h");
            assert_eq!(vfs.volumes[0].guest_path, "/g");
            assert!(vfs.volumes[0].read_only);
        }
        _ => panic!("the session should open with a filesystem"),
    }
    let step = next_step(&options, true, step, Ok(()));
    match &step {
        SetupStep::ApplyLimits { execution_timeout_ms, max_fuel } => {
            assert_eq!((*execution_timeout_ms, *max_fuel), (Some(5), Some(6)));
        }
        _ => panic!("the limits come next"),
    }
    let step = next_step(&options, true, step, Ok(()));
    match next_step(&options, true, step, Err("ignored".to_string())) {
        SetupStep::Ready { session } => {
            assert!(session.linear_memory_tracking_enabled());
            assert_eq!(session.vfs_mount_path().as_deref(), Some("/work"));
            assert!(session.networking && session.streaming);
        }
        _ => panic!("the session should be ready"),
    }
}

#[test]
fn a_plain_setup_opens_without_a_filesystem() {
    let step = next_step(&options(), false, SetupStep::CollectCallbacks, Ok(()));
    assert!(matches!(step, SetupStep::OpenSession { vfs: None }));
    let empty = SessionOptions { volumes: Some(vec![]), ..options() };
    let step = next_step(&empty, false, SetupStep::CollectCallbacks, Ok(()));
    assert!(matches!(step, SetupStep::OpenSession { vfs: None }));
    let given = SessionOptions { vfs: true, ..options() };
    match next_step(&given, false, SetupStep::CollectCallbacks, Ok(())) {
        SetupStep::OpenSession { vfs: Some(vfs) } => {
            assert!(!vfs.fresh_storage);
            assert!(vfs.mount_path.is_none() && vfs.volumes.is_empty());
        }
        _ => panic!("the session should open with a filesystem"),
    }
}

#[test]
fn setup_failures_have_their_messages() {
    let err = || Err("why".to_string());
    assert_eq!(failure(next_step(&options(), true, first_step(), err())), "failed to create runtime: why");
    let track = SessionOptions { track_linear_memory: true, ..options() };
    assert_eq!(
        failure(next_step(&track, false, first_step(), Ok(()))),
        "track_linear_memory is only supported on Unix platforms"
    );
    let executor = |track_memory| SetupStep::CreateExecutor { track_memory, result_variable: None };
    assert_eq!(
        failure(next_step(&track, true, executor(true), err())),
        "failed to create tracked-memory executor: why"
    );
    assert_eq!(
        failure(next_step(&options(), true, executor(false), err())),
        "failed to create executor: why"
    );
    let step = next_step(&options(), true, SetupStep::CollectCallbacks, err());
    assert!(matches!(step, SetupStep::Failed { error: SetupError::Raised }));
    let step = next_step(&options(), true, SetupStep::OpenSession { vfs: None }, err());
    let step = next_step(&options(), true, step, Ok(()));
    assert!(matches!(step, SetupStep::Failed { error: SetupError::Raised }));
}

#[test]
fn only_given_limits_are_set() {
    let timeout = Limit::Timeout { timeout: Timeout { secs: 1, nanos: 500_000_000 } };
    let fuel = Limit::Fuel { limit: 7 };
    assert_eq!(limits_to_set(None, None), vec![]);
    assert_eq!(limits_to_set(Some(1500), None), vec![timeout]);
    assert_eq!(limits_to_set(None, Some(7)), vec![fuel]);
    assert_eq!(limits_to_set(Some(1500), Some(7)), vec![timeout, fuel]);
    let zero = Limit::Timeout { timeout: Timeout { secs: 0, nanos: 0 } };
    assert_eq!(limits_to_set(Some(0), Some(0)), vec![zero, Limit::Fuel { limit: 0 }]);
}

#[test]
fn tracking_is_reported_where_there_is_a_tracker() {
    for (unix, track_linear_memory) in [(true, true), (true, false), (false, false)] {
        let options = SessionOptions { track_linear_memory, ..options() };
        let mut made = None;
        let mut step = first_step();
        while !matches!(step, SetupStep::Ready { .. } | SetupStep::Failed { .. }) {
            if matches!(step, SetupStep::CreateExecutor { track_memory: true, .. }) {
                made = Some(tracker());
            }
            step = next_step(&options, unix, step, Ok(()));
        }
        let session = match step {
            SetupStep::Ready { session } => session,
            _ => panic!("the session should be ready"),
        };
        let enabled = session.linear_memory_tracking_enabled();
        assert_eq!(enabled, unix && track_linear_memory);
        assert_eq!(session.linear_memory_stats(made.as_ref()).is_ok(), enabled);
        assert_eq!(session.linear_memory_regions(made.as_ref()).is_ok(), enabled);
    }
}

#[test]
fn later_callbacks_take_the_place_of_earlier_ones() {
    let names = |list: &[&str]| list.iter().map(|name| name.to_string()).collect::<Vec<String>>();
    let choices = merge_callbacks(&names(&["a", "b", "a"]), &names(&["c", "b"]));
    let mut chosen: Vec<(String, CallbackSource)> =
        choices.into_iter().map(|choice| (choice.name, choice.source)).collect();
    chosen.sort_by(|x, y| x.0.cmp(&y.0));
    assert_eq!(
        chosen,
        vec![
            ("a".to_string(), CallbackSource::Given { place: 2 }),
            ("b".to_string(), CallbackSource::Mcp { place: 1 }),
            ("c".to_string(), CallbackSource::Mcp { place: 0 }),
        ]
    );
    assert!(merge_callbacks(&vec![], &vec![]).is_empty());
}
