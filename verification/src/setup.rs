//! Setting up a session. Building the runtime, the executor and the session itself is the
//! host's work: the setup says what to do next and takes what came of it.

use vstd::prelude::*;

use crate::session::{timeout_from_millis, timeout_of, Session, Timeout};
use crate::text::join;

verus! {

/// The options of a new session.
#[derive(Debug)]
pub struct SessionOptions {
    /// Whether a virtual filesystem is given.
    pub vfs: bool,
    /// Where to mount it.
    pub vfs_mount_path: Option<String>,
    /// The timeout for each execution, in milliseconds.
    pub execution_timeout_ms: Option<u64>,
    /// The fuel limit for each execution.
    pub max_fuel: Option<u64>,
    /// Whether networking is configured.
    pub network: bool,
    /// Host directories to mount: host path, guest path, and whether read-only.
    pub volumes: Option<Vec<(String, String, bool)>>,
    /// Whether standard output is streamed.
    pub on_stdout: bool,
    /// Whether standard error is streamed.
    pub on_stderr: bool,
    /// The variable that results are taken from.
    pub result_variable: Option<String>,
    /// Whether linear memories are tracked.
    pub track_linear_memory: bool,
}

/// A host directory in the guest.
#[derive(Debug)]
pub struct VolumeMount {
    /// The directory of the host.
    pub host_path: String,
    /// Where the guest sees it.
    pub guest_path: String,
    /// Whether the guest may only read it.
    pub read_only: bool,
}

/// The virtual filesystem of a session.
#[derive(Debug)]
pub struct VfsSetup {
    /// Whether to make new in-memory storage, as none is given.
    pub fresh_storage: bool,
    /// Where to mount it; the default mount if `None`.
    pub mount_path: Option<String>,
    /// The host directories to mount.
    pub volumes: Vec<VolumeMount>,
}

/// What to do next.
#[derive(Debug)]
pub enum SetupStep {
    /// Build the runtime for asynchronous work.
    BuildRuntime,
    /// Create the executor, with tracked linear memories or without, and set the result
    /// variable if there is one.
    CreateExecutor { track_memory: bool, result_variable: Option<String> },
    /// Collect the callbacks.
    CollectCallbacks,
    /// Open the session on the executor, with a virtual filesystem if there is one.
    OpenSession { vfs: Option<VfsSetup> },
    /// Set the limits that are given; see [`limits_to_set`].
    ApplyLimits { execution_timeout_ms: Option<u64>, max_fuel: Option<u64> },
    /// The session is ready.
    Ready { session: Session },
    /// The setup has failed.
    Failed { error: SetupError },
}

/// Why a setup failed.
#[derive(Debug)]
pub enum SetupError {
    /// `InitializationError` with this message.
    Initialization { message: String },
    /// What the step itself raised.
    Raised,
}

impl SessionOptions {
    /// The volumes are a list with something in it.
    pub open spec fn has_volumes(self) -> bool {
        self.volumes matches Some(volumes) && volumes@.len() > 0
    }

    /// The session has a virtual filesystem: one is given, or volumes need one.
    pub open spec fn needs_vfs(self) -> bool {
        self.vfs || self.has_volumes()
    }

    /// `vfs` is what the session is to be opened with.
    pub open spec fn is_vfs_setup(self, vfs: Option<VfsSetup>) -> bool {
        match vfs {
            None => !self.needs_vfs(),
            Some(setup) => {
                &&& self.needs_vfs()
                &&& setup.fresh_storage == !self.vfs
                &&& setup.mount_path == self.vfs_mount_path
                &&& match self.volumes {
                    None => setup.volumes@.len() == 0,
                    Some(volumes) => mounts(setup.volumes@, volumes@),
                }
            },
        }
    }

    /// The session that the options make on a platform.
    pub open spec fn session(self, unix: bool) -> Session {
        Session {
            unix,
            tracks_linear_memory: self.track_linear_memory,
            has_vfs: self.needs_vfs(),
            vfs_mount_path: self.vfs_mount_path,
            networking: self.network,
            streaming: self.on_stdout || self.on_stderr,
        }
    }
}

/// `list` mounts `volumes`, one for one.
pub open spec fn mounts(list: Seq<VolumeMount>, volumes: Seq<(String, String, bool)>) -> bool {
    &&& list.len() == volumes.len()
    &&& forall|i: int|
        0 <= i < list.len() ==> #[trigger] list[i] == (VolumeMount {
            host_path: volumes[i].0,
            guest_path: volumes[i].1,
            read_only: volumes[i].2,
        })
}

/// The mounts for the given volumes.
pub fn volume_mounts(volumes: &Vec<(String, String, bool)>) -> (r: Vec<VolumeMount>)
    ensures
        mounts(r@, volumes@),
{
    let mut list: Vec<VolumeMount> = Vec::new();
    for i in 0..volumes.len()
        invariant
            list.len() == i,
            forall|j: int|
                0 <= j < i ==> #[trigger] list@[j] == (VolumeMount {
                    host_path: volumes@[j].0,
                    guest_path: volumes@[j].1,
                    read_only: volumes@[j].2,
                }),
    {
        let host_path = volumes[i].0.clone();
        let guest_path = volumes[i].1.clone();
        list.push(VolumeMount { host_path, guest_path, read_only: volumes[i].2 });
    }
    list
}

/// A limit to set on the executor of a session.
#[derive(Debug, Clone, Copy, PartialEq, Eq, Structural)]
pub enum Limit {
    /// The timeout for each execution.
    Timeout { timeout: Timeout },
    /// The fuel limit for each execution.
    Fuel { limit: u64 },
}

/// The limits that are given: the timeout if there is one, and after it the fuel if there is any.
pub open spec fn given_limits(
    execution_timeout_ms: Option<u64>,
    max_fuel: Option<u64>,
) -> Seq<Limit> {
    (match execution_timeout_ms {
        Some(ms) => seq![Limit::Timeout { timeout: timeout_of(ms) }],
        None => seq![],
    }) + (match max_fuel {
        Some(limit) => seq![Limit::Fuel { limit }],
        None => seq![],
    })
}

/// The limits to set on a new executor, in order. One that is not given is left as it is.
pub fn limits_to_set(execution_timeout_ms: Option<u64>, max_fuel: Option<u64>) -> (r: Vec<Limit>)
    ensures
        r@ == given_limits(execution_timeout_ms, max_fuel),
{
    let mut limits: Vec<Limit> = Vec::new();
    if let Some(ms) = execution_timeout_ms {
        limits.push(Limit::Timeout { timeout: timeout_from_millis(ms) });
    }
    if let Some(limit) = max_fuel {
        limits.push(Limit::Fuel { limit });
    }
    assert(limits@ =~= given_limits(execution_timeout_ms, max_fuel));
    limits
}

/// A copy of an optional text.
fn copy_text(text: &Option<String>) -> (r: Option<String>)
    ensures
        r == *text,
{
    match text {
        Some(text) => Some(text.clone()),
        None => None,
    }
}

/// An initialization error with the given message.
pub open spec fn is_initialization(step: SetupStep, message: Seq<char>) -> bool {
    step matches SetupStep::Failed { error: SetupError::Initialization { message: m } } && m@
        == message
}

/// `next` is what follows `step` when it came to `outcome`; an error carries its text.
pub open spec fn follows(
    options: SessionOptions,
    unix: bool,
    step: SetupStep,
    outcome: Result<(), String>,
    next: SetupStep,
) -> bool {
    match step {
        SetupStep::BuildRuntime => match outcome {
            Err(e) => is_initialization(next, "failed to create runtime: "@ + e@),
            Ok(()) => if options.track_linear_memory && !unix {
                is_initialization(
                    next,
                    "track_linear_memory is only supported on Unix platforms"@,
                )
            } else {
                next == SetupStep::CreateExecutor {
                    track_memory: options.track_linear_memory,
                    result_variable: options.result_variable,
                }
            },
        },
        SetupStep::CreateExecutor { track_memory, .. } => match outcome {
            Err(e) => if track_memory {
                is_initialization(next, "failed to create tracked-memory executor: "@ + e@)
            } else {
                is_initialization(next, "failed to create executor: "@ + e@)
            },
            Ok(()) => next == SetupStep::CollectCallbacks,
        },
        SetupStep::CollectCallbacks => match outcome {
            Err(_) => next == (SetupStep::Failed { error: SetupError::Raised }),
            Ok(()) => next matches SetupStep::OpenSession { vfs } && options.is_vfs_setup(vfs),
        },
        SetupStep::OpenSession { .. } => match outcome {
            Err(_) => next == (SetupStep::Failed { error: SetupError::Raised }),
            Ok(()) => next == SetupStep::ApplyLimits {
                execution_timeout_ms: options.execution_timeout_ms,
                max_fuel: options.max_fuel,
            },
        },
        SetupStep::ApplyLimits { .. } => match outcome {
            Err(_) => next == (SetupStep::Failed { error: SetupError::Raised }),
            Ok(()) => next == (SetupStep::Ready { session: options.session(unix) }),
        },
        SetupStep::Ready { .. } => next == step,
        SetupStep::Failed { .. } => next == step,
    }
}

/// The first step of a setup.
pub fn first_step() -> (r: SetupStep)
    ensures
        r == SetupStep::BuildRuntime,
{
    SetupStep::BuildRuntime
}

/// The setup has failed with an initialization error.
fn initialization_failure(message: String) -> (r: SetupStep)
    ensures
        is_initialization(r, message@),
{
    SetupStep::Failed { error: SetupError::Initialization { message } }
}

/// What follows `step` when it came to `outcome`; an error carries its text. `unix` says
/// whether the platform can track linear memories.
pub fn next_step(
    options: &SessionOptions,
    unix: bool,
    step: SetupStep,
    outcome: Result<(), String>,
) -> (next: SetupStep)
    ensures
        follows(*options, unix, step, outcome, next),
{
    match step {
        SetupStep::BuildRuntime => match outcome {
            Err(e) => initialization_failure(join("failed to create runtime: ", e.as_str())),
            Ok(()) => if options.track_linear_memory && !unix {
                initialization_failure(
                    "track_linear_memory is only supported on Unix platforms".to_owned(),
                )
            } else {
                SetupStep::CreateExecutor {
                    track_memory: options.track_linear_memory,
                    result_variable: copy_text(&options.result_variable),
                }
            },
        },
        SetupStep::CreateExecutor { track_memory, result_variable } => match outcome {
            Err(e) => if track_memory {
                initialization_failure(
                    join("failed to create tracked-memory executor: ", e.as_str()),
                )
            } else {
                initialization_failure(join("failed to create executor: ", e.as_str()))
            },
            Ok(()) => SetupStep::CollectCallbacks,
        },
        SetupStep::CollectCallbacks => match outcome {
            Err(_) => SetupStep::Failed { error: SetupError::Raised },
            Ok(()) => SetupStep::OpenSession { vfs: vfs_setup(options) },
        },
        SetupStep::OpenSession { vfs } => match outcome {
            Err(_) => SetupStep::Failed { error: SetupError::Raised },
            Ok(()) => SetupStep::ApplyLimits {
                execution_timeout_ms: options.execution_timeout_ms,
                max_fuel: options.max_fuel,
            },
        },
        SetupStep::ApplyLimits { execution_timeout_ms, max_fuel } => match outcome {
            Err(_) => SetupStep::Failed { error: SetupError::Raised },
            Ok(()) => SetupStep::Ready { session: new_session(options, unix) },
        },
        SetupStep::Ready { session } => SetupStep::Ready { session },
        SetupStep::Failed { error } => SetupStep::Failed { error },
    }
}

/// Whether the session has a virtual filesystem.
fn needs_vfs(options: &SessionOptions) -> (r: bool)
    ensures
        r == options.needs_vfs(),
{
    match &options.volumes {
        Some(volumes) => options.vfs || volumes.len() > 0,
        None => options.vfs,
    }
}

/// The virtual filesystem that the session is to be opened with.
fn vfs_setup(options: &SessionOptions) -> (r: Option<VfsSetup>)
    ensures
        options.is_vfs_setup(r),
{
    if !needs_vfs(options) {
        return None;
    }
    let volumes: Vec<VolumeMount> = match &options.volumes {
        Some(volumes) => volume_mounts(volumes),
        None => Vec::new(),
    };
    Some(
        VfsSetup {
            fresh_storage: !options.vfs,
            mount_path: copy_text(&options.vfs_mount_path),
            volumes,
        },
    )
}

/// The session that the options make.
fn new_session(options: &SessionOptions, unix: bool) -> (r: Session)
    ensures
        r == options.session(unix),
{
    Session {
        unix,
        tracks_linear_memory: options.track_linear_memory,
        has_vfs: needs_vfs(options),
        vfs_mount_path: copy_text(&options.vfs_mount_path),
        networking: options.network,
        streaming: options.on_stdout || options.on_stderr,
    }
}

/// Where a callback comes from, by its place there.
#[derive(Debug, Clone, Copy, PartialEq, Eq, Structural)]
pub enum CallbackSource {
    /// The callbacks given to the session.
    Given { place: usize },
    /// The callbacks of the MCP manager.
    Mcp { place: usize },
}

/// A callback of the session.
#[derive(Debug)]
pub struct CallbackChoice {
    /// Its name.
    pub name: String,
    /// Which of the callbacks with this name it is.
    pub source: CallbackSource,
}

/// The names of all callbacks: those given, then those of the MCP manager.
pub open spec fn all_names(given: Seq<String>, mcp: Seq<String>) -> Seq<Seq<char>> {
    (given + mcp).map_values(|name: String| name@)
}

/// The place of a callback among all of them.
pub open spec fn place_of(source: CallbackSource, given: nat) -> int {
    match source {
        CallbackSource::Given { place } => place as int,
        CallbackSource::Mcp { place } => given + place,
    }
}

/// No callback after place `i` has the same name.
pub open spec fn is_last_of_name(names: Seq<Seq<char>>, i: int) -> bool {
    &&& 0 <= i < names.len()
    &&& forall|j: int| i < j < names.len() ==> #[trigger] names[j] != names[i]
}

/// `choice` is the last callback of its name.
pub open spec fn is_last_callback(
    choice: CallbackChoice,
    names: Seq<Seq<char>>,
    given: nat,
) -> bool {
    let i = place_of(choice.source, given);
    &&& is_last_of_name(names, i)
    &&& choice.name@ == names[i]
    &&& choice.source is Given <==> i < given
}

/// One of `choices` has the given name.
pub open spec fn has_choice(choices: Seq<CallbackChoice>, name: Seq<char>) -> bool {
    exists|c: int| 0 <= c < choices.len() && (#[trigger] choices[c]).name@ == name
}

/// `choices` has every name once, with the last callback of that name.
pub open spec fn chooses_callbacks(
    choices: Seq<CallbackChoice>,
    given: Seq<String>,
    mcp: Seq<String>,
) -> bool {
    let names = all_names(given, mcp);
    &&& forall|c: int|
        0 <= c < choices.len() ==> is_last_callback(#[trigger] choices[c], names, given.len())
    &&& forall|c: int, d: int|
        0 <= c < d < choices.len() ==> (#[trigger] choices[c]).name@ != (
        #[trigger] choices[d]).name@
    &&& forall|i: int| 0 <= i < names.len() ==> has_choice(choices, #[trigger] names[i])
}

/// The name at place `i` of all callbacks.
fn name_at<'a>(given: &'a Vec<String>, mcp: &'a Vec<String>, i: usize) -> (r: &'a String)
    requires
        i < given@.len() + mcp@.len(),
    ensures
        r@ == all_names(given@, mcp@)[i as int],
{
    if i < given.len() {
        &given[i]
    } else {
        &mcp[i - given.len()]
    }
}

/// Whether a later callback has the same name as that at place `i`.
fn is_replaced(given: &Vec<String>, mcp: &Vec<String>, i: usize) -> (r: bool)
    requires
        i < given@.len() + mcp@.len() <= usize::MAX,
    ensures
        r == !is_last_of_name(all_names(given@, mcp@), i as int),
{
    let ghost names = all_names(given@, mcp@);
    let count: usize = given.len() + mcp.len();
    let name = name_at(given, mcp, i);
    let mut j: usize = i + 1;
    while j < count
        invariant
            i < j <= count,
            count == given@.len() + mcp@.len(),
            names == all_names(given@, mcp@),
            names.len() == count,
            name@ == names[i as int],
            forall|k: int| i < k < j ==> #[trigger] names[k] != names[i as int],
        decreases count - j,
    {
        if *name_at(given, mcp, j) == *name {
            assert(names[j as int] == names[i as int]);
            return true;
        }
        j += 1;
    }
    false
}

/// Some callback has the same name as that at place `i` and is the last of that name.
proof fn lemma_last_of_name(names: Seq<Seq<char>>, i: int) -> (last: int)
    requires
        0 <= i < names.len(),
    ensures
        i <= last,
        is_last_of_name(names, last),
        names[last] == names[i],
    decreases names.len() - i,
{
    if is_last_of_name(names, i) {
        i
    } else {
        let j = choose|j: int| i < j < names.len() && #[trigger] names[j] == names[i];
        lemma_last_of_name(names, j)
    }
}

/// The callbacks of a session: those given, then those of the MCP manager, where a later
/// callback takes the place of an earlier one of the same name.
pub fn merge_callbacks(given: &Vec<String>, mcp: &Vec<String>) -> (r: Vec<CallbackChoice>)
    requires
        given@.len() + mcp@.len() <= usize::MAX,
    ensures
        chooses_callbacks(r@, given@, mcp@),
{
    let ghost names = all_names(given@, mcp@);
    let count: usize = given.len() + mcp.len();
    let mut choices: Vec<CallbackChoice> = Vec::new();
    let mut i: usize = 0;
    while i < count
        invariant
            i <= count,
            count == given@.len() + mcp@.len(),
            names == all_names(given@, mcp@),
            names.len() == count,
            chooses_up_to(choices@, names, given@.len(), i as int),
        decreases count - i,
    {
        let ghost earlier = choices@;
        if !is_replaced(given, mcp, i) {
            let name = name_at(given, mcp, i).clone();
            let source = if i < given.len() {
                CallbackSource::Given { place: i }
            } else {
                CallbackSource::Mcp { place: i - given.len() }
            };
            let choice = CallbackChoice { name, source };
            proof {
                lemma_choose_next(earlier, choice, names, given@.len(), i as int);
            }
            choices.push(choice);
        }
        i += 1;
    }
    proof {
        lemma_all_chosen(choices@, names, given@.len());
    }
    choices
}

/// `choices` are the callbacks before place `n` that are the last of their name.
spec fn chooses_up_to(
    choices: Seq<CallbackChoice>,
    names: Seq<Seq<char>>,
    given: nat,
    n: int,
) -> bool {
    &&& forall|c: int|
        0 <= c < choices.len() ==> is_last_callback(#[trigger] choices[c], names, given)
            && place_of(choices[c].source, given) < n
    &&& forall|c: int, d: int|
        0 <= c < d < choices.len() ==> (#[trigger] choices[c]).name@ != (
        #[trigger] choices[d]).name@
    &&& forall|k: int|
        0 <= k < n && #[trigger] is_last_of_name(names, k) ==> has_choice(choices, names[k])
}

/// The callback at place `n` joins those before it.
proof fn lemma_choose_next(
    choices: Seq<CallbackChoice>,
    choice: CallbackChoice,
    names: Seq<Seq<char>>,
    given: nat,
    n: int,
)
    requires
        chooses_up_to(choices, names, given, n),
        is_last_callback(choice, names, given),
        place_of(choice.source, given) == n,
    ensures
        chooses_up_to(choices.push(choice), names, given, n + 1),
{
    let after = choices.push(choice);
    assert forall|c: int, d: int| 0 <= c < d < after.len() implies (#[trigger] after[c]).name@ != (
    #[trigger] after[d]).name@ by {
        if d == choices.len() {
            assert(after[c] == choices[c]);
            let p = place_of(choices[c].source, given);
            assert(is_last_of_name(names, p));
            assert(names[n] != names[p]);
        }
    }
    assert forall|k: int| 0 <= k < n + 1 && #[trigger] is_last_of_name(names, k) implies has_choice(
        after,
        names[k],
    ) by {
        if k < n {
            let c = choose|c: int|
                0 <= c < choices.len() && (#[trigger] choices[c]).name@ == names[k];
            assert(after[c].name@ == names[k]);
        } else {
            assert(after[choices.len() as int].name@ == names[k]);
        }
    }
}

/// Once every place has been looked at, every name has its callback.
proof fn lemma_all_chosen(choices: Seq<CallbackChoice>, names: Seq<Seq<char>>, given: nat)
    requires
        chooses_up_to(choices, names, given, names.len() as int),
    ensures
        forall|k: int| 0 <= k < names.len() ==> has_choice(choices, #[trigger] names[k]),
{
    assert forall|k: int| 0 <= k < names.len() implies has_choice(choices, #[trigger] names[k]) by {
        let last = lemma_last_of_name(names, k);
        assert(is_last_of_name(names, last));
    }
}

} // verus!
