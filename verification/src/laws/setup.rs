//! What the steps of a setup come to.

use vstd::prelude::*;

use crate::laws::session::lasts;
use crate::session::Session;
use crate::setup::{
    first_step, limits_to_set, merge_callbacks, next_step, volume_mounts, CallbackChoice,
    CallbackSource, Limit, SessionOptions, SetupError, SetupStep, VfsSetup, VolumeMount,
};

verus! {

/// The setup has failed with an initialization error of this message.
pub open spec fn fails_with(step: SetupStep, message: Seq<char>) -> bool {
    step matches SetupStep::Failed { error: SetupError::Initialization { message: text } } && text@
        == message
}

/// The setup has failed with what the step raised.
pub open spec fn fails_as_raised(step: SetupStep) -> bool {
    step matches SetupStep::Failed { error: SetupError::Raised }
}

/// A setup starts with the runtime. Without one it fails. With one it goes on to the executor, with
/// memories tracked exactly if that was asked for and with the result variable that was asked
/// for; where memories were to be tracked on a platform that cannot, it fails instead.
pub proof fn executor_follows_the_runtime(
    options: &SessionOptions,
    unix: bool,
    first: SetupStep,
    outcome: Result<(), String>,
    next: SetupStep,
)
    requires
        call_ensures(first_step, (), first),
        call_ensures(next_step, (options, unix, first, outcome), next),
    ensures
        match outcome {
            Err(e) => fails_with(next, "failed to create runtime: "@ + e@),
            Ok(()) => if options.track_linear_memory && !unix {
                fails_with(next, "track_linear_memory is only supported on Unix platforms"@)
            } else {
                next matches SetupStep::CreateExecutor { track_memory, result_variable } && {
                    &&& track_memory == options.track_linear_memory
                    &&& result_variable == options.result_variable
                }
            },
        },
{
}

/// The callbacks follow the executor. Without one the setup fails, and says whether memories were
/// to be tracked.
pub proof fn callbacks_follow_the_executor(
    options: &SessionOptions,
    unix: bool,
    track_memory: bool,
    result_variable: Option<String>,
    outcome: Result<(), String>,
    next: SetupStep,
)
    requires
        call_ensures(
            next_step,
            (options, unix, SetupStep::CreateExecutor { track_memory, result_variable }, outcome),
            next,
        ),
    ensures
        match outcome {
            Ok(()) => next is CollectCallbacks,
            Err(e) => if track_memory {
                fails_with(next, "failed to create tracked-memory executor: "@ + e@)
            } else {
                fails_with(next, "failed to create executor: "@ + e@)
            },
        },
{
}

/// `list` mounts each of the given volumes: host path, guest path, and whether read-only.
pub open spec fn mounts_each(list: Seq<VolumeMount>, volumes: Seq<(String, String, bool)>) -> bool {
    &&& list.len() == volumes.len()
    &&& forall|i: int|
        0 <= i < list.len() ==> (#[trigger] list[i]).host_path@ == volumes[i].0@
            && list[i].guest_path@ == volumes[i].1@ && list[i].read_only == volumes[i].2
}

/// Volumes are mounted as they are given.
pub proof fn volumes_are_mounted_as_given(
    volumes: &Vec<(String, String, bool)>,
    list: Vec<VolumeMount>,
)
    requires
        call_ensures(volume_mounts, (volumes,), list),
    ensures
        mounts_each(list@, volumes@),
{
}

/// How many volumes are given.
pub open spec fn volume_count(options: SessionOptions) -> nat {
    match options.volumes {
        Some(volumes) => volumes@.len(),
        None => 0,
    }
}

/// `setup` is the filesystem that the options ask for: new storage exactly if none is given, the
/// mount path that is asked for, and each of the volumes.
pub open spec fn is_asked_for(setup: VfsSetup, options: SessionOptions) -> bool {
    &&& setup.fresh_storage <==> !options.vfs
    &&& match (setup.mount_path, options.vfs_mount_path) {
        (Some(path), Some(asked)) => path@ == asked@,
        (None, None) => true,
        _ => false,
    }
    &&& setup.volumes@.len() == volume_count(options)
    &&& options.volumes matches Some(volumes) ==> mounts_each(setup.volumes@, volumes@)
}

/// The session is opened once the callbacks are there, with a filesystem exactly if one is given or
/// there are volumes. What collecting the callbacks raises ends the setup.
pub proof fn opening_follows_the_callbacks(
    options: &SessionOptions,
    unix: bool,
    outcome: Result<(), String>,
    next: SetupStep,
)
    requires
        call_ensures(next_step, (options, unix, SetupStep::CollectCallbacks, outcome), next),
    ensures
        match outcome {
            Ok(()) => next matches SetupStep::OpenSession { vfs } && {
                &&& vfs is Some <==> options.vfs || volume_count(*options) > 0
                &&& vfs matches Some(setup) ==> is_asked_for(setup, *options)
            },
            Err(_) => fails_as_raised(next),
        },
{
}

/// The limits follow the opening, as they were given. What opening raises ends the setup.
pub proof fn limits_follow_the_opening(
    options: &SessionOptions,
    unix: bool,
    vfs: Option<VfsSetup>,
    outcome: Result<(), String>,
    next: SetupStep,
)
    requires
        call_ensures(next_step, (options, unix, SetupStep::OpenSession { vfs }, outcome), next),
    ensures
        match outcome {
            Ok(()) => next matches SetupStep::ApplyLimits { execution_timeout_ms, max_fuel } && {
                &&& execution_timeout_ms == options.execution_timeout_ms
                &&& max_fuel == options.max_fuel
            },
            Err(_) => fails_as_raised(next),
        },
{
}

/// The limits that are set are those that are given, each for its own reason: the timeout lasts the
/// milliseconds that are given, and the fuel is the fuel that is given.
pub proof fn limits_are_those_given(
    execution_timeout_ms: Option<u64>,
    max_fuel: Option<u64>,
    r: Vec<Limit>,
)
    requires
        call_ensures(limits_to_set, (execution_timeout_ms, max_fuel), r),
    ensures
        ({
            let timed: int = if execution_timeout_ms is Some { 1 } else { 0 };
            let fuelled: int = if max_fuel is Some { 1 } else { 0 };
            &&& r@.len() == timed + fuelled
            &&& execution_timeout_ms matches Some(ms) ==> (r@[0] matches Limit::Timeout { timeout }
                && lasts(timeout, ms as int))
            &&& max_fuel matches Some(fuel) ==> (r@[timed] matches Limit::Fuel { limit } && limit
                == fuel)
        }),
{
}

/// `session` is what the options ask for on a platform: linear memories tracked if that was asked
/// for, a filesystem if one is given or there are volumes, the mount path that was asked for,
/// networking if it is configured, and output streamed if standard output is, or standard error.
pub open spec fn is_made_of(session: Session, options: SessionOptions, unix: bool) -> bool {
    &&& session.unix == unix
    &&& session.tracks_linear_memory == options.track_linear_memory
    &&& session.has_vfs <==> options.vfs || volume_count(options) > 0
    &&& match (session.vfs_mount_path, options.vfs_mount_path) {
        (Some(path), Some(asked)) => path@ == asked@,
        (None, None) => true,
        _ => false,
    }
    &&& session.networking == options.network
    &&& options.on_stdout ==> session.streaming
    &&& options.on_stderr ==> session.streaming
    &&& session.streaming ==> options.on_stdout || options.on_stderr
}

/// Once the limits are set the session is ready, and is what the options ask for. What setting
/// them raises ends the setup.
pub proof fn session_follows_the_limits(
    options: &SessionOptions,
    unix: bool,
    execution_timeout_ms: Option<u64>,
    max_fuel: Option<u64>,
    outcome: Result<(), String>,
    next: SetupStep,
)
    requires
        call_ensures(
            next_step,
            (
                options,
                unix,
                SetupStep::ApplyLimits { execution_timeout_ms, max_fuel },
                outcome,
            ),
            next,
        ),
    ensures
        match outcome {
            Ok(()) => next matches SetupStep::Ready { session } && is_made_of(
                session,
                *options,
                unix,
            ),
            Err(_) => fails_as_raised(next),
        },
{
}

/// A setup that has ended stays as it is.
pub proof fn ended_setup_stays(
    options: &SessionOptions,
    unix: bool,
    step: SetupStep,
    outcome: Result<(), String>,
    next: SetupStep,
)
    requires
        step is Ready || step is Failed,
        call_ensures(next_step, (options, unix, step, outcome), next),
    ensures
        next == step,
{
}

/// A setup whose steps all succeed ends with the session that the options ask for, and has asked
/// for each thing on the way as the options have it.
pub proof fn setup_makes_what_was_asked_for(
    options: &SessionOptions,
    unix: bool,
    first: SetupStep,
    executor: SetupStep,
    callbacks: SetupStep,
    opening: SetupStep,
    limits: SetupStep,
    end: SetupStep,
)
    requires
        !options.track_linear_memory || unix,
        call_ensures(first_step, (), first),
        call_ensures(next_step, (options, unix, first, Ok(())), executor),
        call_ensures(next_step, (options, unix, executor, Ok(())), callbacks),
        call_ensures(next_step, (options, unix, callbacks, Ok(())), opening),
        call_ensures(next_step, (options, unix, opening, Ok(())), limits),
        call_ensures(next_step, (options, unix, limits, Ok(())), end),
    ensures
        first is BuildRuntime,
        executor matches SetupStep::CreateExecutor { track_memory, .. } && track_memory
            == options.track_linear_memory,
        callbacks is CollectCallbacks,
        opening matches SetupStep::OpenSession { vfs } && (vfs matches Some(setup)
            ==> is_asked_for(setup, *options)),
        limits is ApplyLimits,
        end matches SetupStep::Ready { session } && is_made_of(session, *options, unix),
{
}

/// The callback at `place` of `list` is the last of its name there.
pub open spec fn is_last_in(list: Seq<String>, place: int, name: Seq<char>) -> bool {
    &&& 0 <= place < list.len()
    &&& list[place]@ == name
    &&& forall|later: int| place < later < list.len() ==> (#[trigger] list[later])@ != name
}

/// Some callback of `list` has this name.
pub open spec fn is_named(list: Seq<String>, name: Seq<char>) -> bool {
    exists|i: int| 0 <= i < list.len() && (#[trigger] list[i])@ == name
}

/// `choice` is what its name stands for: the last MCP callback of that name, and if there is none
/// the last given one.
pub open spec fn stands_for_its_name(
    choice: CallbackChoice,
    given: Seq<String>,
    mcp: Seq<String>,
) -> bool {
    match choice.source {
        CallbackSource::Mcp { place } => is_last_in(mcp, place as int, choice.name@),
        CallbackSource::Given { place } => is_last_in(given, place as int, choice.name@)
            && !is_named(mcp, choice.name@),
    }
}

/// One of `choices` has this name.
pub open spec fn is_chosen(choices: Seq<CallbackChoice>, name: Seq<char>) -> bool {
    exists|c: int| 0 <= c < choices.len() && (#[trigger] choices[c]).name@ == name
}

/// The callbacks of a session have each name once, and stand for it: an MCP callback takes the
/// place of a given one, and a later one that of an earlier one.
pub proof fn callbacks_stand_for_their_names(
    given: &Vec<String>,
    mcp: &Vec<String>,
    choices: Vec<CallbackChoice>,
)
    requires
        given@.len() + mcp@.len() <= usize::MAX,
        call_ensures(merge_callbacks, (given, mcp), choices),
    ensures
        forall|c: int|
            0 <= c < choices@.len() ==> stands_for_its_name(
                #[trigger] choices@[c],
                given@,
                mcp@,
            ),
        forall|c: int, d: int|
            0 <= c < d < choices@.len() ==> (#[trigger] choices@[c]).name@ != (
            #[trigger] choices@[d]).name@,
        forall|i: int| 0 <= i < given@.len() ==> is_chosen(choices@, (#[trigger] given@[i])@),
        forall|i: int| 0 <= i < mcp@.len() ==> is_chosen(choices@, (#[trigger] mcp@[i])@),
{
    let names = crate::setup::all_names(given@, mcp@);
    let count = given@.len() as int;
    assert(names.len() == count + mcp@.len());
    assert forall|i: int| 0 <= i < given@.len() implies names[i] == (#[trigger] given@[i])@ by {}
    assert forall|i: int| 0 <= i < mcp@.len() implies names[count + i] == (#[trigger] mcp@[i])@ by {
    }
    assert forall|c: int| 0 <= c < choices@.len() implies stands_for_its_name(
        #[trigger] choices@[c],
        given@,
        mcp@,
    ) by {
        let choice = choices@[c];
        assert(crate::setup::is_last_callback(choice, names, given@.len()));
        match choice.source {
            CallbackSource::Mcp { place } => {
                assert(mcp@[place as int]@ == choice.name@);
                assert forall|later: int| place < later < mcp@.len() implies (
                #[trigger] mcp@[later])@ != choice.name@ by {
                    assert(names[count + later] != names[count + place]);
                }
            },
            CallbackSource::Given { place } => {
                assert(given@[place as int]@ == choice.name@);
                assert forall|later: int| place < later < given@.len() implies (
                #[trigger] given@[later])@ != choice.name@ by {
                    assert(names[later] != names[place as int]);
                }
                assert forall|i: int| 0 <= i < mcp@.len() implies (#[trigger] mcp@[i])@
                    != choice.name@ by {
                    assert(names[count + i] != names[place as int]);
                }
            },
        }
    }
    assert forall|i: int| 0 <= i < given@.len() implies is_chosen(
        choices@,
        (#[trigger] given@[i])@,
    ) by {
        assert(crate::setup::has_choice(choices@, names[i]));
    }
    assert forall|i: int| 0 <= i < mcp@.len() implies is_chosen(
        choices@,
        (#[trigger] mcp@[i])@,
    ) by {
        assert(crate::setup::has_choice(choices@, names[count + i]));
    }
}

} // verus!
