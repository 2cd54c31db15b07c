//! The workflow engine. A workflow is a plan: a list of steps, each one unit
//! of outside work behind a guard over what has been observed so far. A
//! [`Runner`] walks a plan. It hands out one request at a time, takes the
//! reply, and decides what comes next; when a step inside the plan's recovery
//! window fails it walks the recovery plan instead, so that a failed workflow
//! ends unwound.

use crate::backend::{installed_state, spec_installed_state, InstalledState};
use vstd::prelude::*;

verus! {

/// Where a workflow stands.
#[derive(Clone, Copy, PartialEq, Eq, Debug, Structural)]
pub enum Phase {
    Idle,
    Preflight,
    Staging,
    Applying,
    Finalizing,
    Done,
    Failed,
    Unwound,
}

/// Which init protocol of the framework an operation is for.
#[derive(Clone, Copy, PartialEq, Eq, Debug, Structural)]
pub enum Variant {
    /// The older framework, whose marker library is `libmagisk64.so`.
    Legacy,
    /// The current framework, whose marker library is `libmagisk.so`.
    Modern,
}

/// One of the two disk images of the guest.
#[derive(Clone, Copy, PartialEq, Eq, Debug, Structural)]
pub enum Image {
    System,
    Vendor,
}

/// Something that a workflow finds out while it runs.
#[derive(Clone, Copy, PartialEq, Eq, Debug, Structural)]
pub enum Fact {
    /// The injected tree exists under the root that was probed: the marker
    /// of the root.
    Tree,
    /// The twin of the injected tree exists on the data partition: the
    /// marker of the data partition.
    Twin,
    /// The framework's binary exists in the running guest or under the
    /// overlay, and on the data partition.
    SetUp,
    /// The user agrees to the change of the images. To find this out is to
    /// ask.
    Confirmed,
    /// A session exists; a frozen one has been unfrozen.
    SessionRunning,
    /// The container runs.
    ContainerRunning,
    /// The session that was last seen is not empty.
    HadSession,
    /// The container could be started again. To find this out is to start
    /// it.
    Started,
    /// The scratch mount point is mounted.
    Mounted,
    /// The scratch directory exists.
    ScratchExists,
    /// The system image exists.
    SystemImage,
    /// The vendor image exists.
    VendorImage,
    /// The system image is smaller than it has to be.
    SystemSmall,
    /// The vendor image is smaller than it has to be.
    VendorSmall,
    /// The installed framework is of the modern kind.
    Modern,
    /// The installed version holds the version on offer.
    Current,
    /// The framework reported a version with its mark.
    Recognized,
    /// The guest has the manager app installed.
    Manager,
    /// The guest has the legacy manager app installed.
    LegacyManager,
}

/// What has been observed so far. What was not observed counts as `false`.
#[derive(Clone, Copy, PartialEq, Eq, Debug, Structural)]
pub struct Facts {
    pub tree: bool,
    pub twin: bool,
    pub set_up: bool,
    pub confirmed: bool,
    pub session_running: bool,
    pub container_running: bool,
    pub had_session: bool,
    pub started: bool,
    pub mounted: bool,
    pub scratch_exists: bool,
    pub system_image: bool,
    pub vendor_image: bool,
    pub system_small: bool,
    pub vendor_small: bool,
    pub modern: bool,
    pub current: bool,
    pub recognized: bool,
    pub manager: bool,
    pub legacy_manager: bool,
}

impl Facts {
    /// Nothing observed.
    pub open spec fn spec_none() -> Facts {
        Facts {
            tree: false,
            twin: false,
            set_up: false,
            confirmed: false,
            session_running: false,
            container_running: false,
            had_session: false,
            started: false,
            mounted: false,
            scratch_exists: false,
            system_image: false,
            vendor_image: false,
            system_small: false,
            vendor_small: false,
            modern: false,
            current: false,
            recognized: false,
            manager: false,
            legacy_manager: false,
        }
    }

    /// The value of a fact.
    pub open spec fn spec_get(self, fact: Fact) -> bool {
        match fact {
            Fact::Tree => self.tree,
            Fact::Twin => self.twin,
            Fact::SetUp => self.set_up,
            Fact::Confirmed => self.confirmed,
            Fact::SessionRunning => self.session_running,
            Fact::ContainerRunning => self.container_running,
            Fact::HadSession => self.had_session,
            Fact::Started => self.started,
            Fact::Mounted => self.mounted,
            Fact::ScratchExists => self.scratch_exists,
            Fact::SystemImage => self.system_image,
            Fact::VendorImage => self.vendor_image,
            Fact::SystemSmall => self.system_small,
            Fact::VendorSmall => self.vendor_small,
            Fact::Modern => self.modern,
            Fact::Current => self.current,
            Fact::Recognized => self.recognized,
            Fact::Manager => self.manager,
            Fact::LegacyManager => self.legacy_manager,
        }
    }

    /// These facts with one of them set.
    pub open spec fn spec_with(self, fact: Fact, value: bool) -> Facts {
        match fact {
            Fact::Tree => Facts { tree: value, ..self },
            Fact::Twin => Facts { twin: value, ..self },
            Fact::SetUp => Facts { set_up: value, ..self },
            Fact::Confirmed => Facts { confirmed: value, ..self },
            Fact::SessionRunning => Facts { session_running: value, ..self },
            Fact::ContainerRunning => Facts { container_running: value, ..self },
            Fact::HadSession => Facts { had_session: value, ..self },
            Fact::Started => Facts { started: value, ..self },
            Fact::Mounted => Facts { mounted: value, ..self },
            Fact::ScratchExists => Facts { scratch_exists: value, ..self },
            Fact::SystemImage => Facts { system_image: value, ..self },
            Fact::VendorImage => Facts { vendor_image: value, ..self },
            Fact::SystemSmall => Facts { system_small: value, ..self },
            Fact::VendorSmall => Facts { vendor_small: value, ..self },
            Fact::Modern => Facts { modern: value, ..self },
            Fact::Current => Facts { current: value, ..self },
            Fact::Recognized => Facts { recognized: value, ..self },
            Fact::Manager => Facts { manager: value, ..self },
            Fact::LegacyManager => Facts { legacy_manager: value, ..self },
        }
    }

    /// Whether the framework counts as installed, going by the two markers
    /// as they were observed.
    pub open spec fn spec_installed_state(self) -> InstalledState {
        spec_installed_state(self.tree, self.twin)
    }

    /// Whether the framework counts as installed, going by the two markers
    /// as they were observed.
    pub fn installed_state(&self) -> (state: InstalledState)
        ensures
            state == self.spec_installed_state(),
    {
        installed_state(self.tree, self.twin)
    }

    /// Nothing observed.
    pub fn none() -> (facts: Facts)
        ensures
            facts == Facts::spec_none(),
    {
        Facts {
            tree: false,
            twin: false,
            set_up: false,
            confirmed: false,
            session_running: false,
            container_running: false,
            had_session: false,
            started: false,
            mounted: false,
            scratch_exists: false,
            system_image: false,
            vendor_image: false,
            system_small: false,
            vendor_small: false,
            modern: false,
            current: false,
            recognized: false,
            manager: false,
            legacy_manager: false,
        }
    }

    /// The value of a fact.
    pub fn get(&self, fact: Fact) -> (value: bool)
        ensures
            value == self.spec_get(fact),
    {
        match fact {
            Fact::Tree => self.tree,
            Fact::Twin => self.twin,
            Fact::SetUp => self.set_up,
            Fact::Confirmed => self.confirmed,
            Fact::SessionRunning => self.session_running,
            Fact::ContainerRunning => self.container_running,
            Fact::HadSession => self.had_session,
            Fact::Started => self.started,
            Fact::Mounted => self.mounted,
            Fact::ScratchExists => self.scratch_exists,
            Fact::SystemImage => self.system_image,
            Fact::VendorImage => self.vendor_image,
            Fact::SystemSmall => self.system_small,
            Fact::VendorSmall => self.vendor_small,
            Fact::Modern => self.modern,
            Fact::Current => self.current,
            Fact::Recognized => self.recognized,
            Fact::Manager => self.manager,
            Fact::LegacyManager => self.legacy_manager,
        }
    }

    /// These facts with one of them set.
    pub fn with(self, fact: Fact, value: bool) -> (facts: Facts)
        ensures
            facts == self.spec_with(fact, value),
    {
        match fact {
            Fact::Tree => Facts { tree: value, ..self },
            Fact::Twin => Facts { twin: value, ..self },
            Fact::SetUp => Facts { set_up: value, ..self },
            Fact::Confirmed => Facts { confirmed: value, ..self },
            Fact::SessionRunning => Facts { session_running: value, ..self },
            Fact::ContainerRunning => Facts { container_running: value, ..self },
            Fact::HadSession => Facts { had_session: value, ..self },
            Fact::Started => Facts { started: value, ..self },
            Fact::Mounted => Facts { mounted: value, ..self },
            Fact::ScratchExists => Facts { scratch_exists: value, ..self },
            Fact::SystemImage => Facts { system_image: value, ..self },
            Fact::VendorImage => Facts { vendor_image: value, ..self },
            Fact::SystemSmall => Facts { system_small: value, ..self },
            Fact::VendorSmall => Facts { vendor_small: value, ..self },
            Fact::Modern => Facts { modern: value, ..self },
            Fact::Current => Facts { current: value, ..self },
            Fact::Recognized => Facts { recognized: value, ..self },
            Fact::Manager => Facts { manager: value, ..self },
            Fact::LegacyManager => Facts { legacy_manager: value, ..self },
        }
    }
}

/// One condition of a guard.
#[derive(Clone, Copy, PartialEq, Eq, Debug, Structural)]
pub enum Cond {
    Always,
    Is(Fact),
    Not(Fact),
}

/// When a step is taken: when all of its conditions hold.
#[derive(Clone, Copy, PartialEq, Eq, Debug, Structural)]
pub struct Guard {
    pub first: Cond,
    pub second: Cond,
    pub third: Cond,
}

/// A command that runs inside the guest.
#[derive(Clone, Copy, PartialEq, Eq, Debug, Structural)]
pub enum GuestStep {
    /// `rm -rf /data/adb/magisk`
    ClearData,
    /// `mkdir -p /data/adb/magisk`
    MakeData,
    /// `chmod 700 /data/adb`
    LockAdb,
    /// `cp -r /system/etc/init/magisk/* /data/adb/magisk`
    CopyTreeToData,
    /// `chmod -R 755 /data/adb/magisk/`
    ChmodData,
    /// `chown -R 0:0 /data/adb/magisk`
    ChownData,
    /// `cp /system/etc/init/magisk/magisk.apk /data/local/tmp`
    StageApkFromTree,
    /// `cp /data/adb/magisk/magisk.apk /data/local/tmp`
    StageApkFromData,
    /// `pm uninstall com.topjohnwu.magisk`
    UninstallManager,
    /// `pm uninstall io.github.huskydg.magisk`
    UninstallLegacyManager,
    /// `pm install /data/local/tmp/magisk.apk`
    InstallApk,
    /// `rm /data/local/tmp/magisk.apk`
    RemoveStagedApk,
    /// `chmod 755 /data/local/tmp/magiskpolicy`, without the framework's `su`
    ChmodPolicyTool,
    /// The policy tool, from the vendor policy into
    /// `/data/local/tmp/precompiled_sepolicy`, without `su`
    BuildPolicy,
    /// `cp /vendor/etc/selinux/vendor_file_contexts /data/local/tmp/`,
    /// without `su`
    StageContexts,
    /// `rm /data/local/tmp/magiskpolicy`, without `su`
    RemovePolicyTool,
    /// `cp /system/etc/init/hw/init.zygote* /data/local/tmp/`, without `su`
    StageZygote,
}

/// One unit of outside work.
#[derive(Clone, Copy, PartialEq, Eq, Debug, Structural)]
pub enum Action {
    /// Stop the session and the container.
    StopSession,
    /// Stop the container, and keep the session.
    StopContainer,
    /// Start the container with the session that was last seen.
    StartSession,
    /// Create the scratch directory.
    CreateScratch,
    /// Remove the scratch directory.
    RemoveScratch,
    /// Fetch the manifest of a variant, and from it the version on offer.
    FetchManifest(Variant),
    /// Download the payload that the manifest names into the scratch
    /// directory.
    DownloadPayload,
    /// Copy the payload that the user named into the scratch directory.
    CopyCustomPayload,
    /// Unpack the payload.
    Extract,
    /// Hold the unpacked payload against the variant asked for.
    ValidatePayload,
    /// Copy the policy tool of the payload to where the guest finds it.
    StagePolicyTool,
    /// Run a command inside the guest.
    Guest(GuestStep),
    /// Check the file system of an image.
    Fsck(Image),
    /// Grow an image to its size.
    Resize(Image),
    /// Create the scratch mount point.
    MakeMountPoint,
    /// Mount an image, read and write, through a loop device.
    Mount(Image),
    /// Unmount the scratch mount point and all below it.
    Unmount,
    /// Carry out the clean-up plan; with the flag, also on the data
    /// partition.
    CleanUp(bool),
    /// Create the injected tree, the addon directory and the daemon's
    /// working directory, empty.
    CreateTree,
    /// Copy the payload's libraries into the tree, each under its short
    /// name.
    CopyBinaries,
    /// Copy the 32-bit marker library into the tree.
    CopyCompanion,
    /// Copy the scripts that the variant needs into the tree.
    CopyAssets,
    /// Make the tree executable, and add the Chrome OS tools and the stub.
    FinishTree,
    /// Patch the boot-animation init script.
    PatchBootanim,
    /// Patch the two zygote init scripts.
    PatchZygote,
    /// Patch the vendor security policy.
    PatchSepolicy,
    /// Copy the payload archive itself into the tree.
    CopyPayloadIntoTree,
    /// Replace the tree on the data partition by the new one.
    MirrorToData,
    /// Restore the vendor security policy.
    RestoreSepolicy,
    /// Restore the two zygote init scripts.
    RestoreZygote,
    /// Restore the boot-animation init script.
    RestoreBootanim,
    /// Ask the guest for the version of the framework.
    ReadVersion,
}

/// What the user is told.
#[derive(Clone, Copy, PartialEq, Eq, Debug, Structural)]
pub enum Message {
    Installing,
    AlreadyInstalled,
    StoppingSession,
    StoppingWaydroid,
    Extracting,
    CopyingFiles,
    Finishing,
    StartingWaydroid,
    CouldNotStart,
    Downloading,
    InstallDone,
    InstallDoneStartManually,
    SetupHint,
    Aborting,
    Removing,
    RemovingFiles,
    RemovalDone,
    StartManually,
    Updating,
    UpToDate,
    UpdateDone,
    UpdateFailed,
    RunningSetup,
    ResizingSystem,
    ResizingVendor,
    MountingSystem,
    MountingVendor,
    Unmounting,
    /// The seconds that are left before the restart.
    RestartIn(u8),
}

/// Why a workflow failed.
#[derive(Clone, Copy, PartialEq, Eq, Debug, Structural)]
pub enum Fault {
    /// The outside work of a step failed; the caller knows how.
    Step,
    /// A reply did not fit the request.
    Protocol,
    /// The framework is not installed.
    NotInstalled,
    /// The container does not run.
    ContainerNotRunning,
    /// The framework reported no version that bears its mark.
    Unrecognized,
    /// The system image is not where the configuration says.
    NoSystemImage,
    /// The vendor image is not where the configuration says.
    NoVendorImage,
    /// No session runs.
    SessionNotRunning,
}

/// What a step does.
#[derive(Clone, Copy, PartialEq, Eq, Debug, Structural)]
pub enum Op {
    /// Find out a fact.
    Observe(Fact),
    /// Do the work once.
    Do(Action),
    /// Do the work until it succeeds, at most so many times, with a second
    /// between two tries.
    Retry(Action, u8),
    /// Let so many seconds pass.
    Wait(u64),
    /// Tell the user.
    Say(Message),
    /// End the workflow with a fault.
    Fail(Fault),
    /// End the workflow here.
    Stop,
}

/// A step of a plan.
#[derive(Clone, Copy, PartialEq, Eq, Debug, Structural)]
pub struct Step {
    pub phase: Phase,
    pub guard: Guard,
    pub op: Op,
}

/// The step of a phase that does `op` when the three conditions hold.
pub open spec fn spec_step(phase: Phase, first: Cond, second: Cond, third: Cond, op: Op) -> Step {
    Step { phase, guard: Guard { first, second, third }, op }
}

/// The step of a phase that does `op` when the three conditions hold.
#[verifier::when_used_as_spec(spec_step)]
pub fn step(phase: Phase, first: Cond, second: Cond, third: Cond, op: Op) -> (s: Step)
    ensures
        s == spec_step(phase, first, second, third, op),
{
    Step { phase, guard: Guard { first, second, third }, op }
}

/// The step of a phase that does `op` whatever was observed.
pub open spec fn spec_always(phase: Phase, op: Op) -> Step {
    spec_step(phase, Cond::Always, Cond::Always, Cond::Always, op)
}

/// The step of a phase that does `op` whatever was observed.
#[verifier::when_used_as_spec(spec_always)]
pub fn always(phase: Phase, op: Op) -> (s: Step)
    ensures
        s == spec_always(phase, op),
{
    step(phase, Cond::Always, Cond::Always, Cond::Always, op)
}

/// The step of a phase that does `op` when the condition holds.
pub open spec fn spec_given(phase: Phase, cond: Cond, op: Op) -> Step {
    spec_step(phase, cond, Cond::Always, Cond::Always, op)
}

/// The step of a phase that does `op` when the condition holds.
#[verifier::when_used_as_spec(spec_given)]
pub fn given(phase: Phase, cond: Cond, op: Op) -> (s: Step)
    ensures
        s == spec_given(phase, cond, op),
{
    step(phase, cond, Cond::Always, Cond::Always, op)
}

/// The step of a phase that does `op` when both conditions hold.
pub open spec fn spec_given2(phase: Phase, first: Cond, second: Cond, op: Op) -> Step {
    spec_step(phase, first, second, Cond::Always, op)
}

/// The step of a phase that does `op` when both conditions hold.
#[verifier::when_used_as_spec(spec_given2)]
pub fn given2(phase: Phase, first: Cond, second: Cond, op: Op) -> (s: Step)
    ensures
        s == spec_given2(phase, first, second, op),
{
    step(phase, first, second, Cond::Always, op)
}

/// What the runner asks of its caller.
#[derive(Clone, Copy, PartialEq, Eq, Debug, Structural)]
pub enum Request {
    /// Find out the fact and reply with `Flag`, or with `Failed`.
    Observe(Fact),
    /// Do the work and reply with `Done` or `Failed`.
    Do(Action),
    /// Sleep for so many seconds and reply with `Done`.
    Wait(u64),
    /// Print the message and reply with `Done`.
    Say(Message),
    /// The workflow has ended.
    Finish(Outcome),
}

/// What the caller tells the runner.
#[derive(Clone, Copy, PartialEq, Eq, Debug, Structural)]
pub enum Reply {
    /// Nothing was asked yet.
    Start,
    Done,
    Failed,
    Flag(bool),
}

/// How a workflow ended.
#[derive(Clone, Copy, PartialEq, Eq, Debug, Structural)]
pub enum Outcome {
    /// The plan was carried out.
    Done,
    /// A step failed, and nothing was undone.
    Failed(Fault),
    /// A step failed, and the recovery plan was carried out.
    Unwound(Fault),
}

/// Which plan the runner walks.
#[derive(Clone, Copy, PartialEq, Eq, Debug, Structural)]
pub enum Mode {
    Fresh,
    Main,
    Recovery,
    Finished(Outcome),
}

/// The seconds between two tries of a step that is retried.
pub const RETRY_DELAY: u64 = 1;

/// How often a mount or an unmount is tried.
pub const RETRY_LIMIT: u8 = 5;

pub open spec fn cond_holds(cond: Cond, facts: Facts) -> bool {
    match cond {
        Cond::Always => true,
        Cond::Is(fact) => facts.spec_get(fact),
        Cond::Not(fact) => !facts.spec_get(fact),
    }
}

/// The step is to be taken, given what has been observed.
pub open spec fn enabled(step: Step, facts: Facts) -> bool {
    cond_holds(step.guard.first, facts) && cond_holds(step.guard.second, facts) && cond_holds(
        step.guard.third,
        facts,
    )
}

/// The index of the first step at or after `pc` that is to be taken; the
/// length of the plan if there is none.
pub open spec fn seek(plan: Seq<Step>, facts: Facts, pc: nat) -> nat
    decreases plan.len() - pc,
{
    if pc >= plan.len() {
        plan.len()
    } else if enabled(plan[pc as int], facts) {
        pc
    } else {
        seek(plan, facts, pc + 1)
    }
}

/// What a plan wants next.
pub enum Wanted {
    /// The request of the step at this index.
    Ask(nat, Request),
    /// The step at this index ends the plan with a fault.
    Fault(nat, Fault),
    /// The plan is at its end.
    End,
}

/// What a plan wants from `pc` on.
pub open spec fn wanted(plan: Seq<Step>, facts: Facts, pc: nat) -> Wanted {
    let k = seek(plan, facts, pc);
    if k >= plan.len() {
        Wanted::End
    } else {
        match plan[k as int].op {
            Op::Observe(fact) => Wanted::Ask(k, Request::Observe(fact)),
            Op::Do(action) => Wanted::Ask(k, Request::Do(action)),
            Op::Retry(action, _) => Wanted::Ask(k, Request::Do(action)),
            Op::Wait(seconds) => Wanted::Ask(k, Request::Wait(seconds)),
            Op::Say(message) => Wanted::Ask(k, Request::Say(message)),
            Op::Fail(fault) => Wanted::Fault(k, fault),
            Op::Stop => Wanted::End,
        }
    }
}

/// The state of a runner.
pub struct RunnerView {
    /// The plan.
    pub plan: Seq<Step>,
    /// What is carried out when a step inside the window fails.
    pub recovery: Seq<Step>,
    /// The failures of the steps from this index on are recovered from,
    pub window: nat,
    /// up to the step before this index.
    pub window_end: nat,
    pub facts: Facts,
    pub mode: Mode,
    /// The index, in the plan that is walked, of the step that was asked
    /// for.
    pub pc: nat,
    /// The failed tries of the step that was asked for.
    pub attempts: nat,
    /// The runner waits between two tries.
    pub waiting: bool,
    /// The fault that started the recovery.
    pub fault: Fault,
}

/// The state of a runner that has not started.
pub open spec fn fresh(plan: Seq<Step>, recovery: Seq<Step>, window: nat, window_end: nat) -> RunnerView {
    RunnerView {
        plan,
        recovery,
        window,
        window_end,
        facts: Facts::spec_none(),
        mode: Mode::Fresh,
        pc: 0,
        attempts: 0,
        waiting: false,
        fault: Fault::Step,
    }
}

/// The runner ends.
pub open spec fn ended(r: RunnerView, outcome: Outcome) -> (RunnerView, Request) {
    (
        RunnerView { mode: Mode::Finished(outcome), attempts: 0, waiting: false, ..r },
        Request::Finish(outcome),
    )
}

/// The runner goes on in the recovery plan from `pc`: the end of that plan
/// is the end of a workflow that was unwound, and a fault in it ends the
/// workflow as failed.
pub open spec fn proceed_recovery(r: RunnerView, pc: nat) -> (RunnerView, Request) {
    match wanted(r.recovery, r.facts, pc) {
        Wanted::Ask(k, request) => (
            RunnerView { mode: Mode::Recovery, pc: k, attempts: 0, waiting: false, ..r },
            request,
        ),
        Wanted::Fault(k, fault) => ended(r, Outcome::Failed(r.fault)),
        Wanted::End => ended(r, Outcome::Unwound(r.fault)),
    }
}

/// The step at `pc` of the plan has failed: inside the window the runner
/// turns to the recovery plan, outside it the workflow ends as failed.
pub open spec fn faulted(r: RunnerView, pc: nat, fault: Fault) -> (RunnerView, Request) {
    if r.window <= pc < r.window_end {
        proceed_recovery(RunnerView { fault, ..r }, 0)
    } else {
        ended(r, Outcome::Failed(fault))
    }
}

/// The runner goes on in the plan from `pc`. A step that ends the plan with
/// a fault during the preflight ends the workflow as failed: nothing has
/// been changed yet. Later such a step counts as a step that failed.
pub open spec fn proceed_main(r: RunnerView, pc: nat) -> (RunnerView, Request) {
    match wanted(r.plan, r.facts, pc) {
        Wanted::Ask(k, request) => (
            RunnerView { mode: Mode::Main, pc: k, attempts: 0, waiting: false, ..r },
            request,
        ),
        Wanted::Fault(k, fault) => if r.plan[k as int].phase == Phase::Preflight {
            ended(r, Outcome::Failed(fault))
        } else {
            faulted(r, k, fault)
        },
        Wanted::End => ended(r, Outcome::Done),
    }
}

/// The runner goes on after the step that was asked for.
pub open spec fn proceed(r: RunnerView) -> (RunnerView, Request) {
    if r.mode == Mode::Recovery {
        proceed_recovery(r, r.pc + 1)
    } else {
        proceed_main(r, r.pc + 1)
    }
}

/// The step that was asked for has failed.
pub open spec fn step_failed(r: RunnerView, fault: Fault) -> (RunnerView, Request) {
    if r.mode == Mode::Recovery {
        ended(r, Outcome::Failed(r.fault))
    } else {
        faulted(r, r.pc, fault)
    }
}

/// The step that was asked for, if the runner is in a plan.
pub open spec fn current_step(r: RunnerView) -> Option<Step> {
    if r.mode == Mode::Main && r.pc < r.plan.len() {
        Some(r.plan[r.pc as int])
    } else if r.mode == Mode::Recovery && r.pc < r.recovery.len() {
        Some(r.recovery[r.pc as int])
    } else {
        None
    }
}

/// The runner goes on after the reply to an observation.
pub open spec fn after_observe(r: RunnerView, fact: Fact, reply: Reply) -> (RunnerView, Request) {
    match reply {
        Reply::Flag(value) => proceed(RunnerView { facts: r.facts.spec_with(fact, value), ..r }),
        Reply::Failed => step_failed(r, Fault::Step),
        _ => step_failed(r, Fault::Protocol),
    }
}

/// The runner goes on after the reply to a step that is retried: a failure
/// before the last try is followed by a wait and the next try, a failure of
/// the last try is the failure of the step.
pub open spec fn after_retry(r: RunnerView, action: Action, tries: u8, reply: Reply) -> (
    RunnerView,
    Request,
) {
    if r.waiting {
        (RunnerView { waiting: false, ..r }, Request::Do(action))
    } else if reply == Reply::Failed {
        if r.attempts + 1 >= tries {
            step_failed(r, Fault::Step)
        } else {
            (
                RunnerView { attempts: r.attempts + 1, waiting: true, ..r },
                Request::Wait(RETRY_DELAY),
            )
        }
    } else {
        proceed(r)
    }
}

/// The runner goes on after the reply to any other step.
pub open spec fn after_plain(r: RunnerView, reply: Reply) -> (RunnerView, Request) {
    if reply == Reply::Failed {
        step_failed(r, Fault::Step)
    } else {
        proceed(r)
    }
}

/// The runner's transition: the state after a reply, and the next request.
pub open spec fn spec_next(r: RunnerView, reply: Reply) -> (RunnerView, Request) {
    match r.mode {
        Mode::Fresh => proceed_main(r, 0),
        Mode::Finished(outcome) => (r, Request::Finish(outcome)),
        _ => match current_step(r) {
            None => step_failed(r, Fault::Protocol),
            Some(step) => match step.op {
                Op::Observe(fact) => after_observe(r, fact, reply),
                Op::Retry(action, tries) => after_retry(r, action, tries, reply),
                _ => after_plain(r, reply),
            },
        },
    }
}

/// The phase that a runner is in.
pub open spec fn spec_phase(r: RunnerView) -> Phase {
    match r.mode {
        Mode::Fresh => Phase::Idle,
        Mode::Main => match current_step(r) {
            Some(step) => step.phase,
            None => Phase::Failed,
        },
        Mode::Recovery => Phase::Failed,
        Mode::Finished(Outcome::Done) => Phase::Done,
        Mode::Finished(Outcome::Failed(_)) => Phase::Failed,
        Mode::Finished(Outcome::Unwound(_)) => Phase::Unwound,
    }
}

/// Walks a plan, one request at a time.
#[derive(Debug)]
pub struct Runner {
    plan: Vec<Step>,
    recovery: Vec<Step>,
    window: usize,
    window_end: usize,
    facts: Facts,
    mode: Mode,
    pc: usize,
    attempts: u8,
    waiting: bool,
    fault: Fault,
}

impl View for Runner {
    type V = RunnerView;

    closed spec fn view(&self) -> RunnerView {
        RunnerView {
            plan: self.plan@,
            recovery: self.recovery@,
            window: self.window as nat,
            window_end: self.window_end as nat,
            facts: self.facts,
            mode: self.mode,
            pc: self.pc as nat,
            attempts: self.attempts as nat,
            waiting: self.waiting,
            fault: self.fault,
        }
    }
}

fn cond_is_met(cond: Cond, facts: &Facts) -> (r: bool)
    ensures
        r == cond_holds(cond, *facts),
{
    match cond {
        Cond::Always => true,
        Cond::Is(fact) => facts.get(fact),
        Cond::Not(fact) => !facts.get(fact),
    }
}

fn find_enabled(plan: &Vec<Step>, facts: &Facts, pc: usize) -> (k: usize)
    ensures
        k == seek(plan@, *facts, pc as nat),
        k <= plan@.len() || k == pc,
{
    let mut k: usize = pc;
    while k < plan.len()
        invariant
            pc <= k,
            seek(plan@, *facts, k as nat) == seek(plan@, *facts, pc as nat),
        decreases plan@.len() - k,
    {
        let step = plan[k];
        if cond_is_met(step.guard.first, facts) && cond_is_met(step.guard.second, facts)
            && cond_is_met(step.guard.third, facts) {
            return k;
        }
        k += 1;
    }
    if k > plan.len() {
        plan.len()
    } else {
        k
    }
}

impl Runner {
    /// A runner for `plan`. When a step at an index from `window` up to, but
    /// not including, `window_end` fails, `recovery` is carried out.
    pub fn new(plan: Vec<Step>, recovery: Vec<Step>, window: usize, window_end: usize) -> (runner:
        Runner)
        ensures
            runner@ == fresh(plan@, recovery@, window as nat, window_end as nat),
    {
        Runner {
            plan,
            recovery,
            window,
            window_end,
            facts: Facts::none(),
            mode: Mode::Fresh,
            pc: 0,
            attempts: 0,
            waiting: false,
            fault: Fault::Step,
        }
    }

    fn end(&mut self, outcome: Outcome) -> (request: Request)
        ensures
            (final(self)@, request) == ended(old(self)@, outcome),
    {
        self.mode = Mode::Finished(outcome);
        self.attempts = 0;
        self.waiting = false;
        Request::Finish(outcome)
    }

    fn go_recovery(&mut self, pc: usize) -> (request: Request)
        ensures
            (final(self)@, request) == proceed_recovery(old(self)@, pc as nat),
    {
        let k = find_enabled(&self.recovery, &self.facts, pc);
        if k >= self.recovery.len() {
            return self.end(Outcome::Unwound(self.fault));
        }
        let request = match self.recovery[k].op {
            Op::Observe(fact) => Request::Observe(fact),
            Op::Do(action) => Request::Do(action),
            Op::Retry(action, _) => Request::Do(action),
            Op::Wait(seconds) => Request::Wait(seconds),
            Op::Say(message) => Request::Say(message),
            Op::Fail(_) => {
                return self.end(Outcome::Failed(self.fault));
            },
            Op::Stop => {
                return self.end(Outcome::Unwound(self.fault));
            },
        };
        self.mode = Mode::Recovery;
        self.pc = k;
        self.attempts = 0;
        self.waiting = false;
        request
    }

    fn fault_at(&mut self, pc: usize, fault: Fault) -> (request: Request)
        ensures
            (final(self)@, request) == faulted(old(self)@, pc as nat, fault),
    {
        if self.window <= pc && pc < self.window_end {
            self.fault = fault;
            self.go_recovery(0)
        } else {
            self.end(Outcome::Failed(fault))
        }
    }

    fn go_main(&mut self, pc: usize) -> (request: Request)
        ensures
            (final(self)@, request) == proceed_main(old(self)@, pc as nat),
    {
        let k = find_enabled(&self.plan, &self.facts, pc);
        if k >= self.plan.len() {
            return self.end(Outcome::Done);
        }
        let request = match self.plan[k].op {
            Op::Observe(fact) => Request::Observe(fact),
            Op::Do(action) => Request::Do(action),
            Op::Retry(action, _) => Request::Do(action),
            Op::Wait(seconds) => Request::Wait(seconds),
            Op::Say(message) => Request::Say(message),
            Op::Fail(fault) => {
                if self.plan[k].phase == Phase::Preflight {
                    return self.end(Outcome::Failed(fault));
                }
                return self.fault_at(k, fault);
            },
            Op::Stop => {
                return self.end(Outcome::Done);
            },
        };
        self.mode = Mode::Main;
        self.pc = k;
        self.attempts = 0;
        self.waiting = false;
        request
    }

    fn go_on(&mut self) -> (request: Request)
        requires
            old(self)@.pc < usize::MAX,
        ensures
            (final(self)@, request) == proceed(old(self)@),
    {
        let next: usize = self.pc + 1;
        match self.mode {
            Mode::Recovery => self.go_recovery(next),
            _ => self.go_main(next),
        }
    }

    fn fail_step(&mut self, fault: Fault) -> (request: Request)
        ensures
            (final(self)@, request) == step_failed(old(self)@, fault),
    {
        match self.mode {
            Mode::Recovery => self.end(Outcome::Failed(self.fault)),
            _ => self.fault_at(self.pc, fault),
        }
    }

    fn on_observe(&mut self, fact: Fact, reply: Reply) -> (request: Request)
        requires
            old(self)@.pc < usize::MAX,
        ensures
            (final(self)@, request) == after_observe(old(self)@, fact, reply),
    {
        match reply {
            Reply::Flag(value) => {
                self.facts = self.facts.with(fact, value);
                self.go_on()
            },
            Reply::Failed => self.fail_step(Fault::Step),
            _ => self.fail_step(Fault::Protocol),
        }
    }

    fn on_retry(&mut self, action: Action, tries: u8, reply: Reply) -> (request: Request)
        requires
            old(self)@.pc < usize::MAX,
        ensures
            (final(self)@, request) == after_retry(old(self)@, action, tries, reply),
    {
        if self.waiting {
            self.waiting = false;
            Request::Do(action)
        } else if reply == Reply::Failed {
            if self.attempts >= tries || self.attempts + 1 >= tries {
                self.fail_step(Fault::Step)
            } else {
                self.attempts = self.attempts + 1;
                self.waiting = true;
                Request::Wait(RETRY_DELAY)
            }
        } else {
            self.go_on()
        }
    }

    fn on_plain(&mut self, reply: Reply) -> (request: Request)
        requires
            old(self)@.pc < usize::MAX,
        ensures
            (final(self)@, request) == after_plain(old(self)@, reply),
    {
        if reply == Reply::Failed {
            self.fail_step(Fault::Step)
        } else {
            self.go_on()
        }
    }

    /// Takes the reply to the request that was handed out last, and hands
    /// out the next request. The first call takes `Reply::Start`. Once the
    /// workflow has ended every call hands out the same `Finish`.
    pub fn next(&mut self, reply: Reply) -> (request: Request)
        ensures
            (final(self)@, request) == spec_next(old(self)@, reply),
    {
        let step: Step = match self.mode {
            Mode::Fresh => {
                return self.go_main(0);
            },
            Mode::Finished(outcome) => {
                return Request::Finish(outcome);
            },
            Mode::Main => {
                if self.pc < self.plan.len() {
                    self.plan[self.pc]
                } else {
                    return self.fail_step(Fault::Protocol);
                }
            },
            Mode::Recovery => {
                if self.pc < self.recovery.len() {
                    self.recovery[self.pc]
                } else {
                    return self.fail_step(Fault::Protocol);
                }
            },
        };
        match step.op {
            Op::Observe(fact) => self.on_observe(fact, reply),
            Op::Retry(action, tries) => self.on_retry(action, tries, reply),
            _ => self.on_plain(reply),
        }
    }

    /// The phase that the workflow is in.
    pub fn phase(&self) -> (phase: Phase)
        ensures
            phase == spec_phase(self@),
    {
        match self.mode {
            Mode::Fresh => Phase::Idle,
            Mode::Main => {
                if self.pc < self.plan.len() {
                    self.plan[self.pc].phase
                } else {
                    Phase::Failed
                }
            },
            Mode::Recovery => Phase::Failed,
            Mode::Finished(Outcome::Done) => Phase::Done,
            Mode::Finished(Outcome::Failed(_)) => Phase::Failed,
            Mode::Finished(Outcome::Unwound(_)) => Phase::Unwound,
        }
    }

    /// What has been observed so far.
    pub fn facts(&self) -> (facts: Facts)
        ensures
            facts == self@.facts,
    {
        self.facts
    }
}

/// The state of a runner after `n` tries of the step that it asked for have
/// failed, and each failure was followed by the wait that the runner asked
/// for.
pub open spec fn retried(r: RunnerView, n: nat) -> RunnerView
    decreases n,
{
    if n == 0 {
        r
    } else {
        spec_next(spec_next(retried(r, (n - 1) as nat), Reply::Failed).0, Reply::Done).0
    }
}

/// The bound on retries. A step that is tried up to `tries` times is asked
/// for once per try: after each of the first `tries - 1` failures the runner
/// asks for a wait of [`RETRY_DELAY`] and then for the work again; the
/// failure of the last try is the failure of the step, and the runner does
/// not ask for the work again; a try that succeeds lets the runner go on.
pub proof fn lemma_retry_bound(r: RunnerView, action: Action, tries: u8, n: nat)
    requires
        r.mode == Mode::Main || r.mode == Mode::Recovery,
        current_step(r) matches Some(step) && step.op == Op::Retry(action, tries),
        !r.waiting,
        r.attempts == 0,
        n < tries,
    ensures
        retried(r, n) == (RunnerView { attempts: n, ..r }),
        n + 1 < tries ==> spec_next(retried(r, n), Reply::Failed) == (
            RunnerView { attempts: n + 1, waiting: true, ..r },
            Request::Wait(RETRY_DELAY),
        ),
        n + 1 < tries ==> spec_next(
            RunnerView { attempts: n + 1, waiting: true, ..r },
            Reply::Done,
        ) == (RunnerView { attempts: n + 1, ..r }, Request::Do(action)),
        n + 1 == tries ==> spec_next(retried(r, n), Reply::Failed) == step_failed(
            retried(r, n),
            Fault::Step,
        ),
        spec_next(retried(r, n), Reply::Done) == proceed(retried(r, n)),
    decreases n,
{
    if n > 0 {
        lemma_retry_bound(r, action, tries, (n - 1) as nat);
        let before = RunnerView { attempts: (n - 1) as nat, ..r };
        assert(retried(r, (n - 1) as nat) == before);
        let waiting = RunnerView { attempts: n, waiting: true, ..r };
        assert(spec_next(before, Reply::Failed).0 == waiting);
        assert(current_step(waiting) == current_step(r));
        assert(spec_next(waiting, Reply::Done).0 == (RunnerView { attempts: n, ..r }));
    }
    let now = RunnerView { attempts: n, ..r };
    assert(current_step(now) == current_step(r));
    let then = RunnerView { attempts: n + 1, waiting: true, ..r };
    assert(current_step(then) == current_step(r));
}

/// A plan that looks for a fact and then, behind a guard, tells the user and
/// stops: once the runner is told what makes the guard hold, it asks for the
/// message, and after that the workflow has ended, as done.
pub proof fn lemma_told_then_stopped(r: RunnerView, fact: Fact, value: bool, message: Message)
    requires
        r.mode == Mode::Main,
        r.pc + 2 < r.plan.len(),
        r.plan[r.pc as int].op == Op::Observe(fact),
        r.plan[r.pc as int + 1].op == Op::Say(message),
        r.plan[r.pc as int + 2].op == Op::Stop,
        enabled(r.plan[r.pc as int + 1], r.facts.spec_with(fact, value)),
        enabled(r.plan[r.pc as int + 2], r.facts.spec_with(fact, value)),
    ensures
        spec_next(r, Reply::Flag(value)).1 == Request::Say(message),
        spec_next(spec_next(r, Reply::Flag(value)).0, Reply::Done).1 == Request::Finish(
            Outcome::Done,
        ),
{
    let seen = RunnerView { facts: r.facts.spec_with(fact, value), ..r };
    assert(seek(r.plan, seen.facts, r.pc + 1) == r.pc + 1);
    assert(wanted(r.plan, seen.facts, r.pc + 1) == Wanted::Ask(
        r.pc + 1,
        Request::Say(message),
    ));
    let told = spec_next(r, Reply::Flag(value));
    assert(told == proceed_main(seen, r.pc + 1));
    assert(told.0.pc == r.pc + 1);
    assert(told.0.facts == seen.facts);
    assert(current_step(told.0) == Some(r.plan[r.pc as int + 1]));
    assert(seek(r.plan, seen.facts, r.pc + 2) == r.pc + 2);
    assert(wanted(r.plan, seen.facts, r.pc + 2) == Wanted::End);
    assert(spec_next(told.0, Reply::Done) == proceed_main(told.0, r.pc + 2));
}

/// A plan that looks for a fact and then has two steps behind a guard: once
/// the runner is told what makes the guard fail, it passes both over and
/// asks for what the step after them asks.
pub proof fn lemma_told_then_passed(r: RunnerView, fact: Fact, value: bool)
    requires
        r.mode == Mode::Main,
        r.pc + 3 < r.plan.len(),
        r.plan[r.pc as int].op == Op::Observe(fact),
        !enabled(r.plan[r.pc as int + 1], r.facts.spec_with(fact, value)),
        !enabled(r.plan[r.pc as int + 2], r.facts.spec_with(fact, value)),
        enabled(r.plan[r.pc as int + 3], r.facts.spec_with(fact, value)),
    ensures
        wanted(r.plan, r.facts.spec_with(fact, value), r.pc + 3) matches Wanted::Ask(_, request)
            ==> spec_next(r, Reply::Flag(value)) == (
            RunnerView {
                facts: r.facts.spec_with(fact, value),
                pc: r.pc + 3,
                attempts: 0,
                waiting: false,
                ..r
            },
            request,
        ),
{
    let seen = r.facts.spec_with(fact, value);
    assert(seek(r.plan, seen, r.pc + 3) == r.pc + 3);
    assert(seek(r.plan, seen, r.pc + 2) == r.pc + 3);
    assert(seek(r.plan, seen, r.pc + 1) == r.pc + 3);
}

/// A plan that looks for a fact, then has a step behind a guard, and then a
/// step that tells the user something: once the runner is told what makes
/// the guard fail, it passes the first step over and tells the user.
pub proof fn lemma_told_then_said(r: RunnerView, fact: Fact, value: bool, message: Message)
    requires
        r.mode == Mode::Main,
        r.pc + 2 < r.plan.len(),
        r.plan[r.pc as int].op == Op::Observe(fact),
        !enabled(r.plan[r.pc as int + 1], r.facts.spec_with(fact, value)),
        enabled(r.plan[r.pc as int + 2], r.facts.spec_with(fact, value)),
        r.plan[r.pc as int + 2].op == Op::Say(message),
    ensures
        spec_next(r, Reply::Flag(value)).1 == Request::Say(message),
{
    let seen = r.facts.spec_with(fact, value);
    assert(seek(r.plan, seen, r.pc + 2) == r.pc + 2);
    assert(seek(r.plan, seen, r.pc + 1) == r.pc + 2);
}

/// A plan that looks for a fact, and then has a step that ends it with a
/// fault, after the preflight and outside the window: once the runner is
/// told what makes that step due, the workflow ends as failed with the
/// fault, and nothing is recovered.
pub proof fn lemma_told_then_failed(r: RunnerView, fact: Fact, value: bool, fault: Fault)
    requires
        r.mode == Mode::Main,
        r.pc + 1 < r.plan.len(),
        r.plan[r.pc as int].op == Op::Observe(fact),
        enabled(r.plan[r.pc as int + 1], r.facts.spec_with(fact, value)),
        r.plan[r.pc as int + 1].op == Op::Fail(fault),
        r.plan[r.pc as int + 1].phase != Phase::Preflight,
        !(r.window <= r.pc + 1 < r.window_end),
    ensures
        spec_next(r, Reply::Flag(value)).1 == Request::Finish(Outcome::Failed(fault)),
{
    let seen = r.facts.spec_with(fact, value);
    assert(seek(r.plan, seen, r.pc + 1) == r.pc + 1);
}

/// The reply makes the step that the runner asked for fail: it says that the
/// work failed, and the step is not one that is tried again.
pub open spec fn step_fails(r: RunnerView, reply: Reply) -> bool {
    &&& r.mode == Mode::Main
    &&& reply == Reply::Failed
    &&& current_step(r) matches Some(step)
    &&& (step.op matches Op::Retry(_, tries) ==> !r.waiting && r.attempts + 1 >= tries)
}

/// A step that fails inside the window makes the runner turn to the start
/// of the recovery plan.
pub proof fn lemma_failure_turns_to_recovery(r: RunnerView, reply: Reply)
    requires
        step_fails(r, reply),
        r.window <= r.pc < r.window_end,
    ensures
        spec_next(r, reply) == proceed_recovery(RunnerView { fault: Fault::Step, ..r }, 0),
{
}

} // verus!
