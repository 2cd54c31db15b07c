//! What carrying out a plan does to the guest, as far as the guarantees of
//! the workflows speak of it: whether the injected tree and the addon script
//! exist under the root, which of the three patch targets hold a patch, and
//! whether something is mounted at the scratch mount point.

use crate::backend::{spec_installed_state, InstalledState};
use crate::install::{
    spec_install, spec_install_steps, spec_install_steps_applying,
    spec_install_steps_finalizing, spec_install_steps_preflight, spec_install_steps_staging,
    spec_remove_steps, spec_remove_steps_applying, spec_remove_steps_finalizing,
    spec_remove_steps_preflight, spec_remove_steps_staging, spec_update,
};
use crate::utils::{spec_mount_steps, spec_scratch_steps, spec_umount_steps};
use crate::workflow::{
    always, current_step, enabled, given, given2, lemma_failure_turns_to_recovery, proceed_main,
    proceed_recovery, seek, spec_next, step, step_fails, Action,
    Cond, Fact, Facts, Fault, Message, Mode, Op, Outcome, Phase, Reply, Request, RunnerView, Step,
};
use vstd::prelude::*;

verus! {

/// The part of the guest's state that the guarantees speak of.
pub struct World {
    /// The injected tree exists under the root.
    pub tree: bool,
    /// Something is mounted at the scratch mount point.
    pub mounted: bool,
    /// The scratch directory exists.
    pub scratch: bool,
    /// The addon script exists under the root.
    pub addon: bool,
    /// The boot-animation script holds the patch.
    pub bootanim: bool,
    /// The zygote init scripts hold the patch.
    pub zygote: bool,
    /// The security policy holds the patch.
    pub sepolicy: bool,
}

/// Nothing of the framework is left under the root: neither the injected
/// tree nor the addon script, and none of the three patch targets holds a
/// patch. The framework does not count as installed then.
pub open spec fn bare(w: World) -> bool {
    !w.tree && !w.addon && !w.bootanim && !w.zygote && !w.sepolicy
}

/// The action puts something into the injected tree.
pub open spec fn fills_tree(action: Action) -> bool {
    action == Action::CreateTree || action == Action::CopyBinaries || action
        == Action::CopyCompanion || action == Action::CopyAssets || action == Action::FinishTree
        || action == Action::CopyPayloadIntoTree
}

/// The state after an action that succeeded.
pub open spec fn effect(action: Action, w: World) -> World {
    if action is CleanUp {
        World { tree: false, addon: false, ..w }
    } else if action == Action::PatchBootanim {
        World { bootanim: true, ..w }
    } else if action == Action::RestoreBootanim {
        World { bootanim: false, ..w }
    } else if action == Action::PatchZygote {
        World { zygote: true, ..w }
    } else if action == Action::RestoreZygote {
        World { zygote: false, ..w }
    } else if action == Action::PatchSepolicy {
        World { sepolicy: true, ..w }
    } else if action == Action::RestoreSepolicy {
        World { sepolicy: false, ..w }
    } else if fills_tree(action) {
        World { tree: true, ..w }
    } else if action is Mount {
        World { mounted: true, ..w }
    } else if action == Action::Unmount {
        World { mounted: false, ..w }
    } else if action == Action::CreateScratch {
        World { scratch: true, ..w }
    } else if action == Action::RemoveScratch {
        World { scratch: false, ..w }
    } else {
        w
    }
}

/// What an observation finds: the state, where the fact is about the state;
/// otherwise what the caller is told.
pub open spec fn observed(fact: Fact, w: World, told: bool) -> bool {
    match fact {
        Fact::Tree => w.tree,
        Fact::Mounted => w.mounted,
        Fact::ScratchExists => w.scratch,
        _ => told,
    }
}

/// How the walk through a plan ended.
pub enum Status {
    /// Every step that was to be taken was taken.
    Ended,
    /// A step ended the plan.
    Stopped,
    /// A step ended the plan with a fault.
    Faulted,
}

/// The outcome of a walk through a plan.
pub struct Run {
    pub facts: Facts,
    pub world: World,
    pub status: Status,
}

/// The action of a step that does outside work.
pub open spec fn action_of(op: Op) -> Option<Action> {
    match op {
        Op::Do(action) => Some(action),
        Op::Retry(action, _) => Some(action),
        _ => None,
    }
}

/// The walk through a plan from the step at `pc`, in which every piece of
/// outside work succeeds, every observation of the state is true to it, and
/// the observation at the step with index `i` is otherwise told `told(i)`.
pub open spec fn run_from(
    plan: Seq<Step>,
    facts: Facts,
    w: World,
    told: spec_fn(nat) -> bool,
    pc: nat,
) -> Run
    decreases plan.len() - pc,
{
    if pc >= plan.len() {
        Run { facts, world: w, status: Status::Ended }
    } else if !enabled(plan[pc as int], facts) {
        run_from(plan, facts, w, told, pc + 1)
    } else {
        match plan[pc as int].op {
            Op::Observe(fact) => run_from(
                plan,
                facts.spec_with(fact, observed(fact, w, told(pc))),
                w,
                told,
                pc + 1,
            ),
            Op::Do(action) => run_from(plan, facts, effect(action, w), told, pc + 1),
            Op::Retry(action, _) => run_from(plan, facts, effect(action, w), told, pc + 1),
            Op::Wait(_) => run_from(plan, facts, w, told, pc + 1),
            Op::Say(_) => run_from(plan, facts, w, told, pc + 1),
            Op::Fail(_) => Run { facts, world: w, status: Status::Faulted },
            Op::Stop => Run { facts, world: w, status: Status::Stopped },
        }
    }
}

/// No step of the plan from `from` on puts anything into the injected tree.
pub open spec fn fills_nothing(plan: Seq<Step>, from: int) -> bool {
    forall|j: int|
        from <= j < plan.len() ==> match action_of(#[trigger] plan[j].op) {
            Some(action) => !fills_tree(action),
            None => true,
        }
}

/// No step of the plan from `from` on mounts anything.
pub open spec fn mounts_nothing(plan: Seq<Step>, from: int) -> bool {
    forall|j: int|
        from <= j < plan.len() ==> match action_of(#[trigger] plan[j].op) {
            Some(action) => !(action is Mount),
            None => true,
        }
}

/// The step is taken whatever was observed.
pub open spec fn unguarded(step: Step) -> bool {
    step.guard.first == Cond::Always && step.guard.second == Cond::Always && step.guard.third
        == Cond::Always
}

proof fn lemma_tree_stays_gone(
    plan: Seq<Step>,
    facts: Facts,
    w: World,
    told: spec_fn(nat) -> bool,
    pc: nat,
)
    requires
        !w.tree,
        fills_nothing(plan, pc as int),
    ensures
        !run_from(plan, facts, w, told, pc).world.tree,
    decreases plan.len() - pc,
{
    if pc < plan.len() {
        let step = plan[pc as int];
        if !enabled(step, facts) {
            lemma_tree_stays_gone(plan, facts, w, told, pc + 1);
        } else {
            match step.op {
                Op::Observe(fact) => {
                    lemma_tree_stays_gone(
                        plan,
                        facts.spec_with(fact, observed(fact, w, told(pc))),
                        w,
                        told,
                        pc + 1,
                    );
                },
                Op::Do(action) => {
                    lemma_tree_stays_gone(plan, facts, effect(action, w), told, pc + 1);
                },
                Op::Retry(action, _) => {
                    lemma_tree_stays_gone(plan, facts, effect(action, w), told, pc + 1);
                },
                Op::Wait(_) => {
                    lemma_tree_stays_gone(plan, facts, w, told, pc + 1);
                },
                Op::Say(_) => {
                    lemma_tree_stays_gone(plan, facts, w, told, pc + 1);
                },
                _ => {},
            }
        }
    }
}

/// A walk that takes every step it is to take, through a plan that cleans up
/// at an unguarded step and fills the tree nowhere after it, ends without
/// the tree.
pub proof fn lemma_clean_up_lasts(
    plan: Seq<Step>,
    facts: Facts,
    w: World,
    told: spec_fn(nat) -> bool,
    pc: nat,
    at: nat,
)
    requires
        pc <= at < plan.len(),
        unguarded(plan[at as int]),
        plan[at as int].op matches Op::Do(Action::CleanUp(_)),
        fills_nothing(plan, at as int + 1),
        run_from(plan, facts, w, told, pc).status is Ended,
    ensures
        !run_from(plan, facts, w, told, pc).world.tree,
    decreases at - pc,
{
    let step = plan[pc as int];
    if pc == at {
        lemma_tree_stays_gone(plan, facts, effect(Action::CleanUp(true), w), told, pc + 1);
        assert(effect(plan[at as int].op->Do_0, w) == effect(Action::CleanUp(true), w));
    } else if !enabled(step, facts) {
        lemma_clean_up_lasts(plan, facts, w, told, pc + 1, at);
    } else {
        match step.op {
            Op::Observe(fact) => {
                lemma_clean_up_lasts(
                    plan,
                    facts.spec_with(fact, observed(fact, w, told(pc))),
                    w,
                    told,
                    pc + 1,
                    at,
                );
            },
            Op::Do(action) => {
                lemma_clean_up_lasts(plan, facts, effect(action, w), told, pc + 1, at);
            },
            Op::Retry(action, _) => {
                lemma_clean_up_lasts(plan, facts, effect(action, w), told, pc + 1, at);
            },
            Op::Wait(_) => {
                lemma_clean_up_lasts(plan, facts, w, told, pc + 1, at);
            },
            Op::Say(_) => {
                lemma_clean_up_lasts(plan, facts, w, told, pc + 1, at);
            },
            _ => {},
        }
    }
}

proof fn lemma_stays_unmounted(
    plan: Seq<Step>,
    facts: Facts,
    w: World,
    told: spec_fn(nat) -> bool,
    pc: nat,
)
    requires
        !w.mounted,
        mounts_nothing(plan, pc as int),
    ensures
        !run_from(plan, facts, w, told, pc).world.mounted,
    decreases plan.len() - pc,
{
    if pc < plan.len() {
        let step = plan[pc as int];
        if !enabled(step, facts) {
            lemma_stays_unmounted(plan, facts, w, told, pc + 1);
        } else {
            match step.op {
                Op::Observe(fact) => {
                    lemma_stays_unmounted(
                        plan,
                        facts.spec_with(fact, observed(fact, w, told(pc))),
                        w,
                        told,
                        pc + 1,
                    );
                },
                Op::Do(action) => {
                    lemma_stays_unmounted(plan, facts, effect(action, w), told, pc + 1);
                },
                Op::Retry(action, _) => {
                    lemma_stays_unmounted(plan, facts, effect(action, w), told, pc + 1);
                },
                Op::Wait(_) => {
                    lemma_stays_unmounted(plan, facts, w, told, pc + 1);
                },
                Op::Say(_) => {
                    lemma_stays_unmounted(plan, facts, w, told, pc + 1);
                },
                _ => {},
            }
        }
    }
}

/// A walk that takes every step it is to take, through a plan that unmounts
/// at an unguarded step and mounts nowhere after it, ends with nothing
/// mounted.
pub proof fn lemma_unmount_lasts(
    plan: Seq<Step>,
    facts: Facts,
    w: World,
    told: spec_fn(nat) -> bool,
    pc: nat,
    at: nat,
)
    requires
        pc <= at < plan.len(),
        unguarded(plan[at as int]),
        action_of(plan[at as int].op) == Some(Action::Unmount),
        mounts_nothing(plan, at as int + 1),
        run_from(plan, facts, w, told, pc).status is Ended,
    ensures
        !run_from(plan, facts, w, told, pc).world.mounted,
    decreases at - pc,
{
    let step = plan[pc as int];
    if pc == at {
        lemma_stays_unmounted(plan, facts, effect(Action::Unmount, w), told, pc + 1);
    } else if !enabled(step, facts) {
        lemma_unmount_lasts(plan, facts, w, told, pc + 1, at);
    } else {
        match step.op {
            Op::Observe(fact) => {
                lemma_unmount_lasts(
                    plan,
                    facts.spec_with(fact, observed(fact, w, told(pc))),
                    w,
                    told,
                    pc + 1,
                    at,
                );
            },
            Op::Do(action) => {
                lemma_unmount_lasts(plan, facts, effect(action, w), told, pc + 1, at);
            },
            Op::Retry(action, _) => {
                lemma_unmount_lasts(plan, facts, effect(action, w), told, pc + 1, at);
            },
            Op::Wait(_) => {
                lemma_unmount_lasts(plan, facts, w, told, pc + 1, at);
            },
            Op::Say(_) => {
                lemma_unmount_lasts(plan, facts, w, told, pc + 1, at);
            },
            _ => {},
        }
    }
}

/// No step of the plan from `from` on creates the scratch directory.
pub open spec fn creates_no_scratch(plan: Seq<Step>, from: int) -> bool {
    forall|j: int|
        from <= j < plan.len() ==> action_of(#[trigger] plan[j].op) != Some(Action::CreateScratch)
}

proof fn lemma_scratch_stays_gone(
    plan: Seq<Step>,
    facts: Facts,
    w: World,
    told: spec_fn(nat) -> bool,
    pc: nat,
)
    requires
        !w.scratch,
        creates_no_scratch(plan, pc as int),
    ensures
        !run_from(plan, facts, w, told, pc).world.scratch,
    decreases plan.len() - pc,
{
    if pc < plan.len() {
        let step = plan[pc as int];
        if !enabled(step, facts) {
            lemma_scratch_stays_gone(plan, facts, w, told, pc + 1);
        } else {
            match step.op {
                Op::Observe(fact) => {
                    lemma_scratch_stays_gone(
                        plan,
                        facts.spec_with(fact, observed(fact, w, told(pc))),
                        w,
                        told,
                        pc + 1,
                    );
                },
                Op::Do(action) => {
                    lemma_scratch_stays_gone(plan, facts, effect(action, w), told, pc + 1);
                },
                Op::Retry(action, _) => {
                    lemma_scratch_stays_gone(plan, facts, effect(action, w), told, pc + 1);
                },
                Op::Wait(_) => {
                    lemma_scratch_stays_gone(plan, facts, w, told, pc + 1);
                },
                Op::Say(_) => {
                    lemma_scratch_stays_gone(plan, facts, w, told, pc + 1);
                },
                _ => {},
            }
        }
    }
}

/// The two steps from `at` on look for the scratch directory and remove it
/// if it is there.
pub open spec fn removes_scratch_at(plan: Seq<Step>, at: int) -> bool {
    &&& 0 <= at
    &&& at + 1 < plan.len()
    &&& plan[at] == always(plan[at].phase, Op::Observe(Fact::ScratchExists))
    &&& plan[at + 1] == given(
        plan[at + 1].phase,
        Cond::Is(Fact::ScratchExists),
        Op::Do(Action::RemoveScratch),
    )
}

/// The step at `at` removes the scratch directory, whatever was observed.
pub open spec fn drops_scratch_at(plan: Seq<Step>, at: int) -> bool {
    &&& 0 <= at < plan.len()
    &&& plan[at] == always(plan[at].phase, Op::Do(Action::RemoveScratch))
}

/// A walk that takes every step it is to take, through a plan that removes
/// the scratch directory, or looks for it and removes it if it is there, and
/// creates it nowhere after that, ends without the scratch directory.
pub proof fn lemma_scratch_removal_lasts(
    plan: Seq<Step>,
    facts: Facts,
    w: World,
    told: spec_fn(nat) -> bool,
    pc: nat,
    at: nat,
)
    requires
        pc <= at,
        removes_scratch_at(plan, at as int) && creates_no_scratch(plan, at as int + 2)
            || drops_scratch_at(plan, at as int) && creates_no_scratch(plan, at as int + 1),
        run_from(plan, facts, w, told, pc).status is Ended,
    ensures
        !run_from(plan, facts, w, told, pc).world.scratch,
    decreases at - pc,
{
    let step = plan[pc as int];
    if pc == at {
        if drops_scratch_at(plan, at as int) {
            lemma_scratch_stays_gone(plan, facts, effect(Action::RemoveScratch, w), told, pc + 1);
        } else {
            let seen = facts.spec_with(Fact::ScratchExists, w.scratch);
            assert(run_from(plan, facts, w, told, pc) == run_from(plan, seen, w, told, pc + 1));
            if w.scratch {
                assert(enabled(plan[at as int + 1], seen));
                lemma_scratch_stays_gone(
                    plan,
                    seen,
                    effect(Action::RemoveScratch, w),
                    told,
                    pc + 2,
                );
            } else {
                assert(!enabled(plan[at as int + 1], seen));
                lemma_scratch_stays_gone(plan, seen, w, told, pc + 2);
            }
        }
    } else if !enabled(step, facts) {
        lemma_scratch_removal_lasts(plan, facts, w, told, pc + 1, at);
    } else {
        match step.op {
            Op::Observe(fact) => {
                lemma_scratch_removal_lasts(
                    plan,
                    facts.spec_with(fact, observed(fact, w, told(pc))),
                    w,
                    told,
                    pc + 1,
                    at,
                );
            },
            Op::Do(action) => {
                lemma_scratch_removal_lasts(plan, facts, effect(action, w), told, pc + 1, at);
            },
            Op::Retry(action, _) => {
                lemma_scratch_removal_lasts(plan, facts, effect(action, w), told, pc + 1, at);
            },
            Op::Wait(_) => {
                lemma_scratch_removal_lasts(plan, facts, w, told, pc + 1, at);
            },
            Op::Say(_) => {
                lemma_scratch_removal_lasts(plan, facts, w, told, pc + 1, at);
            },
            _ => {},
        }
    }
}

/// No step of the plan puts anything into the injected tree or mounts
/// anything.
pub open spec fn harmless(plan: Seq<Step>) -> bool {
    fills_nothing(plan, 0) && mounts_nothing(plan, 0)
}

proof fn lemma_mounts_nothing_concat(a: Seq<Step>, b: Seq<Step>)
    requires
        mounts_nothing(a, 0),
        mounts_nothing(b, 0),
    ensures
        mounts_nothing(a + b, 0),
{
    assert forall|j: int| 0 <= j < (a + b).len() implies match action_of(
        #[trigger] (a + b)[j].op,
    ) {
        Some(action) => !(action is Mount),
        None => true,
    } by {
        if j < a.len() {
            assert((a + b)[j] == a[j]);
        } else {
            assert((a + b)[j] == b[j - a.len()]);
        }
    }
}

proof fn lemma_umount_steps_harmless(phase: Phase, quiet: bool, first: Cond, second: Cond)
    ensures
        harmless(spec_umount_steps(phase, quiet, first, second)),
        spec_umount_steps(phase, quiet, first, second).len() == (if quiet {
            1nat
        } else {
            2nat
        }),
{
}

proof fn lemma_scratch_steps_harmless(phase: Phase, has_overlay: bool)
    ensures
        harmless(spec_scratch_steps(phase, has_overlay)),
        spec_scratch_steps(phase, has_overlay).len() == (if has_overlay {
            3nat
        } else {
            5nat
        }),
{
    lemma_umount_steps_harmless(
        phase,
        true,
        Cond::Is(Fact::ScratchExists),
        Cond::Is(Fact::Mounted),
    );
}

/// Where nothing of the framework is left under the root, the framework does
/// not count as installed, whatever is on the data partition.
pub proof fn lemma_bare_is_not_installed(w: World, data: bool)
    requires
        bare(w),
    ensures
        spec_installed_state(w.tree, data) != InstalledState::Installed,
{
}

/// What the framework leaves under the root besides the injected tree.
pub enum Trace {
    /// The addon script.
    AddonScript,
    /// The patch of the boot-animation script.
    Bootanim,
    /// The patch of the zygote init scripts.
    Zygote,
    /// The patch of the security policy.
    Sepolicy,
}

/// The guest holds the trace.
#[verifier::opaque]
pub open spec fn holds(w: World, trace: Trace) -> bool {
    match trace {
        Trace::AddonScript => w.addon,
        Trace::Bootanim => w.bootanim,
        Trace::Zygote => w.zygote,
        Trace::Sepolicy => w.sepolicy,
    }
}

/// The action leaves the trace.
#[verifier::opaque]
pub open spec fn leaves(action: Action, trace: Trace) -> bool {
    match trace {
        Trace::AddonScript => false,
        Trace::Bootanim => action == Action::PatchBootanim,
        Trace::Zygote => action == Action::PatchZygote,
        Trace::Sepolicy => action == Action::PatchSepolicy,
    }
}

/// The action takes the trace away.
#[verifier::opaque]
pub open spec fn undoes(action: Action, trace: Trace) -> bool {
    match trace {
        Trace::AddonScript => action is CleanUp,
        Trace::Bootanim => action == Action::RestoreBootanim,
        Trace::Zygote => action == Action::RestoreZygote,
        Trace::Sepolicy => action == Action::RestoreSepolicy,
    }
}

/// No step of the plan from `from` on leaves the trace.
pub open spec fn leaves_nothing(plan: Seq<Step>, trace: Trace, from: int) -> bool {
    forall|j: int|
        from <= j < plan.len() ==> match action_of(#[trigger] plan[j].op) {
            Some(action) => !leaves(action, trace),
            None => true,
        }
}

proof fn lemma_effect_spares(action: Action, w: World, trace: Trace)
    requires
        !holds(w, trace),
        !leaves(action, trace),
    ensures
        !holds(effect(action, w), trace),
{
    reveal(holds);
    reveal(leaves);
}

proof fn lemma_effect_undoes(action: Action, w: World, trace: Trace)
    requires
        undoes(action, trace),
    ensures
        !holds(effect(action, w), trace),
{
    reveal(holds);
    reveal(undoes);
}

#[verifier::rlimit(40)]
proof fn lemma_trace_stays_gone(
    plan: Seq<Step>,
    facts: Facts,
    w: World,
    told: spec_fn(nat) -> bool,
    pc: nat,
    trace: Trace,
)
    requires
        !holds(w, trace),
        leaves_nothing(plan, trace, pc as int),
    ensures
        !holds(run_from(plan, facts, w, told, pc).world, trace),
    decreases plan.len() - pc,
{
    if pc < plan.len() {
        let step = plan[pc as int];
        if !enabled(step, facts) {
            lemma_trace_stays_gone(plan, facts, w, told, pc + 1, trace);
        } else {
            match step.op {
                Op::Observe(fact) => {
                    lemma_trace_stays_gone(
                        plan,
                        facts.spec_with(fact, observed(fact, w, told(pc))),
                        w,
                        told,
                        pc + 1,
                        trace,
                    );
                },
                Op::Do(action) => {
                    assert(action_of(plan[pc as int].op) == Some(action));
                    lemma_effect_spares(action, w, trace);
                    lemma_trace_stays_gone(plan, facts, effect(action, w), told, pc + 1, trace);
                },
                Op::Retry(action, _) => {
                    assert(action_of(plan[pc as int].op) == Some(action));
                    lemma_effect_spares(action, w, trace);
                    lemma_trace_stays_gone(plan, facts, effect(action, w), told, pc + 1, trace);
                },
                Op::Wait(_) => {
                    lemma_trace_stays_gone(plan, facts, w, told, pc + 1, trace);
                },
                Op::Say(_) => {
                    lemma_trace_stays_gone(plan, facts, w, told, pc + 1, trace);
                },
                _ => {},
            }
        }
    }
}

/// A walk that takes every step it is to take, through a plan that takes a
/// trace away at an unguarded step and leaves it nowhere after that, ends
/// without the trace.
#[verifier::rlimit(40)]
pub proof fn lemma_undo_lasts(
    plan: Seq<Step>,
    facts: Facts,
    w: World,
    told: spec_fn(nat) -> bool,
    pc: nat,
    at: nat,
    trace: Trace,
)
    requires
        pc <= at < plan.len(),
        unguarded(plan[at as int]),
        plan[at as int].op matches Op::Do(action) && undoes(action, trace),
        leaves_nothing(plan, trace, at as int + 1),
        run_from(plan, facts, w, told, pc).status is Ended,
    ensures
        !holds(run_from(plan, facts, w, told, pc).world, trace),
    decreases at - pc,
{
    let step = plan[pc as int];
    if pc == at {
        lemma_effect_undoes(step.op->Do_0, w, trace);
        lemma_trace_stays_gone(plan, facts, effect(step.op->Do_0, w), told, pc + 1, trace);
    } else if !enabled(step, facts) {
        lemma_undo_lasts(plan, facts, w, told, pc + 1, at, trace);
    } else {
        match step.op {
            Op::Observe(fact) => {
                lemma_undo_lasts(
                    plan,
                    facts.spec_with(fact, observed(fact, w, told(pc))),
                    w,
                    told,
                    pc + 1,
                    at,
                    trace,
                );
            },
            Op::Do(action) => {
                lemma_undo_lasts(plan, facts, effect(action, w), told, pc + 1, at, trace);
            },
            Op::Retry(action, _) => {
                lemma_undo_lasts(plan, facts, effect(action, w), told, pc + 1, at, trace);
            },
            Op::Wait(_) => {
                lemma_undo_lasts(plan, facts, w, told, pc + 1, at, trace);
            },
            Op::Say(_) => {
                lemma_undo_lasts(plan, facts, w, told, pc + 1, at, trace);
            },
            _ => {},
        }
    }
}

/// Every step of the plan only tells the user something.
pub open spec fn says_only(plan: Seq<Step>) -> bool {
    forall|j: int| 0 <= j < plan.len() ==> (#[trigger] plan[j]).op is Say
}

/// No step of the plan from `from` on takes the trace away.
pub open spec fn undoes_nothing(plan: Seq<Step>, trace: Trace, from: int) -> bool {
    forall|j: int|
        from <= j < plan.len() ==> match action_of(#[trigger] plan[j].op) {
            Some(action) => !undoes(action, trace),
            None => true,
        }
}

proof fn lemma_effect_keeps(action: Action, w: World, trace: Trace)
    requires
        holds(w, trace),
        !undoes(action, trace),
    ensures
        holds(effect(action, w), trace),
{
    reveal(holds);
    reveal(undoes);
}

proof fn lemma_effect_leaves(action: Action, w: World, trace: Trace)
    requires
        leaves(action, trace),
    ensures
        holds(effect(action, w), trace),
{
    reveal(holds);
    reveal(leaves);
}

#[verifier::rlimit(40)]
proof fn lemma_trace_stays(
    plan: Seq<Step>,
    facts: Facts,
    w: World,
    told: spec_fn(nat) -> bool,
    pc: nat,
    trace: Trace,
)
    requires
        holds(w, trace),
        undoes_nothing(plan, trace, pc as int),
    ensures
        holds(run_from(plan, facts, w, told, pc).world, trace),
    decreases plan.len() - pc,
{
    if pc < plan.len() {
        let step = plan[pc as int];
        if !enabled(step, facts) {
            lemma_trace_stays(plan, facts, w, told, pc + 1, trace);
        } else {
            match step.op {
                Op::Observe(fact) => {
                    lemma_trace_stays(
                        plan,
                        facts.spec_with(fact, observed(fact, w, told(pc))),
                        w,
                        told,
                        pc + 1,
                        trace,
                    );
                },
                Op::Do(action) => {
                    assert(action_of(plan[pc as int].op) == Some(action));
                    lemma_effect_keeps(action, w, trace);
                    lemma_trace_stays(plan, facts, effect(action, w), told, pc + 1, trace);
                },
                Op::Retry(action, _) => {
                    assert(action_of(plan[pc as int].op) == Some(action));
                    lemma_effect_keeps(action, w, trace);
                    lemma_trace_stays(plan, facts, effect(action, w), told, pc + 1, trace);
                },
                Op::Wait(_) => {
                    lemma_trace_stays(plan, facts, w, told, pc + 1, trace);
                },
                Op::Say(_) => {
                    lemma_trace_stays(plan, facts, w, told, pc + 1, trace);
                },
                _ => {},
            }
        }
    }
}

/// A walk that takes every step it is to take, through a plan that leaves a
/// trace at an unguarded step and takes it away nowhere after that, ends
/// with the trace.
#[verifier::rlimit(40)]
pub proof fn lemma_mark_lasts(
    plan: Seq<Step>,
    facts: Facts,
    w: World,
    told: spec_fn(nat) -> bool,
    pc: nat,
    at: nat,
    trace: Trace,
)
    requires
        pc <= at < plan.len(),
        unguarded(plan[at as int]),
        plan[at as int].op matches Op::Do(action) && leaves(action, trace),
        undoes_nothing(plan, trace, at as int + 1),
        run_from(plan, facts, w, told, pc).status is Ended,
    ensures
        holds(run_from(plan, facts, w, told, pc).world, trace),
    decreases at - pc,
{
    let step = plan[pc as int];
    if pc == at {
        lemma_effect_leaves(step.op->Do_0, w, trace);
        lemma_trace_stays(plan, facts, effect(step.op->Do_0, w), told, pc + 1, trace);
    } else if !enabled(step, facts) {
        lemma_mark_lasts(plan, facts, w, told, pc + 1, at, trace);
    } else {
        match step.op {
            Op::Observe(fact) => {
                lemma_mark_lasts(
                    plan,
                    facts.spec_with(fact, observed(fact, w, told(pc))),
                    w,
                    told,
                    pc + 1,
                    at,
                    trace,
                );
            },
            Op::Do(action) => {
                lemma_mark_lasts(plan, facts, effect(action, w), told, pc + 1, at, trace);
            },
            Op::Retry(action, _) => {
                lemma_mark_lasts(plan, facts, effect(action, w), told, pc + 1, at, trace);
            },
            Op::Wait(_) => {
                lemma_mark_lasts(plan, facts, w, told, pc + 1, at, trace);
            },
            Op::Say(_) => {
                lemma_mark_lasts(plan, facts, w, told, pc + 1, at, trace);
            },
            _ => {},
        }
    }
}

/// The action patches one of the three patch targets.
pub open spec fn patches(action: Action) -> bool {
    action == Action::PatchBootanim || action == Action::PatchZygote || action
        == Action::PatchSepolicy
}

#[verifier::rlimit(40)]
proof fn lemma_remove_restores(
    has_overlay: bool,
    recover: bool,
    update: bool,
    extra: Seq<Step>,
    facts: Facts,
    w: World,
    told: spec_fn(nat) -> bool,
)
    requires
        says_only(extra),
        run_from(
            spec_remove_steps(has_overlay, recover, update) + extra,
            facts,
            w,
            told,
            0,
        ).status is Ended,
    ensures
        ({
            let end = run_from(
                spec_remove_steps(has_overlay, recover, update) + extra,
                facts,
                w,
                told,
                0,
            ).world;
            !end.addon && !end.bootanim && !end.zygote && !end.sepolicy
        }),
{
    reveal(holds);
    reveal(leaves);
    reveal(undoes);
    let plan = spec_remove_steps(has_overlay, recover, update) + extra;
    let pre = spec_remove_steps_preflight(has_overlay, recover, update);
    let staging = spec_remove_steps_staging(has_overlay);
    let applying = spec_remove_steps_applying(has_overlay);
    let finalizing = spec_remove_steps_finalizing(has_overlay, update) + extra;
    let before = pre + staging;
    let early = before + applying;
    assert(plan =~= early + finalizing);
    let mount = spec_mount_steps(
        Phase::Applying,
        true,
        false,
        true,
        Cond::Not(Fact::Mounted),
        Cond::Always,
    );
    let lead = if !has_overlay {
        seq![always(Phase::Applying, Op::Observe(Fact::Mounted))] + mount
    } else {
        Seq::empty()
    };
    let work = seq![
        always(Phase::Applying, Op::Say(Message::RemovingFiles)),
        always(Phase::Applying, Op::Do(Action::CleanUp(true))),
        always(Phase::Applying, Op::Do(Action::RestoreSepolicy)),
        always(Phase::Applying, Op::Do(Action::RestoreZygote)),
        always(Phase::Applying, Op::Do(Action::RestoreBootanim)),
    ];
    assert(applying =~= lead + work);
    let unmount = spec_umount_steps(Phase::Finalizing, false, Cond::Always, Cond::Always);
    lemma_umount_steps_harmless(Phase::Finalizing, false, Cond::Always, Cond::Always);
    let middle = if !has_overlay {
        unmount
    } else {
        Seq::empty()
    };
    let finish = seq![
        always(Phase::Finalizing, Op::Observe(Fact::ScratchExists)),
        given(Phase::Finalizing, Cond::Is(Fact::ScratchExists), Op::Do(Action::RemoveScratch)),
    ] + (if !update {
        seq![
            always(Phase::Finalizing, Op::Observe(Fact::HadSession)),
            given(Phase::Finalizing, Cond::Is(Fact::HadSession), Op::Say(Message::StartingWaydroid)),
            given(Phase::Finalizing, Cond::Is(Fact::HadSession), Op::Observe(Fact::Started)),
            given2(
                Phase::Finalizing,
                Cond::Is(Fact::HadSession),
                Cond::Not(Fact::Started),
                Op::Say(Message::CouldNotStart),
            ),
            always(Phase::Finalizing, Op::Say(Message::RemovalDone)),
            given2(
                Phase::Finalizing,
                Cond::Is(Fact::HadSession),
                Cond::Not(Fact::Started),
                Op::Say(Message::StartManually),
            ),
            given(Phase::Finalizing, Cond::Not(Fact::HadSession), Op::Say(Message::StartManually)),
        ]
    } else {
        Seq::empty()
    }) + extra;
    assert(finalizing =~= middle + finish);
    assert forall|j: int| 0 <= j < finish.len() implies match action_of(#[trigger] finish[j].op) {
        Some(action) => !patches(action),
        None => true,
    } by {
        if j >= finish.len() - extra.len() {
            assert(finish[j] == extra[j - (finish.len() - extra.len())]);
        }
    }
    assert forall|j: int| early.len() <= j < plan.len() implies #[trigger] plan[j] == finalizing[j
        - early.len()] by {}
    assert forall|j: int| before.len() <= j < early.len() implies #[trigger] plan[j] == applying[j
        - before.len()] by {
        assert(early[j] == applying[j - before.len()]);
    }
    let at = (before.len() + lead.len() + 1) as nat;
    assert(plan[at as int] == applying[lead.len() as int + 1]);
    assert(applying[lead.len() as int + 1] == work[1]);
    assert(plan[at as int + 1] == applying[lead.len() as int + 2]);
    assert(applying[lead.len() as int + 2] == work[2]);
    assert(plan[at as int + 2] == applying[lead.len() as int + 3]);
    assert(applying[lead.len() as int + 3] == work[3]);
    assert(plan[at as int + 3] == applying[lead.len() as int + 4]);
    assert(applying[lead.len() as int + 4] == work[4]);
    assert forall|j: int| at < j < plan.len() implies match action_of(#[trigger] plan[j].op) {
        Some(action) => !patches(action),
        None => true,
    } by {
        if j < early.len() {
            assert(plan[j] == applying[j - before.len()]);
            assert(applying[j - before.len()] == work[j - before.len() - lead.len()]);
        } else if j - early.len() < middle.len() {
            assert(plan[j] == finalizing[j - early.len()]);
            assert(finalizing[j - early.len()] == middle[j - early.len()]);
        } else {
            assert(plan[j] == finalizing[j - early.len()]);
            assert(finalizing[j - early.len()] == finish[j - early.len() - middle.len()]);
        }
    }
    lemma_undo_lasts(plan, facts, w, told, 0, at, Trace::AddonScript);
    lemma_undo_lasts(plan, facts, w, told, 0, (at + 1) as nat, Trace::Sepolicy);
    lemma_undo_lasts(plan, facts, w, told, 0, (at + 2) as nat, Trace::Zygote);
    lemma_undo_lasts(plan, facts, w, told, 0, (at + 3) as nat, Trace::Bootanim);
}

/// A removal that is carried out to its end leaves nothing of the
/// framework under the root: neither the injected tree nor the addon script,
/// and none of the three patch targets holds a patch. It leaves no scratch
/// directory either, and nothing mounted at the scratch mount point: all of
/// this whatever was there when it began; on an overlay, where no workflow
/// mounts anything, provided that nothing was mounted when it began. This
/// holds of a removal that the user asked for, of one that is part of an
/// update, and of one that recovers from a failure, and it holds with
/// messages after the steps of the removal.
#[verifier::rlimit(40)]
pub proof fn lemma_remove_completes(
    has_overlay: bool,
    recover: bool,
    update: bool,
    extra: Seq<Step>,
    facts: Facts,
    w: World,
    told: spec_fn(nat) -> bool,
)
    requires
        has_overlay ==> !w.mounted,
        says_only(extra),
        run_from(
            spec_remove_steps(has_overlay, recover, update) + extra,
            facts,
            w,
            told,
            0,
        ).status is Ended,
    ensures
        bare(
            run_from(
                spec_remove_steps(has_overlay, recover, update) + extra,
                facts,
                w,
                told,
                0,
            ).world,
        ),
        !run_from(
            spec_remove_steps(has_overlay, recover, update) + extra,
            facts,
            w,
            told,
            0,
        ).world.mounted,
        !run_from(
            spec_remove_steps(has_overlay, recover, update) + extra,
            facts,
            w,
            told,
            0,
        ).world.scratch,
{
    lemma_remove_restores(has_overlay, recover, update, extra, facts, w, told);
    let plan = spec_remove_steps(has_overlay, recover, update) + extra;
    let pre = spec_remove_steps_preflight(has_overlay, recover, update);
    let staging = spec_remove_steps_staging(has_overlay);
    let applying = spec_remove_steps_applying(has_overlay);
    let finalizing = spec_remove_steps_finalizing(has_overlay, update) + extra;
    let before = pre + staging;
    let early = before + applying;
    assert(plan =~= early + finalizing);
    let mount = spec_mount_steps(
        Phase::Applying,
        true,
        false,
        true,
        Cond::Not(Fact::Mounted),
        Cond::Always,
    );
    let lead = if !has_overlay {
        seq![always(Phase::Applying, Op::Observe(Fact::Mounted))] + mount
    } else {
        Seq::empty()
    };
    let work = seq![
        always(Phase::Applying, Op::Say(Message::RemovingFiles)),
        always(Phase::Applying, Op::Do(Action::CleanUp(true))),
        always(Phase::Applying, Op::Do(Action::RestoreSepolicy)),
        always(Phase::Applying, Op::Do(Action::RestoreZygote)),
        always(Phase::Applying, Op::Do(Action::RestoreBootanim)),
    ];
    assert(applying =~= lead + work);
    let unmount = spec_umount_steps(Phase::Finalizing, false, Cond::Always, Cond::Always);
    lemma_umount_steps_harmless(Phase::Finalizing, false, Cond::Always, Cond::Always);
    let middle = if !has_overlay {
        unmount
    } else {
        Seq::empty()
    };
    let finish = seq![
        always(Phase::Finalizing, Op::Observe(Fact::ScratchExists)),
        given(Phase::Finalizing, Cond::Is(Fact::ScratchExists), Op::Do(Action::RemoveScratch)),
    ] + (if !update {
        seq![
            always(Phase::Finalizing, Op::Observe(Fact::HadSession)),
            given(Phase::Finalizing, Cond::Is(Fact::HadSession), Op::Say(Message::StartingWaydroid)),
            given(Phase::Finalizing, Cond::Is(Fact::HadSession), Op::Observe(Fact::Started)),
            given2(
                Phase::Finalizing,
                Cond::Is(Fact::HadSession),
                Cond::Not(Fact::Started),
                Op::Say(Message::CouldNotStart),
            ),
            always(Phase::Finalizing, Op::Say(Message::RemovalDone)),
            given2(
                Phase::Finalizing,
                Cond::Is(Fact::HadSession),
                Cond::Not(Fact::Started),
                Op::Say(Message::StartManually),
            ),
            given(Phase::Finalizing, Cond::Not(Fact::HadSession), Op::Say(Message::StartManually)),
        ]
    } else {
        Seq::empty()
    }) + extra;
    assert(finalizing =~= middle + finish);
    assert forall|j: int| 0 <= j < finish.len() implies match action_of(#[trigger] finish[j].op) {
        Some(action) => !fills_tree(action) && !(action is Mount) && (action
            == Action::CreateScratch ==> false),
        None => true,
    } by {
        if j >= finish.len() - extra.len() {
            assert(finish[j] == extra[j - (finish.len() - extra.len())]);
        }
    }
    assert forall|j: int| early.len() <= j < plan.len() implies #[trigger] plan[j] == finalizing[j
        - early.len()] by {}
    assert forall|j: int| before.len() <= j < early.len() implies #[trigger] plan[j] == applying[j
        - before.len()] by {
        assert(early[j] == applying[j - before.len()]);
    }
    let at = (before.len() + lead.len() + 1) as nat;
    assert(plan[at as int] == applying[lead.len() as int + 1]);
    assert(applying[lead.len() as int + 1] == work[1]);
    assert forall|j: int| at < j < plan.len() implies match action_of(#[trigger] plan[j].op) {
        Some(action) => !fills_tree(action),
        None => true,
    } by {
        if j < early.len() {
            assert(plan[j] == applying[j - before.len()]);
            assert(applying[j - before.len()] == work[j - before.len() - lead.len()]);
        } else if j - early.len() < middle.len() {
            assert(plan[j] == finalizing[j - early.len()]);
            assert(finalizing[j - early.len()] == middle[j - early.len()]);
        } else {
            assert(plan[j] == finalizing[j - early.len()]);
            assert(finalizing[j - early.len()] == finish[j - early.len() - middle.len()]);
        }
    }
    lemma_clean_up_lasts(plan, facts, w, told, 0, at);
    let sc = (early.len() + middle.len()) as nat;
    assert(plan[sc as int] == finalizing[middle.len() as int]);
    assert(finalizing[middle.len() as int] == finish[0]);
    assert(plan[sc as int + 1] == finalizing[middle.len() as int + 1]);
    assert(finalizing[middle.len() as int + 1] == finish[1]);
    assert forall|j: int| sc + 2 <= j < plan.len() implies action_of(#[trigger] plan[j].op)
        != Some(Action::CreateScratch) by {
        assert(plan[j] == finalizing[j - early.len()]);
        assert(finalizing[j - early.len()] == finish[j - early.len() - middle.len()]);
    }
    lemma_scratch_removal_lasts(plan, facts, w, told, 0, sc);
    if has_overlay {
        lemma_scratch_steps_harmless(Phase::Staging, true);
        assert(mounts_nothing(pre, 0));
        assert(mounts_nothing(staging, 0));
        assert(mounts_nothing(applying, 0));
        assert(finalizing =~= finish);
        assert(mounts_nothing(finalizing, 0));
        lemma_mounts_nothing_concat(pre, staging);
        lemma_mounts_nothing_concat(before, applying);
        lemma_mounts_nothing_concat(early, finalizing);
        lemma_stays_unmounted(plan, facts, w, told, 0);
    } else {
        let um = (early.len() + 1) as nat;
        assert(plan[um as int] == finalizing[1]);
        assert(finalizing[1] == unmount[1]);
        assert forall|j: int| um < j < plan.len() implies match action_of(#[trigger] plan[j].op) {
            Some(action) => !(action is Mount),
            None => true,
        } by {
            assert(plan[j] == finalizing[j - early.len()]);
            assert(finalizing[j - early.len()] == finish[j - early.len() - 2]);
        }
        lemma_unmount_lasts(plan, facts, w, told, 0, um);
    }
}

/// The reply to a request in a walk in which all outside work succeeds.
pub open spec fn answer(request: Request, w: World, told: bool) -> Reply {
    match request {
        Request::Observe(fact) => Reply::Flag(observed(fact, w, told)),
        _ => Reply::Done,
    }
}

/// The state after the outside work of a request is done.
pub open spec fn world_after(request: Request, w: World) -> World {
    match request {
        Request::Do(action) => effect(action, w),
        _ => w,
    }
}

/// A runner is driven through at most `fuel` requests, each answered as
/// [`answer`] says: the request it ends with, and the state then.
pub open spec fn drive(
    r: RunnerView,
    request: Request,
    w: World,
    told: spec_fn(nat) -> bool,
    fuel: nat,
) -> (Request, World)
    decreases fuel,
{
    if fuel == 0 || request is Finish {
        (request, w)
    } else {
        let next = spec_next(r, answer(request, w, told(r.pc)));
        drive(next.0, next.1, world_after(request, w), told, (fuel - 1) as nat)
    }
}

proof fn lemma_run_skips(
    plan: Seq<Step>,
    facts: Facts,
    w: World,
    told: spec_fn(nat) -> bool,
    pc: nat,
)
    ensures
        pc <= seek(plan, facts, pc) || seek(plan, facts, pc) == plan.len(),
        seek(plan, facts, pc) < plan.len() ==> enabled(plan[seek(plan, facts, pc) as int], facts),
        run_from(plan, facts, w, told, pc) == run_from(plan, facts, w, told, seek(plan, facts, pc)),
    decreases plan.len() - pc,
{
    if pc < plan.len() && !enabled(plan[pc as int], facts) {
        lemma_run_skips(plan, facts, w, told, pc + 1);
    }
}

/// A runner that walks its recovery plan hands out the requests of the
/// walk: driven from the step at `pc`, it ends when the walk ends, in the
/// state in which the walk ends, as unwound unless the walk met a fault.
pub proof fn lemma_runner_walks_recovery(
    r: RunnerView,
    pc: nat,
    w: World,
    told: spec_fn(nat) -> bool,
    fuel: nat,
)
    requires
        pc <= r.recovery.len(),
        fuel > r.recovery.len() - pc,
    ensures
        ({
            let start = proceed_recovery(r, pc);
            let run = run_from(r.recovery, r.facts, w, told, pc);
            let end = drive(start.0, start.1, w, told, fuel);
            &&& end.1 == run.world
            &&& end.0 == Request::Finish(
                if run.status is Faulted {
                    Outcome::Failed(r.fault)
                } else {
                    Outcome::Unwound(r.fault)
                },
            )
        }),
    decreases r.recovery.len() - pc,
{
    let plan = r.recovery;
    let k = seek(plan, r.facts, pc);
    lemma_run_skips(plan, r.facts, w, told, pc);
    let start = proceed_recovery(r, pc);
    if k < plan.len() {
        let here = plan[k as int];
        assert(current_step(start.0) == Some(here) || start.1 is Finish);
        match here.op {
            Op::Observe(fact) => {
                let seen = RunnerView {
                    facts: r.facts.spec_with(fact, observed(fact, w, told(k))),
                    ..start.0
                };
                lemma_runner_walks_recovery(seen, k + 1, w, told, (fuel - 1) as nat);
                assert(proceed_recovery(seen, k + 1) == spec_next(
                    start.0,
                    answer(start.1, w, told(k)),
                ));
            },
            Op::Do(action) => {
                lemma_runner_walks_recovery(
                    start.0,
                    k + 1,
                    effect(action, w),
                    told,
                    (fuel - 1) as nat,
                );
                assert(proceed_recovery(start.0, k + 1) == spec_next(
                    start.0,
                    answer(start.1, w, told(k)),
                ));
            },
            Op::Retry(action, _) => {
                lemma_runner_walks_recovery(
                    start.0,
                    k + 1,
                    effect(action, w),
                    told,
                    (fuel - 1) as nat,
                );
                assert(proceed_recovery(start.0, k + 1) == spec_next(
                    start.0,
                    answer(start.1, w, told(k)),
                ));
            },
            Op::Wait(_) => {
                lemma_runner_walks_recovery(start.0, k + 1, w, told, (fuel - 1) as nat);
                assert(proceed_recovery(start.0, k + 1) == spec_next(
                    start.0,
                    answer(start.1, w, told(k)),
                ));
            },
            Op::Say(_) => {
                lemma_runner_walks_recovery(start.0, k + 1, w, told, (fuel - 1) as nat);
                assert(proceed_recovery(start.0, k + 1) == spec_next(
                    start.0,
                    answer(start.1, w, told(k)),
                ));
            },
            _ => {},
        }
    }
}

/// The unwind guarantee, for every way into the recovery. A runner whose
/// recovery plan is the steps of a removal that recovers, with or without
/// messages after them, and that turns to this plan, for whatever reason and
/// in whatever state of the guest, ends the workflow as unwound if no step of
/// the recovery fails; nothing of the framework is left under the root then,
/// neither the injected tree nor a patch in any of the three patch targets,
/// so that the framework does not count as installed; the scratch directory
/// is gone, and nothing is mounted at the scratch mount point. On an overlay, where no workflow
/// mounts anything, this holds provided that nothing was mounted when the
/// runner turned.
pub proof fn lemma_recovery_unwinds(
    has_overlay: bool,
    extra: Seq<Step>,
    r: RunnerView,
    w: World,
    told: spec_fn(nat) -> bool,
    fuel: nat,
)
    requires
        r.recovery == spec_remove_steps(has_overlay, true, false) + extra,
        says_only(extra),
        has_overlay ==> !w.mounted,
        fuel > r.recovery.len(),
        run_from(r.recovery, r.facts, w, told, 0).status is Ended,
    ensures
        ({
            let turn = proceed_recovery(r, 0);
            let end = drive(turn.0, turn.1, w, told, fuel);
            &&& end.0 == Request::Finish(Outcome::Unwound(r.fault))
            &&& bare(end.1)
            &&& !end.1.mounted
            &&& !end.1.scratch
        }),
{
    lemma_runner_walks_recovery(r, 0, w, told, fuel);
    lemma_remove_completes(has_overlay, true, false, extra, r.facts, w, told);
}

/// The unwind guarantee of an installation. When a step of an installation
/// fails, whichever step it is and whatever it left behind, the runner
/// carries out the steps of a removal that recovers; and if none of these
/// fails, the workflow ends as unwound: with the injected tree gone and no
/// patch left in the boot-animation script, the zygote init scripts or the
/// security policy, with the scratch directory gone and nothing mounted at
/// the scratch mount point.
pub proof fn lemma_install_unwinds(
    has_overlay: bool,
    custom: bool,
    update: bool,
    new: bool,
    r: RunnerView,
    reply: Reply,
    w: World,
    told: spec_fn(nat) -> bool,
    fuel: nat,
)
    requires
        r.plan == spec_install(has_overlay, custom, update, new).plan,
        r.recovery == spec_install(has_overlay, custom, update, new).recovery,
        r.window == spec_install(has_overlay, custom, update, new).window,
        r.window_end == spec_install(has_overlay, custom, update, new).window_end,
        step_fails(r, reply),
        has_overlay ==> !w.mounted,
        fuel > r.recovery.len(),
        run_from(r.recovery, r.facts, w, told, 0).status is Ended,
    ensures
        ({
            let turn = spec_next(r, reply);
            let end = drive(turn.0, turn.1, w, told, fuel);
            &&& end.0 == Request::Finish(Outcome::Unwound(Fault::Step))
            &&& bare(end.1)
            &&& !end.1.mounted
            &&& !end.1.scratch
        }),
{
    let failed = RunnerView { fault: Fault::Step, ..r };
    assert(r.window <= r.pc < r.window_end);
    lemma_failure_turns_to_recovery(r, reply);
    assert(r.recovery =~= spec_remove_steps(has_overlay, true, false) + Seq::<Step>::empty());
    lemma_recovery_unwinds(has_overlay, Seq::empty(), failed, w, told, fuel);
}

proof fn lemma_update_recovery(has_overlay: bool)
    ensures
        spec_update(has_overlay).recovery == spec_remove_steps(has_overlay, true, false) + seq![
            always(Phase::Failed, Op::Say(Message::UpdateFailed)),
        ],
{
    assert(spec_remove_steps(has_overlay, true, false).push(
        always(Phase::Failed, Op::Say(Message::UpdateFailed)),
    ) =~= spec_remove_steps(has_overlay, true, false) + seq![
        always(Phase::Failed, Op::Say(Message::UpdateFailed)),
    ]);
}

/// The unwind guarantee of an update. When a step fails by which an update
/// installs the new version, the runner carries out the steps of a removal
/// that recovers, and tells the user that the update has failed; and if
/// none of these steps fails, the workflow ends as unwound: with the
/// injected tree gone and no patch left in any of the three patch targets,
/// with the scratch directory gone and nothing mounted at the scratch mount
/// point.
#[verifier::rlimit(40)]
pub proof fn lemma_update_unwinds(
    has_overlay: bool,
    r: RunnerView,
    reply: Reply,
    w: World,
    told: spec_fn(nat) -> bool,
    fuel: nat,
)
    requires
        r.plan == spec_update(has_overlay).plan,
        r.recovery == spec_update(has_overlay).recovery,
        r.window == spec_update(has_overlay).window,
        r.window_end == spec_update(has_overlay).window_end,
        r.window <= r.pc < r.window_end,
        step_fails(r, reply),
        has_overlay ==> !w.mounted,
        fuel > r.recovery.len(),
        run_from(r.recovery, r.facts, w, told, 0).status is Ended,
    ensures
        ({
            let turn = spec_next(r, reply);
            let end = drive(turn.0, turn.1, w, told, fuel);
            &&& end.0 == Request::Finish(Outcome::Unwound(Fault::Step))
            &&& bare(end.1)
            &&& !end.1.mounted
            &&& !end.1.scratch
        }),
{
    let failed = RunnerView { fault: Fault::Step, ..r };
    lemma_failure_turns_to_recovery(r, reply);
    let told_so = seq![always(Phase::Failed, Op::Say(Message::UpdateFailed))];
    lemma_update_recovery(has_overlay);
    lemma_recovery_unwinds(has_overlay, told_so, failed, w, told, fuel);
}

/// No step of the plan from `from` on cleans up.
pub open spec fn cleans_nothing(plan: Seq<Step>, from: int) -> bool {
    forall|j: int|
        from <= j < plan.len() ==> match action_of(#[trigger] plan[j].op) {
            Some(action) => !(action is CleanUp),
            None => true,
        }
}

proof fn lemma_tree_stays(
    plan: Seq<Step>,
    facts: Facts,
    w: World,
    told: spec_fn(nat) -> bool,
    pc: nat,
)
    requires
        w.tree,
        cleans_nothing(plan, pc as int),
    ensures
        run_from(plan, facts, w, told, pc).world.tree,
    decreases plan.len() - pc,
{
    if pc < plan.len() {
        let step = plan[pc as int];
        if !enabled(step, facts) {
            lemma_tree_stays(plan, facts, w, told, pc + 1);
        } else {
            match step.op {
                Op::Observe(fact) => {
                    lemma_tree_stays(
                        plan,
                        facts.spec_with(fact, observed(fact, w, told(pc))),
                        w,
                        told,
                        pc + 1,
                    );
                },
                Op::Do(action) => {
                    lemma_tree_stays(plan, facts, effect(action, w), told, pc + 1);
                },
                Op::Retry(action, _) => {
                    lemma_tree_stays(plan, facts, effect(action, w), told, pc + 1);
                },
                Op::Wait(_) => {
                    lemma_tree_stays(plan, facts, w, told, pc + 1);
                },
                Op::Say(_) => {
                    lemma_tree_stays(plan, facts, w, told, pc + 1);
                },
                _ => {},
            }
        }
    }
}

/// A walk that takes every step it is to take, through a plan that fills
/// the tree at an unguarded step and cleans up nowhere after it, ends with
/// the tree.
pub proof fn lemma_tree_lasts(
    plan: Seq<Step>,
    facts: Facts,
    w: World,
    told: spec_fn(nat) -> bool,
    pc: nat,
    at: nat,
)
    requires
        pc <= at < plan.len(),
        unguarded(plan[at as int]),
        plan[at as int].op matches Op::Do(action) && fills_tree(action),
        cleans_nothing(plan, at as int + 1),
        run_from(plan, facts, w, told, pc).status is Ended,
    ensures
        run_from(plan, facts, w, told, pc).world.tree,
    decreases at - pc,
{
    let step = plan[pc as int];
    if pc == at {
        lemma_tree_stays(plan, facts, effect(step.op->Do_0, w), told, pc + 1);
    } else if !enabled(step, facts) {
        lemma_tree_lasts(plan, facts, w, told, pc + 1, at);
    } else {
        match step.op {
            Op::Observe(fact) => {
                lemma_tree_lasts(
                    plan,
                    facts.spec_with(fact, observed(fact, w, told(pc))),
                    w,
                    told,
                    pc + 1,
                    at,
                );
            },
            Op::Do(action) => {
                lemma_tree_lasts(plan, facts, effect(action, w), told, pc + 1, at);
            },
            Op::Retry(action, _) => {
                lemma_tree_lasts(plan, facts, effect(action, w), told, pc + 1, at);
            },
            Op::Wait(_) => {
                lemma_tree_lasts(plan, facts, w, told, pc + 1, at);
            },
            Op::Say(_) => {
                lemma_tree_lasts(plan, facts, w, told, pc + 1, at);
            },
            _ => {},
        }
    }
}

/// The action restores one of the three patch targets.
pub open spec fn restores(action: Action) -> bool {
    action == Action::RestoreBootanim || action == Action::RestoreZygote || action
        == Action::RestoreSepolicy
}

#[verifier::rlimit(40)]
proof fn lemma_install_patches(
    has_overlay: bool,
    custom: bool,
    update: bool,
    new: bool,
    facts: Facts,
    w: World,
    told: spec_fn(nat) -> bool,
)
    requires
        run_from(spec_install_steps(has_overlay, custom, update, new), facts, w, told, 0).status
            is Ended,
    ensures
        ({
            let end = run_from(
                spec_install_steps(has_overlay, custom, update, new),
                facts,
                w,
                told,
                0,
            ).world;
            end.bootanim && (new ==> end.zygote && end.sepolicy)
        }),
{
    reveal(holds);
    reveal(leaves);
    reveal(undoes);
    let plan = spec_install_steps(has_overlay, custom, update, new);
    let before = spec_install_steps_preflight(has_overlay, update, new)
        + spec_install_steps_staging(has_overlay, custom, new);
    let applying = spec_install_steps_applying(has_overlay, new);
    let finalizing = spec_install_steps_finalizing(has_overlay, update);
    let work = before + applying;
    assert(plan == work + finalizing);
    let unmount = spec_umount_steps(Phase::Finalizing, false, Cond::Always, Cond::Always);
    lemma_umount_steps_harmless(Phase::Finalizing, false, Cond::Always, Cond::Always);
    let head = seq![always(Phase::Finalizing, Op::Say(Message::Finishing))] + (if update {
        seq![always(Phase::Finalizing, Op::Do(Action::MirrorToData))]
    } else {
        Seq::empty()
    });
    let gone = seq![always(Phase::Finalizing, Op::Do(Action::RemoveScratch))];
    let tail = if !update {
        seq![
            always(Phase::Finalizing, Op::Observe(Fact::HadSession)),
            given(Phase::Finalizing, Cond::Is(Fact::HadSession), Op::Say(Message::StartingWaydroid)),
            given(Phase::Finalizing, Cond::Is(Fact::HadSession), Op::Observe(Fact::Started)),
            given2(
                Phase::Finalizing,
                Cond::Is(Fact::HadSession),
                Cond::Not(Fact::Started),
                Op::Say(Message::CouldNotStart),
            ),
            given2(
                Phase::Finalizing,
                Cond::Is(Fact::HadSession),
                Cond::Not(Fact::Started),
                Op::Say(Message::InstallDoneStartManually),
            ),
            given2(
                Phase::Finalizing,
                Cond::Is(Fact::HadSession),
                Cond::Is(Fact::Started),
                Op::Say(Message::InstallDone),
            ),
            given(
                Phase::Finalizing,
                Cond::Not(Fact::HadSession),
                Op::Say(Message::InstallDoneStartManually),
            ),
            always(Phase::Finalizing, Op::Say(Message::SetupHint)),
        ]
    } else {
        Seq::empty()
    };
    let middle = if !has_overlay {
        unmount
    } else {
        Seq::empty()
    };
    assert(finalizing =~= head + middle + gone + tail);
    let drop = head.len() + middle.len();
    assert(finalizing[drop as int] == gone[0]);
    assert forall|j: int| drop < j < finalizing.len() implies #[trigger] finalizing[j] == tail[j
        - drop - 1] by {}
    assert forall|j: int| 0 <= j < finalizing.len() implies match action_of(
        #[trigger] finalizing[j].op,
    ) {
        Some(action) => !restores(action),
        None => true,
    } by {
        if j < head.len() {
            assert(finalizing[j] == head[j]);
        } else if j < drop {
            assert(finalizing[j] == middle[j - head.len()]);
        } else if j == drop {
        } else {
            assert(finalizing[j] == tail[j - drop - 1]);
        }
    }
    assert forall|j: int| work.len() <= j < plan.len() implies #[trigger] plan[j] == finalizing[j
        - work.len()] by {}
    let lead = applying.len() - (if new {
        4int
    } else {
        2int
    });
    let patching = seq![always(Phase::Applying, Op::Do(Action::PatchBootanim))] + (if new {
        seq![
            always(Phase::Applying, Op::Do(Action::PatchZygote)),
            always(Phase::Applying, Op::Do(Action::PatchSepolicy)),
        ]
    } else {
        Seq::empty()
    }) + seq![always(Phase::Applying, Op::Do(Action::CopyPayloadIntoTree))];
    assert(lead >= 0);
    assert(applying.subrange(lead, applying.len() as int) =~= patching);
    assert forall|j: int| lead <= j < applying.len() implies #[trigger] applying[j] == patching[j
        - lead] by {
        assert(applying.subrange(lead, applying.len() as int)[j - lead] == applying[j]);
    }
    assert forall|j: int| before.len() <= j < work.len() implies #[trigger] plan[j] == applying[j
        - before.len()] by {
        assert(work[j] == applying[j - before.len()]);
    }
    let at = (before.len() + lead) as nat;
    assert(plan[at as int] == applying[lead]);
    assert(applying[lead] == patching[0]);
    assert forall|j: int| at < j < plan.len() implies match action_of(#[trigger] plan[j].op) {
        Some(action) => !restores(action),
        None => true,
    } by {
        if j < work.len() {
            assert(plan[j] == applying[j - before.len()]);
            assert(applying[j - before.len()] == patching[j - before.len() - lead]);
        } else {
            assert(plan[j] == finalizing[j - work.len()]);
        }
    }
    lemma_mark_lasts(plan, facts, w, told, 0, at, Trace::Bootanim);
    if new {
        assert(plan[at as int + 1] == applying[lead + 1]);
        assert(applying[lead + 1] == patching[1]);
        assert(plan[at as int + 2] == applying[lead + 2]);
        assert(applying[lead + 2] == patching[2]);
        lemma_mark_lasts(plan, facts, w, told, 0, (at + 1) as nat, Trace::Zygote);
        lemma_mark_lasts(plan, facts, w, told, 0, (at + 2) as nat, Trace::Sepolicy);
    }
}

/// An installation that is carried out to its end leaves the injected tree
/// in place and the boot-animation script patched, and for the modern
/// variant the zygote init scripts and the security policy too; it leaves
/// no scratch directory, and, where the root is an image, nothing mounted
/// at the scratch mount point. An installation that stops early,
/// because the framework is installed already or the user does not agree,
/// is not carried out to its end.
#[verifier::rlimit(40)]
pub proof fn lemma_install_completes(
    has_overlay: bool,
    custom: bool,
    update: bool,
    new: bool,
    facts: Facts,
    w: World,
    told: spec_fn(nat) -> bool,
)
    requires
        run_from(spec_install_steps(has_overlay, custom, update, new), facts, w, told, 0).status
            is Ended,
    ensures
        run_from(spec_install_steps(has_overlay, custom, update, new), facts, w, told, 0).world.tree,
        run_from(
            spec_install_steps(has_overlay, custom, update, new),
            facts,
            w,
            told,
            0,
        ).world.bootanim,
        new ==> run_from(
            spec_install_steps(has_overlay, custom, update, new),
            facts,
            w,
            told,
            0,
        ).world.zygote,
        new ==> run_from(
            spec_install_steps(has_overlay, custom, update, new),
            facts,
            w,
            told,
            0,
        ).world.sepolicy,
        !run_from(
            spec_install_steps(has_overlay, custom, update, new),
            facts,
            w,
            told,
            0,
        ).world.scratch,
        !has_overlay ==> !run_from(
            spec_install_steps(has_overlay, custom, update, new),
            facts,
            w,
            told,
            0,
        ).world.mounted,
{
    lemma_install_patches(has_overlay, custom, update, new, facts, w, told);
    let plan = spec_install_steps(has_overlay, custom, update, new);
    let before = spec_install_steps_preflight(has_overlay, update, new)
        + spec_install_steps_staging(has_overlay, custom, new);
    let applying = spec_install_steps_applying(has_overlay, new);
    let finalizing = spec_install_steps_finalizing(has_overlay, update);
    let work = before + applying;
    assert(plan == work + finalizing);
    let unmount = spec_umount_steps(Phase::Finalizing, false, Cond::Always, Cond::Always);
    lemma_umount_steps_harmless(Phase::Finalizing, false, Cond::Always, Cond::Always);
    let head = seq![always(Phase::Finalizing, Op::Say(Message::Finishing))] + (if update {
        seq![always(Phase::Finalizing, Op::Do(Action::MirrorToData))]
    } else {
        Seq::empty()
    });
    let gone = seq![always(Phase::Finalizing, Op::Do(Action::RemoveScratch))];
    let tail = if !update {
        seq![
            always(Phase::Finalizing, Op::Observe(Fact::HadSession)),
            given(Phase::Finalizing, Cond::Is(Fact::HadSession), Op::Say(Message::StartingWaydroid)),
            given(Phase::Finalizing, Cond::Is(Fact::HadSession), Op::Observe(Fact::Started)),
            given2(
                Phase::Finalizing,
                Cond::Is(Fact::HadSession),
                Cond::Not(Fact::Started),
                Op::Say(Message::CouldNotStart),
            ),
            given2(
                Phase::Finalizing,
                Cond::Is(Fact::HadSession),
                Cond::Not(Fact::Started),
                Op::Say(Message::InstallDoneStartManually),
            ),
            given2(
                Phase::Finalizing,
                Cond::Is(Fact::HadSession),
                Cond::Is(Fact::Started),
                Op::Say(Message::InstallDone),
            ),
            given(
                Phase::Finalizing,
                Cond::Not(Fact::HadSession),
                Op::Say(Message::InstallDoneStartManually),
            ),
            always(Phase::Finalizing, Op::Say(Message::SetupHint)),
        ]
    } else {
        Seq::empty()
    };
    let middle = if !has_overlay {
        unmount
    } else {
        Seq::empty()
    };
    assert(finalizing =~= head + middle + gone + tail);
    let drop = head.len() + middle.len();
    assert(finalizing[drop as int] == gone[0]);
    assert forall|j: int| drop < j < finalizing.len() implies #[trigger] finalizing[j] == tail[j
        - drop - 1] by {}
    assert forall|j: int| 0 <= j < finalizing.len() implies match action_of(
        #[trigger] finalizing[j].op,
    ) {
        Some(action) => !(action is CleanUp) && !(action is Mount) && action
            != Action::CreateScratch,
        None => true,
    } by {
        if j < head.len() {
            assert(finalizing[j] == head[j]);
        } else if j < drop {
            assert(finalizing[j] == middle[j - head.len()]);
        } else if j == drop {
        } else {
            assert(finalizing[j] == tail[j - drop - 1]);
        }
    }
    let at = work.len() + drop;
    assert(plan[at as int] == finalizing[drop as int]);
    assert forall|j: int| work.len() <= j < plan.len() implies #[trigger] plan[j] == finalizing[j
        - work.len()] by {}
    assert(creates_no_scratch(plan, at as int + 1));
    assert(drops_scratch_at(plan, at as int));
    lemma_scratch_removal_lasts(plan, facts, w, told, 0, at);
    let last = (work.len() - 1) as nat;
    assert(applying.len() > 0);
    assert(applying.last() == always(Phase::Applying, Op::Do(Action::CopyPayloadIntoTree)));
    assert(plan[last as int] == applying.last());
    assert(cleans_nothing(plan, last as int + 1));
    lemma_tree_lasts(plan, facts, w, told, 0, last);
    if !has_overlay {
        let um = (work.len() + head.len() + 1) as nat;
        assert(plan[um as int] == finalizing[head.len() as int + 1]);
        assert(finalizing[head.len() as int + 1] == middle[1]);
        assert(mounts_nothing(plan, um as int + 1));
        lemma_unmount_lasts(plan, facts, w, told, 0, um);
    }
}

/// A runner that walks its plan hands out the requests of the walk: driven
/// from the step at `pc`, through a walk that meets no fault, it ends when
/// the walk ends, in the state in which the walk ends, as done.
pub proof fn lemma_runner_walks_plan(
    r: RunnerView,
    pc: nat,
    w: World,
    told: spec_fn(nat) -> bool,
    fuel: nat,
)
    requires
        pc <= r.plan.len(),
        fuel > r.plan.len() - pc,
        !(run_from(r.plan, r.facts, w, told, pc).status is Faulted),
    ensures
        drive(proceed_main(r, pc).0, proceed_main(r, pc).1, w, told, fuel) == (
            Request::Finish(Outcome::Done),
            run_from(r.plan, r.facts, w, told, pc).world,
        ),
    decreases r.plan.len() - pc,
{
    let plan = r.plan;
    let k = seek(plan, r.facts, pc);
    lemma_run_skips(plan, r.facts, w, told, pc);
    let start = proceed_main(r, pc);
    if k < plan.len() {
        let here = plan[k as int];
        assert(current_step(start.0) == Some(here) || start.1 is Finish);
        match here.op {
            Op::Observe(fact) => {
                let seen = RunnerView {
                    facts: r.facts.spec_with(fact, observed(fact, w, told(k))),
                    ..start.0
                };
                lemma_runner_walks_plan(seen, k + 1, w, told, (fuel - 1) as nat);
                assert(proceed_main(seen, k + 1) == spec_next(
                    start.0,
                    answer(start.1, w, told(k)),
                ));
            },
            Op::Do(action) => {
                lemma_runner_walks_plan(start.0, k + 1, effect(action, w), told, (fuel - 1) as nat);
                assert(proceed_main(start.0, k + 1) == spec_next(
                    start.0,
                    answer(start.1, w, told(k)),
                ));
            },
            Op::Retry(action, _) => {
                lemma_runner_walks_plan(start.0, k + 1, effect(action, w), told, (fuel - 1) as nat);
                assert(proceed_main(start.0, k + 1) == spec_next(
                    start.0,
                    answer(start.1, w, told(k)),
                ));
            },
            Op::Wait(_) => {
                lemma_runner_walks_plan(start.0, k + 1, w, told, (fuel - 1) as nat);
                assert(proceed_main(start.0, k + 1) == spec_next(
                    start.0,
                    answer(start.1, w, told(k)),
                ));
            },
            Op::Say(_) => {
                lemma_runner_walks_plan(start.0, k + 1, w, told, (fuel - 1) as nat);
                assert(proceed_main(start.0, k + 1) == spec_next(
                    start.0,
                    answer(start.1, w, told(k)),
                ));
            },
            _ => {},
        }
    }
}

} // verus!
