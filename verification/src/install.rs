//! The three workflows, installation, update and removal, and the
//! additional setup: their plans, and the runners that carry them out.

use crate::backend::{spec_installed_state, InstalledState};
use crate::container::{restart_steps, spec_restart_steps};
use crate::magisk_files::{
    installed_probe_steps, manager_steps, set_up_steps, spec_installed_probe_steps,
    spec_manager_steps, spec_set_up_steps,
};
use crate::magisk::opt_text;
use crate::paths::{join, join_path};
use crate::selinux::{sepolicy_prepare_steps, spec_sepolicy_prepare_steps};
use crate::text::{
    ends_with_chars, from_chars, is_prefix, is_suffix, starts_with_chars, str_eq, strip_prefixes,
    strip_suffixes, texts, to_chars, trim_end_matches_chars, trim_start_matches_chars,
};
use crate::utils::{
    mount_steps, scratch_steps, spec_mount_steps, spec_scratch_steps, spec_umount_steps,
    umount_steps,
};
use crate::workflow::{
    always, current_step, fresh, given, given2, lemma_told_then_failed, lemma_told_then_passed,
    lemma_told_then_said, lemma_told_then_stopped, spec_next, Action, Cond,
    Fact, Fault, GuestStep, Message, Mode, Op, Outcome, Phase, Reply, Request, Runner,
    RunnerView, Step, Variant,
};
use vstd::prelude::*;
use vstd::string::StrSliceExecFns;

verus! {

/// The steps that [`install_steps_preflight`] returns.
pub open spec fn spec_install_steps_preflight(
    has_overlay: bool,
    update: bool,
    new: bool,
) -> Seq<Step> {
    spec_installed_probe_steps(Phase::Preflight, has_overlay)
    + (if !update {
        seq![
            always(Phase::Preflight, Op::Observe(Fact::Twin)),
            given2(
                Phase::Preflight,
                Cond::Is(Fact::Tree),
                Cond::Is(Fact::Twin),
                Op::Say(Message::AlreadyInstalled),
            ),
            given2(Phase::Preflight, Cond::Is(Fact::Tree), Cond::Is(Fact::Twin), Op::Stop),
        ]
    } else {
        Seq::empty()
    })
    + (if !has_overlay && !update {
        seq![
            always(Phase::Preflight, Op::Observe(Fact::Confirmed)),
            given(Phase::Preflight, Cond::Not(Fact::Confirmed), Op::Stop),
        ]
    } else {
        Seq::empty()
    })
    + (if !update {
        seq![
            always(Phase::Preflight, Op::Say(Message::Installing)),
        ]
    } else {
        Seq::empty()
    })
    + seq![
        always(Phase::Preflight, Op::Observe(Fact::SessionRunning)),
    ]
    + (if !update && !new {
        seq![
            given(
                Phase::Preflight,
                Cond::Is(Fact::SessionRunning),
                Op::Say(Message::StoppingSession),
            ),
            given(Phase::Preflight, Cond::Is(Fact::SessionRunning), Op::Do(Action::StopSession)),
        ]
    } else {
        Seq::empty()
    })
    + (if update || new {
        seq![
            always(Phase::Preflight, Op::Observe(Fact::ContainerRunning)),
            given(
                Phase::Preflight,
                Cond::Not(Fact::ContainerRunning),
                Op::Fail(Fault::ContainerNotRunning),
            ),
        ]
    } else {
        Seq::empty()
    })
}

/// The preflight of an installation: nothing is done where the framework
/// counts as installed, with both of its markers there, unless this is an
/// update; a lone marker does not count. Nothing is done where the user does
/// not agree to the change of the images; a session that runs is stopped
/// for the legacy variant, and has to run for the modern one and for an
/// update.
pub fn install_steps_preflight(has_overlay: bool, update: bool, new: bool) -> (plan: Vec<Step>)
    ensures
        plan@ == spec_install_steps_preflight(has_overlay, update, new),
{
    let mut plan: Vec<Step> = Vec::new();
    let mut part = installed_probe_steps(Phase::Preflight, has_overlay);
    plan.append(&mut part);
    if !update {
        plan.push(always(Phase::Preflight, Op::Observe(Fact::Twin)));
        plan.push(
            given2(
                Phase::Preflight,
                Cond::Is(Fact::Tree),
                Cond::Is(Fact::Twin),
                Op::Say(Message::AlreadyInstalled),
            ),
        );
        plan.push(given2(Phase::Preflight, Cond::Is(Fact::Tree), Cond::Is(Fact::Twin), Op::Stop));
    }
    if !has_overlay && !update {
        plan.push(always(Phase::Preflight, Op::Observe(Fact::Confirmed)));
        plan.push(given(Phase::Preflight, Cond::Not(Fact::Confirmed), Op::Stop));
    }
    if !update {
        plan.push(always(Phase::Preflight, Op::Say(Message::Installing)));
    }
    plan.push(always(Phase::Preflight, Op::Observe(Fact::SessionRunning)));
    if !update && !new {
        plan.push(
            given(
                Phase::Preflight,
                Cond::Is(Fact::SessionRunning),
                Op::Say(Message::StoppingSession),
            ),
        );
        plan.push(
            given(Phase::Preflight, Cond::Is(Fact::SessionRunning), Op::Do(Action::StopSession)),
        );
    }
    if update || new {
        plan.push(always(Phase::Preflight, Op::Observe(Fact::ContainerRunning)));
        plan.push(
            given(
                Phase::Preflight,
                Cond::Not(Fact::ContainerRunning),
                Op::Fail(Fault::ContainerNotRunning),
            ),
        );
    }
    assert(plan@ =~= spec_install_steps_preflight(has_overlay, update, new));
    plan
}

/// The steps that [`install_steps_staging`] returns.
pub open spec fn spec_install_steps_staging(
    has_overlay: bool,
    custom: bool,
    new: bool,
) -> Seq<Step> {
    spec_scratch_steps(Phase::Staging, has_overlay)
    + (if custom {
        seq![
            always(Phase::Staging, Op::Do(Action::CopyCustomPayload)),
        ]
    } else {
        Seq::empty()
    })
    + (if !custom && new {
        seq![
            always(Phase::Staging, Op::Do(Action::FetchManifest(Variant::Modern))),
        ]
    } else {
        Seq::empty()
    })
    + (if !custom && !new {
        seq![
            always(Phase::Staging, Op::Do(Action::FetchManifest(Variant::Legacy))),
        ]
    } else {
        Seq::empty()
    })
    + (if !custom {
        seq![
            always(Phase::Staging, Op::Say(Message::Downloading)),
            always(Phase::Staging, Op::Do(Action::DownloadPayload)),
        ]
    } else {
        Seq::empty()
    })
    + seq![
        always(Phase::Staging, Op::Say(Message::Extracting)),
        always(Phase::Staging, Op::Do(Action::Extract)),
        always(Phase::Staging, Op::Do(Action::ValidatePayload)),
    ]
    + (if new {
        spec_sepolicy_prepare_steps(Phase::Staging)
    } else {
        Seq::empty()
    })
    + (if new {
        seq![
            always(Phase::Staging, Op::Do(Action::Guest(GuestStep::StageZygote))),
        ]
    } else {
        Seq::empty()
    })
}

/// The staging of an installation: an empty scratch directory, the
/// payload copied or downloaded into it, unpacked and held against the
/// variant; for the modern variant the guest then builds the patched
/// policy and stages its zygote init scripts.
pub fn install_steps_staging(has_overlay: bool, custom: bool, new: bool) -> (plan: Vec<Step>)
    ensures
        plan@ == spec_install_steps_staging(has_overlay, custom, new),
{
    let mut plan: Vec<Step> = Vec::new();
    let mut part = scratch_steps(Phase::Staging, has_overlay);
    plan.append(&mut part);
    if custom {
        plan.push(always(Phase::Staging, Op::Do(Action::CopyCustomPayload)));
    }
    if !custom && new {
        plan.push(always(Phase::Staging, Op::Do(Action::FetchManifest(Variant::Modern))));
    }
    if !custom && !new {
        plan.push(always(Phase::Staging, Op::Do(Action::FetchManifest(Variant::Legacy))));
    }
    if !custom {
        plan.push(always(Phase::Staging, Op::Say(Message::Downloading)));
        plan.push(always(Phase::Staging, Op::Do(Action::DownloadPayload)));
    }
    plan.push(always(Phase::Staging, Op::Say(Message::Extracting)));
    plan.push(always(Phase::Staging, Op::Do(Action::Extract)));
    plan.push(always(Phase::Staging, Op::Do(Action::ValidatePayload)));
    if new {
        let mut part = sepolicy_prepare_steps(Phase::Staging);
        plan.append(&mut part);
    }
    if new {
        plan.push(always(Phase::Staging, Op::Do(Action::Guest(GuestStep::StageZygote))));
    }
    assert(plan@ =~= spec_install_steps_staging(has_overlay, custom, new));
    plan
}

/// The steps that [`install_steps_applying`] returns.
pub open spec fn spec_install_steps_applying(has_overlay: bool, new: bool) -> Seq<Step> {
    (if new {
        seq![
            always(Phase::Applying, Op::Say(Message::StoppingSession)),
            always(Phase::Applying, Op::Do(Action::StopSession)),
        ]
    } else {
        Seq::empty()
    })
    + (if !has_overlay {
        seq![
            always(Phase::Applying, Op::Observe(Fact::Mounted)),
        ]
    } else {
        Seq::empty()
    })
    + (if !has_overlay {
        spec_mount_steps(Phase::Applying, true, false, true, Cond::Not(Fact::Mounted), Cond::Always)
    } else {
        Seq::empty()
    })
    + seq![
        always(Phase::Applying, Op::Do(Action::CleanUp(false))),
        always(Phase::Applying, Op::Do(Action::CreateTree)),
        always(Phase::Applying, Op::Say(Message::CopyingFiles)),
        always(Phase::Applying, Op::Do(Action::CopyBinaries)),
        always(Phase::Applying, Op::Do(Action::CopyCompanion)),
        always(Phase::Applying, Op::Do(Action::CopyAssets)),
        always(Phase::Applying, Op::Do(Action::FinishTree)),
        always(Phase::Applying, Op::Do(Action::PatchBootanim)),
    ]
    + (if new {
        seq![
            always(Phase::Applying, Op::Do(Action::PatchZygote)),
            always(Phase::Applying, Op::Do(Action::PatchSepolicy)),
        ]
    } else {
        Seq::empty()
    })
    + seq![
        always(Phase::Applying, Op::Do(Action::CopyPayloadIntoTree)),
    ]
}

/// The changes of an installation, in their order: the session is stopped
/// for the modern variant, the images are mounted where the root is an
/// image, what an earlier installation left is cleaned up, the tree is
/// filled, the boot-animation script is patched and then, for the modern
/// variant, the zygote scripts and the policy, and the payload archive is
/// put into the tree.
pub fn install_steps_applying(has_overlay: bool, new: bool) -> (plan: Vec<Step>)
    ensures
        plan@ == spec_install_steps_applying(has_overlay, new),
{
    let mut plan: Vec<Step> = Vec::new();
    if new {
        plan.push(always(Phase::Applying, Op::Say(Message::StoppingSession)));
        plan.push(always(Phase::Applying, Op::Do(Action::StopSession)));
    }
    if !has_overlay {
        plan.push(always(Phase::Applying, Op::Observe(Fact::Mounted)));
    }
    if !has_overlay {
        let mut part = mount_steps(
            Phase::Applying,
            true,
            false,
            true,
            Cond::Not(Fact::Mounted),
            Cond::Always,
        );
        plan.append(&mut part);
    }
    plan.push(always(Phase::Applying, Op::Do(Action::CleanUp(false))));
    plan.push(always(Phase::Applying, Op::Do(Action::CreateTree)));
    plan.push(always(Phase::Applying, Op::Say(Message::CopyingFiles)));
    plan.push(always(Phase::Applying, Op::Do(Action::CopyBinaries)));
    plan.push(always(Phase::Applying, Op::Do(Action::CopyCompanion)));
    plan.push(always(Phase::Applying, Op::Do(Action::CopyAssets)));
    plan.push(always(Phase::Applying, Op::Do(Action::FinishTree)));
    plan.push(always(Phase::Applying, Op::Do(Action::PatchBootanim)));
    if new {
        plan.push(always(Phase::Applying, Op::Do(Action::PatchZygote)));
        plan.push(always(Phase::Applying, Op::Do(Action::PatchSepolicy)));
    }
    plan.push(always(Phase::Applying, Op::Do(Action::CopyPayloadIntoTree)));
    assert(plan@ =~= spec_install_steps_applying(has_overlay, new));
    plan
}

/// The steps that [`install_steps_finalizing`] returns.
pub open spec fn spec_install_steps_finalizing(has_overlay: bool, update: bool) -> Seq<Step> {
    seq![
        always(Phase::Finalizing, Op::Say(Message::Finishing)),
    ]
    + (if update {
        seq![
            always(Phase::Finalizing, Op::Do(Action::MirrorToData)),
        ]
    } else {
        Seq::empty()
    })
    + (if !has_overlay {
        spec_umount_steps(Phase::Finalizing, false, Cond::Always, Cond::Always)
    } else {
        Seq::empty()
    })
    + seq![
        always(Phase::Finalizing, Op::Do(Action::RemoveScratch)),
    ]
    + (if !update {
        seq![
            always(Phase::Finalizing, Op::Observe(Fact::HadSession)),
            given(
                Phase::Finalizing,
                Cond::Is(Fact::HadSession),
                Op::Say(Message::StartingWaydroid),
            ),
            given(Phase::Finalizing, Cond::Is(Fact::HadSession), Op::Observe(Fact::Started)),
            given2(
                Phase::Finalizing,
                Cond::Is(Fact::HadSession),
                Cond::Not(Fact::Started),
                Op::Say(Message::CouldNotStart),
            ),
            given2(
                Phase::Finalizing,
                Cond::Is(Fact::HadSession),
                Cond::Not(Fact::Started),
                Op::Say(Message::InstallDoneStartManually),
            ),
            given2(
                Phase::Finalizing,
                Cond::Is(Fact::HadSession),
                Cond::Is(Fact::Started),
                Op::Say(Message::InstallDone),
            ),
            given(
                Phase::Finalizing,
                Cond::Not(Fact::HadSession),
                Op::Say(Message::InstallDoneStartManually),
            ),
            always(Phase::Finalizing, Op::Say(Message::SetupHint)),
        ]
    } else {
        Seq::empty()
    })
}

/// The end of an installation: an update mirrors the tree to the data
/// partition; the images are unmounted, the scratch directory goes, and
/// unless this is an update a session that existed is started again.
pub fn install_steps_finalizing(has_overlay: bool, update: bool) -> (plan: Vec<Step>)
    ensures
        plan@ == spec_install_steps_finalizing(has_overlay, update),
{
    let mut plan: Vec<Step> = Vec::new();
    plan.push(always(Phase::Finalizing, Op::Say(Message::Finishing)));
    if update {
        plan.push(always(Phase::Finalizing, Op::Do(Action::MirrorToData)));
    }
    if !has_overlay {
        let mut part = umount_steps(Phase::Finalizing, false, Cond::Always, Cond::Always);
        plan.append(&mut part);
    }
    plan.push(always(Phase::Finalizing, Op::Do(Action::RemoveScratch)));
    if !update {
        plan.push(always(Phase::Finalizing, Op::Observe(Fact::HadSession)));
        plan.push(
            given(
                Phase::Finalizing,
                Cond::Is(Fact::HadSession),
                Op::Say(Message::StartingWaydroid),
            ),
        );
        plan.push(given(Phase::Finalizing, Cond::Is(Fact::HadSession), Op::Observe(Fact::Started)));
        plan.push(
            given2(
                Phase::Finalizing,
                Cond::Is(Fact::HadSession),
                Cond::Not(Fact::Started),
                Op::Say(Message::CouldNotStart),
            ),
        );
        plan.push(
            given2(
                Phase::Finalizing,
                Cond::Is(Fact::HadSession),
                Cond::Not(Fact::Started),
                Op::Say(Message::InstallDoneStartManually),
            ),
        );
        plan.push(
            given2(
                Phase::Finalizing,
                Cond::Is(Fact::HadSession),
                Cond::Is(Fact::Started),
                Op::Say(Message::InstallDone),
            ),
        );
        plan.push(
            given(
                Phase::Finalizing,
                Cond::Not(Fact::HadSession),
                Op::Say(Message::InstallDoneStartManually),
            ),
        );
        plan.push(always(Phase::Finalizing, Op::Say(Message::SetupHint)));
    }
    assert(plan@ =~= spec_install_steps_finalizing(has_overlay, update));
    plan
}

/// The steps that [`install_steps`] returns.
pub open spec fn spec_install_steps(
    has_overlay: bool,
    custom: bool,
    update: bool,
    new: bool,
) -> Seq<Step> {
    spec_install_steps_preflight(has_overlay, update, new)
    + spec_install_steps_staging(has_overlay, custom, new)
    + spec_install_steps_applying(has_overlay, new)
    + spec_install_steps_finalizing(has_overlay, update)
}

/// The steps of an installation, of the modern variant if `new` is set.
pub fn install_steps(has_overlay: bool, custom: bool, update: bool, new: bool) -> (plan: Vec<Step>)
    ensures
        plan@ == spec_install_steps(has_overlay, custom, update, new),
{
    let mut plan: Vec<Step> = Vec::new();
    let mut part = install_steps_preflight(has_overlay, update, new);
    plan.append(&mut part);
    let mut part = install_steps_staging(has_overlay, custom, new);
    plan.append(&mut part);
    let mut part = install_steps_applying(has_overlay, new);
    plan.append(&mut part);
    let mut part = install_steps_finalizing(has_overlay, update);
    plan.append(&mut part);
    assert(plan@ =~= spec_install_steps(has_overlay, custom, update, new));
    plan
}

/// The steps that [`remove_steps_preflight`] returns.
pub open spec fn spec_remove_steps_preflight(
    has_overlay: bool,
    recover: bool,
    update: bool,
) -> Seq<Step> {
    (if !recover {
        spec_installed_probe_steps(Phase::Preflight, has_overlay)
    } else {
        Seq::empty()
    })
    + (if !recover {
        seq![
            given(Phase::Preflight, Cond::Not(Fact::Tree), Op::Fail(Fault::NotInstalled)),
        ]
    } else {
        Seq::empty()
    })
    + (if recover {
        seq![
            always(Phase::Preflight, Op::Say(Message::Aborting)),
        ]
    } else {
        Seq::empty()
    })
    + (if !recover && !update {
        seq![
            always(Phase::Preflight, Op::Say(Message::Removing)),
        ]
    } else {
        Seq::empty()
    })
    + seq![
        always(Phase::Preflight, Op::Observe(Fact::SessionRunning)),
    ]
    + (if !update {
        seq![
            given(
                Phase::Preflight,
                Cond::Is(Fact::SessionRunning),
                Op::Say(Message::StoppingWaydroid),
            ),
            given(Phase::Preflight, Cond::Is(Fact::SessionRunning), Op::Do(Action::StopSession)),
        ]
    } else {
        Seq::empty()
    })
}

/// The preflight of a removal: unless it recovers from a failure the
/// framework has to be installed; a session that runs is stopped unless
/// this is part of an update.
pub fn remove_steps_preflight(has_overlay: bool, recover: bool, update: bool) -> (plan: Vec<Step>)
    ensures
        plan@ == spec_remove_steps_preflight(has_overlay, recover, update),
{
    let mut plan: Vec<Step> = Vec::new();
    if !recover {
        let mut part = installed_probe_steps(Phase::Preflight, has_overlay);
        plan.append(&mut part);
    }
    if !recover {
        plan.push(given(Phase::Preflight, Cond::Not(Fact::Tree), Op::Fail(Fault::NotInstalled)));
    }
    if recover {
        plan.push(always(Phase::Preflight, Op::Say(Message::Aborting)));
    }
    if !recover && !update {
        plan.push(always(Phase::Preflight, Op::Say(Message::Removing)));
    }
    plan.push(always(Phase::Preflight, Op::Observe(Fact::SessionRunning)));
    if !update {
        plan.push(
            given(
                Phase::Preflight,
                Cond::Is(Fact::SessionRunning),
                Op::Say(Message::StoppingWaydroid),
            ),
        );
        plan.push(
            given(Phase::Preflight, Cond::Is(Fact::SessionRunning), Op::Do(Action::StopSession)),
        );
    }
    assert(plan@ =~= spec_remove_steps_preflight(has_overlay, recover, update));
    plan
}

/// The steps that [`remove_steps_staging`] returns.
pub open spec fn spec_remove_steps_staging(has_overlay: bool) -> Seq<Step> {
    spec_scratch_steps(Phase::Staging, has_overlay)
}

/// The staging of a removal: an empty scratch directory.
pub fn remove_steps_staging(has_overlay: bool) -> (plan: Vec<Step>)
    ensures
        plan@ == spec_remove_steps_staging(has_overlay),
{
    let mut plan: Vec<Step> = Vec::new();
    let mut part = scratch_steps(Phase::Staging, has_overlay);
    plan.append(&mut part);
    assert(plan@ =~= spec_remove_steps_staging(has_overlay));
    plan
}

/// The steps that [`remove_steps_applying`] returns.
pub open spec fn spec_remove_steps_applying(has_overlay: bool) -> Seq<Step> {
    (if !has_overlay {
        seq![
            always(Phase::Applying, Op::Observe(Fact::Mounted)),
        ]
    } else {
        Seq::empty()
    })
    + (if !has_overlay {
        spec_mount_steps(Phase::Applying, true, false, true, Cond::Not(Fact::Mounted), Cond::Always)
    } else {
        Seq::empty()
    })
    + seq![
        always(Phase::Applying, Op::Say(Message::RemovingFiles)),
        always(Phase::Applying, Op::Do(Action::CleanUp(true))),
        always(Phase::Applying, Op::Do(Action::RestoreSepolicy)),
        always(Phase::Applying, Op::Do(Action::RestoreZygote)),
        always(Phase::Applying, Op::Do(Action::RestoreBootanim)),
    ]
}

/// The changes of a removal, in their order: the images are mounted where
/// the root is an image and nothing is mounted yet, what the installation
/// put there is cleaned up, and the policy, the zygote scripts and the
/// boot-animation script are restored.
pub fn remove_steps_applying(has_overlay: bool) -> (plan: Vec<Step>)
    ensures
        plan@ == spec_remove_steps_applying(has_overlay),
{
    let mut plan: Vec<Step> = Vec::new();
    if !has_overlay {
        plan.push(always(Phase::Applying, Op::Observe(Fact::Mounted)));
    }
    if !has_overlay {
        let mut part = mount_steps(
            Phase::Applying,
            true,
            false,
            true,
            Cond::Not(Fact::Mounted),
            Cond::Always,
        );
        plan.append(&mut part);
    }
    plan.push(always(Phase::Applying, Op::Say(Message::RemovingFiles)));
    plan.push(always(Phase::Applying, Op::Do(Action::CleanUp(true))));
    plan.push(always(Phase::Applying, Op::Do(Action::RestoreSepolicy)));
    plan.push(always(Phase::Applying, Op::Do(Action::RestoreZygote)));
    plan.push(always(Phase::Applying, Op::Do(Action::RestoreBootanim)));
    assert(plan@ =~= spec_remove_steps_applying(has_overlay));
    plan
}

/// The steps that [`remove_steps_finalizing`] returns.
pub open spec fn spec_remove_steps_finalizing(has_overlay: bool, update: bool) -> Seq<Step> {
    (if !has_overlay {
        spec_umount_steps(Phase::Finalizing, false, Cond::Always, Cond::Always)
    } else {
        Seq::empty()
    })
    + seq![
        always(Phase::Finalizing, Op::Observe(Fact::ScratchExists)),
        given(Phase::Finalizing, Cond::Is(Fact::ScratchExists), Op::Do(Action::RemoveScratch)),
    ]
    + (if !update {
        seq![
            always(Phase::Finalizing, Op::Observe(Fact::HadSession)),
            given(
                Phase::Finalizing,
                Cond::Is(Fact::HadSession),
                Op::Say(Message::StartingWaydroid),
            ),
            given(Phase::Finalizing, Cond::Is(Fact::HadSession), Op::Observe(Fact::Started)),
            given2(
                Phase::Finalizing,
                Cond::Is(Fact::HadSession),
                Cond::Not(Fact::Started),
                Op::Say(Message::CouldNotStart),
            ),
            always(Phase::Finalizing, Op::Say(Message::RemovalDone)),
            given2(
                Phase::Finalizing,
                Cond::Is(Fact::HadSession),
                Cond::Not(Fact::Started),
                Op::Say(Message::StartManually),
            ),
            given(Phase::Finalizing, Cond::Not(Fact::HadSession), Op::Say(Message::StartManually)),
        ]
    } else {
        Seq::empty()
    })
}

/// The end of a removal: the images are unmounted, the scratch directory
/// goes, and unless this is part of an update a session that existed is
/// started again.
pub fn remove_steps_finalizing(has_overlay: bool, update: bool) -> (plan: Vec<Step>)
    ensures
        plan@ == spec_remove_steps_finalizing(has_overlay, update),
{
    let mut plan: Vec<Step> = Vec::new();
    if !has_overlay {
        let mut part = umount_steps(Phase::Finalizing, false, Cond::Always, Cond::Always);
        plan.append(&mut part);
    }
    plan.push(always(Phase::Finalizing, Op::Observe(Fact::ScratchExists)));
    plan.push(
        given(Phase::Finalizing, Cond::Is(Fact::ScratchExists), Op::Do(Action::RemoveScratch)),
    );
    if !update {
        plan.push(always(Phase::Finalizing, Op::Observe(Fact::HadSession)));
        plan.push(
            given(
                Phase::Finalizing,
                Cond::Is(Fact::HadSession),
                Op::Say(Message::StartingWaydroid),
            ),
        );
        plan.push(given(Phase::Finalizing, Cond::Is(Fact::HadSession), Op::Observe(Fact::Started)));
        plan.push(
            given2(
                Phase::Finalizing,
                Cond::Is(Fact::HadSession),
                Cond::Not(Fact::Started),
                Op::Say(Message::CouldNotStart),
            ),
        );
        plan.push(always(Phase::Finalizing, Op::Say(Message::RemovalDone)));
        plan.push(
            given2(
                Phase::Finalizing,
                Cond::Is(Fact::HadSession),
                Cond::Not(Fact::Started),
                Op::Say(Message::StartManually),
            ),
        );
        plan.push(
            given(Phase::Finalizing, Cond::Not(Fact::HadSession), Op::Say(Message::StartManually)),
        );
    }
    assert(plan@ =~= spec_remove_steps_finalizing(has_overlay, update));
    plan
}

/// The steps that [`remove_steps`] returns.
pub open spec fn spec_remove_steps(has_overlay: bool, recover: bool, update: bool) -> Seq<Step> {
    spec_remove_steps_preflight(has_overlay, recover, update)
    + spec_remove_steps_staging(has_overlay)
    + spec_remove_steps_applying(has_overlay)
    + spec_remove_steps_finalizing(has_overlay, update)
}

/// The steps of a removal.
pub fn remove_steps(has_overlay: bool, recover: bool, update: bool) -> (plan: Vec<Step>)
    ensures
        plan@ == spec_remove_steps(has_overlay, recover, update),
{
    let mut plan: Vec<Step> = Vec::new();
    let mut part = remove_steps_preflight(has_overlay, recover, update);
    plan.append(&mut part);
    let mut part = remove_steps_staging(has_overlay);
    plan.append(&mut part);
    let mut part = remove_steps_applying(has_overlay);
    plan.append(&mut part);
    let mut part = remove_steps_finalizing(has_overlay, update);
    plan.append(&mut part);
    assert(plan@ =~= spec_remove_steps(has_overlay, recover, update));
    plan
}

/// The steps that [`update_head`] returns.
pub open spec fn spec_update_head(has_overlay: bool) -> Seq<Step> {
    seq![
        always(Phase::Preflight, Op::Observe(Fact::ContainerRunning)),
        given(
            Phase::Preflight,
            Cond::Not(Fact::ContainerRunning),
            Op::Fail(Fault::ContainerNotRunning),
        ),
    ]
    + spec_installed_probe_steps(Phase::Preflight, has_overlay)
    + seq![
        given(Phase::Preflight, Cond::Not(Fact::Tree), Op::Fail(Fault::NotInstalled)),
    ]
    + spec_set_up_steps(Phase::Preflight, has_overlay)
    + seq![
        given(Phase::Preflight, Cond::Not(Fact::SetUp), Op::Fail(Fault::NotInstalled)),
    ]
}

/// The preflight of an update: the container has to run and the framework
/// has to be installed and set
/// up.
pub fn update_head(has_overlay: bool) -> (plan: Vec<Step>)
    ensures
        plan@ == spec_update_head(has_overlay),
{
    let mut plan: Vec<Step> = Vec::new();
    plan.push(always(Phase::Preflight, Op::Observe(Fact::ContainerRunning)));
    plan.push(
        given(
            Phase::Preflight,
            Cond::Not(Fact::ContainerRunning),
            Op::Fail(Fault::ContainerNotRunning),
        ),
    );
    let mut part = installed_probe_steps(Phase::Preflight, has_overlay);
    plan.append(&mut part);
    plan.push(given(Phase::Preflight, Cond::Not(Fact::Tree), Op::Fail(Fault::NotInstalled)));
    let mut part = set_up_steps(Phase::Preflight, has_overlay);
    plan.append(&mut part);
    plan.push(given(Phase::Preflight, Cond::Not(Fact::SetUp), Op::Fail(Fault::NotInstalled)));
    assert(plan@ =~= spec_update_head(has_overlay));
    plan
}

/// The steps that [`update_check`] returns.
pub open spec fn spec_update_check(has_overlay: bool) -> Seq<Step> {
    spec_scratch_steps(Phase::Staging, has_overlay)
    + seq![
        always(Phase::Staging, Op::Do(Action::ReadVersion)),
        always(Phase::Staging, Op::Observe(Fact::Modern)),
        given(
            Phase::Staging,
            Cond::Is(Fact::Modern),
            Op::Do(Action::FetchManifest(Variant::Modern)),
        ),
        given(
            Phase::Staging,
            Cond::Not(Fact::Modern),
            Op::Do(Action::FetchManifest(Variant::Legacy)),
        ),
        always(Phase::Staging, Op::Observe(Fact::Current)),
        given(Phase::Staging, Cond::Is(Fact::Current), Op::Say(Message::UpToDate)),
        given(Phase::Staging, Cond::Is(Fact::Current), Op::Stop),
        always(Phase::Staging, Op::Observe(Fact::Recognized)),
        given(Phase::Staging, Cond::Not(Fact::Recognized), Op::Fail(Fault::Unrecognized)),
        always(Phase::Staging, Op::Say(Message::Updating)),
    ]
}

/// The version check of an update: the installed version is read and
/// classified, and held against the version that the manifest of its kind
/// offers. The update ends here if the installed version holds the version
/// on offer, and fails if it is of no known family.
pub fn update_check(has_overlay: bool) -> (plan: Vec<Step>)
    ensures
        plan@ == spec_update_check(has_overlay),
{
    let mut plan: Vec<Step> = Vec::new();
    let mut part = scratch_steps(Phase::Staging, has_overlay);
    plan.append(&mut part);
    plan.push(always(Phase::Staging, Op::Do(Action::ReadVersion)));
    plan.push(always(Phase::Staging, Op::Observe(Fact::Modern)));
    plan.push(
        given(
            Phase::Staging,
            Cond::Is(Fact::Modern),
            Op::Do(Action::FetchManifest(Variant::Modern)),
        ),
    );
    plan.push(
        given(
            Phase::Staging,
            Cond::Not(Fact::Modern),
            Op::Do(Action::FetchManifest(Variant::Legacy)),
        ),
    );
    plan.push(always(Phase::Staging, Op::Observe(Fact::Current)));
    plan.push(given(Phase::Staging, Cond::Is(Fact::Current), Op::Say(Message::UpToDate)));
    plan.push(given(Phase::Staging, Cond::Is(Fact::Current), Op::Stop));
    plan.push(always(Phase::Staging, Op::Observe(Fact::Recognized)));
    plan.push(given(Phase::Staging, Cond::Not(Fact::Recognized), Op::Fail(Fault::Unrecognized)));
    plan.push(always(Phase::Staging, Op::Say(Message::Updating)));
    assert(plan@ =~= spec_update_check(has_overlay));
    plan
}

/// The steps that [`update_tail`] returns.
pub open spec fn spec_update_tail() -> Seq<Step> {
    seq![
        always(Phase::Finalizing, Op::Do(Action::Guest(GuestStep::ChmodData))),
        always(Phase::Finalizing, Op::Do(Action::Guest(GuestStep::ChownData))),
        always(Phase::Finalizing, Op::Do(Action::Guest(GuestStep::StageApkFromData))),
    ]
    + spec_manager_steps(Phase::Finalizing)
    + seq![
        always(Phase::Finalizing, Op::Do(Action::Guest(GuestStep::InstallApk))),
        always(Phase::Finalizing, Op::Do(Action::Guest(GuestStep::RemoveStagedApk))),
        always(Phase::Finalizing, Op::Say(Message::UpdateDone)),
    ]
    + spec_restart_steps(Phase::Finalizing)
}

/// The last part of an update, after the new version is installed: inside
/// the guest the tree on the data partition is made executable and given to
/// root, the manager app is installed anew, and the container is restarted.
pub fn update_tail() -> (plan: Vec<Step>)
    ensures
        plan@ == spec_update_tail(),
{
    let mut plan: Vec<Step> = Vec::new();
    plan.push(always(Phase::Finalizing, Op::Do(Action::Guest(GuestStep::ChmodData))));
    plan.push(always(Phase::Finalizing, Op::Do(Action::Guest(GuestStep::ChownData))));
    plan.push(always(Phase::Finalizing, Op::Do(Action::Guest(GuestStep::StageApkFromData))));
    let mut part = manager_steps(Phase::Finalizing);
    plan.append(&mut part);
    plan.push(always(Phase::Finalizing, Op::Do(Action::Guest(GuestStep::InstallApk))));
    plan.push(always(Phase::Finalizing, Op::Do(Action::Guest(GuestStep::RemoveStagedApk))));
    plan.push(always(Phase::Finalizing, Op::Say(Message::UpdateDone)));
    let mut part = restart_steps(Phase::Finalizing);
    plan.append(&mut part);
    assert(plan@ =~= spec_update_tail());
    plan
}

/// The steps that [`setup_steps`] returns.
pub open spec fn spec_setup_steps(has_overlay: bool) -> Seq<Step> {
    seq![
        always(Phase::Preflight, Op::Observe(Fact::ContainerRunning)),
        given(
            Phase::Preflight,
            Cond::Not(Fact::ContainerRunning),
            Op::Fail(Fault::ContainerNotRunning),
        ),
    ]
    + spec_installed_probe_steps(Phase::Preflight, has_overlay)
    + seq![
        given(Phase::Preflight, Cond::Not(Fact::Tree), Op::Fail(Fault::NotInstalled)),
        always(Phase::Preflight, Op::Say(Message::RunningSetup)),
        always(Phase::Preflight, Op::Do(Action::Guest(GuestStep::ClearData))),
        always(Phase::Preflight, Op::Do(Action::Guest(GuestStep::MakeData))),
        always(Phase::Preflight, Op::Do(Action::Guest(GuestStep::LockAdb))),
        always(Phase::Preflight, Op::Do(Action::Guest(GuestStep::CopyTreeToData))),
        always(Phase::Preflight, Op::Do(Action::Guest(GuestStep::ChmodData))),
        always(Phase::Preflight, Op::Do(Action::Guest(GuestStep::ChownData))),
        always(Phase::Preflight, Op::Do(Action::Guest(GuestStep::StageApkFromTree))),
    ]
    + spec_manager_steps(Phase::Preflight)
    + seq![
        always(Phase::Preflight, Op::Do(Action::Guest(GuestStep::InstallApk))),
        always(Phase::Preflight, Op::Do(Action::Guest(GuestStep::RemoveStagedApk))),
    ]
    + spec_restart_steps(Phase::Preflight)
}

/// The steps of the additional setup: the container has to run and the
/// framework has to be installed; inside the guest the tree is copied to
/// the data partition, made executable and given to root, the manager app
/// is installed anew, and the container is restarted.
pub fn setup_steps(has_overlay: bool) -> (plan: Vec<Step>)
    ensures
        plan@ == spec_setup_steps(has_overlay),
{
    let mut plan: Vec<Step> = Vec::new();
    plan.push(always(Phase::Preflight, Op::Observe(Fact::ContainerRunning)));
    plan.push(
        given(
            Phase::Preflight,
            Cond::Not(Fact::ContainerRunning),
            Op::Fail(Fault::ContainerNotRunning),
        ),
    );
    let mut part = installed_probe_steps(Phase::Preflight, has_overlay);
    plan.append(&mut part);
    plan.push(given(Phase::Preflight, Cond::Not(Fact::Tree), Op::Fail(Fault::NotInstalled)));
    plan.push(always(Phase::Preflight, Op::Say(Message::RunningSetup)));
    plan.push(always(Phase::Preflight, Op::Do(Action::Guest(GuestStep::ClearData))));
    plan.push(always(Phase::Preflight, Op::Do(Action::Guest(GuestStep::MakeData))));
    plan.push(always(Phase::Preflight, Op::Do(Action::Guest(GuestStep::LockAdb))));
    plan.push(always(Phase::Preflight, Op::Do(Action::Guest(GuestStep::CopyTreeToData))));
    plan.push(always(Phase::Preflight, Op::Do(Action::Guest(GuestStep::ChmodData))));
    plan.push(always(Phase::Preflight, Op::Do(Action::Guest(GuestStep::ChownData))));
    plan.push(always(Phase::Preflight, Op::Do(Action::Guest(GuestStep::StageApkFromTree))));
    let mut part = manager_steps(Phase::Preflight);
    plan.append(&mut part);
    plan.push(always(Phase::Preflight, Op::Do(Action::Guest(GuestStep::InstallApk))));
    plan.push(always(Phase::Preflight, Op::Do(Action::Guest(GuestStep::RemoveStagedApk))));
    let mut part = restart_steps(Phase::Preflight);
    plan.append(&mut part);
    assert(plan@ =~= spec_setup_steps(has_overlay));
    plan
}

/// The steps that [`remove_recovery`] returns.
pub open spec fn spec_remove_recovery() -> Seq<Step> {
    seq![
        always(Phase::Failed, Op::Observe(Fact::Mounted)),
    ]
    + spec_umount_steps(Phase::Failed, false, Cond::Is(Fact::Mounted), Cond::Always)
}

/// What is done when a removal fails: the scratch mount point is unmounted
/// if something is mounted there.
pub fn remove_recovery() -> (plan: Vec<Step>)
    ensures
        plan@ == spec_remove_recovery(),
{
    let mut plan: Vec<Step> = Vec::new();
    plan.push(always(Phase::Failed, Op::Observe(Fact::Mounted)));
    let mut part = umount_steps(Phase::Failed, false, Cond::Is(Fact::Mounted), Cond::Always);
    plan.append(&mut part);
    assert(plan@ =~= spec_remove_recovery());
    plan
}

/// The runner of an installation. Whatever step fails, but for a precondition
/// of the preflight, the steps of a removal that recovers are carried out.
pub fn install(has_overlay: bool, custom_apk: &str, update: bool, new: bool) -> (runner: Runner)
    ensures
        runner@ == spec_install(has_overlay, custom_apk@.len() > 0, update, new),
{
    let custom = custom_apk.unicode_len() > 0;
    let plan = install_steps(has_overlay, custom, update, new);
    let recovery = remove_steps(has_overlay, true, false);
    let end = plan.len();
    Runner::new(plan, recovery, 0, end)
}

/// The state of the runner that [`install`] returns.
pub open spec fn spec_install(has_overlay: bool, custom: bool, update: bool, new: bool) -> RunnerView {
    let plan = spec_install_steps(has_overlay, custom, update, new);
    fresh(plan, spec_remove_steps(has_overlay, true, false), 0, plan.len())
}

/// The runner of a removal. When a step fails, the scratch mount point is
/// unmounted if something is mounted there.
pub fn remove(recover: bool, update: bool, has_overlay: bool) -> (runner: Runner)
    ensures
        runner@ == spec_remove(recover, update, has_overlay),
{
    let plan = remove_steps(has_overlay, recover, update);
    let recovery = remove_recovery();
    let end = plan.len();
    Runner::new(plan, recovery, 0, end)
}

/// The state of the runner that [`remove`] returns.
pub open spec fn spec_remove(recover: bool, update: bool, has_overlay: bool) -> RunnerView {
    let plan = spec_remove_steps(has_overlay, recover, update);
    fresh(plan, spec_remove_recovery(), 0, plan.len())
}

/// The steps of an update up to the installation of the new version: the
/// preflight, the version check, and the removal of the installed version.
pub open spec fn spec_update_before(has_overlay: bool) -> Seq<Step> {
    spec_update_head(has_overlay) + spec_update_check(has_overlay) + spec_remove_steps(
        has_overlay,
        false,
        true,
    )
}

/// The steps by which an update installs the new version: those of an
/// installation of the legacy variant that is part of an update.
pub open spec fn spec_update_install(has_overlay: bool) -> Seq<Step> {
    spec_install_steps(has_overlay, false, true, false)
}

/// What is done when the installation of the new version fails: the steps of
/// a removal that recovers, and the user is told.
pub open spec fn spec_update_recovery(has_overlay: bool) -> Seq<Step> {
    spec_remove_steps(has_overlay, true, false).push(
        always(Phase::Failed, Op::Say(Message::UpdateFailed)),
    )
}

/// The state of the runner that [`update`] returns.
pub open spec fn spec_update(has_overlay: bool) -> RunnerView {
    let before = spec_update_before(has_overlay);
    let during = spec_update_install(has_overlay);
    fresh(
        before + during + spec_update_tail(),
        spec_update_recovery(has_overlay),
        before.len(),
        before.len() + during.len(),
    )
}

/// The runner of an update: the version check, then the removal of the
/// installed version, the installation of the new one, and the work inside
/// the guest. Only a failure of the installation is recovered from.
pub fn update(has_overlay: bool) -> (runner: Runner)
    ensures
        runner@ == spec_update(has_overlay),
{
    let mut plan = update_head(has_overlay);
    let mut check = update_check(has_overlay);
    plan.append(&mut check);
    let mut removal = remove_steps(has_overlay, false, true);
    plan.append(&mut removal);
    let start = plan.len();
    let mut during = install_steps(has_overlay, false, true, false);
    plan.append(&mut during);
    let end = plan.len();
    let mut tail = update_tail();
    plan.append(&mut tail);
    let mut recovery = remove_steps(has_overlay, true, false);
    recovery.push(always(Phase::Failed, Op::Say(Message::UpdateFailed)));
    Runner::new(plan, recovery, start, end)
}

/// The runner of the additional setup. Nothing is recovered from.
pub fn setup(has_overlay: bool) -> (runner: Runner)
    ensures
        runner@ == fresh(spec_setup_steps(has_overlay), Seq::empty(), 0, 0),
{
    Runner::new(setup_steps(has_overlay), Vec::new(), 0, 0)
}

/// The manifest of the modern variant.
pub const MANIFEST_MODERN: &'static str =
    "https://raw.githubusercontent.com/mistrmochov/MagiskForWaydroid/refs/heads/master/stable.json";

/// The manifest of the legacy variant.
pub const MANIFEST_LEGACY: &'static str =
    "https://raw.githubusercontent.com/mistrmochov/KitsuneMagisk-Waydroid/refs/heads/kitsune/canary.json";

/// The library that marks a payload of the modern variant.
pub const MODERN_MARKER: &'static str = "libmagisk.so";

/// The library that marks a payload of the legacy variant.
pub const LEGACY_MARKER: &'static str = "libmagisk64.so";

/// Why a payload cannot be installed.
#[derive(Clone, Copy, PartialEq, Eq, Debug, Structural)]
pub enum InstallError {
    /// The payload lacks its libraries or its assets.
    UnknownLayout,
    /// The payload is of the modern variant, and the legacy one was asked
    /// for.
    NeedsNew,
    /// The payload is of the legacy variant, and the modern one was asked
    /// for.
    NotForNew,
}

/// The manifest that offers the payload of a variant.
pub fn manifest_url(new: bool) -> (url: &'static str)
    ensures
        url@ == (if new {
            MANIFEST_MODERN@
        } else {
            MANIFEST_LEGACY@
        }),
{
    if new {
        MANIFEST_MODERN
    } else {
        MANIFEST_LEGACY
    }
}

/// Where the parts of an unpacked payload are.
#[derive(Debug)]
pub struct PayloadPaths {
    /// The libraries for the architecture of the guest.
    pub libs: String,
    /// The libraries for its 32-bit companion architecture.
    pub libs32: String,
    /// The scripts and other assets.
    pub assets: String,
}

/// What was found of an unpacked payload.
#[derive(Clone, Copy, PartialEq, Eq, Debug, Structural)]
pub struct PayloadLayout {
    /// The directory of the libraries exists.
    pub libs: bool,
    /// The directory of the 32-bit libraries exists.
    pub libs32: bool,
    /// The directory of the assets exists.
    pub assets: bool,
    /// Some library goes into the tree as the binary of the modern variant.
    pub modern_marker: bool,
    /// Some library goes into the tree as the binary of the legacy variant.
    pub legacy_marker: bool,
}

/// The directory of the 32-bit libraries that goes with an architecture.
pub open spec fn companion_arch(arch: Seq<char>) -> Seq<char> {
    if arch == "x86_64"@ {
        "lib/x86"@
    } else {
        "lib/armeabi-v7a"@
    }
}

/// Where the parts of the payload are that was unpacked into `magisk_tmp`.
pub fn prepare_libs(magisk_tmp: &str, arch: &str) -> (paths: PayloadPaths)
    ensures
        paths.libs@ == join_path(join_path(magisk_tmp@, "lib"@), arch@),
        paths.libs32@ == join_path(magisk_tmp@, companion_arch(arch@)),
        paths.assets@ == join_path(magisk_tmp@, "assets"@),
{
    let lib = join(magisk_tmp, "lib");
    let libs32 = if str_eq(arch, "x86_64") {
        join(magisk_tmp, "lib/x86")
    } else {
        join(magisk_tmp, "lib/armeabi-v7a")
    };
    PayloadPaths { libs: join(lib.as_str(), arch), libs32, assets: join(magisk_tmp, "assets") }
}

/// Holds an unpacked payload against the variant asked for. The payload has
/// to have its three directories, must not hold the binary of the other
/// variant, and has to hold the binary of the variant asked for: a payload of
/// the wrong variant is refused, never installed as if it were the other.
pub fn validate_payload(layout: PayloadLayout, new: bool) -> (r: Result<(), InstallError>)
    ensures
        r == spec_validate_payload(layout, new),
{
    if !layout.libs || !layout.libs32 || !layout.assets {
        Err(InstallError::UnknownLayout)
    } else if layout.modern_marker && !new {
        Err(InstallError::NeedsNew)
    } else if layout.legacy_marker && new {
        Err(InstallError::NotForNew)
    } else if !layout.modern_marker && !layout.legacy_marker {
        Err(InstallError::UnknownLayout)
    } else {
        Ok(())
    }
}

/// What [`validate_payload`] returns.
pub open spec fn spec_validate_payload(layout: PayloadLayout, new: bool) -> Result<
    (),
    InstallError,
> {
    if !layout.libs || !layout.libs32 || !layout.assets {
        Err(InstallError::UnknownLayout)
    } else if layout.modern_marker && !new {
        Err(InstallError::NeedsNew)
    } else if layout.legacy_marker && new {
        Err(InstallError::NotForNew)
    } else if !layout.modern_marker && !layout.legacy_marker {
        Err(InstallError::UnknownLayout)
    } else {
        Ok(())
    }
}

/// The name under which a library of the payload goes into the tree: the
/// name without every `lib` at its start and every `.so` at its end. Files
/// that do not start with `lib` and end with `.so` stay out.
pub open spec fn injected(file_name: Seq<char>) -> Option<Seq<char>> {
    if is_prefix("lib"@, file_name) && is_suffix(".so"@, file_name) {
        Some(strip_suffixes(strip_prefixes(file_name, "lib"@), ".so"@))
    } else {
        None
    }
}

/// The name under which a library of the payload goes into the tree.
pub fn injected_name(file_name: &str) -> (name: Option<String>)
    ensures
        opt_text(name) == injected(file_name@),
{
    let text = to_chars(file_name);
    let lib = to_chars("lib");
    let so = to_chars(".so");
    if starts_with_chars(text.as_slice(), lib.as_slice()) && ends_with_chars(
        text.as_slice(),
        so.as_slice(),
    ) {
        let head = trim_start_matches_chars(text.as_slice(), lib.as_slice());
        let bare = trim_end_matches_chars(head.as_slice(), so.as_slice());
        Some(from_chars(bare.as_slice()))
    } else {
        None
    }
}

/// The library of the 32-bit directory that goes into the tree as
/// `magisk32`.
pub fn companion_library(new: bool) -> (name: &'static str)
    ensures
        name@ == (if new {
            "libmagisk.so"@
        } else {
            "libmagisk32.so"@
        }),
{
    if new {
        "libmagisk.so"
    } else {
        "libmagisk32.so"
    }
}

/// The asset is one that the variant needs in the tree.
pub open spec fn required_asset(name: Seq<char>, new: bool) -> bool {
    name == "boot_patch.sh"@ || name == "util_functions.sh"@ || name == "addon.d.sh"@ || (new && (
    name == "app_functions.sh"@ || name == "module_installer.sh"@ || name == "uninstaller.sh"@))
}

/// Whether an asset of the payload goes into the tree.
pub fn is_required_asset(name: &str, new: bool) -> (r: bool)
    ensures
        r == required_asset(name@, new),
{
    str_eq(name, "boot_patch.sh") || str_eq(name, "util_functions.sh") || str_eq(
        name,
        "addon.d.sh",
    ) || (new && (str_eq(name, "app_functions.sh") || str_eq(name, "module_installer.sh")
        || str_eq(name, "uninstaller.sh")))
}

/// The name of a variant's binary in the tree.
pub open spec fn marker_name(new: bool) -> Seq<char> {
    if new {
        "magisk"@
    } else {
        "magisk64"@
    }
}

/// Some library of the payload goes into the tree under this name.
pub open spec fn tree_holds(libs: Seq<Seq<char>>, name: Seq<char>) -> bool {
    exists|i: int| 0 <= i < libs.len() && injected(#[trigger] libs[i]) == Some(name)
}

/// Which of the two binaries the libraries of a payload bring into the
/// tree: that of the modern variant, and that of the legacy variant.
pub fn payload_markers(libs: &Vec<String>) -> (r: (bool, bool))
    ensures
        r.0 == tree_holds(texts(libs@), marker_name(true)),
        r.1 == tree_holds(texts(libs@), marker_name(false)),
{
    let mut modern = false;
    let mut legacy = false;
    let mut i: usize = 0;
    while i < libs.len()
        invariant
            i <= libs@.len(),
            modern == tree_holds(texts(libs@).subrange(0, i as int), marker_name(true)),
            legacy == tree_holds(texts(libs@).subrange(0, i as int), marker_name(false)),
        decreases libs@.len() - i,
    {
        let ghost before = texts(libs@).subrange(0, i as int);
        let ghost after = texts(libs@).subrange(0, i + 1);
        let name = injected_name(libs[i].as_str());
        let here_modern = match &name {
            Some(n) => str_eq(n.as_str(), "magisk"),
            None => false,
        };
        let here_legacy = match &name {
            Some(n) => str_eq(n.as_str(), "magisk64"),
            None => false,
        };
        proof {
            assert(after[i as int] == libs@[i as int]@);
            assert forall|k: int| 0 <= k < i implies after[k] == before[k] by {}
            lemma_holds_more(before, after, marker_name(true), here_modern);
            lemma_holds_more(before, after, marker_name(false), here_legacy);
        }
        modern = modern || here_modern;
        legacy = legacy || here_legacy;
        i += 1;
    }
    assert(texts(libs@).subrange(0, libs@.len() as int) =~= texts(libs@));
    (modern, legacy)
}

proof fn lemma_holds_more(
    before: Seq<Seq<char>>,
    after: Seq<Seq<char>>,
    name: Seq<char>,
    here: bool,
)
    requires
        after.len() == before.len() + 1,
        forall|k: int| 0 <= k < before.len() ==> after[k] == before[k],
        here == (injected(after[before.len() as int]) == Some(name)),
    ensures
        tree_holds(after, name) == (tree_holds(before, name) || here),
{
    if tree_holds(before, name) {
        let k = choose|k: int| 0 <= k < before.len() && injected(#[trigger] before[k]) == Some(name);
        assert(after[k] == before[k]);
    }
    if here {
        assert(injected(after[before.len() as int]) == Some(name));
    }
    if tree_holds(after, name) {
        let k = choose|k: int| 0 <= k < after.len() && injected(#[trigger] after[k]) == Some(name);
        if k < before.len() {
            assert(before[k] == after[k]);
        }
    }
}

/// The markers exclude each other. Of a payload that was accepted for a
/// variant, exactly one of the two binaries goes into the tree: that of the
/// variant.
pub proof fn lemma_markers_exclusive(libs: Seq<Seq<char>>, layout: PayloadLayout, new: bool)
    requires
        spec_validate_payload(layout, new) is Ok,
        layout.modern_marker == tree_holds(libs, marker_name(true)),
        layout.legacy_marker == tree_holds(libs, marker_name(false)),
    ensures
        tree_holds(libs, marker_name(new)),
        !tree_holds(libs, marker_name(!new)),
{
}

/// The marker library of each variant goes into the tree as the binary of
/// that variant.
pub proof fn lemma_marker_libraries()
    ensures
        injected(MODERN_MARKER@) == Some(marker_name(true)),
        injected(LEGACY_MARKER@) == Some(marker_name(false)),
{
    reveal_strlit("libmagisk.so");
    reveal_strlit("libmagisk64.so");
    reveal_strlit("magisk");
    reveal_strlit("magisk64");
    reveal_strlit("lib");
    reveal_strlit(".so");
    let lib = "lib"@;
    let so = ".so"@;
    {
        let name = MODERN_MARKER@;
        assert(name.subrange(0, 3) =~= lib);
        assert(name.subrange(9, 12) =~= so);
        let rest = name.subrange(3, 12);
        assert(!is_prefix(lib, rest)) by {
            assert(rest.subrange(0, 3)[0] == 'm');
        }
        assert(strip_prefixes(rest, lib) == rest);
        assert(name.subrange(lib.len() as int, name.len() as int) =~= rest);
        assert(strip_prefixes(name, lib) == rest);
        assert(rest.subrange(6, 9) =~= so);
        let bare = rest.subrange(0, 6);
        assert(bare =~= "magisk"@);
        assert(!is_suffix(so, bare)) by {
            assert(bare.subrange(3, 6)[0] == 'i');
        }
        assert(strip_suffixes(bare, so) == bare);
        assert(rest.subrange(0, rest.len() - so.len()) =~= bare);
        assert(strip_suffixes(rest, so) == bare);
    }
    {
        let name = LEGACY_MARKER@;
        assert(name.subrange(0, 3) =~= lib);
        assert(name.subrange(11, 14) =~= so);
        let rest = name.subrange(3, 14);
        assert(!is_prefix(lib, rest)) by {
            assert(rest.subrange(0, 3)[0] == 'm');
        }
        assert(strip_prefixes(rest, lib) == rest);
        assert(name.subrange(lib.len() as int, name.len() as int) =~= rest);
        assert(strip_prefixes(name, lib) == rest);
        assert(rest.subrange(8, 11) =~= so);
        let bare = rest.subrange(0, 8);
        assert(bare =~= "magisk64"@);
        assert(!is_suffix(so, bare)) by {
            assert(bare.subrange(5, 8)[0] == 'k');
        }
        assert(strip_suffixes(bare, so) == bare);
        assert(rest.subrange(0, rest.len() - so.len()) =~= bare);
        assert(strip_suffixes(rest, so) == bare);
    }
}

/// The index, in the plan of an update, of the step that finds out whether
/// the installed version holds the version on offer.
pub open spec fn update_current_at(has_overlay: bool) -> nat {
    spec_update_head(has_overlay).len() + spec_scratch_steps(Phase::Staging, has_overlay).len()
        + 4
}

proof fn lemma_update_check_shape(has_overlay: bool)
    ensures
        ({
            let plan = spec_update(has_overlay).plan;
            let k = update_current_at(has_overlay) as int;
            &&& k + 2 < plan.len()
            &&& plan[k] == always(Phase::Staging, Op::Observe(Fact::Current))
            &&& plan[k + 1] == given(
                Phase::Staging,
                Cond::Is(Fact::Current),
                Op::Say(Message::UpToDate),
            )
            &&& plan[k + 2] == given(Phase::Staging, Cond::Is(Fact::Current), Op::Stop)
        }),
{
    let head = spec_update_head(has_overlay);
    let scratch = spec_scratch_steps(Phase::Staging, has_overlay);
    let check = spec_update_check(has_overlay);
    let rest = spec_remove_steps(has_overlay, false, true) + spec_update_install(has_overlay)
        + spec_update_tail();
    let plan = spec_update(has_overlay).plan;
    let at = scratch.len() as int + 4;
    let asked = seq![
        always(Phase::Staging, Op::Do(Action::ReadVersion)),
        always(Phase::Staging, Op::Observe(Fact::Modern)),
        given(
            Phase::Staging,
            Cond::Is(Fact::Modern),
            Op::Do(Action::FetchManifest(Variant::Modern)),
        ),
        given(
            Phase::Staging,
            Cond::Not(Fact::Modern),
            Op::Do(Action::FetchManifest(Variant::Legacy)),
        ),
        always(Phase::Staging, Op::Observe(Fact::Current)),
        given(Phase::Staging, Cond::Is(Fact::Current), Op::Say(Message::UpToDate)),
        given(Phase::Staging, Cond::Is(Fact::Current), Op::Stop),
        always(Phase::Staging, Op::Observe(Fact::Recognized)),
        given(Phase::Staging, Cond::Not(Fact::Recognized), Op::Fail(Fault::Unrecognized)),
        always(Phase::Staging, Op::Say(Message::Updating)),
    ];
    assert(check =~= scratch + asked);
    assert(plan =~= head + check + rest);
    assert((head + check)[head.len() + at] == check[at]);
    assert((head + check)[head.len() + at + 1] == check[at + 1]);
    assert((head + check)[head.len() + at + 2] == check[at + 2]);
    assert(check[at] == asked[4]);
    assert(check[at + 1] == asked[5]);
    assert(check[at + 2] == asked[6]);
}

/// An update of a version that holds the version on offer changes nothing:
/// once the runner is told so, it tells the user that the framework is up to
/// date, and ends. Nothing is removed and nothing is installed.
pub proof fn lemma_update_of_current_version_ends(has_overlay: bool, r: RunnerView)
    requires
        r.plan == spec_update(has_overlay).plan,
        r.mode == Mode::Main,
        r.pc == update_current_at(has_overlay),
    ensures
        current_step(r) == Some(always(Phase::Staging, Op::Observe(Fact::Current))),
        spec_next(r, Reply::Flag(true)).1 == Request::Say(Message::UpToDate),
        spec_next(spec_next(r, Reply::Flag(true)).0, Reply::Done).1 == Request::Finish(
            Outcome::Done,
        ),
{
    lemma_update_check_shape(has_overlay);
    lemma_told_then_stopped(r, Fact::Current, true, Message::UpToDate);
}

proof fn lemma_update_decision_shape(has_overlay: bool)
    ensures
        ({
            let plan = spec_update(has_overlay).plan;
            let k = update_current_at(has_overlay) as int;
            &&& k + 5 < plan.len()
            &&& k + 5 < spec_update(has_overlay).window
            &&& plan[k + 3] == always(Phase::Staging, Op::Observe(Fact::Recognized))
            &&& plan[k + 4] == given(
                Phase::Staging,
                Cond::Not(Fact::Recognized),
                Op::Fail(Fault::Unrecognized),
            )
            &&& plan[k + 5] == always(Phase::Staging, Op::Say(Message::Updating))
        }),
{
    let head = spec_update_head(has_overlay);
    let scratch = spec_scratch_steps(Phase::Staging, has_overlay);
    let check = spec_update_check(has_overlay);
    let removal = spec_remove_steps(has_overlay, false, true);
    let rest = removal + spec_update_install(has_overlay) + spec_update_tail();
    let plan = spec_update(has_overlay).plan;
    let at = scratch.len() as int + 4;
    let asked = seq![
        always(Phase::Staging, Op::Do(Action::ReadVersion)),
        always(Phase::Staging, Op::Observe(Fact::Modern)),
        given(
            Phase::Staging,
            Cond::Is(Fact::Modern),
            Op::Do(Action::FetchManifest(Variant::Modern)),
        ),
        given(
            Phase::Staging,
            Cond::Not(Fact::Modern),
            Op::Do(Action::FetchManifest(Variant::Legacy)),
        ),
        always(Phase::Staging, Op::Observe(Fact::Current)),
        given(Phase::Staging, Cond::Is(Fact::Current), Op::Say(Message::UpToDate)),
        given(Phase::Staging, Cond::Is(Fact::Current), Op::Stop),
        always(Phase::Staging, Op::Observe(Fact::Recognized)),
        given(Phase::Staging, Cond::Not(Fact::Recognized), Op::Fail(Fault::Unrecognized)),
        always(Phase::Staging, Op::Say(Message::Updating)),
    ];
    assert(check =~= scratch + asked);
    assert(plan =~= head + check + rest);
    assert(spec_update(has_overlay).window == (head + check + removal).len());
    assert((head + check)[head.len() + at + 3] == check[at + 3]);
    assert((head + check)[head.len() + at + 4] == check[at + 4]);
    assert((head + check)[head.len() + at + 5] == check[at + 5]);
    assert(check[at + 3] == asked[7]);
    assert(check[at + 4] == asked[8]);
    assert(check[at + 5] == asked[9]);
}

/// An update of a version that does not hold the version on offer goes on:
/// once the runner is told so, it asks whether the installed version is one
/// to go by.
#[verifier::spinoff_prover]
#[verifier::rlimit(80)]
pub proof fn lemma_update_of_other_version_goes_on(has_overlay: bool, r: RunnerView)
    requires
        r.plan == spec_update(has_overlay).plan,
        r.mode == Mode::Main,
        r.pc == update_current_at(has_overlay),
    ensures
        spec_next(r, Reply::Flag(false)) == (
            RunnerView {
                facts: r.facts.spec_with(Fact::Current, false),
                pc: r.pc + 3,
                attempts: 0,
                waiting: false,
                ..r
            },
            Request::Observe(Fact::Recognized),
        ),
{
    lemma_update_check_shape(has_overlay);
    lemma_update_decision_shape(has_overlay);
    lemma_told_then_passed(r, Fact::Current, false);
}

/// An update goes by the installed version. Told that the version is one to
/// go by, the runner announces the update, and the removal and the
/// installation follow.
pub proof fn lemma_update_of_known_version_begins(has_overlay: bool, r: RunnerView)
    requires
        r.plan == spec_update(has_overlay).plan,
        r.mode == Mode::Main,
        r.pc == update_current_at(has_overlay) + 3,
    ensures
        current_step(r) == Some(always(Phase::Staging, Op::Observe(Fact::Recognized))),
        spec_next(r, Reply::Flag(true)).1 == Request::Say(Message::Updating),
{
    lemma_update_decision_shape(has_overlay);
    lemma_told_then_said(r, Fact::Recognized, true, Message::Updating);
}

/// Told that the installed version is none to go by, the runner ends the
/// update as failed: nothing is removed, nothing is installed, and nothing is
/// recovered.
#[verifier::spinoff_prover]
#[verifier::rlimit(80)]
pub proof fn lemma_update_of_unknown_version_fails(has_overlay: bool, r: RunnerView)
    requires
        r.plan == spec_update(has_overlay).plan,
        r.window == spec_update(has_overlay).window,
        r.mode == Mode::Main,
        r.pc == update_current_at(has_overlay) + 3,
    ensures
        spec_next(r, Reply::Flag(false)).1 == Request::Finish(
            Outcome::Failed(Fault::Unrecognized),
        ),
{
    lemma_update_decision_shape(has_overlay);
    lemma_told_then_failed(r, Fact::Recognized, false, Fault::Unrecognized);
}

/// The index, in the plan of an installation, of the step that finds out the
/// marker of the data partition: the step after the look for the tree.
pub open spec fn install_gate_at(has_overlay: bool) -> nat {
    spec_installed_probe_steps(Phase::Preflight, has_overlay).len()
}

#[verifier::rlimit(40)]
proof fn lemma_install_gate_shape(has_overlay: bool, custom: bool, new: bool)
    ensures
        ({
            let plan = spec_install(has_overlay, custom, false, new).plan;
            let k = install_gate_at(has_overlay) as int;
            &&& k + 3 < plan.len()
            &&& plan[k] == always(Phase::Preflight, Op::Observe(Fact::Twin))
            &&& plan[k + 1] == given2(
                Phase::Preflight,
                Cond::Is(Fact::Tree),
                Cond::Is(Fact::Twin),
                Op::Say(Message::AlreadyInstalled),
            )
            &&& plan[k + 2] == given2(
                Phase::Preflight,
                Cond::Is(Fact::Tree),
                Cond::Is(Fact::Twin),
                Op::Stop,
            )
            &&& plan[k + 3] == always(
                Phase::Preflight,
                if has_overlay {
                    Op::Say(Message::Installing)
                } else {
                    Op::Observe(Fact::Confirmed)
                },
            )
        }),
{
    let probe = spec_installed_probe_steps(Phase::Preflight, has_overlay);
    let pre = spec_install_steps_preflight(has_overlay, false, new);
    let rest = spec_install_steps_staging(has_overlay, custom, new) + spec_install_steps_applying(
        has_overlay,
        new,
    ) + spec_install_steps_finalizing(has_overlay, false);
    let plan = spec_install(has_overlay, custom, false, new).plan;
    let gate = seq![
        always(Phase::Preflight, Op::Observe(Fact::Twin)),
        given2(
            Phase::Preflight,
            Cond::Is(Fact::Tree),
            Cond::Is(Fact::Twin),
            Op::Say(Message::AlreadyInstalled),
        ),
        given2(Phase::Preflight, Cond::Is(Fact::Tree), Cond::Is(Fact::Twin), Op::Stop),
    ];
    let k = probe.len() as int;
    assert(plan =~= pre + rest);
    assert(pre.len() >= k + 4);
    assert(pre[k] == gate[0]);
    assert(pre[k + 1] == gate[1]);
    assert(pre[k + 2] == gate[2]);
    assert(plan[k] == pre[k]);
    assert(plan[k + 1] == pre[k + 1]);
    assert(plan[k + 2] == pre[k + 2]);
    assert(plan[k + 3] == pre[k + 3]);
}

/// Where an installation ends early. The framework counts as installed
/// only with both of its markers there. Once the runner is told of the
/// marker of the data partition, it tells the user that the framework is
/// installed already, and ends, if both markers are there; with a lone
/// marker or none it goes on: it asks the user where the root is an image,
/// and announces the installation where it is an overlay.
pub proof fn lemma_install_gate(
    has_overlay: bool,
    custom: bool,
    new: bool,
    r: RunnerView,
    twin: bool,
)
    requires
        r.plan == spec_install(has_overlay, custom, false, new).plan,
        r.mode == Mode::Main,
        r.pc == install_gate_at(has_overlay),
    ensures
        spec_installed_state(r.facts.tree, twin) == InstalledState::Installed ==> {
            &&& spec_next(r, Reply::Flag(twin)).1 == Request::Say(Message::AlreadyInstalled)
            &&& spec_next(spec_next(r, Reply::Flag(twin)).0, Reply::Done).1 == Request::Finish(
                Outcome::Done,
            )
        },
        spec_installed_state(r.facts.tree, twin) != InstalledState::Installed ==> spec_next(
            r,
            Reply::Flag(twin),
        ).1 == (if has_overlay {
            Request::Say(Message::Installing)
        } else {
            Request::Observe(Fact::Confirmed)
        }),
{
    lemma_install_gate_shape(has_overlay, custom, new);
    let seen = r.facts.spec_with(Fact::Twin, twin);
    assert(seen.tree == r.facts.tree && seen.twin == twin);
    if spec_installed_state(r.facts.tree, twin) == InstalledState::Installed {
        lemma_told_then_stopped(r, Fact::Twin, twin, Message::AlreadyInstalled);
    } else {
        lemma_told_then_passed(r, Fact::Twin, twin);
    }
}

} // verus!
