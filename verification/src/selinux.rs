//! The patch and restore of the vendor security policy: the precompiled
//! policy blob and the list of file contexts.

use crate::constants::{CONTEXT_RULE_DATA, CONTEXT_RULE_TMP};
use crate::magisk_files::{
    backup_holds, backup_source, bytes_of, restore_pair, secure, spec_restore_two, spec_secure,
    PatchError, PatchTargetView, StagedTarget, StagedTargetView,
};
use crate::text::{append_bytes, contains_bytes, has_subseq, is_utf8};
use crate::workflow::{always, Action, GuestStep, Op, Phase, Step};
use vstd::prelude::*;

verus! {

/// The two files of the vendor policy, each with its backup and with the
/// copy that the running guest has staged.
#[derive(Debug)]
pub struct SepolicyFiles {
    /// `precompiled_sepolicy`; the staged copy is the patched policy.
    pub policy: StagedTarget,
    /// `vendor_file_contexts`; the staged copy is the guest's own list.
    pub contexts: StagedTarget,
}

/// The file-context list with the rules for the injected tree: each of the
/// two rules that the list does not hold yet is added at its end, on a line
/// of its own.
pub open spec fn with_context_rules(text: Seq<u8>) -> Seq<u8> {
    text + (if has_subseq(text, bytes_of(CONTEXT_RULE_TMP@)) {
        Seq::<u8>::empty()
    } else {
        bytes_of(CONTEXT_RULE_TMP@).push(10u8)
    }) + (if has_subseq(text, bytes_of(CONTEXT_RULE_DATA@)) {
        Seq::<u8>::empty()
    } else {
        bytes_of(CONTEXT_RULE_DATA@).push(10u8)
    })
}

/// Adds the rules for the injected tree to a file-context list.
pub fn add_context_rules(text: &[u8]) -> (out: Vec<u8>)
    ensures
        out@ == with_context_rules(text@),
{
    let mut out: Vec<u8> = Vec::new();
    append_bytes(&mut out, text);
    if !contains_bytes(text, CONTEXT_RULE_TMP.as_bytes()) {
        append_bytes(&mut out, CONTEXT_RULE_TMP.as_bytes());
        out.push(10u8);
    }
    if !contains_bytes(text, CONTEXT_RULE_DATA.as_bytes()) {
        append_bytes(&mut out, CONTEXT_RULE_DATA.as_bytes());
        out.push(10u8);
    }
    assert(out@ =~= with_context_rules(text@));
    out
}

/// The first step of the patch, on the policy blob: what is there is
/// secured as every patch does it, and the blob is replaced by the staged
/// policy.
pub open spec fn spec_stage_policy(p: StagedTargetView) -> (
    StagedTargetView,
    Result<(), PatchError>,
) {
    let secured = spec_secure(p.target);
    if secured.1 is Err {
        (p, Err(PatchError::Compress))
    } else {
        match p.staged {
            None => (
                StagedTargetView {
                    target: PatchTargetView { plain: None, ..secured.0 },
                    staged: None,
                },
                Err(PatchError::MissingStaged),
            ),
            Some(d) => (
                StagedTargetView {
                    target: PatchTargetView { plain: Some(d), ..secured.0 },
                    staged: p.staged,
                },
                Ok(()),
            ),
        }
    }
}

fn stage_policy(p: &mut StagedTarget) -> (r: Result<(), PatchError>)
    ensures
        (final(p)@, r) == spec_stage_policy(old(p)@),
        r is Ok ==> backup_holds(final(p)@.target.backup, backup_source(old(p)@.target)),
{
    match secure(&mut p.target) {
        Ok(()) => {},
        Err(e) => {
            return Err(e);
        },
    }
    p.target.plain = None;
    match &p.staged {
        Some(d) => {
            let copy = vstd::slice::slice_to_vec(d.as_slice());
            p.target.plain = Some(copy);
            Ok(())
        },
        None => Err(PatchError::MissingStaged),
    }
}

/// The second step of the patch, on the file-context list: a list that is
/// missing needs a staged copy, and is taken from it; what is there is
/// secured as every patch does it.
pub open spec fn spec_stage_contexts(c: StagedTargetView) -> (
    StagedTargetView,
    Result<(), PatchError>,
) {
    if c.target.plain is None && c.staged is None {
        (c, Err(PatchError::MissingStaged))
    } else if spec_secure(c.target).1 is Err {
        (c, Err(PatchError::Compress))
    } else {
        (
            StagedTargetView {
                target: PatchTargetView {
                    plain: if c.target.plain is None {
                        c.staged
                    } else {
                        c.target.plain
                    },
                    ..spec_secure(c.target).0
                },
                staged: c.staged,
            },
            Ok(()),
        )
    }
}

fn stage_contexts(c: &mut StagedTarget) -> (r: Result<(), PatchError>)
    ensures
        (final(c)@, r) == spec_stage_contexts(old(c)@),
        r is Ok ==> backup_holds(final(c)@.target.backup, backup_source(old(c)@.target)),
{
    if c.target.plain.is_none() && c.staged.is_none() {
        return Err(PatchError::MissingStaged);
    }
    match secure(&mut c.target) {
        Ok(()) => {},
        Err(e) => {
            return Err(e);
        },
    }
    if c.target.plain.is_none() {
        match &c.staged {
            Some(d) => {
                let copy = vstd::slice::slice_to_vec(d.as_slice());
                c.target.plain = Some(copy);
            },
            None => {},
        }
    }
    Ok(())
}

/// The patch of the vendor policy as a function of what was there: the two
/// steps above in their order, then both staged copies are consumed, then
/// the rules for the injected tree are added to the file-context list, which
/// has to be UTF-8. The first step that fails ends the patch, and what the
/// steps before it did stays.
pub open spec fn spec_patch_sepolicy(p: StagedTargetView, c: StagedTargetView) -> (
    StagedTargetView,
    StagedTargetView,
    Result<(), PatchError>,
) {
    let a = spec_stage_policy(p);
    if a.1 is Err {
        (a.0, c, a.1)
    } else {
        let b = spec_stage_contexts(c);
        let policy = StagedTargetView { target: a.0.target, staged: None };
        if b.1 is Err {
            (a.0, b.0, b.1)
        } else if b.0.staged is None {
            (policy, b.0, Err(PatchError::MissingStaged))
        } else if !vstd::utf8::valid_utf8(b.0.target.plain->0) {
            (
                policy,
                StagedTargetView { target: b.0.target, staged: None },
                Err(PatchError::NotText),
            )
        } else {
            (
                policy,
                StagedTargetView {
                    target: PatchTargetView {
                        plain: Some(with_context_rules(b.0.target.plain->0)),
                        ..b.0.target
                    },
                    staged: None,
                },
                Ok(()),
            )
        }
    }
}

/// Patches the vendor policy: the precompiled policy blob is replaced by the
/// one that the guest staged, and the file-context list gets the rules for
/// the injected tree. Each file is backed up first unless it has a backup or
/// was introduced by a patch; a file that was not there is marked as
/// introduced.
pub fn patch_sepolicy(files: &mut SepolicyFiles) -> (r: Result<(), PatchError>)
    ensures
        (final(files).policy@, final(files).contexts@, r) == spec_patch_sepolicy(
            old(files).policy@,
            old(files).contexts@,
        ),
        r is Ok ==> backup_holds(
            final(files).policy@.target.backup,
            backup_source(old(files).policy@.target),
        ),
        r is Ok ==> backup_holds(
            final(files).contexts@.target.backup,
            backup_source(old(files).contexts@.target),
        ),
{
    match stage_policy(&mut files.policy) {
        Ok(()) => {},
        Err(e) => {
            return Err(e);
        },
    }
    match stage_contexts(&mut files.contexts) {
        Ok(()) => {},
        Err(e) => {
            return Err(e);
        },
    }
    files.policy.staged = None;
    match files.contexts.staged.take() {
        Some(_) => {},
        None => {
            return Err(PatchError::MissingStaged);
        },
    }
    let patched: Option<Vec<u8>> = match &files.contexts.target.plain {
        Some(list) => {
            if is_utf8(list.as_slice()) {
                Some(add_context_rules(list.as_slice()))
            } else {
                None
            }
        },
        None => None,
    };
    match patched {
        Some(list) => {
            files.contexts.target.plain = Some(list);
            Ok(())
        },
        None => Err(PatchError::NotText),
    }
}

/// Undoes the patch of the vendor policy: the policy blob, and if that went
/// well the file-context list, each as [`restore_pair`] does it. `Ok(true)`
/// says that something was restored or removed.
pub fn restore_sepolicy(files: &mut SepolicyFiles) -> (r: Result<bool, PatchError>)
    ensures
        (final(files).policy@.target, final(files).contexts@.target, r) == spec_restore_two(
            old(files).policy@.target,
            old(files).contexts@.target,
        ),
        final(files).policy@.staged == old(files).policy@.staged,
        final(files).contexts@.staged == old(files).contexts@.staged,
{
    match restore_pair(&mut files.policy.target) {
        Ok(m1) => match restore_pair(&mut files.contexts.target) {
            Ok(m2) => Ok(m1 || m2),
            Err(e) => Err(e),
        },
        Err(e) => Err(e),
    }
}

/// Restoring after a patch gives back the policy blob and the file-context
/// list that were there before the patch, byte for byte, and where one was
/// not there it is not there again; no backup is left.
pub proof fn lemma_sepolicy_round_trip(
    p: StagedTargetView,
    c: StagedTargetView,
    patched_p: StagedTargetView,
    patched_c: StagedTargetView,
)
    requires
        p.target.backup is None,
        !p.target.synthetic,
        c.target.backup is None,
        !c.target.synthetic,
        (patched_p, patched_c, Ok::<(), PatchError>(())) == spec_patch_sepolicy(p, c),
        backup_holds(patched_p.target.backup, backup_source(p.target)),
        backup_holds(patched_c.target.backup, backup_source(c.target)),
    ensures
        spec_restore_two(patched_p.target, patched_c.target) == (
            p.target,
            c.target,
            Ok::<bool, PatchError>(true),
        ),
{
}

/// Whether the host enforces its security policy, going by what `getenforce`
/// printed; nothing printed means that it does not.
pub fn getenforce(output: &str) -> (r: bool)
    ensures
        r == (crate::text::trim_of(output@) == "Enforcing"@),
{
    let state = crate::text::trim_str(output);
    crate::text::str_eq(state.as_str(), "Enforcing")
}

/// The steps that [`sepolicy_prepare_steps`] returns.
pub open spec fn spec_sepolicy_prepare_steps(phase: Phase) -> Seq<Step> {
    seq![
        always(phase, Op::Do(Action::StagePolicyTool)),
        always(phase, Op::Do(Action::Guest(GuestStep::ChmodPolicyTool))),
        always(phase, Op::Do(Action::Guest(GuestStep::BuildPolicy))),
        always(phase, Op::Do(Action::Guest(GuestStep::StageContexts))),
        always(phase, Op::Do(Action::Guest(GuestStep::RemovePolicyTool))),
    ]
}

/// The steps by which the running guest builds the patched policy: the
/// policy tool of the payload is staged and made executable, it writes the
/// patched policy beside it, the guest stages its file-context list, and the
/// tool is removed.
pub fn sepolicy_prepare_steps(phase: Phase) -> (plan: Vec<Step>)
    ensures
        plan@ == spec_sepolicy_prepare_steps(phase),
{
    let mut plan: Vec<Step> = Vec::new();
    plan.push(always(phase, Op::Do(Action::StagePolicyTool)));
    plan.push(always(phase, Op::Do(Action::Guest(GuestStep::ChmodPolicyTool))));
    plan.push(always(phase, Op::Do(Action::Guest(GuestStep::BuildPolicy))));
    plan.push(always(phase, Op::Do(Action::Guest(GuestStep::StageContexts))));
    plan.push(always(phase, Op::Do(Action::Guest(GuestStep::RemovePolicyTool))));
    assert(plan@ =~= spec_sepolicy_prepare_steps(phase));
    plan
}

/// The steps by which the running guest builds the patched policy and
/// stages its file-context list.
pub fn patch_sepolicy_prepare() -> (plan: Vec<Step>)
    ensures
        plan@ == spec_sepolicy_prepare_steps(Phase::Staging),
{
    sepolicy_prepare_steps(Phase::Staging)
}

} // verus!
