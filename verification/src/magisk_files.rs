//! The patch and restore engine for the init scripts of the guest, and the
//! clean-up of everything that an installation leaves behind.
//!
//! A patched file and its single backup are held together as a
//! [`PatchTarget`]: the caller loads the pair, the engine transforms it, and
//! the caller stores it again. A file that had no original when it was
//! patched carries a mark, kept beside it as an empty file of the name that
//! [`synthetic_marker`] gives: a patch never backs up a marked file, and a
//! restore removes it, while a file without backup and without mark was
//! never patched and stays as it is.

use crate::codec::{gunzip_of, gzip_compress, gzip_decompress, gzip_of};
use crate::constants::{
    ADB_MAGISK, ADDON_SCRIPT, BOOTANIM_RC, BOOTANIM_RC_GZ_PATH, BOOTANIM_RC_PATH, INIT_HW_DIR,
    LEGACY_END, LEGACY_SERVICE, LEGACY_START, LEGACY_WAIT, MAGISKTMP, MAGISK_DIR, MODERN_END,
    MODERN_SERVICE, MODERN_START, MODERN_WAIT, PRECOMPILED_SEPOLICY, PRECOMPILED_SEPOLICY_GZ,
    SYNTHETIC_SUFFIX, VENDOR_FILE_CONTEXTS, VENDOR_FILE_CONTEXTS_GZ, VENDOR_SELINUX,
    VENDOR_SELINUX_RW, WAYDROID_DIR, ZYGOTE32_RC, ZYGOTE32_RC_GZ, ZYGOTE64_32_RC,
    ZYGOTE64_32_RC_GZ, ZYGOTE_RESTART_LINE, ZYGOTE_SERVICE,
};
use crate::paths::{dir_prefix, join, join_path, under};
use crate::random::{generate_random_string, is_alphanumeric, is_token};
use crate::text::{
    append_bytes, contains_bytes, has_subseq, is_utf8, join_bytes, join_with,
    lemma_join_holds_part, lemma_views_push, lines_of, split_lines_bytes, views,
};
use crate::utils::{mount_steps, spec_mount_steps, spec_umount_steps, umount_steps};
use crate::workflow::{
    always, given, Action, Cond, Fact, Fault, GuestStep, Op, Phase, Step, Variant,
};
use vstd::prelude::*;
use vstd::string::StrSliceExecFns;
use vstd::string::StringExecFns;

verus! {

/// Why a patch or a restore stopped.
#[derive(Clone, Copy, PartialEq, Eq, Debug, Structural)]
pub enum PatchError {
    /// The backup could not be compressed.
    Compress,
    /// The backup is not a sound gzip stream.
    Decompress,
    /// A file that the guest was to stage is not there.
    MissingStaged,
    /// A file that has to be text is not UTF-8.
    NotText,
}

/// A file of the guest and its backup, each present or absent, and whether
/// the file is there only because a patch introduced it.
#[derive(Debug)]
pub struct PatchTarget {
    /// The content of the plain file, if it exists.
    pub plain: Option<Vec<u8>>,
    /// The content of the compressed backup, if it exists.
    pub backup: Option<Vec<u8>>,
    /// A patch introduced the plain file: there was none before it, and a
    /// restore has to leave none.
    pub synthetic: bool,
}

/// The mathematical content of a [`PatchTarget`].
pub struct PatchTargetView {
    pub plain: Option<Seq<u8>>,
    pub backup: Option<Seq<u8>>,
    pub synthetic: bool,
}

impl View for PatchTarget {
    type V = PatchTargetView;

    open spec fn view(&self) -> PatchTargetView {
        PatchTargetView {
            plain: match self.plain {
                Some(p) => Some(p@),
                None => None,
            },
            backup: match self.backup {
                Some(b) => Some(b@),
                None => None,
            },
            synthetic: self.synthetic,
        }
    }
}

/// The name of the file whose presence says that a patch introduced the
/// plain file.
pub fn synthetic_marker(plain: &str) -> (path: String)
    ensures
        path@ == plain@ + SYNTHETIC_SUFFIX@,
{
    let mut path = String::from_str(plain);
    path.append(SYNTHETIC_SUFFIX);
    path
}

/// The UTF-8 bytes of a text.
pub open spec fn bytes_of(s: Seq<char>) -> Seq<u8> {
    vstd::utf8::encode_utf8(s)
}

/// What a patch has to back up before it writes: the plain file, if it has
/// no backup yet and is not one that a patch introduced.
pub open spec fn backup_source(s: PatchTargetView) -> Option<Seq<u8>> {
    if s.plain is Some && s.backup is None && !s.synthetic {
        s.plain
    } else {
        None
    }
}

/// The first thing that every patch does, as a function of the pair before
/// it: what is there and can be lost is backed up, once; where nothing is
/// there and nothing was backed up, the file that the patch is about to
/// write is marked as introduced by it. The plain file is left as it is.
pub open spec fn spec_secure(s: PatchTargetView) -> (PatchTargetView, Result<(), PatchError>) {
    match backup_source(s) {
        Some(d) => match gzip_of(d) {
            Some(z) => (PatchTargetView { backup: Some(z), ..s }, Ok(())),
            None => (s, Err(PatchError::Compress)),
        },
        None => (
            PatchTargetView { synthetic: s.synthetic || (s.plain is None && s.backup is None), ..s },
            Ok(()),
        ),
    }
}

/// The backup that a patch made can be decompressed, and gives what was
/// backed up.
pub open spec fn backup_holds(backup: Option<Seq<u8>>, source: Option<Seq<u8>>) -> bool {
    source matches Some(d) ==> (backup matches Some(z) && gunzip_of(z) == (d, true))
}

/// Backs up what is there and can be lost, or marks what is about to be
/// written as introduced.
pub fn secure(target: &mut PatchTarget) -> (r: Result<(), PatchError>)
    ensures
        (final(target)@, r) == spec_secure(old(target)@),
        r is Ok ==> backup_holds(final(target)@.backup, backup_source(old(target)@)),
{
    if target.backup.is_some() {
        return Ok(());
    }
    let made: Option<Option<Vec<u8>>> = match &target.plain {
        Some(p) => {
            if target.synthetic {
                None
            } else {
                Some(backup_bootanim(p.as_slice()))
            }
        },
        None => None,
    };
    match made {
        Some(Some(z)) => {
            target.backup = Some(z);
            Ok(())
        },
        Some(None) => Err(PatchError::Compress),
        None => {
            if target.plain.is_none() {
                target.synthetic = true;
            }
            Ok(())
        },
    }
}

/// Whether a patch would back the plain file up: it would, where the file
/// is there, has no backup yet and was not introduced by a patch.
pub fn needs_backup(target: &PatchTarget) -> (r: bool)
    ensures
        r == (backup_source(target@) is Some),
{
    target.plain.is_some() && target.backup.is_none() && !target.synthetic
}

/// Whether a restore would change the plain file: it would, where there is
/// a backup, or a file that a patch introduced.
pub fn needs_restore(target: &PatchTarget) -> (r: bool)
    ensures
        r == (target@.backup is Some || (target@.synthetic && target@.plain is Some)),
{
    target.backup.is_some() || (target.synthetic && target.plain.is_some())
}

/// Compresses what is to be backed up.
fn backup_bootanim(source: &[u8]) -> (out: Option<Vec<u8>>)
    ensures
        crate::codec::opt_bytes(out) == gzip_of(source@),
        out matches Some(z) ==> gunzip_of(z@) == (source@, true),
{
    gzip_compress(source)
}

/// The four pieces of the directives of a variant: what stands before the
/// first service name, between its two mentions, between it and the second
/// service name, and after that.
pub open spec fn directives(variant: Variant) -> (Seq<char>, Seq<char>, Seq<char>, Seq<char>) {
    match variant {
        Variant::Legacy => (LEGACY_START@, LEGACY_WAIT@, LEGACY_SERVICE@, LEGACY_END@),
        Variant::Modern => (MODERN_START@, MODERN_WAIT@, MODERN_SERVICE@, MODERN_END@),
    }
}

/// The patched boot-animation script: the stock service stanza, and after it
/// the directives of the variant with the first service name `x` in its two
/// places and the second service name `y` in its place. Two patched scripts
/// of a variant differ in the service names and in nothing else.
pub open spec fn render_bootanim(variant: Variant, x: Seq<u8>, y: Seq<u8>) -> Seq<u8> {
    bytes_of(BOOTANIM_RC@) + bytes_of(directives(variant).0) + x + bytes_of(directives(variant).1)
        + x + bytes_of(directives(variant).2) + y + bytes_of(directives(variant).3)
}

/// The boot-animation patch as a function of the pair before it.
pub open spec fn spec_patch_bootanim(
    s: PatchTargetView,
    variant: Variant,
    x: Seq<u8>,
    y: Seq<u8>,
) -> (PatchTargetView, Result<(), PatchError>) {
    let secured = spec_secure(s);
    if secured.1 is Err {
        secured
    } else {
        (PatchTargetView { plain: Some(render_bootanim(variant, x, y)), ..secured.0 }, Ok(()))
    }
}

/// The patched boot-animation script for a variant and two service names.
pub fn render_bootanim_rc(variant: Variant, x: &str, y: &str) -> (out: Vec<u8>)
    ensures
        out@ == render_bootanim(variant, bytes_of(x@), bytes_of(y@)),
{
    let mut out: Vec<u8> = Vec::new();
    append_bytes(&mut out, BOOTANIM_RC.as_bytes());
    match variant {
        Variant::Legacy => {
            append_bytes(&mut out, LEGACY_START.as_bytes());
            append_bytes(&mut out, x.as_bytes());
            append_bytes(&mut out, LEGACY_WAIT.as_bytes());
            append_bytes(&mut out, x.as_bytes());
            append_bytes(&mut out, LEGACY_SERVICE.as_bytes());
            append_bytes(&mut out, y.as_bytes());
            append_bytes(&mut out, LEGACY_END.as_bytes());
        },
        Variant::Modern => {
            append_bytes(&mut out, MODERN_START.as_bytes());
            append_bytes(&mut out, x.as_bytes());
            append_bytes(&mut out, MODERN_WAIT.as_bytes());
            append_bytes(&mut out, x.as_bytes());
            append_bytes(&mut out, MODERN_SERVICE.as_bytes());
            append_bytes(&mut out, y.as_bytes());
            append_bytes(&mut out, MODERN_END.as_bytes());
        },
    }
    assert(out@ =~= render_bootanim(variant, bytes_of(x@), bytes_of(y@)));
    out
}

/// Patches the boot-animation script with the two service names given.
///
/// A script that is there is backed up first, unless it has a backup or is
/// one that a patch introduced: a patched script is never backed up as if
/// it were an original. Where there is neither script nor backup, the script
/// is marked as introduced. Then the plain file becomes the variant's
/// script.
pub fn patch_bootanim_with(target: &mut PatchTarget, variant: Variant, x: &str, y: &str) -> (r:
    Result<(), PatchError>)
    ensures
        (final(target)@, r) == spec_patch_bootanim(
            old(target)@,
            variant,
            bytes_of(x@),
            bytes_of(y@),
        ),
        r is Ok ==> backup_holds(final(target)@.backup, backup_source(old(target)@)),
{
    match secure(target) {
        Ok(()) => {},
        Err(e) => {
            return Err(e);
        },
    }
    target.plain = Some(render_bootanim_rc(variant, x, y));
    Ok(())
}

/// Patches the boot-animation script, with two service names of fifteen
/// letters and digits that are drawn anew on every call.
pub fn patch_bootanim(target: &mut PatchTarget, variant: Variant) -> (r: Result<(), PatchError>)
    ensures
        exists|x: Seq<char>, y: Seq<char>|
            #![trigger bytes_of(x), bytes_of(y)]
            {
                &&& is_token(x, 15)
                &&& is_token(y, 15)
                &&& (final(target)@, r) == spec_patch_bootanim(
                    old(target)@,
                    variant,
                    bytes_of(x),
                    bytes_of(y),
                )
            },
        r is Ok ==> backup_holds(final(target)@.backup, backup_source(old(target)@)),
{
    let x = generate_random_string(15);
    let y = generate_random_string(15);
    let r = patch_bootanim_with(target, variant, x.as_str(), y.as_str());
    proof {
        assert(is_token(x@, 15) && is_token(y@, 15));
        assert((target@, r) == spec_patch_bootanim(
            old(target)@,
            variant,
            bytes_of(x@),
            bytes_of(y@),
        ));
    }
    r
}

/// The restore of a pair as a function of what was there. With a backup the
/// plain file becomes what the backup holds and the backup goes. Without
/// one, a plain file that a patch introduced goes, and any other plain file
/// stays as it is: it was never patched. The flag says whether anything was
/// removed or restored.
pub open spec fn spec_restore_pair(s: PatchTargetView) -> (
    PatchTargetView,
    Result<bool, PatchError>,
) {
    match s.backup {
        Some(z) => if gunzip_of(z).1 {
            (
                PatchTargetView { plain: Some(gunzip_of(z).0), backup: None, synthetic: false },
                Ok(true),
            )
        } else {
            (PatchTargetView { plain: None, ..s }, Err(PatchError::Decompress))
        },
        None => if s.synthetic {
            (PatchTargetView { plain: None, backup: None, synthetic: false }, Ok(s.plain is Some))
        } else {
            (s, Ok(false))
        },
    }
}

/// Restores one pair.
pub fn restore_pair(target: &mut PatchTarget) -> (r: Result<bool, PatchError>)
    ensures
        (final(target)@, r) == spec_restore_pair(old(target)@),
{
    match target.backup.take() {
        Some(z) => {
            target.plain = None;
            match gzip_decompress(z.as_slice()) {
                Some(d) => {
                    target.plain = Some(d);
                    target.synthetic = false;
                    Ok(true)
                },
                None => {
                    target.backup = Some(z);
                    Err(PatchError::Decompress)
                },
            }
        },
        None => {
            if target.synthetic {
                let removed = target.plain.is_some();
                target.plain = None;
                target.synthetic = false;
                Ok(removed)
            } else {
                Ok(false)
            }
        },
    }
}

/// The boot-animation restore as a function of the pair before it.
pub open spec fn spec_restore_bootanim(s: PatchTargetView) -> (
    PatchTargetView,
    Result<(), PatchError>,
) {
    (
        spec_restore_pair(s).0,
        match spec_restore_pair(s).1 {
            Ok(_) => Ok(()),
            Err(e) => Err(e),
        },
    )
}

/// Undoes the boot-animation patch: the script becomes what its backup
/// holds; a script that a patch introduced goes; a script that was never
/// patched stays as it is.
pub fn restore_bootanim(target: &mut PatchTarget) -> (r: Result<(), PatchError>)
    ensures
        (final(target)@, r) == spec_restore_bootanim(old(target)@),
{
    match restore_pair(target) {
        Ok(_) => Ok(()),
        Err(e) => Err(e),
    }
}

/// A file of the guest with its backup, and the copy of the file that the
/// running guest has staged for the patch.
#[derive(Debug)]
pub struct StagedTarget {
    /// The file under the root, and its backup.
    pub target: PatchTarget,
    /// The staged copy, if it exists.
    pub staged: Option<Vec<u8>>,
}

/// The mathematical content of a [`StagedTarget`].
pub struct StagedTargetView {
    pub target: PatchTargetView,
    pub staged: Option<Seq<u8>>,
}

impl View for StagedTarget {
    type V = StagedTargetView;

    open spec fn view(&self) -> StagedTargetView {
        StagedTargetView {
            target: self.target@,
            staged: match self.staged {
                Some(d) => Some(d@),
                None => None,
            },
        }
    }
}

/// The two zygote init scripts, `init.zygote32.rc` and `init.zygote64_32.rc`.
#[derive(Debug)]
pub struct ZygoteFiles {
    pub zygote32: StagedTarget,
    pub zygote64_32: StagedTarget,
}

/// The lines of a zygote init script with the restart directive after every
/// line that holds a zygote service.
pub open spec fn zygote_inject_lines(lines: Seq<Seq<u8>>) -> Seq<Seq<u8>>
    decreases lines.len(),
{
    if lines.len() == 0 {
        Seq::empty()
    } else {
        let before = zygote_inject_lines(lines.drop_last());
        if has_subseq(lines.last(), bytes_of(ZYGOTE_SERVICE@)) {
            before.push(lines.last()).push(bytes_of(ZYGOTE_RESTART_LINE@))
        } else {
            before.push(lines.last())
        }
    }
}

/// A zygote init script after injection: unchanged if it holds the restart
/// directive anywhere; otherwise its lines, with the directive after each
/// zygote service line, joined by line feeds.
pub open spec fn spec_inject_zygote(content: Seq<u8>) -> Seq<u8> {
    if has_subseq(content, bytes_of(ZYGOTE_RESTART_LINE@)) {
        content
    } else {
        join_with(zygote_inject_lines(lines_of(content, 10u8, 13u8)), seq![10u8])
    }
}

/// Injects the restart directive into a zygote init script. `None` if the
/// script is not UTF-8.
pub fn inject_zygote_restart(content: &[u8]) -> (out: Option<Vec<u8>>)
    ensures
        crate::codec::opt_bytes(out) == (if vstd::utf8::valid_utf8(content@) {
            Some(spec_inject_zygote(content@))
        } else {
            None
        }),
{
    if !is_utf8(content) {
        return None;
    }
    if contains_bytes(content, ZYGOTE_RESTART_LINE.as_bytes()) {
        return Some(vstd::slice::slice_to_vec(content));
    }
    let lines = split_lines_bytes(content);
    let mut output: Vec<Vec<u8>> = Vec::new();
    let mut i: usize = 0;
    assert(views(lines@).subrange(0, 0) =~= Seq::<Seq<u8>>::empty());
    assert(views(output@) =~= Seq::<Seq<u8>>::empty());
    while i < lines.len()
        invariant
            i <= lines@.len(),
            views(output@) == zygote_inject_lines(views(lines@).subrange(0, i as int)),
        decreases lines@.len() - i,
    {
        let ghost done = views(lines@).subrange(0, i + 1);
        proof {
            assert(done.drop_last() =~= views(lines@).subrange(0, i as int));
            assert(done.last() == lines@[i as int]@);
        }
        let line = vstd::slice::slice_to_vec(lines[i].as_slice());
        let marked = contains_bytes(line.as_slice(), ZYGOTE_SERVICE.as_bytes());
        proof {
            lemma_views_push(output@, line);
        }
        output.push(line);
        if marked {
            let directive = vstd::slice::slice_to_vec(ZYGOTE_RESTART_LINE.as_bytes());
            proof {
                lemma_views_push(output@, directive);
            }
            output.push(directive);
        }
        i += 1;
    }
    assert(views(lines@).subrange(0, lines@.len() as int) =~= views(lines@));
    let mut feed: Vec<u8> = Vec::new();
    feed.push(10u8);
    assert(feed@ =~= seq![10u8]);
    Some(join_bytes(&output, feed.as_slice()))
}

/// The patch of one zygote init script as a function of what was there. A
/// script that is missing under the root needs a staged copy, and is taken
/// from it; what is there is secured as every patch does it; the script has
/// to be UTF-8; the restart directive is injected, and the staged copy is
/// consumed, which fails if there is none.
pub open spec fn spec_patch_zygote_file(s: StagedTargetView) -> (
    StagedTargetView,
    Result<(), PatchError>,
) {
    if s.target.plain is None && s.staged is None {
        (s, Err(PatchError::MissingStaged))
    } else if spec_secure(s.target).1 is Err {
        (s, Err(PatchError::Compress))
    } else {
        let secured = spec_secure(s.target).0;
        let plain = if s.target.plain is None {
            s.staged->0
        } else {
            s.target.plain->0
        };
        if !vstd::utf8::valid_utf8(plain) {
            (
                StagedTargetView {
                    target: PatchTargetView { plain: Some(plain), ..secured },
                    staged: s.staged,
                },
                Err(PatchError::NotText),
            )
        } else {
            (
                StagedTargetView {
                    target: PatchTargetView { plain: Some(spec_inject_zygote(plain)), ..secured },
                    staged: None,
                },
                if s.staged is Some {
                    Ok(())
                } else {
                    Err(PatchError::MissingStaged)
                },
            )
        }
    }
}

/// Patches one zygote init script.
///
/// A script that is missing under the root is taken from the staged copy,
/// and marked as introduced; one that is there is backed up unless it has a
/// backup or was introduced by a patch. Then the restart directive is
/// injected, and the staged copy is consumed.
pub fn patch_zygote_file(file: &mut StagedTarget) -> (r: Result<(), PatchError>)
    ensures
        (final(file)@, r) == spec_patch_zygote_file(old(file)@),
        r is Ok ==> backup_holds(final(file)@.target.backup, backup_source(old(file)@.target)),
{
    if file.target.plain.is_none() && file.staged.is_none() {
        return Err(PatchError::MissingStaged);
    }
    match secure(&mut file.target) {
        Ok(()) => {},
        Err(e) => {
            return Err(e);
        },
    }
    if file.target.plain.is_none() {
        match &file.staged {
            Some(d) => {
                let copy = vstd::slice::slice_to_vec(d.as_slice());
                file.target.plain = Some(copy);
            },
            None => {},
        }
    }
    let injected = match &file.target.plain {
        Some(p) => inject_zygote_restart(p.as_slice()),
        None => None,
    };
    match injected {
        Some(text) => {
            file.target.plain = Some(text);
        },
        None => {
            return Err(PatchError::NotText);
        },
    }
    match file.staged.take() {
        Some(_) => Ok(()),
        None => Err(PatchError::MissingStaged),
    }
}

/// The patch of both zygote init scripts: the first, and if that went well
/// the second.
pub open spec fn spec_patch_init_zygote(a: StagedTargetView, b: StagedTargetView) -> (
    StagedTargetView,
    StagedTargetView,
    Result<(), PatchError>,
) {
    let first = spec_patch_zygote_file(a);
    if first.1 is Err {
        (first.0, b, first.1)
    } else {
        let second = spec_patch_zygote_file(b);
        (first.0, second.0, second.1)
    }
}

/// Patches the two zygote init scripts, in their order, and stops at the
/// first that fails.
pub fn patch_init_zygote(files: &mut ZygoteFiles) -> (r: Result<(), PatchError>)
    ensures
        (final(files).zygote32@, final(files).zygote64_32@, r) == spec_patch_init_zygote(
            old(files).zygote32@,
            old(files).zygote64_32@,
        ),
        r is Ok ==> backup_holds(
            final(files).zygote32@.target.backup,
            backup_source(old(files).zygote32@.target),
        ),
        r is Ok ==> backup_holds(
            final(files).zygote64_32@.target.backup,
            backup_source(old(files).zygote64_32@.target),
        ),
{
    match patch_zygote_file(&mut files.zygote32) {
        Ok(()) => patch_zygote_file(&mut files.zygote64_32),
        Err(e) => Err(e),
    }
}

/// The restore of two pairs: the first, and if that went well the second.
/// The flag says whether either changed anything.
pub open spec fn spec_restore_two(a: PatchTargetView, b: PatchTargetView) -> (
    PatchTargetView,
    PatchTargetView,
    Result<bool, PatchError>,
) {
    let first = spec_restore_pair(a);
    match first.1 {
        Err(e) => (first.0, b, Err(e)),
        Ok(m1) => {
            let second = spec_restore_pair(b);
            match second.1 {
                Err(e) => (first.0, second.0, Err(e)),
                Ok(m2) => (first.0, second.0, Ok(m1 || m2)),
            }
        },
    }
}

/// Undoes the patch of the two zygote init scripts. `Ok(true)` says that
/// something was restored or removed.
pub fn restore_init_zygote(files: &mut ZygoteFiles) -> (r: Result<bool, PatchError>)
    ensures
        (final(files).zygote32@.target, final(files).zygote64_32@.target, r) == spec_restore_two(
            old(files).zygote32@.target,
            old(files).zygote64_32@.target,
        ),
        final(files).zygote32@.staged == old(files).zygote32@.staged,
        final(files).zygote64_32@.staged == old(files).zygote64_32@.staged,
{
    match restore_pair(&mut files.zygote32.target) {
        Ok(m1) => match restore_pair(&mut files.zygote64_32.target) {
            Ok(m2) => Ok(m1 || m2),
            Err(e) => Err(e),
        },
        Err(e) => Err(e),
    }
}

/// Patching the boot-animation script twice in a row leaves what patching it
/// once with the second pair of names leaves, whatever was there before: the
/// same backup or none, the same mark, and the same script but for the
/// names. A script that a patch wrote is never backed up.
pub proof fn lemma_patch_bootanim_idempotent(
    s: PatchTargetView,
    variant: Variant,
    x1: Seq<u8>,
    y1: Seq<u8>,
    x2: Seq<u8>,
    y2: Seq<u8>,
)
    ensures
        spec_patch_bootanim(spec_patch_bootanim(s, variant, x1, y1).0, variant, x2, y2)
            == spec_patch_bootanim(s, variant, x2, y2),
        spec_patch_bootanim(s, variant, x1, y1).1 is Ok ==> {
            let once = spec_patch_bootanim(s, variant, x1, y1).0;
            let twice = spec_patch_bootanim(once, variant, x2, y2).0;
            &&& twice.backup == once.backup
            &&& twice.synthetic == once.synthetic
            &&& once.plain == Some(render_bootanim(variant, x1, y1))
            &&& twice.plain == Some(render_bootanim(variant, x2, y2))
            &&& s.plain is None && s.backup is None ==> twice.backup is None
        },
{
}

/// The mark and the backup exclude each other: a file that a patch
/// introduced has no original, and so no backup.
pub open spec fn consistent(s: PatchTargetView) -> bool {
    s.synthetic ==> s.backup is None
}

/// Patching and restoring keep the mark and the backup apart.
pub proof fn lemma_mark_excludes_backup(
    s: PatchTargetView,
    variant: Variant,
    x: Seq<u8>,
    y: Seq<u8>,
)
    requires
        consistent(s),
    ensures
        consistent(spec_secure(s).0),
        consistent(spec_patch_bootanim(s, variant, x, y).0),
        consistent(spec_restore_pair(s).0),
{
}

/// The byte of an ASCII letter or digit.
pub open spec fn is_alphanumeric_byte(b: u8) -> bool {
    (97 <= b && b <= 122) || (65 <= b && b <= 90) || (48 <= b && b <= 57)
}

/// A service name of `n` letters and digits stands in a patched script as
/// `n` bytes, each the byte of an ASCII letter or digit.
pub proof fn lemma_token_bytes(name: Seq<char>, n: nat)
    requires
        is_token(name, n),
    ensures
        bytes_of(name).len() == n,
        forall|i: int| 0 <= i < n ==> is_alphanumeric_byte(#[trigger] bytes_of(name)[i]),
{
    assert(vstd::utf8::is_ascii_chars(name)) by {
        assert forall|i: int| 0 <= i < name.len() implies '\0' <= #[trigger] name[i]
            <= '\u{7f}' by {
            assert(is_alphanumeric(name[i]));
        }
    }
    vstd::utf8::is_ascii_chars_encode_utf8(name);
    assert forall|i: int| 0 <= i < n implies is_alphanumeric_byte(#[trigger] bytes_of(name)[i]) by {
        assert(is_alphanumeric(name[i]));
        assert(name[i] as u8 == bytes_of(name)[i]);
    }
}

/// Where the three service names start in a patched script of a variant
/// whose names have `n` bytes each.
pub open spec fn name_offsets(variant: Variant, n: int) -> (int, int, int) {
    let first = (bytes_of(BOOTANIM_RC@).len() + bytes_of(directives(variant).0).len()) as int;
    let second = first + n + bytes_of(directives(variant).1).len();
    let third = second + n + bytes_of(directives(variant).2).len();
    (first, second, third)
}

/// A patched script of a variant, whose names have `n` bytes each, with `x`
/// in the two places of its first service name and `y` in the place of its
/// second: all that is not a name stays.
pub open spec fn renamed(script: Seq<u8>, variant: Variant, n: int, x: Seq<u8>, y: Seq<u8>) -> Seq<
    u8,
> {
    let at = name_offsets(variant, n);
    script.subrange(0, at.0) + x + script.subrange(at.0 + n, at.1) + x + script.subrange(
        at.1 + n,
        at.2,
    ) + y + script.subrange(at.2 + n, script.len() as int)
}

/// Two patched scripts of a variant differ in the service names and in
/// nothing else: the names stand in their three places, the first twice and
/// then the second, and a patched script with the names of another in these
/// places is that other script.
pub proof fn lemma_scripts_differ_in_names_only(
    variant: Variant,
    x1: Seq<u8>,
    y1: Seq<u8>,
    x2: Seq<u8>,
    y2: Seq<u8>,
)
    requires
        x1.len() == y1.len(),
    ensures
        ({
            let script = render_bootanim(variant, x1, y1);
            let n = x1.len() as int;
            let at = name_offsets(variant, n);
            &&& 0 <= at.0 && at.0 + n <= at.1 && at.1 + n <= at.2 && at.2 + n <= script.len()
            &&& script.subrange(at.0, at.0 + n) == x1
            &&& script.subrange(at.1, at.1 + n) == x1
            &&& script.subrange(at.2, at.2 + n) == y1
            &&& renamed(script, variant, n, x2, y2) == render_bootanim(variant, x2, y2)
        }),
{
    let script = render_bootanim(variant, x1, y1);
    let n = x1.len() as int;
    let at = name_offsets(variant, n);
    let stock = bytes_of(BOOTANIM_RC@);
    let start = bytes_of(directives(variant).0);
    let wait = bytes_of(directives(variant).1);
    let service = bytes_of(directives(variant).2);
    let end = bytes_of(directives(variant).3);
    assert(script.subrange(0, at.0) =~= stock + start);
    assert(script.subrange(at.0, at.0 + n) =~= x1);
    assert(script.subrange(at.0 + n, at.1) =~= wait);
    assert(script.subrange(at.1, at.1 + n) =~= x1);
    assert(script.subrange(at.1 + n, at.2) =~= service);
    assert(script.subrange(at.2, at.2 + n) =~= y1);
    assert(script.subrange(at.2 + n, script.len() as int) =~= end);
    assert(renamed(script, variant, n, x2, y2) =~= render_bootanim(variant, x2, y2));
}

/// Restoring after a patch gives back what was there before the patch: a
/// script that was there comes back byte for byte, and where none was there
/// none is left; no backup is left either way.
pub proof fn lemma_bootanim_round_trip(
    s: PatchTargetView,
    patched: PatchTargetView,
    variant: Variant,
    x: Seq<u8>,
    y: Seq<u8>,
)
    requires
        s.backup is None,
        !s.synthetic,
        (patched, Ok::<(), PatchError>(())) == spec_patch_bootanim(s, variant, x, y),
        backup_holds(patched.backup, backup_source(s)),
    ensures
        spec_restore_bootanim(patched) == (s, Ok::<(), PatchError>(())),
{
}

/// A restore leaves a file that was never patched as it is.
pub proof fn lemma_restore_leaves_untouched(s: PatchTargetView)
    requires
        s.backup is None,
        !s.synthetic,
    ensures
        spec_restore_pair(s) == (s, Ok::<bool, PatchError>(false)),
        spec_restore_bootanim(s) == (s, Ok::<(), PatchError>(())),
{
}

/// Restoring after a patch gives back the zygote init script that was there
/// before the patch, byte for byte, and where none was there none is left;
/// no backup is left either way.
pub proof fn lemma_zygote_round_trip(s: StagedTargetView, patched: StagedTargetView)
    requires
        s.target.backup is None,
        !s.target.synthetic,
        (patched, Ok::<(), PatchError>(())) == spec_patch_zygote_file(s),
        backup_holds(patched.target.backup, backup_source(s.target)),
    ensures
        spec_restore_pair(patched.target) == (s.target, Ok::<bool, PatchError>(true)),
{
}

/// Restoring both zygote init scripts after both were patched gives back
/// what was there before, for each of them.
pub proof fn lemma_zygote_files_round_trip(
    a: StagedTargetView,
    b: StagedTargetView,
    patched_a: StagedTargetView,
    patched_b: StagedTargetView,
)
    requires
        a.target.backup is None,
        !a.target.synthetic,
        b.target.backup is None,
        !b.target.synthetic,
        (patched_a, patched_b, Ok::<(), PatchError>(())) == spec_patch_init_zygote(a, b),
        backup_holds(patched_a.target.backup, backup_source(a.target)),
        backup_holds(patched_b.target.backup, backup_source(b.target)),
    ensures
        spec_restore_two(patched_a.target, patched_b.target) == (
            a.target,
            b.target,
            Ok::<bool, PatchError>(true),
        ),
{
}

/// Some line holds a zygote service.
pub open spec fn has_zygote_line(lines: Seq<Seq<u8>>) -> bool {
    exists|i: int| 0 <= i < lines.len() && has_subseq(#[trigger] lines[i], bytes_of(ZYGOTE_SERVICE@))
}

proof fn lemma_injection_holds_directive(lines: Seq<Seq<u8>>)
    requires
        has_zygote_line(lines),
    ensures
        exists|k: int|
            0 <= k < zygote_inject_lines(lines).len() && #[trigger] zygote_inject_lines(lines)[k]
                == bytes_of(ZYGOTE_RESTART_LINE@),
    decreases lines.len(),
{
    let at = choose|i: int|
        0 <= i < lines.len() && has_subseq(#[trigger] lines[i], bytes_of(ZYGOTE_SERVICE@));
    let front = lines.drop_last();
    let out = zygote_inject_lines(lines);
    if has_subseq(lines.last(), bytes_of(ZYGOTE_SERVICE@)) {
        assert(out[out.len() - 1] == bytes_of(ZYGOTE_RESTART_LINE@));
    } else {
        assert(front[at] == lines[at]);
        lemma_injection_holds_directive(front);
        let k = choose|k: int|
            0 <= k < zygote_inject_lines(front).len() && #[trigger] zygote_inject_lines(front)[k]
                == bytes_of(ZYGOTE_RESTART_LINE@);
        assert(out[k] == zygote_inject_lines(front)[k]);
    }
}

/// Injecting twice is injecting once, for a script that holds the restart
/// directive already or has a zygote service line to put it after. A script
/// with neither is only rewritten line by line, and may lose an empty last
/// line each time.
pub proof fn lemma_inject_zygote_settles(content: Seq<u8>)
    requires
        has_subseq(content, bytes_of(ZYGOTE_RESTART_LINE@)) || has_zygote_line(
            lines_of(content, 10u8, 13u8),
        ),
    ensures
        spec_inject_zygote(spec_inject_zygote(content)) == spec_inject_zygote(content),
{
    if !has_subseq(content, bytes_of(ZYGOTE_RESTART_LINE@)) {
        let lines = zygote_inject_lines(lines_of(content, 10u8, 13u8));
        lemma_injection_holds_directive(lines_of(content, 10u8, 13u8));
        let k = choose|k: int|
            0 <= k < lines.len() && #[trigger] lines[k] == bytes_of(ZYGOTE_RESTART_LINE@);
        lemma_join_holds_part(lines, seq![10u8], k);
    }
}

/// After a restore that went well neither backup nor mark is left, and a
/// second restore changes nothing.
pub proof fn lemma_restore_pair_settles(s: PatchTargetView)
    requires
        spec_restore_pair(s).1 is Ok,
    ensures
        spec_restore_pair(s).0.backup is None,
        !spec_restore_pair(s).0.synthetic,
        spec_restore_pair(spec_restore_pair(s).0) == (
            spec_restore_pair(s).0,
            Ok::<bool, PatchError>(false),
        ),
{
}

/// What a clean-up does to the file system: every path of `removals` is
/// removed with all below it, in order, if it exists; then for every pair of
/// `moves`, in order, a shadow that exists replaces its destination and is
/// removed.
#[derive(Debug)]
pub struct CleanUpPlan {
    pub removals: Vec<String>,
    pub moves: Vec<(String, String)>,
}

/// The mathematical content of a [`CleanUpPlan`].
pub struct CleanUpPlanView {
    pub removals: Seq<Seq<char>>,
    pub moves: Seq<(Seq<char>, Seq<char>)>,
}

impl View for CleanUpPlan {
    type V = CleanUpPlanView;

    open spec fn view(&self) -> CleanUpPlanView {
        CleanUpPlanView {
            removals: Seq::new(self.removals@.len(), |i: int| self.removals@[i]@),
            moves: Seq::new(self.moves@.len(), |i: int| (self.moves@[i].0@, self.moves@[i].1@)),
        }
    }
}

/// The paths that a clean-up removes, in order: the injected tree and the
/// addon script, in the shadow and under the root; the injected tree on the
/// data partition if a data directory is given; and on an overlay the policy
/// blobs and the daemon's working directory.
pub open spec fn clean_up_removals(
    rootfs: Seq<char>,
    has_overlay: bool,
    overlay_rw: Seq<char>,
    waydroid_data: Seq<char>,
) -> Seq<Seq<char>> {
    let vendor = join_path(rootfs, VENDOR_SELINUX@);
    let vendor_rw = join_path(WAYDROID_DIR@, VENDOR_SELINUX_RW@);
    seq![
        join_path(overlay_rw, MAGISK_DIR@),
        join_path(rootfs, MAGISK_DIR@),
        join_path(overlay_rw, ADDON_SCRIPT@),
        join_path(rootfs, ADDON_SCRIPT@),
    ] + (if waydroid_data.len() > 0 {
        seq![join_path(waydroid_data, ADB_MAGISK@)]
    } else {
        Seq::empty()
    }) + (if has_overlay {
        seq![
            join_path(vendor, PRECOMPILED_SEPOLICY@),
            join_path(vendor_rw, PRECOMPILED_SEPOLICY@),
            join_path(vendor, PRECOMPILED_SEPOLICY_GZ@),
            join_path(vendor_rw, PRECOMPILED_SEPOLICY_GZ@),
            join_path(rootfs, MAGISKTMP@),
        ]
    } else {
        Seq::empty()
    })
}

/// The shadow copies that a clean-up moves back over the root's copies, in
/// order, each with its destination: none unless the root is an overlay.
pub open spec fn clean_up_moves(rootfs: Seq<char>, has_overlay: bool, overlay_rw: Seq<char>) -> Seq<
    (Seq<char>, Seq<char>),
> {
    let vendor = join_path(rootfs, VENDOR_SELINUX@);
    let vendor_rw = join_path(WAYDROID_DIR@, VENDOR_SELINUX_RW@);
    let hw = join_path(rootfs, INIT_HW_DIR@);
    let hw_rw = join_path(overlay_rw, INIT_HW_DIR@);
    if has_overlay {
        seq![
            (join_path(vendor_rw, VENDOR_FILE_CONTEXTS@), join_path(vendor, VENDOR_FILE_CONTEXTS@)),
            (
                join_path(vendor_rw, VENDOR_FILE_CONTEXTS_GZ@),
                join_path(vendor, VENDOR_FILE_CONTEXTS_GZ@),
            ),
            (join_path(hw_rw, ZYGOTE32_RC@), join_path(hw, ZYGOTE32_RC@)),
            (join_path(hw_rw, ZYGOTE64_32_RC@), join_path(hw, ZYGOTE64_32_RC@)),
            (join_path(hw_rw, ZYGOTE32_RC_GZ@), join_path(hw, ZYGOTE32_RC_GZ@)),
            (join_path(hw_rw, ZYGOTE64_32_RC_GZ@), join_path(hw, ZYGOTE64_32_RC_GZ@)),
            (join_path(overlay_rw, BOOTANIM_RC_PATH@), join_path(rootfs, BOOTANIM_RC_PATH@)),
            (join_path(overlay_rw, BOOTANIM_RC_GZ_PATH@), join_path(rootfs, BOOTANIM_RC_GZ_PATH@)),
        ]
    } else {
        Seq::empty()
    }
}

/// Plans the removal of everything that an installation put under the root,
/// in the shadow of the overlay and, if `waydroid_data` is not empty, on the
/// data partition; on an overlay also the moves that bring the shadow's
/// copies of the patched files back under the root.
pub fn clean_up(rootfs: &str, has_overlay: bool, overlay_rw: &str, waydroid_data: &str) -> (plan:
    CleanUpPlan)
    ensures
        plan@.removals == clean_up_removals(rootfs@, has_overlay, overlay_rw@, waydroid_data@),
        plan@.moves == clean_up_moves(rootfs@, has_overlay, overlay_rw@),
{
    let mut removals: Vec<String> = Vec::new();
    let mut moves: Vec<(String, String)> = Vec::new();
    removals.push(join(overlay_rw, MAGISK_DIR));
    removals.push(join(rootfs, MAGISK_DIR));
    removals.push(join(overlay_rw, ADDON_SCRIPT));
    removals.push(join(rootfs, ADDON_SCRIPT));
    if waydroid_data.unicode_len() > 0 {
        removals.push(join(waydroid_data, ADB_MAGISK));
    }
    if has_overlay {
        let vendor = join(rootfs, VENDOR_SELINUX);
        let vendor_rw = join(WAYDROID_DIR, VENDOR_SELINUX_RW);
        let hw = join(rootfs, INIT_HW_DIR);
        let hw_rw = join(overlay_rw, INIT_HW_DIR);
        removals.push(join(vendor.as_str(), PRECOMPILED_SEPOLICY));
        removals.push(join(vendor_rw.as_str(), PRECOMPILED_SEPOLICY));
        removals.push(join(vendor.as_str(), PRECOMPILED_SEPOLICY_GZ));
        removals.push(join(vendor_rw.as_str(), PRECOMPILED_SEPOLICY_GZ));
        removals.push(join(rootfs, MAGISKTMP));
        moves.push(
            (join(vendor_rw.as_str(), VENDOR_FILE_CONTEXTS), join(vendor.as_str(), VENDOR_FILE_CONTEXTS)),
        );
        moves.push(
            (
                join(vendor_rw.as_str(), VENDOR_FILE_CONTEXTS_GZ),
                join(vendor.as_str(), VENDOR_FILE_CONTEXTS_GZ),
            ),
        );
        moves.push((join(hw_rw.as_str(), ZYGOTE32_RC), join(hw.as_str(), ZYGOTE32_RC)));
        moves.push((join(hw_rw.as_str(), ZYGOTE64_32_RC), join(hw.as_str(), ZYGOTE64_32_RC)));
        moves.push((join(hw_rw.as_str(), ZYGOTE32_RC_GZ), join(hw.as_str(), ZYGOTE32_RC_GZ)));
        moves.push((join(hw_rw.as_str(), ZYGOTE64_32_RC_GZ), join(hw.as_str(), ZYGOTE64_32_RC_GZ)));
        moves.push((join(overlay_rw, BOOTANIM_RC_PATH), join(rootfs, BOOTANIM_RC_PATH)));
        moves.push((join(overlay_rw, BOOTANIM_RC_GZ_PATH), join(rootfs, BOOTANIM_RC_GZ_PATH)));
    }
    let plan = CleanUpPlan { removals, moves };
    proof {
        assert(plan@.removals =~= clean_up_removals(
            rootfs@,
            has_overlay,
            overlay_rw@,
            waydroid_data@,
        ));
        assert(plan@.moves =~= clean_up_moves(rootfs@, has_overlay, overlay_rw@));
    }
    plan
}

/// The paths that exist once `dir` and all below it are removed.
pub open spec fn remove_tree(present: Set<Seq<char>>, dir: Seq<char>) -> Set<Seq<char>> {
    Set::new(|p: Seq<char>| present.contains(p) && !under(p, dir))
}

/// The paths that exist once the removals are done, in order.
pub open spec fn apply_removals(present: Set<Seq<char>>, removals: Seq<Seq<char>>) -> Set<
    Seq<char>,
>
    decreases removals.len(),
{
    if removals.len() == 0 {
        present
    } else {
        remove_tree(apply_removals(present, removals.drop_last()), removals.last())
    }
}

/// The paths that exist once a shadow copy is moved over its destination: if
/// the shadow exists, the destination is replaced by a file and the shadow
/// goes.
pub open spec fn move_over(present: Set<Seq<char>>, from: Seq<char>, to: Seq<char>) -> Set<
    Seq<char>,
> {
    if present.contains(from) {
        remove_tree(remove_tree(present, to).insert(to), from)
    } else {
        present
    }
}

/// The paths that exist once the moves are done, in order.
pub open spec fn apply_moves(present: Set<Seq<char>>, moves: Seq<(Seq<char>, Seq<char>)>) -> Set<
    Seq<char>,
>
    decreases moves.len(),
{
    if moves.len() == 0 {
        present
    } else {
        move_over(apply_moves(present, moves.drop_last()), moves.last().0, moves.last().1)
    }
}

/// The paths that exist once a clean-up plan is carried out on a file system
/// in which the paths of `present` exist.
pub open spec fn after_clean_up(present: Set<Seq<char>>, plan: CleanUpPlanView) -> Set<Seq<char>> {
    apply_moves(apply_removals(present, plan.removals), plan.moves)
}

proof fn lemma_removed_stays(
    present: Set<Seq<char>>,
    removals: Seq<Seq<char>>,
    i: int,
    path: Seq<char>,
)
    requires
        0 <= i < removals.len(),
        under(path, removals[i]),
    ensures
        !apply_removals(present, removals).contains(path),
    decreases removals.len(),
{
    if i < removals.len() - 1 {
        lemma_removed_stays(present, removals.drop_last(), i, path);
    }
}

proof fn lemma_moves_add_destinations_only(
    present: Set<Seq<char>>,
    moves: Seq<(Seq<char>, Seq<char>)>,
    path: Seq<char>,
)
    requires
        !present.contains(path),
        forall|k: int| 0 <= k < moves.len() ==> (#[trigger] moves[k]).1 != path,
    ensures
        !apply_moves(present, moves).contains(path),
    decreases moves.len(),
{
    if moves.len() > 0 {
        lemma_moves_add_destinations_only(present, moves.drop_last(), path);
    }
}

/// A relative path joined to a base keeps its characters, after the base's
/// prefix.
proof fn lemma_join_chars(base: Seq<char>, rel: Seq<char>)
    requires
        rel.len() > 0,
        rel[0] != '/',
    ensures
        join_path(base, rel).len() == dir_prefix(base).len() + rel.len(),
        forall|i: int|
            0 <= i < rel.len() ==> #[trigger] join_path(base, rel)[dir_prefix(base).len() as int
                + i] == rel[i],
        dir_prefix(join_path(base, rel)).len() >= join_path(base, rel).len(),
        forall|i: int|
            0 <= i < join_path(base, rel).len() ==> #[trigger] dir_prefix(join_path(base, rel))[i]
                == join_path(base, rel)[i],
{
}

/// A path in or below the injected tree has `s` where the tree's relative
/// path starts, and `m` sixteen characters on.
proof fn lemma_tree_path_chars(rootfs: Seq<char>, path: Seq<char>)
    requires
        under(path, join_path(rootfs, MAGISK_DIR@)),
    ensures
        path.len() >= dir_prefix(rootfs).len() + 22,
        path[dir_prefix(rootfs).len() as int + 0] == 's',
        path[dir_prefix(rootfs).len() as int + 16] == 'm',
{
    reveal_strlit("system/etc/init/magisk");
    let tree = join_path(rootfs, MAGISK_DIR@);
    lemma_join_chars(rootfs, MAGISK_DIR@);
    let base = dir_prefix(rootfs).len() as int;
    assert(tree[base + 0] == MAGISK_DIR@[0]);
    assert(tree[base + 16] == MAGISK_DIR@[16]);
    if path != tree {
        let prefix = dir_prefix(tree);
        let head = path.subrange(0, prefix.len() as int);
        assert(head[base] == path[base]);
        assert(head[base + 16] == path[base + 16]);
        assert(prefix[base] == tree[base]);
        assert(prefix[base + 16] == tree[base + 16]);
    }
}

/// After a clean-up nothing of the injected tree is left under the root:
/// neither the tree nor any path below it, whatever existed before.
pub proof fn lemma_clean_up_clears_tree(
    rootfs: Seq<char>,
    has_overlay: bool,
    overlay_rw: Seq<char>,
    waydroid_data: Seq<char>,
    present: Set<Seq<char>>,
    path: Seq<char>,
)
    requires
        under(path, join_path(rootfs, MAGISK_DIR@)),
    ensures
        !after_clean_up(
            present,
            CleanUpPlanView {
                removals: clean_up_removals(rootfs, has_overlay, overlay_rw, waydroid_data),
                moves: clean_up_moves(rootfs, has_overlay, overlay_rw),
            },
        ).contains(path),
{
    let removals = clean_up_removals(rootfs, has_overlay, overlay_rw, waydroid_data);
    let moves = clean_up_moves(rootfs, has_overlay, overlay_rw);
    assert(removals[1] == join_path(rootfs, MAGISK_DIR@));
    lemma_removed_stays(present, removals, 1, path);
    lemma_tree_path_chars(rootfs, path);
    let base = dir_prefix(rootfs).len() as int;
    if has_overlay {
        reveal_strlit("vendor/etc/selinux");
        reveal_strlit("system/etc/init/hw");
        reveal_strlit("system/etc/init/bootanim.rc");
        reveal_strlit("system/etc/init/bootanim.rc.gz");
        reveal_strlit("vendor_file_contexts");
        reveal_strlit("vendor_file_contexts.gz");
        reveal_strlit("init.zygote32.rc");
        reveal_strlit("init.zygote32.rc.gz");
        reveal_strlit("init.zygote64_32.rc");
        reveal_strlit("init.zygote64_32.rc.gz");
        let vendor = join_path(rootfs, VENDOR_SELINUX@);
        let hw = join_path(rootfs, INIT_HW_DIR@);
        lemma_join_chars(rootfs, VENDOR_SELINUX@);
        lemma_join_chars(rootfs, INIT_HW_DIR@);
        lemma_join_chars(rootfs, BOOTANIM_RC_PATH@);
        lemma_join_chars(rootfs, BOOTANIM_RC_GZ_PATH@);
        assert(vendor[base + 0] == 'v');
        assert(hw[base + 16] == 'h');
        assert(join_path(rootfs, BOOTANIM_RC_PATH@)[base + 16] == 'b');
        assert(join_path(rootfs, BOOTANIM_RC_GZ_PATH@)[base + 16] == 'b');
        lemma_join_chars(vendor, VENDOR_FILE_CONTEXTS@);
        lemma_join_chars(vendor, VENDOR_FILE_CONTEXTS_GZ@);
        lemma_join_chars(hw, ZYGOTE32_RC@);
        lemma_join_chars(hw, ZYGOTE32_RC_GZ@);
        lemma_join_chars(hw, ZYGOTE64_32_RC@);
        lemma_join_chars(hw, ZYGOTE64_32_RC_GZ@);
        assert(dir_prefix(vendor)[base] == vendor[base]);
        assert(dir_prefix(hw)[base + 16] == hw[base + 16]);
        assert(join_path(vendor, VENDOR_FILE_CONTEXTS@)[base] == 'v');
        assert(join_path(vendor, VENDOR_FILE_CONTEXTS_GZ@)[base] == 'v');
        assert(join_path(hw, ZYGOTE32_RC@)[base + 16] == 'h');
        assert(join_path(hw, ZYGOTE32_RC_GZ@)[base + 16] == 'h');
        assert(join_path(hw, ZYGOTE64_32_RC@)[base + 16] == 'h');
        assert(join_path(hw, ZYGOTE64_32_RC_GZ@)[base + 16] == 'h');
        assert forall|k: int| 0 <= k < moves.len() implies (#[trigger] moves[k]).1 != path by {}
    }
    lemma_moves_add_destinations_only(apply_removals(present, removals), moves, path);
}

/// After a clean-up the addon script is not left under the root, whatever
/// existed before.
pub proof fn lemma_clean_up_clears_addon_script(
    rootfs: Seq<char>,
    has_overlay: bool,
    overlay_rw: Seq<char>,
    waydroid_data: Seq<char>,
    present: Set<Seq<char>>,
)
    ensures
        !after_clean_up(
            present,
            CleanUpPlanView {
                removals: clean_up_removals(rootfs, has_overlay, overlay_rw, waydroid_data),
                moves: clean_up_moves(rootfs, has_overlay, overlay_rw),
            },
        ).contains(join_path(rootfs, ADDON_SCRIPT@)),
{
    let path = join_path(rootfs, ADDON_SCRIPT@);
    let removals = clean_up_removals(rootfs, has_overlay, overlay_rw, waydroid_data);
    let moves = clean_up_moves(rootfs, has_overlay, overlay_rw);
    assert(removals[3] == path);
    lemma_removed_stays(present, removals, 3, path);
    reveal_strlit("system/addon.d/99-magisk.sh");
    lemma_join_chars(rootfs, ADDON_SCRIPT@);
    let base = dir_prefix(rootfs).len() as int;
    assert(path[base + 0] == 's');
    assert(path[base + 7] == 'a');
    if has_overlay {
        reveal_strlit("vendor/etc/selinux");
        reveal_strlit("system/etc/init/hw");
        reveal_strlit("system/etc/init/bootanim.rc");
        reveal_strlit("system/etc/init/bootanim.rc.gz");
        reveal_strlit("vendor_file_contexts");
        reveal_strlit("vendor_file_contexts.gz");
        reveal_strlit("init.zygote32.rc");
        reveal_strlit("init.zygote32.rc.gz");
        reveal_strlit("init.zygote64_32.rc");
        reveal_strlit("init.zygote64_32.rc.gz");
        let vendor = join_path(rootfs, VENDOR_SELINUX@);
        let hw = join_path(rootfs, INIT_HW_DIR@);
        lemma_join_chars(rootfs, VENDOR_SELINUX@);
        lemma_join_chars(rootfs, INIT_HW_DIR@);
        lemma_join_chars(rootfs, BOOTANIM_RC_PATH@);
        lemma_join_chars(rootfs, BOOTANIM_RC_GZ_PATH@);
        assert(vendor[base + 0] == 'v');
        assert(hw[base + 7] == 'e');
        assert(join_path(rootfs, BOOTANIM_RC_PATH@)[base + 7] == 'e');
        assert(join_path(rootfs, BOOTANIM_RC_GZ_PATH@)[base + 7] == 'e');
        lemma_join_chars(vendor, VENDOR_FILE_CONTEXTS@);
        lemma_join_chars(vendor, VENDOR_FILE_CONTEXTS_GZ@);
        lemma_join_chars(hw, ZYGOTE32_RC@);
        lemma_join_chars(hw, ZYGOTE32_RC_GZ@);
        lemma_join_chars(hw, ZYGOTE64_32_RC@);
        lemma_join_chars(hw, ZYGOTE64_32_RC_GZ@);
        assert(dir_prefix(vendor)[base] == vendor[base]);
        assert(dir_prefix(hw)[base + 7] == hw[base + 7]);
        assert(join_path(vendor, VENDOR_FILE_CONTEXTS@)[base] == 'v');
        assert(join_path(vendor, VENDOR_FILE_CONTEXTS_GZ@)[base] == 'v');
        assert(join_path(hw, ZYGOTE32_RC@)[base + 7] == 'e');
        assert(join_path(hw, ZYGOTE32_RC_GZ@)[base + 7] == 'e');
        assert(join_path(hw, ZYGOTE64_32_RC@)[base + 7] == 'e');
        assert(join_path(hw, ZYGOTE64_32_RC_GZ@)[base + 7] == 'e');
        assert forall|k: int| 0 <= k < moves.len() implies (#[trigger] moves[k]).1 != path by {}
    }
    lemma_moves_add_destinations_only(apply_removals(present, removals), moves, path);
}

/// The steps that [`installed_probe_steps`] returns.
pub open spec fn spec_installed_probe_steps(phase: Phase, has_overlay: bool) -> Seq<Step> {
    seq![
        always(phase, Op::Observe(Fact::SessionRunning)),
    ]
    + (if !has_overlay {
        spec_mount_steps(phase, true, true, false, Cond::Not(Fact::SessionRunning), Cond::Always)
    } else {
        Seq::empty()
    })
    + seq![
        always(phase, Op::Observe(Fact::Tree)),
    ]
    + (if !has_overlay {
        spec_umount_steps(phase, true, Cond::Not(Fact::SessionRunning), Cond::Always)
    } else {
        Seq::empty()
    })
}

/// The steps that find out whether the injected tree exists. With a session
/// the tree is looked for in the running guest, without one under the
/// overlay; where the root is an image and no session runs the images are
/// mounted for the look and unmounted after it.
pub fn installed_probe_steps(phase: Phase, has_overlay: bool) -> (plan: Vec<Step>)
    ensures
        plan@ == spec_installed_probe_steps(phase, has_overlay),
{
    let mut plan: Vec<Step> = Vec::new();
    plan.push(always(phase, Op::Observe(Fact::SessionRunning)));
    if !has_overlay {
        let mut part = mount_steps(
            phase,
            true,
            true,
            false,
            Cond::Not(Fact::SessionRunning),
            Cond::Always,
        );
        plan.append(&mut part);
    }
    plan.push(always(phase, Op::Observe(Fact::Tree)));
    if !has_overlay {
        let mut part = umount_steps(phase, true, Cond::Not(Fact::SessionRunning), Cond::Always);
        plan.append(&mut part);
    }
    assert(plan@ =~= spec_installed_probe_steps(phase, has_overlay));
    plan
}

/// The steps that [`set_up_steps`] returns.
pub open spec fn spec_set_up_steps(phase: Phase, has_overlay: bool) -> Seq<Step> {
    (if !has_overlay {
        seq![
            always(phase, Op::Observe(Fact::SessionRunning)),
            given(phase, Cond::Not(Fact::SessionRunning), Op::Fail(Fault::SessionNotRunning)),
        ]
    } else {
        Seq::empty()
    })
    + seq![
        always(phase, Op::Observe(Fact::SetUp)),
    ]
}

/// The steps that find out whether the framework is set up: its binary is
/// under the root and on the data partition. Where the root is an image a
/// session has to run.
pub fn set_up_steps(phase: Phase, has_overlay: bool) -> (plan: Vec<Step>)
    ensures
        plan@ == spec_set_up_steps(phase, has_overlay),
{
    let mut plan: Vec<Step> = Vec::new();
    if !has_overlay {
        plan.push(always(phase, Op::Observe(Fact::SessionRunning)));
        plan.push(given(phase, Cond::Not(Fact::SessionRunning), Op::Fail(Fault::SessionNotRunning)));
    }
    plan.push(always(phase, Op::Observe(Fact::SetUp)));
    assert(plan@ =~= spec_set_up_steps(phase, has_overlay));
    plan
}

/// The steps that [`manager_steps`] returns.
pub open spec fn spec_manager_steps(phase: Phase) -> Seq<Step> {
    seq![
        always(phase, Op::Observe(Fact::Manager)),
        always(phase, Op::Observe(Fact::LegacyManager)),
        given(phase, Cond::Is(Fact::Manager), Op::Do(Action::Guest(GuestStep::UninstallManager))),
        given(
            phase,
            Cond::Is(Fact::LegacyManager),
            Op::Do(Action::Guest(GuestStep::UninstallLegacyManager)),
        ),
    ]
}

/// The steps that remove the manager apps that the guest has installed.
pub fn manager_steps(phase: Phase) -> (plan: Vec<Step>)
    ensures
        plan@ == spec_manager_steps(phase),
{
    let mut plan: Vec<Step> = Vec::new();
    plan.push(always(phase, Op::Observe(Fact::Manager)));
    plan.push(always(phase, Op::Observe(Fact::LegacyManager)));
    plan.push(
        given(phase, Cond::Is(Fact::Manager), Op::Do(Action::Guest(GuestStep::UninstallManager))),
    );
    plan.push(
        given(
            phase,
            Cond::Is(Fact::LegacyManager),
            Op::Do(Action::Guest(GuestStep::UninstallLegacyManager)),
        ),
    );
    assert(plan@ =~= spec_manager_steps(phase));
    plan
}

/// The steps that find out whether the injected tree exists.
pub fn magisk_is_installed(has_overlay: bool) -> (plan: Vec<Step>)
    ensures
        plan@ == spec_installed_probe_steps(Phase::Preflight, has_overlay),
{
    installed_probe_steps(Phase::Preflight, has_overlay)
}

/// The steps that find out whether the framework is set up.
pub fn magisk_is_set_up(has_overlay: bool) -> (plan: Vec<Step>)
    ensures
        plan@ == spec_set_up_steps(Phase::Preflight, has_overlay),
{
    set_up_steps(Phase::Preflight, has_overlay)
}

/// The steps that remove the manager apps that the guest has installed.
pub fn check_uninstall_manager() -> (plan: Vec<Step>)
    ensures
        plan@ == spec_manager_steps(Phase::Finalizing),
{
    manager_steps(Phase::Finalizing)
}

/// The status of the framework: whether its daemon runs, its version, and
/// whether Zygisk is on. The container has to run. The daemon counts as
/// running only where the framework is installed and set up; without a
/// daemon there is no version, and Zygisk is off.
pub fn get_status(
    container_running: bool,
    installed: bool,
    set_up: bool,
    daemon_found: bool,
    zygisk: bool,
    version: &str,
) -> (r: Result<(bool, String, bool), crate::magisk::MagiskError>)
    ensures
        !container_running ==> r is Err && r->Err_0
            == crate::magisk::MagiskError::ContainerNotRunning,
        container_running ==> r is Ok && r->Ok_0.0 == (installed && set_up && daemon_found)
            && r->Ok_0.1@ == (if installed && set_up && daemon_found {
            version@
        } else {
            Seq::<char>::empty()
        }) && r->Ok_0.2 == (installed && set_up && daemon_found && zygisk),
{
    if !container_running {
        return Err(crate::magisk::MagiskError::ContainerNotRunning);
    }
    let daemon_running = installed && set_up && daemon_found;
    if daemon_running {
        Ok((true, String::from_str(version), zygisk))
    } else {
        Ok((false, String::new(), false))
    }
}

/// The package of the manager app.
pub const MANAGER_PACKAGE: &'static str = "com.topjohnwu.magisk";

/// The package of the manager app of the legacy variant.
pub const LEGACY_MANAGER_PACKAGE: &'static str = "io.github.huskydg.magisk";

/// Whether the guest has the manager app installed, going by its list of
/// packages.
pub fn has_manager(packages: &str) -> (r: bool)
    ensures
        r == has_subseq(packages@, MANAGER_PACKAGE@),
{
    crate::text::str_contains(packages, MANAGER_PACKAGE)
}

/// Whether the guest has the manager app of the legacy variant installed,
/// going by its list of packages.
pub fn has_legacy_manager(packages: &str) -> (r: bool)
    ensures
        r == has_subseq(packages@, LEGACY_MANAGER_PACKAGE@),
{
    crate::text::str_contains(packages, LEGACY_MANAGER_PACKAGE)
}

} // verus!
