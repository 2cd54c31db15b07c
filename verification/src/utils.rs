//! The mount manager and the scratch directory: the plans that mount and
//! unmount the images of the guest, and what decides over them.

use crate::workflow::{
    always, given, given2, step, Action, Cond, Fact, Fault, Image, Message, Op, Phase, Step,
    RETRY_LIMIT,
};
use crate::container::{spec_get_data_home, ContainerError, WaydroidContainer};
use crate::paths::{join, join_path};
use crate::text::{
    eq_chars, lines_of, split_lines_chars, split_whitespace_chars, str_eq, texts,
    to_chars, trim_of, trim_str, views, words_of,
};
use vstd::prelude::*;
use vstd::string::StringExecFns;

verus! {

/// The size below which the system image is grown: three gibibytes.
pub const SYSTEM_IMAGE_SIZE: u64 = 3221225472;

/// The size below which the vendor image is grown: one gibibyte.
pub const VENDOR_IMAGE_SIZE: u64 = 1073741824;

/// The name of the scratch directory below the directory for temporary files.
pub const SCRATCH_NAME: &'static str = "waydroidsu";

/// The size below which an image is grown.
pub open spec fn image_size(image: Image) -> u64 {
    match image {
        Image::System => SYSTEM_IMAGE_SIZE,
        Image::Vendor => VENDOR_IMAGE_SIZE,
    }
}

/// Whether an image of `size` bytes has to be grown. An image that has its
/// size is left alone, so that growing it twice changes nothing.
pub fn needs_resize(size: u64, image: Image) -> (r: bool)
    ensures
        r == (size < image_size(image)),
{
    match image {
        Image::System => size < SYSTEM_IMAGE_SIZE,
        Image::Vendor => size < VENDOR_IMAGE_SIZE,
    }
}

/// The file name of an image.
pub open spec fn image_name(image: Image) -> Seq<char> {
    match image {
        Image::System => "system.img"@,
        Image::Vendor => "vendor.img"@,
    }
}

/// The path of an image, below the directory that the configuration names.
pub fn image_path(images_path: &str, image: Image) -> (path: String)
    ensures
        path@ == join_path(images_path@, image_name(image)),
{
    match image {
        Image::System => join(images_path, "system.img"),
        Image::Vendor => join(images_path, "vendor.img"),
    }
}

/// The path of the system image.
pub fn get_systemimg_path(images_path: &str) -> (path: String)
    ensures
        path@ == join_path(images_path@, image_name(Image::System)),
{
    image_path(images_path, Image::System)
}

/// The path of the vendor image.
pub fn get_vendorimg_path(images_path: &str) -> (path: String)
    ensures
        path@ == join_path(images_path@, image_name(Image::Vendor)),
{
    image_path(images_path, Image::Vendor)
}

/// The scratch directory, below the directory for temporary files.
pub fn scratch_dir(temp_dir: &str) -> (path: String)
    ensures
        path@ == join_path(temp_dir@, SCRATCH_NAME@),
{
    join(temp_dir, SCRATCH_NAME)
}

/// Where an image is mounted: the system image at `mnt` in the scratch
/// directory, the vendor image at `vendor` below that.
pub open spec fn spec_mount_point(temp_dir: Seq<char>, image: Image) -> Seq<char> {
    let mnt = join_path(join_path(temp_dir, SCRATCH_NAME@), "mnt"@);
    match image {
        Image::System => mnt,
        Image::Vendor => join_path(mnt, "vendor"@),
    }
}

/// Where an image is mounted.
pub fn mount_point(temp_dir: &str, image: Image) -> (path: String)
    ensures
        path@ == spec_mount_point(temp_dir@, image),
{
    let scratch = scratch_dir(temp_dir);
    let mnt = join(scratch.as_str(), "mnt");
    match image {
        Image::System => mnt,
        Image::Vendor => join(mnt.as_str(), "vendor"),
    }
}

/// The command that checks the file system of an image, and repairs it
/// without asking.
pub fn fsck_command(image_path: &str) -> (argv: Vec<String>)
    ensures
        texts(argv@) == seq!["e2fsck"@, "-y"@, "-f"@, trim_of(image_path@)],
{
    let mut argv: Vec<String> = Vec::new();
    argv.push(String::from_str("e2fsck"));
    argv.push(String::from_str("-y"));
    argv.push(String::from_str("-f"));
    argv.push(trim_str(image_path));
    assert(texts(argv@) =~= seq!["e2fsck"@, "-y"@, "-f"@, trim_of(image_path@)]);
    argv
}

/// The size that an image is grown to, as the resize tool reads it.
pub open spec fn resize_target(image: Image) -> Seq<char> {
    match image {
        Image::System => "3G"@,
        Image::Vendor => "1G"@,
    }
}

/// The command that grows an image to its size.
pub fn resize_command(image_path: &str, image: Image) -> (argv: Vec<String>)
    ensures
        texts(argv@) == seq!["resize2fs"@, trim_of(image_path@), resize_target(image)],
{
    let mut argv: Vec<String> = Vec::new();
    argv.push(String::from_str("resize2fs"));
    argv.push(trim_str(image_path));
    match image {
        Image::System => argv.push(String::from_str("3G")),
        Image::Vendor => argv.push(String::from_str("1G")),
    }
    assert(texts(argv@) =~= seq!["resize2fs"@, trim_of(image_path@), resize_target(image)]);
    argv
}

/// The command that mounts an image at a mount point, read and write,
/// through a loop device.
pub fn mount_command(image_path: &str, target: &str) -> (argv: Vec<String>)
    ensures
        texts(argv@) == seq![
            "mount"@,
            "-o"@,
            "rw,loop"@,
            trim_of(image_path@),
            trim_of(target@),
        ],
{
    let mut argv: Vec<String> = Vec::new();
    argv.push(String::from_str("mount"));
    argv.push(String::from_str("-o"));
    argv.push(String::from_str("rw,loop"));
    argv.push(trim_str(image_path));
    argv.push(trim_str(target));
    assert(texts(argv@) =~= seq![
        "mount"@,
        "-o"@,
        "rw,loop"@,
        trim_of(image_path@),
        trim_of(target@),
    ]);
    argv
}

/// The command that unmounts a mount point and all below it.
pub fn umount_command(target: &str) -> (argv: Vec<String>)
    ensures
        texts(argv@) == seq!["umount"@, "-R"@, target@],
{
    let mut argv: Vec<String> = Vec::new();
    argv.push(String::from_str("umount"));
    argv.push(String::from_str("-R"));
    argv.push(String::from_str(target));
    assert(texts(argv@) =~= seq!["umount"@, "-R"@, target@]);
    argv
}

/// A line of the mount table names `target` as its mount point: as the
/// second of its words.
pub open spec fn names_mount_point(line: Seq<char>, target: Seq<char>) -> bool {
    words_of(line).len() >= 2 && words_of(line)[1] == target
}

/// Some line of the mount table names `target` as its mount point.
pub open spec fn mounted_at(mounts: Seq<char>, target: Seq<char>) -> bool {
    exists|i: int|
        0 <= i < lines_of(mounts, '\n', '\r').len() && names_mount_point(
            #[trigger] lines_of(mounts, '\n', '\r')[i],
            target,
        )
}

/// Whether something is mounted at `target_mount`, going by the text of the
/// mount table.
pub fn is_mounted_at(mounts: &str, target_mount: &str) -> (r: bool)
    ensures
        r == mounted_at(mounts@, target_mount@),
{
    let text = to_chars(mounts);
    let target = to_chars(target_mount);
    let lines = split_lines_chars(text.as_slice());
    let mut i: usize = 0;
    while i < lines.len()
        invariant
            i <= lines@.len(),
            target@ == target_mount@,
            views(lines@) == lines_of(mounts@, '\n', '\r'),
            forall|k: int| 0 <= k < i ==> !names_mount_point(#[trigger] views(lines@)[k], target@),
        decreases lines@.len() - i,
    {
        let words = split_whitespace_chars(lines[i].as_slice());
        assert(views(lines@)[i as int] == lines@[i as int]@);
        if words.len() >= 2 {
            assert(views(words@)[1] == words@[1]@);
            if eq_chars(words[1].as_slice(), target.as_slice()) {
                return true;
            }
        }
        i += 1;
    }
    false
}

/// The name of the guest's architecture for the host's, and whether the host
/// is supported: `x86_64` and `aarch64` are.
pub fn get_arch(arch: &str) -> (r: (String, bool))
    ensures
        arch@ == "x86_64"@ ==> r.0@ == "x86_64"@ && r.1,
        arch@ != "x86_64"@ && arch@ == "aarch64"@ ==> r.0@ == "arm64-v8a"@ && r.1,
        arch@ != "x86_64"@ && arch@ != "aarch64"@ ==> r.0@ == arch@ && !r.1,
{
    if str_eq(arch, "x86_64") {
        (String::from_str("x86_64"), true)
    } else if str_eq(arch, "aarch64") {
        (String::from_str("arm64-v8a"), true)
    } else {
        (String::from_str(arch), false)
    }
}

/// Whether the user is root, going by what `whoami` printed.
pub fn root(whoami: &str) -> (r: bool)
    ensures
        r == (trim_of(whoami@) == "root"@),
{
    let user = trim_str(whoami);
    str_eq(user.as_str(), "root")
}

/// The steps that [`system_image_steps`] returns.
pub open spec fn spec_system_image_steps(
    phase: Phase,
    resize: bool,
    quiet: bool,
    first: Cond,
    second: Cond,
) -> Seq<Step> {
    seq![
        given2(phase, first, second, Op::Observe(Fact::SystemImage)),
        step(phase, first, second, Cond::Not(Fact::SystemImage), Op::Fail(Fault::NoSystemImage)),
        given2(phase, first, second, Op::Do(Action::Fsck(Image::System))),
    ]
    + (if resize {
        seq![
            given2(phase, first, second, Op::Observe(Fact::SystemSmall)),
        ]
    } else {
        Seq::empty()
    })
    + (if resize && !quiet {
        seq![
            step(
                phase,
                first,
                second,
                Cond::Is(Fact::SystemSmall),
                Op::Say(Message::ResizingSystem),
            ),
        ]
    } else {
        Seq::empty()
    })
    + (if resize {
        seq![
            step(
                phase,
                first,
                second,
                Cond::Is(Fact::SystemSmall),
                Op::Do(Action::Resize(Image::System)),
            ),
        ]
    } else {
        Seq::empty()
    })
}

/// The steps that make the system image ready to be mounted, each behind
/// the conditions `first` and `second`: the image has to exist, its file
/// system is checked, and, if `resize` is set, it is grown if it is small.
pub fn system_image_steps(
    phase: Phase,
    resize: bool,
    quiet: bool,
    first: Cond,
    second: Cond,
) -> (plan: Vec<Step>)
    ensures
        plan@ == spec_system_image_steps(phase, resize, quiet, first, second),
{
    let mut plan: Vec<Step> = Vec::new();
    plan.push(given2(phase, first, second, Op::Observe(Fact::SystemImage)));
    plan.push(
        step(phase, first, second, Cond::Not(Fact::SystemImage), Op::Fail(Fault::NoSystemImage)),
    );
    plan.push(given2(phase, first, second, Op::Do(Action::Fsck(Image::System))));
    if resize {
        plan.push(given2(phase, first, second, Op::Observe(Fact::SystemSmall)));
    }
    if resize && !quiet {
        plan.push(
            step(
                phase,
                first,
                second,
                Cond::Is(Fact::SystemSmall),
                Op::Say(Message::ResizingSystem),
            ),
        );
    }
    if resize {
        plan.push(
            step(
                phase,
                first,
                second,
                Cond::Is(Fact::SystemSmall),
                Op::Do(Action::Resize(Image::System)),
            ),
        );
    }
    assert(plan@ =~= spec_system_image_steps(phase, resize, quiet, first, second));
    plan
}

/// The steps that [`vendor_image_steps`] returns.
pub open spec fn spec_vendor_image_steps(
    phase: Phase,
    resize: bool,
    quiet: bool,
    first: Cond,
    second: Cond,
) -> Seq<Step> {
    seq![
        given2(phase, first, second, Op::Observe(Fact::VendorImage)),
        step(phase, first, second, Cond::Not(Fact::VendorImage), Op::Fail(Fault::NoVendorImage)),
        given2(phase, first, second, Op::Do(Action::Fsck(Image::Vendor))),
    ]
    + (if resize {
        seq![
            given2(phase, first, second, Op::Observe(Fact::VendorSmall)),
        ]
    } else {
        Seq::empty()
    })
    + (if resize && !quiet {
        seq![
            step(
                phase,
                first,
                second,
                Cond::Is(Fact::VendorSmall),
                Op::Say(Message::ResizingVendor),
            ),
        ]
    } else {
        Seq::empty()
    })
    + (if resize {
        seq![
            step(
                phase,
                first,
                second,
                Cond::Is(Fact::VendorSmall),
                Op::Do(Action::Resize(Image::Vendor)),
            ),
        ]
    } else {
        Seq::empty()
    })
}

/// The steps that make the vendor image ready to be mounted, each behind
/// the conditions `first` and `second`: the image has to exist, its file
/// system is checked, and, if `resize` is set, it is grown if it is small.
pub fn vendor_image_steps(
    phase: Phase,
    resize: bool,
    quiet: bool,
    first: Cond,
    second: Cond,
) -> (plan: Vec<Step>)
    ensures
        plan@ == spec_vendor_image_steps(phase, resize, quiet, first, second),
{
    let mut plan: Vec<Step> = Vec::new();
    plan.push(given2(phase, first, second, Op::Observe(Fact::VendorImage)));
    plan.push(
        step(phase, first, second, Cond::Not(Fact::VendorImage), Op::Fail(Fault::NoVendorImage)),
    );
    plan.push(given2(phase, first, second, Op::Do(Action::Fsck(Image::Vendor))));
    if resize {
        plan.push(given2(phase, first, second, Op::Observe(Fact::VendorSmall)));
    }
    if resize && !quiet {
        plan.push(
            step(
                phase,
                first,
                second,
                Cond::Is(Fact::VendorSmall),
                Op::Say(Message::ResizingVendor),
            ),
        );
    }
    if resize {
        plan.push(
            step(
                phase,
                first,
                second,
                Cond::Is(Fact::VendorSmall),
                Op::Do(Action::Resize(Image::Vendor)),
            ),
        );
    }
    assert(plan@ =~= spec_vendor_image_steps(phase, resize, quiet, first, second));
    plan
}

/// The steps that [`attach_steps`] returns.
pub open spec fn spec_attach_steps(
    phase: Phase,
    quiet: bool,
    first: Cond,
    second: Cond,
) -> Seq<Step> {
    seq![
        given2(phase, first, second, Op::Do(Action::MakeMountPoint)),
    ]
    + (if !quiet {
        seq![
            given2(phase, first, second, Op::Say(Message::MountingSystem)),
        ]
    } else {
        Seq::empty()
    })
    + seq![
        given2(phase, first, second, Op::Retry(Action::Mount(Image::System), RETRY_LIMIT)),
    ]
    + (if !quiet {
        seq![
            given2(phase, first, second, Op::Say(Message::MountingVendor)),
        ]
    } else {
        Seq::empty()
    })
    + seq![
        given2(phase, first, second, Op::Retry(Action::Mount(Image::Vendor), RETRY_LIMIT)),
    ]
}

/// The steps that mount the system image at the scratch mount point and
/// the vendor image below it, each tried up to five times, each behind the
/// conditions `first` and `second`.
pub fn attach_steps(phase: Phase, quiet: bool, first: Cond, second: Cond) -> (plan: Vec<Step>)
    ensures
        plan@ == spec_attach_steps(phase, quiet, first, second),
{
    let mut plan: Vec<Step> = Vec::new();
    plan.push(given2(phase, first, second, Op::Do(Action::MakeMountPoint)));
    if !quiet {
        plan.push(given2(phase, first, second, Op::Say(Message::MountingSystem)));
    }
    plan.push(given2(phase, first, second, Op::Retry(Action::Mount(Image::System), RETRY_LIMIT)));
    if !quiet {
        plan.push(given2(phase, first, second, Op::Say(Message::MountingVendor)));
    }
    plan.push(given2(phase, first, second, Op::Retry(Action::Mount(Image::Vendor), RETRY_LIMIT)));
    assert(plan@ =~= spec_attach_steps(phase, quiet, first, second));
    plan
}

/// The steps that [`mount_steps`] returns.
pub open spec fn spec_mount_steps(
    phase: Phase,
    resize: bool,
    quiet: bool,
    check_session: bool,
    first: Cond,
    second: Cond,
) -> Seq<Step> {
    (if check_session {
        seq![
            given2(phase, first, second, Op::Observe(Fact::SessionRunning)),
            step(phase, first, second, Cond::Is(Fact::SessionRunning), Op::Do(Action::StopSession)),
        ]
    } else {
        Seq::empty()
    })
    + spec_system_image_steps(phase, resize, quiet, first, second)
    + spec_vendor_image_steps(phase, resize, quiet, first, second)
    + spec_attach_steps(phase, quiet, first, second)
}

/// The steps that mount the two images at the scratch mount point, each
/// behind the conditions `first` and `second`: the session is stopped if
/// `check_session` is set and one runs; then each image is made ready,
/// grown to its size if `resize` is set and it is small, and both are
/// mounted.
pub fn mount_steps(
    phase: Phase,
    resize: bool,
    quiet: bool,
    check_session: bool,
    first: Cond,
    second: Cond,
) -> (plan: Vec<Step>)
    ensures
        plan@ == spec_mount_steps(phase, resize, quiet, check_session, first, second),
{
    let mut plan: Vec<Step> = Vec::new();
    if check_session {
        plan.push(given2(phase, first, second, Op::Observe(Fact::SessionRunning)));
        plan.push(
            step(phase, first, second, Cond::Is(Fact::SessionRunning), Op::Do(Action::StopSession)),
        );
    }
    let mut part = system_image_steps(phase, resize, quiet, first, second);
    plan.append(&mut part);
    let mut part = vendor_image_steps(phase, resize, quiet, first, second);
    plan.append(&mut part);
    let mut part = attach_steps(phase, quiet, first, second);
    plan.append(&mut part);
    assert(plan@ =~= spec_mount_steps(phase, resize, quiet, check_session, first, second));
    plan
}

/// The steps that [`umount_steps`] returns.
pub open spec fn spec_umount_steps(
    phase: Phase,
    quiet: bool,
    first: Cond,
    second: Cond,
) -> Seq<Step> {
    (if !quiet {
        seq![
            given2(phase, first, second, Op::Say(Message::Unmounting)),
        ]
    } else {
        Seq::empty()
    })
    + seq![
        given2(phase, first, second, Op::Retry(Action::Unmount, RETRY_LIMIT)),
    ]
}

/// The steps that unmount the scratch mount point and all below it, tried
/// up to five times, each behind the conditions `first` and `second`.
pub fn umount_steps(phase: Phase, quiet: bool, first: Cond, second: Cond) -> (plan: Vec<Step>)
    ensures
        plan@ == spec_umount_steps(phase, quiet, first, second),
{
    let mut plan: Vec<Step> = Vec::new();
    if !quiet {
        plan.push(given2(phase, first, second, Op::Say(Message::Unmounting)));
    }
    plan.push(given2(phase, first, second, Op::Retry(Action::Unmount, RETRY_LIMIT)));
    assert(plan@ =~= spec_umount_steps(phase, quiet, first, second));
    plan
}

/// The steps that [`scratch_steps`] returns.
pub open spec fn spec_scratch_steps(phase: Phase, has_overlay: bool) -> Seq<Step> {
    seq![
        always(phase, Op::Observe(Fact::ScratchExists)),
    ]
    + (if !has_overlay {
        seq![
            given(phase, Cond::Is(Fact::ScratchExists), Op::Observe(Fact::Mounted)),
        ]
    } else {
        Seq::empty()
    })
    + (if !has_overlay {
        spec_umount_steps(phase, true, Cond::Is(Fact::ScratchExists), Cond::Is(Fact::Mounted))
    } else {
        Seq::empty()
    })
    + seq![
        given(phase, Cond::Is(Fact::ScratchExists), Op::Do(Action::RemoveScratch)),
        always(phase, Op::Do(Action::CreateScratch)),
    ]
}

/// The steps that give a workflow an empty scratch directory: what an
/// earlier run left is removed, after the scratch mount point is unmounted
/// if the root is an image and something is mounted there.
pub fn scratch_steps(phase: Phase, has_overlay: bool) -> (plan: Vec<Step>)
    ensures
        plan@ == spec_scratch_steps(phase, has_overlay),
{
    let mut plan: Vec<Step> = Vec::new();
    plan.push(always(phase, Op::Observe(Fact::ScratchExists)));
    if !has_overlay {
        plan.push(given(phase, Cond::Is(Fact::ScratchExists), Op::Observe(Fact::Mounted)));
    }
    if !has_overlay {
        let mut part = umount_steps(
            phase,
            true,
            Cond::Is(Fact::ScratchExists),
            Cond::Is(Fact::Mounted),
        );
        plan.append(&mut part);
    }
    plan.push(given(phase, Cond::Is(Fact::ScratchExists), Op::Do(Action::RemoveScratch)));
    plan.push(always(phase, Op::Do(Action::CreateScratch)));
    assert(plan@ =~= spec_scratch_steps(phase, has_overlay));
    plan
}

/// The steps that mount the system image and the vendor image, after the
/// session is stopped if one runs. An image that is small is grown to its
/// size if `resize_if_small` is set. The messages are left out if `quiet`.
pub fn mount_system(resize_if_small: bool, quiet: bool) -> (plan: Vec<Step>)
    ensures
        plan@ == spec_mount_steps(
            Phase::Applying,
            resize_if_small,
            quiet,
            true,
            Cond::Always,
            Cond::Always,
        ),
{
    mount_steps(Phase::Applying, resize_if_small, quiet, true, Cond::Always, Cond::Always)
}

/// The steps that unmount the images. The message is left out if `quiet`.
pub fn umount_system(quiet: bool) -> (plan: Vec<Step>)
    ensures
        plan@ == spec_umount_steps(Phase::Finalizing, quiet, Cond::Always, Cond::Always),
{
    umount_steps(Phase::Finalizing, quiet, Cond::Always, Cond::Always)
}

/// The steps that give a workflow an empty scratch directory.
pub fn create_tmpdir(has_overlay: bool) -> (plan: Vec<Step>)
    ensures
        plan@ == spec_scratch_steps(Phase::Staging, has_overlay),
{
    scratch_steps(Phase::Staging, has_overlay)
}

/// The data home of the user who started the session: below the home that
/// `sudo` names, unless that is root's; without such a home, what the
/// session names.
pub fn get_data_home(sudo_home: Option<&str>, container: &WaydroidContainer) -> (r: Result<
    String,
    ContainerError,
>)
    ensures
        match r {
            Ok(path) => spec_get_data_home(
                match sudo_home {
                    Some(home) => Some(home@),
                    None => None,
                },
                container.attrs(),
            ) == Ok::<Seq<char>, ContainerError>(path@),
            Err(e) => spec_get_data_home(
                match sudo_home {
                    Some(home) => Some(home@),
                    None => None,
                },
                container.attrs(),
            ) == Err::<Seq<char>, ContainerError>(e),
        },
{
    container.get_data_home(sudo_home)
}

} // verus!
