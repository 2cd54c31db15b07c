//! The backend resolver: which storage of the guest an operation changes,
//! where its root is, and where the files that the workflows touch lie
//! below it.

use crate::constants::{
    BOOTANIM_RC_GZ_PATH, BOOTANIM_RC_PATH, INIT_HW_DIR, MAGISKTMP, MAGISK_DIR, VENDOR_SELINUX,
    WAYDROID_DIR,
};
use crate::paths::{join, join_path};
use vstd::prelude::*;
use vstd::string::StringExecFns;

verus! {

/// The storage of the guest.
#[derive(Clone, Copy, PartialEq, Eq, Debug, Structural)]
pub enum Backend {
    /// A writable overlay directory on the host.
    Overlay,
    /// Disk images, mounted through a loop device for the change.
    LoopImage,
}

/// The system partition of the guest as it can be changed.
#[derive(Debug)]
pub struct Root {
    pub backend: Backend,
    pub path: String,
}

/// The backend that the configuration asks for.
pub fn backend(has_overlay: bool) -> (b: Backend)
    ensures
        b == (if has_overlay {
            Backend::Overlay
        } else {
            Backend::LoopImage
        }),
{
    if has_overlay {
        Backend::Overlay
    } else {
        Backend::LoopImage
    }
}

/// Where the root is: the overlay directory of the runtime, or the mount
/// point in the scratch directory.
pub open spec fn root_path(has_overlay: bool, scratch: Seq<char>) -> Seq<char> {
    if has_overlay {
        join_path(WAYDROID_DIR@, "overlay"@)
    } else {
        join_path(scratch, "mnt"@)
    }
}

/// Resolves the root. Where it is the mount point, the images have to be
/// mounted before anything below it is touched.
pub fn resolve_root(has_overlay: bool, scratch: &str) -> (root: Root)
    ensures
        root.backend == (if has_overlay {
            Backend::Overlay
        } else {
            Backend::LoopImage
        }),
        root.path@ == root_path(has_overlay, scratch@),
{
    if has_overlay {
        Root { backend: Backend::Overlay, path: join(WAYDROID_DIR, "overlay") }
    } else {
        Root { backend: Backend::LoopImage, path: join(scratch, "mnt") }
    }
}

/// Where the files that the workflows touch lie.
#[derive(Debug)]
pub struct Layout {
    /// The root.
    pub rootfs: String,
    /// The shadow of the system partition in the overlay.
    pub overlay_rw: String,
    /// The injected tree.
    pub magisk_dir: String,
    /// The directory of the addon script.
    pub addon_dir: String,
    /// The working directory of the daemon.
    pub daemon_dir: String,
    /// The boot-animation init script.
    pub bootanim_rc: String,
    /// Its backup.
    pub bootanim_rc_gz: String,
    /// The directory of the vendor policy.
    pub vendor_selinux: String,
    /// The directory of the zygote init scripts.
    pub init_hw: String,
    /// The data partition of the guest.
    pub waydroid_data: String,
    /// The directory in which the guest stages files for the host.
    pub staged: String,
}

/// The layout below a root, for the data home of the user.
pub fn layout(rootfs: &str, data_home: &str) -> (l: Layout)
    ensures
        l.rootfs@ == rootfs@,
        l.overlay_rw@ == join_path(WAYDROID_DIR@, "overlay_rw/system"@),
        l.magisk_dir@ == join_path(rootfs@, MAGISK_DIR@),
        l.addon_dir@ == join_path(rootfs@, "system/addon.d"@),
        l.daemon_dir@ == join_path(rootfs@, MAGISKTMP@),
        l.bootanim_rc@ == join_path(rootfs@, BOOTANIM_RC_PATH@),
        l.bootanim_rc_gz@ == join_path(rootfs@, BOOTANIM_RC_GZ_PATH@),
        l.vendor_selinux@ == join_path(rootfs@, VENDOR_SELINUX@),
        l.init_hw@ == join_path(rootfs@, INIT_HW_DIR@),
        l.waydroid_data@ == join_path(data_home@, "waydroid/data"@),
        l.staged@ == join_path(join_path(data_home@, "waydroid/data"@), "local/tmp"@),
{
    let waydroid_data = join(data_home, "waydroid/data");
    let staged = join(waydroid_data.as_str(), "local/tmp");
    Layout {
        rootfs: String::from_str(rootfs),
        overlay_rw: join(WAYDROID_DIR, "overlay_rw/system"),
        magisk_dir: join(rootfs, MAGISK_DIR),
        addon_dir: join(rootfs, "system/addon.d"),
        daemon_dir: join(rootfs, MAGISKTMP),
        bootanim_rc: join(rootfs, BOOTANIM_RC_PATH),
        bootanim_rc_gz: join(rootfs, BOOTANIM_RC_GZ_PATH),
        vendor_selinux: join(rootfs, VENDOR_SELINUX),
        init_hw: join(rootfs, INIT_HW_DIR),
        waydroid_data,
        staged,
    }
}

/// Where the injected tree is looked for: in the running guest if a session
/// runs, else under the root.
pub open spec fn probe_path(session_running: bool, has_overlay: bool, scratch: Seq<char>) -> Seq<
    char,
> {
    if session_running {
        join_path(join_path(WAYDROID_DIR@, "rootfs"@), MAGISK_DIR@)
    } else {
        join_path(root_path(has_overlay, scratch), MAGISK_DIR@)
    }
}

/// Where the injected tree is looked for.
pub fn magisk_dir_probe(session_running: bool, has_overlay: bool, scratch: &str) -> (path: String)
    ensures
        path@ == probe_path(session_running, has_overlay, scratch@),
{
    if session_running {
        let rootfs = join(WAYDROID_DIR, "rootfs");
        join(rootfs.as_str(), MAGISK_DIR)
    } else {
        let root = resolve_root(has_overlay, scratch);
        join(root.path.as_str(), MAGISK_DIR)
    }
}

/// Whether the framework is installed, as its two markers tell: its binary
/// under the root, and the twin of it on the data partition.
#[derive(Clone, Copy, PartialEq, Eq, Debug, Structural)]
pub enum InstalledState {
    /// Both markers are there.
    Installed,
    /// One marker is there: this counts as not installed, and asks for a
    /// clean-up.
    Partial,
    /// Neither marker is there.
    Absent,
}

/// What the two markers tell.
pub open spec fn spec_installed_state(root: bool, data: bool) -> InstalledState {
    if root && data {
        InstalledState::Installed
    } else if root || data {
        InstalledState::Partial
    } else {
        InstalledState::Absent
    }
}

/// Reads the two markers: the marker of the root, and the marker of the
/// data partition.
pub fn installed_state(root: bool, data: bool) -> (state: InstalledState)
    ensures
        state == spec_installed_state(root, data),
{
    if root && data {
        InstalledState::Installed
    } else if root || data {
        InstalledState::Partial
    } else {
        InstalledState::Absent
    }
}

/// Whether the framework counts as set up: its binary is there under the
/// root and on the data partition. Each comes in two names, the plain binary
/// and the 64-bit one; either will do.
pub fn is_set_up(init: bool, init64: bool, data: bool, data64: bool) -> (r: bool)
    ensures
        r == ((init || init64) && (data || data64)),
{
    (init || init64) && (data || data64)
}

/// The directory under which the marker of the root is looked for: the
/// overlay, or the running guest.
pub fn marker_root(has_overlay: bool) -> (path: String)
    ensures
        path@ == join_path(
            join_path(
                WAYDROID_DIR@,
                if has_overlay {
                    "overlay"@
                } else {
                    "rootfs"@
                },
            ),
            MAGISK_DIR@,
        ),
{
    let base = if has_overlay {
        join(WAYDROID_DIR, "overlay")
    } else {
        join(WAYDROID_DIR, "rootfs")
    };
    join(base.as_str(), MAGISK_DIR)
}

/// The directory under which the marker of the data partition is looked
/// for.
pub fn marker_data(data_home: &str) -> (path: String)
    ensures
        path@ == join_path(data_home@, "waydroid/data/adb/magisk"@),
{
    join(data_home, "waydroid/data/adb/magisk")
}

} // verus!
