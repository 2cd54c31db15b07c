//! Fixed paths and file contents.

use vstd::prelude::*;

verus! {

/// Where the container runtime keeps its state on the host.
pub const WAYDROID_DIR: &'static str = "/var/lib/waydroid";

/// The container runtime's configuration file.
pub const WAYDROID_CONFIG: &'static str = "/var/lib/waydroid/waydroid.cfg";

/// The injected tree, relative to the root of the system partition.
pub const MAGISK_DIR: &'static str = "system/etc/init/magisk";

/// The directory in which the daemon works inside the guest, relative to the
/// root of the system partition.
pub const MAGISKTMP: &'static str = "debug_ramdisk";

/// The boot-animation init script, relative to the root.
pub const BOOTANIM_RC_PATH: &'static str = "system/etc/init/bootanim.rc";

/// The backup of the boot-animation init script, relative to the root.
pub const BOOTANIM_RC_GZ_PATH: &'static str = "system/etc/init/bootanim.rc.gz";

/// The script that keeps the framework across guest updates, relative to the
/// root.
pub const ADDON_SCRIPT: &'static str = "system/addon.d/99-magisk.sh";

/// The directory of the vendor security policy, relative to the root.
pub const VENDOR_SELINUX: &'static str = "vendor/etc/selinux";

/// The shadow of the vendor policy directory, relative to the runtime's
/// state directory.
pub const VENDOR_SELINUX_RW: &'static str = "overlay_rw/vendor/etc/selinux";

/// The directory of the zygote init scripts, relative to the root.
pub const INIT_HW_DIR: &'static str = "system/etc/init/hw";

/// The injected tree on the guest's data partition, relative to the data
/// directory.
pub const ADB_MAGISK: &'static str = "adb/magisk";

pub const PRECOMPILED_SEPOLICY: &'static str = "precompiled_sepolicy";

pub const PRECOMPILED_SEPOLICY_GZ: &'static str = "precompiled_sepolicy.gz";

pub const VENDOR_FILE_CONTEXTS: &'static str = "vendor_file_contexts";

pub const VENDOR_FILE_CONTEXTS_GZ: &'static str = "vendor_file_contexts.gz";

pub const ZYGOTE32_RC: &'static str = "init.zygote32.rc";

pub const ZYGOTE32_RC_GZ: &'static str = "init.zygote32.rc.gz";

pub const ZYGOTE64_32_RC: &'static str = "init.zygote64_32.rc";

pub const ZYGOTE64_32_RC_GZ: &'static str = "init.zygote64_32.rc.gz";

/// The service stanza of the boot-animation init script as the guest ships
/// it. The patched script starts with it.
pub const BOOTANIM_RC: &'static str = "service bootanim /system/bin/bootanimation
    class core animation
    user graphics
    group graphics audio
    disabled
    oneshot
    ioprio rt 0
    task_profiles MaxPerformance
";

/// The directives of the legacy init protocol up to the first service name: the
/// work at early boot, and the start of the first service.
pub const LEGACY_START: &'static str = "
on post-fs-data
    start logd
    mkdir /sbin 0755 root root
    mkdir /dev/magisk_tmp 0700 root root
    exec u:r:su:s0 root root -- /system/etc/init/magisk/magiskpolicy --live --magisk \"allow * magisk_file lnk_file *\"
    exec u:r:magisk:s0 root root -- /system/etc/init/magisk/magisk64 --auto-selinux --setup-sbin /system/etc/init/magisk /sbin
    rm /dev/.magisk_unblock
    start ";

/// What follows the first service name: the wait for the daemon, and the
/// head of the stanza of the first service.
pub const LEGACY_WAIT: &'static str = "
    wait /dev/.magisk_unblock 40
    rm /dev/.magisk_unblock

service ";

/// What follows the second mention of the first service name: its stanza,
/// and the head of the stanza of the second service.
pub const LEGACY_SERVICE: &'static str = " /sbin/magisk --auto-selinux --post-fs-data
    user root
    seclabel u:r:magisk:s0
    oneshot

service ";

/// What follows the second service name: its stanza, and what calls the
/// daemon again at later boot and when zygote restarts.
pub const LEGACY_END: &'static str = " /sbin/magisk --auto-selinux --service
    class late_start
    user root
    seclabel u:r:magisk:s0
    oneshot

on property:sys.boot_completed=1
    mkdir /data/adb/magisk 755
    exec u:r:magisk:s0 root root -- /sbin/magisk --auto-selinux --boot-complete

on property:init.svc.zygote=restarting
    exec u:r:magisk:s0 root root -- /sbin/magisk --auto-selinux --zygote-restart

on property:init.svc.zygote=stopped
    exec u:r:magisk:s0 root root -- /sbin/magisk --auto-selinux --zygote-restart
";

/// The directives of the modern init protocol up to the first service name: the
/// work at early boot, and the start of the first service.
pub const MODERN_START: &'static str = "
on post-fs-data
    start logd
    mkdir /debug_ramdisk 0755 root root
    mkdir /data/adb 0700 root root
    exec u:r:su:s0 root root -- /system/bin/sh /system/etc/init/magisk/loadpolicy.sh
    exec u:r:magisk:s0 0 0 -- /system/etc/init/magisk/magisk --setup /system/etc/init/magisk /debug_ramdisk
    rm /dev/.magisk_unblock
    start ";

/// What follows the first service name: the wait for the daemon, and the
/// head of the stanza of the first service.
pub const MODERN_WAIT: &'static str = "
    wait /dev/.magisk_unblock 40
    rm /dev/.magisk_unblock

service ";

/// What follows the second mention of the first service name: its stanza,
/// and the head of the stanza of the second service.
pub const MODERN_SERVICE: &'static str = " /debug_ramdisk/magisk --post-fs-data
    user root
    seclabel u:r:magisk:s0
    oneshot

service ";

/// What follows the second service name: its stanza, and what calls the
/// daemon again at later boot and when zygote restarts.
pub const MODERN_END: &'static str = " /debug_ramdisk/magisk --service
    class late_start
    user root
    seclabel u:r:magisk:s0
    oneshot

on property:sys.boot_completed=1
    mkdir /data/adb/magisk 755
    exec u:r:magisk:s0 0 0 -- /debug_ramdisk/magisk --boot-complete

on property:init.svc.zygote=restarting
    exec u:r:magisk:s0 0 0 -- /debug_ramdisk/magisk --zygote-restart

on property:init.svc.zygote=stopped
    exec u:r:magisk:s0 0 0 -- /debug_ramdisk/magisk --zygote-restart
";

/// The directive that a patched zygote init script holds after each zygote
/// service line.
pub const ZYGOTE_RESTART_LINE: &'static str =
    "    exec u:r:magisk:s0 0 0 -- /debug_ramdisk/magisk --zygote-restart";

/// What marks a zygote service line.
pub const ZYGOTE_SERVICE: &'static str = "service zygote ";

/// The first rule that a patched file-context list holds.
pub const CONTEXT_RULE_TMP: &'static str = "/debug_ramdisk(/.*)?    u:object_r:magisk_file:s0";

/// The second rule that a patched file-context list holds.
pub const CONTEXT_RULE_DATA: &'static str = "/data/adb/magisk(/.*)?   u:object_r:magisk_file:s0";

/// The extended attribute that holds a file's security label.
pub const SELINUX_ATTR: &'static str = "security.selinux";

/// The security label of the injected tree.
pub const MAGISK_FILE_LABEL: &'static str = "u:object_r:magisk_file:s0";

/// The security label of the zygote init scripts.
pub const SYSTEM_FILE_LABEL: &'static str = "u:object_r:system_file:s0";

/// The stem of the names under which the framework's own init scripts know
/// its two services. A patched script holds it nowhere: there the services go
/// by names that are drawn anew with every patch.
pub const SERVICE_STEM: &'static str = "magisk_service_";

/// What the name of a plain file is followed by in the name of the file
/// whose presence says that a patch introduced the plain file.
pub const SYNTHETIC_SUFFIX: &'static str = ".wsu-new";

/// The script that loads the patched security policy at early boot.
pub const LOADPOLICY: &'static str = "#!/system/bin/sh
MAGISK_DIR=/system/etc/init/magisk
POLICY=/vendor/etc/selinux/precompiled_sepolicy

if [ -e /sys/fs/selinux/load ] && [ -e \"$POLICY\" ]; then
    \"$MAGISK_DIR/magiskpolicy\" --load \"$POLICY\" --live --magisk
fi
";

} // verus!
