use waydroidsu::backend::{
    backend, installed_state, is_set_up, layout, magisk_dir_probe, marker_data, marker_root,
    resolve_root, Backend, InstalledState,
};
use waydroidsu::cli::{
    apk_path, denylist_call, is_yes, kitsune_or_err, magisk_or_err, magiskhide_call, preflight,
    AddRemoveArgs, AppletError, Cli, Commands, DenylistCommand, InstallArgs, MagiskhideCommand,
    ModuleCommand, ModuleDisableEnableArg, ModuleInstallArg, ModuleRemoveArg, PreflightError,
    SulistSubCommand, ZygiskCommand,
};
use waydroidsu::config::{config_value, images_path, is_readable, ConfigError};
use waydroidsu::container::{has_overlay, ContainerError, WaydroidContainer};
use waydroidsu::install::{
    companion_library, injected_name, is_required_asset, manifest_url, payload_markers,
    prepare_libs, validate_payload, InstallError, PayloadLayout,
};
use waydroidsu::magisk::MagiskError;
use waydroidsu::magisk_files::get_status;
use waydroidsu::magisk_files::{has_legacy_manager, has_manager, PatchError};
use waydroidsu::print::{
    describe, describe_applet_error, describe_container_error, describe_fault,
    describe_install_error, describe_magisk_error, describe_patch_error,
    describe_preflight_error, describe_su_error, msg_err_str, print_status, print_superuser, Style,
};
use waydroidsu::selinux::getenforce;
use waydroidsu::su::{guest_command, join_args, su_result, waydroid_su, ExecMode, SuError};
use waydroidsu::utils::{
    fsck_command, get_arch, get_data_home, get_systemimg_path, get_vendorimg_path, is_mounted_at,
    mount_command, mount_point, needs_resize, resize_command, root, scratch_dir, umount_command,
};
use waydroidsu::workflow::{Action, Fault, GuestStep, Image, Message};

fn strings(v: &[&str]) -> Vec<String> {
    v.iter().map(|s| s.to_string()).collect()
}

fn session(attrs: &[(&str, &str)]) -> WaydroidContainer {
    WaydroidContainer::new(attrs.iter().map(|(k, v)| (k.to_string(), v.to_string())).collect())
}

#[test]
fn the_overlay_is_on_when_the_configuration_says_true() {
    assert_eq!(has_overlay("[waydroid]\nmount_overlays = True\n"), Ok(true));
    assert_eq!(has_overlay("[waydroid]\nmount_overlays = False\n"), Ok(false));
    assert_eq!(has_overlay("[waydroid]\nmount_overlays = true\n"), Ok(false));
    assert_eq!(has_overlay("[waydroid]\nmount_overlays=True ; the default\n"), Ok(true));
    assert_eq!(has_overlay("[ WayDroid ]\r\nMount_Overlays = True\r\n"), Ok(true));
    assert_eq!(has_overlay("[waydroid]\nmount_overlays = True\nmount_overlays = no\n"), Ok(false));
    assert_eq!(has_overlay("[properties]\nmount_overlays = True\n"), Err(ConfigError::MissingKey));
    assert_eq!(has_overlay("[waydroid]\nmount_overlays\n"), Err(ConfigError::MissingKey));
    assert_eq!(has_overlay("[waydroid]\n# mount_overlays = True\n"), Err(ConfigError::MissingKey));
    assert_eq!(has_overlay(""), Err(ConfigError::MissingKey));
}

#[test]
fn a_configuration_that_cannot_be_parsed_is_refused() {
    assert_eq!(has_overlay("[waydroid\nmount_overlays = True\n"), Err(ConfigError::Malformed));
    assert_eq!(has_overlay("[waydroid]\n = True\n"), Err(ConfigError::Malformed));
    assert_eq!(has_overlay("][\n[waydroid]\nmount_overlays = True\n"), Err(ConfigError::Malformed));
    assert_eq!(has_overlay("[waydroid]\nmount_overlays = True\nx ] y [ z\n"), Err(ConfigError::Malformed));
    assert_eq!(has_overlay("[waydroid]\nmount_overlays = True\nx ] y ; [ z\n"), Ok(true));
    assert_eq!(has_overlay("[waydroid]\nmount_overlays = True\nx ] y # [\n"), Ok(true));
}

#[test]
fn the_brackets_of_every_line_have_to_be_in_order() {
    for text in ["", "[a]", "a=b", "]", "[", "[]", "x[y]z]", "[a]\n[b]\n", "];[", "a]b\n[c", "]#["] {
        assert!(is_readable(text), "{:?}", text);
    }
    for text in ["][", "a ] b [ c", "[a]\n] [\n", "]]][", "a\r\n][\r\n", "] [ ; ]"] {
        assert!(!is_readable(text), "{:?}", text);
    }
}

#[test]
fn the_images_are_where_the_configuration_says() {
    let config = "[waydroid]\narch = x86_64\nimages_path = /usr/share/waydroid-extra/images\nmount_overlays = True\n";
    assert_eq!(images_path(config), Ok("/usr/share/waydroid-extra/images".to_string()));
    assert_eq!(config_value(config, "arch"), Ok("x86_64".to_string()));
    assert_eq!(config_value(config, "ARCH"), Ok("x86_64".to_string()));
    assert_eq!(config_value(config, "vendor_type"), Err(ConfigError::MissingKey));
    assert_eq!(images_path("[waydroid]\n"), Err(ConfigError::MissingKey));
    assert_eq!(images_path("] ["), Err(ConfigError::Malformed));
}

#[test]
fn the_root_follows_the_backend() {
    assert_eq!(backend(true), Backend::Overlay);
    assert_eq!(backend(false), Backend::LoopImage);
    let root = resolve_root(true, "/tmp/waydroidsu");
    assert_eq!(root.backend, Backend::Overlay);
    assert_eq!(root.path, "/var/lib/waydroid/overlay");
    let root = resolve_root(false, "/tmp/waydroidsu");
    assert_eq!(root.backend, Backend::LoopImage);
    assert_eq!(root.path, "/tmp/waydroidsu/mnt");
}

#[test]
fn the_layout_lies_below_the_root() {
    let l = layout("/var/lib/waydroid/overlay", "/home/u/.local/share");
    assert_eq!(l.rootfs, "/var/lib/waydroid/overlay");
    assert_eq!(l.overlay_rw, "/var/lib/waydroid/overlay_rw/system");
    assert_eq!(l.magisk_dir, "/var/lib/waydroid/overlay/system/etc/init/magisk");
    assert_eq!(l.addon_dir, "/var/lib/waydroid/overlay/system/addon.d");
    assert_eq!(l.daemon_dir, "/var/lib/waydroid/overlay/debug_ramdisk");
    assert_eq!(l.bootanim_rc, "/var/lib/waydroid/overlay/system/etc/init/bootanim.rc");
    assert_eq!(l.bootanim_rc_gz, "/var/lib/waydroid/overlay/system/etc/init/bootanim.rc.gz");
    assert_eq!(l.vendor_selinux, "/var/lib/waydroid/overlay/vendor/etc/selinux");
    assert_eq!(l.init_hw, "/var/lib/waydroid/overlay/system/etc/init/hw");
    assert_eq!(l.waydroid_data, "/home/u/.local/share/waydroid/data");
    assert_eq!(l.staged, "/home/u/.local/share/waydroid/data/local/tmp");
}

#[test]
fn the_tree_is_looked_for_where_the_guest_is() {
    assert_eq!(
        magisk_dir_probe(true, false, "/tmp/waydroidsu"),
        "/var/lib/waydroid/rootfs/system/etc/init/magisk"
    );
    assert_eq!(
        magisk_dir_probe(true, true, "/tmp/waydroidsu"),
        "/var/lib/waydroid/rootfs/system/etc/init/magisk"
    );
    assert_eq!(
        magisk_dir_probe(false, true, "/tmp/waydroidsu"),
        "/var/lib/waydroid/overlay/system/etc/init/magisk"
    );
    assert_eq!(
        magisk_dir_probe(false, false, "/tmp/waydroidsu"),
        "/tmp/waydroidsu/mnt/system/etc/init/magisk"
    );
    assert_eq!(marker_root(true), "/var/lib/waydroid/overlay/system/etc/init/magisk");
    assert_eq!(marker_root(false), "/var/lib/waydroid/rootfs/system/etc/init/magisk");
    assert_eq!(marker_data("/home/u/.local/share"), "/home/u/.local/share/waydroid/data/adb/magisk");
}

#[test]
fn a_lone_marker_does_not_count_as_installed() {
    assert_eq!(installed_state(true, true), InstalledState::Installed);
    assert_eq!(installed_state(true, false), InstalledState::Partial);
    assert_eq!(installed_state(false, true), InstalledState::Partial);
    assert_eq!(installed_state(false, false), InstalledState::Absent);
    assert!(is_set_up(false, true, true, false));
    assert!(!is_set_up(true, true, false, false));
    assert!(!is_set_up(false, false, true, true));
    assert!(!is_set_up(false, false, false, false));
}

#[test]
fn a_session_runs_when_it_has_attributes() {
    let none = session(&[]);
    assert!(!none.is_session_running().running);
    assert!(!none.is_session_running().unfreeze);
    assert!(!none.is_container_running().running);
    assert_eq!(none.start(), Err(ContainerError::NoSession));
    let running = session(&[("user_name", "u"), ("state", "RUNNING")]);
    assert!(running.is_session_running().running);
    assert!(!running.is_session_running().unfreeze);
    assert!(running.is_container_running().running);
    assert_eq!(running.start(), Ok(Action::StartSession));
    let frozen = session(&[("state", "FROZEN")]);
    assert!(frozen.is_session_running().running);
    assert!(frozen.is_session_running().unfreeze);
    assert!(frozen.is_container_running().running);
    assert!(frozen.is_container_running().unfreeze);
    let stopped = session(&[("state", "STOPPED"), ("FROZEN", "state")]);
    assert!(stopped.is_session_running().running);
    assert!(!stopped.is_session_running().unfreeze);
    assert!(!stopped.is_container_running().running);
    assert_eq!(stopped.get_session().len(), 2);
    assert_eq!(WaydroidContainer::stop(true), Action::StopSession);
    assert_eq!(WaydroidContainer::stop(false), Action::StopContainer);
}

#[test]
fn the_data_home_comes_from_sudo_or_from_the_session() {
    let s = session(&[("state", "RUNNING"), ("xdg_data_home", "/home/u/.local/share")]);
    assert_eq!(get_data_home(Some("/home/u"), &s), Ok("/home/u/.local/share".to_string()));
    assert_eq!(get_data_home(Some("/root"), &s), Err(ContainerError::NoDataHome));
    assert_eq!(get_data_home(Some("/home/groot"), &s), Err(ContainerError::NoDataHome));
    assert_eq!(get_data_home(None, &s), Ok("/home/u/.local/share".to_string()));
    assert_eq!(get_data_home(None, &session(&[("state", "RUNNING")])), Err(ContainerError::NoDataHome));
    assert_eq!(get_data_home(None, &session(&[])), Err(ContainerError::NoDataHome));
    assert_eq!(s.attr("state"), Some("RUNNING".to_string()));
    assert_eq!(s.attr("State"), None);
}

#[test]
fn a_session_holds_each_key_once() {
    let s = session(&[
        ("state", "RUNNING"),
        ("xdg_data_home", "/home/u/.local/share"),
        ("state", "FROZEN"),
        ("xdg_data_home", "/x"),
        ("user_name", "u"),
    ]);
    let kept: Vec<(&str, &str)> =
        s.get_session().iter().map(|(k, v)| (k.as_str(), v.as_str())).collect();
    assert_eq!(
        kept,
        vec![("state", "RUNNING"), ("xdg_data_home", "/home/u/.local/share"), ("user_name", "u")]
    );
    assert_eq!(s.attr("state"), Some("RUNNING".to_string()));
    assert_eq!(s.attr("user_name"), Some("u".to_string()));
    assert!(s.is_container_running().running);
    assert!(!s.is_container_running().unfreeze);
    assert!(!s.is_session_running().unfreeze);
    assert!(session(&[]).get_session().is_empty());
}

#[test]
fn a_yes_is_the_letter_y() {
    assert!(is_yes("y"));
    assert!(is_yes("Y"));
    assert!(is_yes("  y\n"));
    assert!(is_yes("\tY \r\n"));
    assert!(!is_yes(""));
    assert!(!is_yes("\n"));
    assert!(!is_yes("yes"));
    assert!(!is_yes("n"));
    assert!(!is_yes("y y"));
    assert!(!is_yes("N"));
}

#[test]
fn an_image_is_grown_only_below_its_size() {
    assert!(needs_resize(0, Image::System));
    assert!(needs_resize(3221225471, Image::System));
    assert!(!needs_resize(3221225472, Image::System));
    assert!(!needs_resize(u64::MAX, Image::System));
    assert!(needs_resize(1073741823, Image::Vendor));
    assert!(!needs_resize(1073741824, Image::Vendor));
    assert!(needs_resize(1073741824, Image::System));
}

#[test]
fn the_host_commands_are_spelled_out() {
    assert_eq!(fsck_command(" /img/system.img\n"), strings(&["e2fsck", "-y", "-f", "/img/system.img"]));
    assert_eq!(resize_command("/img/system.img", Image::System), strings(&["resize2fs", "/img/system.img", "3G"]));
    assert_eq!(resize_command("/img/vendor.img ", Image::Vendor), strings(&["resize2fs", "/img/vendor.img", "1G"]));
    assert_eq!(
        mount_command("/img/system.img", "/tmp/waydroidsu/mnt"),
        strings(&["mount", "-o", "rw,loop", "/img/system.img", "/tmp/waydroidsu/mnt"])
    );
    assert_eq!(umount_command("/tmp/waydroidsu/mnt"), strings(&["umount", "-R", "/tmp/waydroidsu/mnt"]));
    assert_eq!(get_systemimg_path("/usr/share/waydroid-extra/images"), "/usr/share/waydroid-extra/images/system.img");
    assert_eq!(get_vendorimg_path("/usr/share/waydroid-extra/images/"), "/usr/share/waydroid-extra/images/vendor.img");
    assert_eq!(scratch_dir("/tmp"), "/tmp/waydroidsu");
    assert_eq!(mount_point("/tmp", Image::System), "/tmp/waydroidsu/mnt");
    assert_eq!(mount_point("/tmp", Image::Vendor), "/tmp/waydroidsu/mnt/vendor");
}

#[test]
fn the_mount_table_is_read_by_its_second_column() {
    let mounts = "proc /proc proc rw 0 0\n/dev/loop3 /tmp/waydroidsu/mnt ext4 rw,relatime 0 0\n/dev/loop4 /tmp/waydroidsu/mnt/vendor ext4 rw 0 0\n";
    assert!(is_mounted_at(mounts, "/tmp/waydroidsu/mnt"));
    assert!(is_mounted_at(mounts, "/tmp/waydroidsu/mnt/vendor"));
    assert!(is_mounted_at(mounts, "/proc"));
    assert!(!is_mounted_at(mounts, "/tmp/waydroidsu"));
    assert!(!is_mounted_at(mounts, "/dev/loop3"));
    assert!(!is_mounted_at(mounts, "mnt"));
    assert!(!is_mounted_at("", "/"));
    assert!(!is_mounted_at("lonely\n", "lonely"));
    assert!(is_mounted_at("  a\t/x  \r\n", "/x"));
}

#[test]
fn the_architecture_of_the_guest_follows_the_host() {
    assert_eq!(get_arch("x86_64"), ("x86_64".to_string(), true));
    assert_eq!(get_arch("aarch64"), ("arm64-v8a".to_string(), true));
    assert_eq!(get_arch("riscv64"), ("riscv64".to_string(), false));
    assert_eq!(get_arch(""), (String::new(), false));
}

#[test]
fn root_and_enforcement_are_read_from_what_the_tools_print() {
    assert!(root("root\n"));
    assert!(!root("user\n"));
    assert!(!root(""));
    assert!(!root("root user"));
    assert!(getenforce("Enforcing\n"));
    assert!(!getenforce("Permissive\n"));
    assert!(!getenforce("Disabled"));
    assert!(!getenforce(""));
    assert!(!getenforce("enforcing"));
}

#[test]
fn a_guest_command_goes_through_su_directly_or_through_a_shell() {
    let args = strings(&["pm", "list", "packages"]);
    let direct = waydroid_su(&args, false, true, true, false, "/usr/bin:/bin").unwrap();
    assert_eq!(direct.program, "lxc-attach");
    assert_eq!(
        direct.args,
        strings(&["-P", "/var/lib/waydroid/lxc", "-n", "waydroid", "--", "/debug_ramdisk/su", "-c", "pm", "list", "packages"])
    );
    assert_eq!(direct.path, "/usr/bin:/bin:/system/bin:/vendor/bin:/product/bin");
    assert_eq!(direct.mode, ExecMode::Direct);
    let shell = waydroid_su(&args, false, true, true, true, "").unwrap();
    assert_eq!(
        shell.args,
        strings(&["-P", "/var/lib/waydroid/lxc", "-n", "waydroid", "--", "sh", "-c", "/debug_ramdisk/su -c pm list packages"])
    );
    assert_eq!(shell.path, ":/system/bin:/vendor/bin:/product/bin");
    assert_eq!(shell.mode, ExecMode::Shell);
    for enforcing in [true, false] {
        let plain = waydroid_su(&args, true, true, false, enforcing, "/bin").unwrap();
        assert_eq!(
            plain.args,
            strings(&["-P", "/var/lib/waydroid/lxc", "-n", "waydroid", "--", "sh", "-c", "pm list packages"])
        );
    }
}

#[test]
fn a_guest_command_needs_the_container_the_framework_and_an_argument() {
    let args = strings(&["id"]);
    assert_eq!(waydroid_su(&args, false, false, true, false, "").err(), Some(SuError::ContainerNotRunning));
    assert_eq!(waydroid_su(&args, false, true, false, false, "").err(), Some(SuError::NotInstalled));
    assert_eq!(waydroid_su(&Vec::new(), false, true, true, false, "").err(), Some(SuError::EmptyArguments));
    assert_eq!(waydroid_su(&Vec::new(), false, false, false, false, "").err(), Some(SuError::ContainerNotRunning));
    assert_eq!(waydroid_su(&Vec::new(), false, true, false, false, "").err(), Some(SuError::NotInstalled));
    assert!(waydroid_su(&args, true, true, false, false, "").is_ok());
    assert_eq!(join_args(&strings(&["a", "", "b c"])), "a  b c");
    assert_eq!(join_args(&Vec::new()), "");
}

#[test]
fn the_outcome_of_a_guest_command_is_read_from_its_streams() {
    assert_eq!(su_result(true, " v27.2:MAGISK:R\n", "warning"), Ok("v27.2:MAGISK:R".to_string()));
    assert_eq!(su_result(true, "", " on stderr \n"), Ok("on stderr".to_string()));
    assert_eq!(su_result(true, "", ""), Ok(String::new()));
    assert_eq!(su_result(false, "out", " denied\n"), Err("denied".to_string()));
    assert_eq!(su_result(false, " only out ", ""), Err("only out".to_string()));
    assert_eq!(su_result(true, " ", "err"), Ok(String::new()));
}

#[test]
fn the_guest_steps_are_spelled_out() {
    assert_eq!(guest_command(GuestStep::ClearData), (strings(&["rm", "-rf", "/data/adb/magisk"]), false));
    assert_eq!(guest_command(GuestStep::MakeData), (strings(&["mkdir", "-p", "/data/adb/magisk"]), false));
    assert_eq!(guest_command(GuestStep::LockAdb), (strings(&["chmod", "700", "/data/adb"]), false));
    assert_eq!(
        guest_command(GuestStep::CopyTreeToData),
        (strings(&["cp", "-r", "/system/etc/init/magisk/*", "/data/adb/magisk"]), false)
    );
    assert_eq!(guest_command(GuestStep::ChmodData), (strings(&["chmod", "-R", "755", "/data/adb/magisk/"]), false));
    assert_eq!(guest_command(GuestStep::ChownData), (strings(&["chown", "-R", "0:0", "/data/adb/magisk"]), false));
    assert_eq!(
        guest_command(GuestStep::StageApkFromTree),
        (strings(&["cp", "/system/etc/init/magisk/magisk.apk", "/data/local/tmp"]), false)
    );
    assert_eq!(
        guest_command(GuestStep::StageApkFromData),
        (strings(&["cp", "/data/adb/magisk/magisk.apk", "/data/local/tmp"]), false)
    );
    assert_eq!(
        guest_command(GuestStep::UninstallManager),
        (strings(&["pm", "uninstall", "com.topjohnwu.magisk"]), false)
    );
    assert_eq!(
        guest_command(GuestStep::UninstallLegacyManager),
        (strings(&["pm", "uninstall", "io.github.huskydg.magisk"]), false)
    );
    assert_eq!(guest_command(GuestStep::InstallApk), (strings(&["pm", "install", "/data/local/tmp/magisk.apk"]), false));
    assert_eq!(guest_command(GuestStep::RemoveStagedApk), (strings(&["rm", "/data/local/tmp/magisk.apk"]), false));
    assert_eq!(
        guest_command(GuestStep::ChmodPolicyTool),
        (strings(&["chmod", "755", "/data/local/tmp/magiskpolicy"]), true)
    );
    assert_eq!(
        guest_command(GuestStep::BuildPolicy),
        (
            strings(&[
                "/data/local/tmp/magiskpolicy",
                "--load",
                "/vendor/etc/selinux/precompiled_sepolicy",
                "--save",
                "/data/local/tmp/precompiled_sepolicy"
            ]),
            true
        )
    );
    assert_eq!(
        guest_command(GuestStep::StageContexts),
        (strings(&["cp", "/vendor/etc/selinux/vendor_file_contexts", "/data/local/tmp/"]), true)
    );
    assert_eq!(guest_command(GuestStep::RemovePolicyTool), (strings(&["rm", "/data/local/tmp/magiskpolicy"]), true));
    assert_eq!(
        guest_command(GuestStep::StageZygote),
        (strings(&["cp", "/system/etc/init/hw/init.zygote*", "/data/local/tmp/"]), true)
    );
}

#[test]
fn the_program_needs_the_runtime_and_root() {
    assert_eq!(preflight(true, true, true), Ok(()));
    assert_eq!(preflight(false, true, true), Err(PreflightError::NoWaydroid));
    assert_eq!(preflight(false, false, false), Err(PreflightError::NoWaydroid));
    assert_eq!(preflight(true, false, false), Err(PreflightError::NotInitialized));
    assert_eq!(preflight(true, true, false), Err(PreflightError::NotRoot));
}

#[test]
fn applets_belong_to_one_variant() {
    assert_eq!(kitsune_or_err("v27.2-Waydroid"), Ok(()));
    assert_eq!(kitsune_or_err("R65-kitsune"), Ok(()));
    assert_eq!(kitsune_or_err("v28.1-Waydroid"), Err(AppletError::OnlyKitsune));
    assert_eq!(magisk_or_err("v28.1-Waydroid"), Ok(()));
    assert_eq!(magisk_or_err(""), Ok(()));
    assert_eq!(magisk_or_err("v27.2-Waydroid"), Err(AppletError::OnlyMagisk));
}

#[test]
fn list_commands_become_applet_arguments() {
    let pkg = |p: &str| AddRemoveArgs { pkg: p.to_string() };
    assert_eq!(magiskhide_call(&MagiskhideCommand::Status), strings(&["status"]));
    assert_eq!(magiskhide_call(&MagiskhideCommand::Enable), strings(&["enable"]));
    assert_eq!(magiskhide_call(&MagiskhideCommand::Disable), strings(&["disable"]));
    assert_eq!(magiskhide_call(&MagiskhideCommand::Ls), strings(&["ls"]));
    assert_eq!(magiskhide_call(&MagiskhideCommand::Sulist { command: None }), strings(&["sulist"]));
    assert_eq!(
        magiskhide_call(&MagiskhideCommand::Sulist { command: Some(SulistSubCommand::Enable) }),
        strings(&["sulist", "enable"])
    );
    assert_eq!(
        magiskhide_call(&MagiskhideCommand::Sulist { command: Some(SulistSubCommand::Disable) }),
        strings(&["sulist", "disable"])
    );
    assert_eq!(magiskhide_call(&MagiskhideCommand::Add(pkg("org.example"))), strings(&["add", "org.example"]));
    assert_eq!(magiskhide_call(&MagiskhideCommand::Rm(pkg("org.example"))), strings(&["rm", "org.example"]));
    assert_eq!(denylist_call(&DenylistCommand::Status), strings(&["status"]));
    assert_eq!(denylist_call(&DenylistCommand::Enable), strings(&["enable"]));
    assert_eq!(denylist_call(&DenylistCommand::Disable), strings(&["disable"]));
    assert_eq!(denylist_call(&DenylistCommand::Ls), strings(&["ls"]));
    assert_eq!(denylist_call(&DenylistCommand::Add(pkg("a.b"))), strings(&["add", "a.b"]));
    assert_eq!(denylist_call(&DenylistCommand::Rm(pkg("a.b"))), strings(&["rm", "a.b"]));
}

#[test]
fn the_command_line_holds_its_arguments() {
    let cli = Cli { command: Commands::Install(InstallArgs { apk: Some("/x/m.apk".to_string()), new: true }) };
    match &cli.command {
        Commands::Install(args) => {
            assert_eq!(apk_path(args), "/x/m.apk");
            assert!(args.new);
        }
        _ => panic!("the command is an installation"),
    }
    assert_eq!(apk_path(&InstallArgs { apk: None, new: false }), "");
    let module = Commands::Module {
        command: ModuleCommand::Install(ModuleInstallArg { module: "m.zip".to_string() }),
    };
    assert!(matches!(module, Commands::Module { command: ModuleCommand::Install(_) }));
    let remove = ModuleCommand::Remove(ModuleRemoveArg { module: "m".to_string() });
    assert!(matches!(remove, ModuleCommand::Remove(ModuleRemoveArg { .. })));
    let toggle = ModuleCommand::Disable(ModuleDisableEnableArg { module: "m".to_string() });
    assert!(matches!(toggle, ModuleCommand::Disable(_)));
    assert!(matches!(Commands::Zygisk { command: ZygiskCommand::Status }, Commands::Zygisk { .. }));
    assert_ne!(ZygiskCommand::Enable, ZygiskCommand::Disable);
}

#[test]
fn a_payload_is_held_against_the_variant() {
    let bare = PayloadLayout { libs: true, libs32: true, assets: true, modern_marker: false, legacy_marker: false };
    assert_eq!(validate_payload(bare, true), Err(InstallError::UnknownLayout));
    assert_eq!(validate_payload(bare, false), Err(InstallError::UnknownLayout));
    let modern = PayloadLayout { modern_marker: true, ..bare };
    assert_eq!(validate_payload(modern, true), Ok(()));
    assert_eq!(validate_payload(modern, false), Err(InstallError::NeedsNew));
    let legacy = PayloadLayout { legacy_marker: true, ..bare };
    assert_eq!(validate_payload(legacy, false), Ok(()));
    assert_eq!(validate_payload(legacy, true), Err(InstallError::NotForNew));
    let both = PayloadLayout { modern_marker: true, legacy_marker: true, ..bare };
    assert_eq!(validate_payload(both, false), Err(InstallError::NeedsNew));
    assert_eq!(validate_payload(both, true), Err(InstallError::NotForNew));
    for broken in [
        PayloadLayout { libs: false, ..modern },
        PayloadLayout { libs32: false, ..modern },
        PayloadLayout { assets: false, ..modern },
        PayloadLayout { libs: false, ..legacy },
        PayloadLayout { libs: false, libs32: false, assets: false, ..bare },
    ] {
        assert_eq!(validate_payload(broken, true), Err(InstallError::UnknownLayout));
        assert_eq!(validate_payload(broken, false), Err(InstallError::UnknownLayout));
    }
}

#[test]
fn the_markers_of_a_payload_are_read_from_its_libraries() {
    assert_eq!(payload_markers(&strings(&["libmagisk.so", "libbusybox.so"])), (true, false));
    assert_eq!(payload_markers(&strings(&["libbusybox.so", "libmagisk64.so"])), (false, true));
    assert_eq!(payload_markers(&strings(&["libmagisk64.so", "libmagisk.so"])), (true, true));
    assert_eq!(payload_markers(&strings(&["libbusybox.so", "magisk", "magisk64"])), (false, false));
    assert_eq!(payload_markers(&strings(&["libmagisk32.so", "libmagisk.so.bak"])), (false, false));
    assert_eq!(payload_markers(&strings(&[])), (false, false));
}

#[test]
fn exactly_the_binary_of_the_variant_goes_into_the_tree() {
    let modern = ["libmagisk.so", "libmagiskinit.so", "libmagiskboot.so", "libmagiskpolicy.so", "libbusybox.so", "README"];
    let legacy = ["libmagisk64.so", "libmagisk32.so", "libmagiskinit.so", "libbusybox.so"];
    for (libs, new) in [(&modern[..], true), (&legacy[..], false)] {
        let (modern_marker, legacy_marker) = payload_markers(&strings(libs));
        let layout =
            PayloadLayout { libs: true, libs32: true, assets: true, modern_marker, legacy_marker };
        assert_eq!(validate_payload(layout, new), Ok(()));
        assert_ne!(validate_payload(layout, !new), Ok(()));
        let names: Vec<String> = libs.iter().filter_map(|l| injected_name(l)).collect();
        assert_eq!(names.iter().any(|n| n == "magisk"), new);
        assert_eq!(names.iter().any(|n| n == "magisk64"), !new);
    }
}

#[test]
fn libraries_go_into_the_tree_under_their_short_names() {
    assert_eq!(injected_name("libmagisk.so"), Some("magisk".to_string()));
    assert_eq!(injected_name("libmagisk64.so"), Some("magisk64".to_string()));
    assert_eq!(injected_name("libbusybox.so"), Some("busybox".to_string()));
    assert_eq!(injected_name("liblibx.so.so"), Some("x".to_string()));
    assert_eq!(injected_name("lib.so"), Some(String::new()));
    assert_eq!(injected_name("magisk.so"), None);
    assert_eq!(injected_name("libmagisk"), None);
    assert_eq!(injected_name("libmagisk.so.bak"), None);
    assert_eq!(injected_name(""), None);
    assert_eq!(companion_library(true), "libmagisk.so");
    assert_eq!(companion_library(false), "libmagisk32.so");
}

#[test]
fn the_variant_decides_over_assets_manifest_and_paths() {
    for name in ["boot_patch.sh", "util_functions.sh", "addon.d.sh"] {
        assert!(is_required_asset(name, true));
        assert!(is_required_asset(name, false));
    }
    for name in ["app_functions.sh", "module_installer.sh", "uninstaller.sh"] {
        assert!(is_required_asset(name, true));
        assert!(!is_required_asset(name, false));
    }
    assert!(!is_required_asset("stub.apk", true));
    assert!(!is_required_asset("", false));
    assert!(manifest_url(true).ends_with("/MagiskForWaydroid/refs/heads/master/stable.json"));
    assert!(manifest_url(false).ends_with("/KitsuneMagisk-Waydroid/refs/heads/kitsune/canary.json"));
    let paths = prepare_libs("/tmp/waydroidsu/magisk", "x86_64");
    assert_eq!(paths.libs, "/tmp/waydroidsu/magisk/lib/x86_64");
    assert_eq!(paths.libs32, "/tmp/waydroidsu/magisk/lib/x86");
    assert_eq!(paths.assets, "/tmp/waydroidsu/magisk/assets");
    let paths = prepare_libs("/tmp/waydroidsu/magisk", "arm64-v8a");
    assert_eq!(paths.libs, "/tmp/waydroidsu/magisk/lib/arm64-v8a");
    assert_eq!(paths.libs32, "/tmp/waydroidsu/magisk/lib/armeabi-v7a");
}

#[test]
fn the_status_needs_a_running_container() {
    assert_eq!(get_status(false, true, true, true, true, "v1"), Err(MagiskError::ContainerNotRunning));
    assert_eq!(get_status(true, true, true, true, true, "v1"), Ok((true, "v1".to_string(), true)));
    assert_eq!(get_status(true, true, true, true, false, "v1"), Ok((true, "v1".to_string(), false)));
    assert_eq!(get_status(true, true, true, false, true, "v1"), Ok((false, String::new(), false)));
    assert_eq!(get_status(true, true, false, true, true, "v1"), Ok((false, String::new(), false)));
    assert_eq!(get_status(true, false, true, true, true, "v1"), Ok((false, String::new(), false)));
}

#[test]
fn messages_have_their_text_and_style() {
    assert_eq!(describe(Message::Installing), ("Installing Magisk...".to_string(), Style::Main));
    assert_eq!(describe(Message::Aborting), ("Aborting...".to_string(), Style::End));
    assert_eq!(describe(Message::UpToDate), ("Magisk is up to date".to_string(), Style::Regular));
    assert_eq!(describe(Message::Unmounting), ("Umounting system and vendor image".to_string(), Style::Sub));
    assert_eq!(describe(Message::RestartIn(5)), ("Restarting Waydroid in 5".to_string(), Style::Sub));
    assert_eq!(describe(Message::RestartIn(0)).0, "Restarting Waydroid in 0");
    assert_eq!(describe(Message::RestartIn(255)).0, "Restarting Waydroid in 255");
    assert_eq!(describe(Message::UpdateFailed), ("Update has failed, reinstall Magisk".to_string(), Style::Error));
    assert_eq!(
        describe(Message::SetupHint).0,
        "Run 'sudo wsu setup' after Waydroid starts or install the manager."
    );
    assert_eq!(describe_fault(Fault::NotInstalled), "Magisk is not installed!");
    assert_eq!(describe_fault(Fault::ContainerNotRunning), "Waydroid container isn't running!");
    assert_eq!(describe_fault(Fault::Unrecognized), "Local version of Magisk not recognized, please reinstall!");
    assert_eq!(describe_fault(Fault::Step), "");
    assert_eq!(msg_err_str("Failed to read the config file."), "error: Failed to read the config file.");
}

#[test]
fn the_status_report_has_three_values() {
    assert_eq!(
        print_status(true, "v28.1", true),
        ("Running".to_string(), "v28.1".to_string(), "Yes".to_string())
    );
    assert_eq!(print_status(true, "v28.1", false).2, "No");
    assert_eq!(
        print_status(false, "v28.1", true),
        ("Stopped".to_string(), "No".to_string(), "N/A".to_string())
    );
    assert_eq!(print_superuser("org.example", true), "- org.example | allowed");
    assert_eq!(print_superuser("uid:10073", false), "- uid:10073 | denied");
}

#[test]
fn every_error_has_its_text() {
    assert_eq!(describe_patch_error(PatchError::Compress), "Couldn't compress the backup.");
    assert_eq!(describe_patch_error(PatchError::Decompress), "Couldn't decompress the backup.");
    assert_eq!(
        describe_patch_error(PatchError::MissingStaged),
        "A file that the guest was to stage is missing."
    );
    assert_eq!(describe_patch_error(PatchError::NotText), "stream did not contain valid UTF-8");
    assert_eq!(describe_su_error(SuError::ContainerNotRunning), "Waydroid container isn't running!");
    assert_eq!(describe_su_error(SuError::NotInstalled), "Magisk is not installed!");
    assert_eq!(describe_su_error(SuError::EmptyArguments), "su arguments are empty");
    assert_eq!(describe_magisk_error(MagiskError::NotInstalled, ""), "Magisk isn't installed!");
    assert_eq!(
        describe_magisk_error(MagiskError::ContainerNotRunning, "x"),
        "Waydroid container isn't running!"
    );
    assert_eq!(
        describe_magisk_error(MagiskError::SessionNotRunning, "x"),
        "Waydroid session isn't running!"
    );
    assert_eq!(describe_magisk_error(MagiskError::ModuleNotFound, "busybox"), "'busybox' not found");
    assert_eq!(
        describe_magisk_error(MagiskError::AlreadyDisabled, "busybox"),
        "'busybox' already disabled"
    );
    assert_eq!(
        describe_magisk_error(MagiskError::AlreadyEnabled, "busybox"),
        "'busybox' already enabled"
    );
    assert_eq!(describe_magisk_error(MagiskError::NoSuchFile, "m.zip"), "No such file or directory.");
    assert_eq!(describe_magisk_error(MagiskError::NotZip, "m.tar"), "m.tar isn't a zip file");
    assert_eq!(
        describe_magisk_error(MagiskError::NoModuleName, ""),
        "Couldn't get name of the module!"
    );
    assert_eq!(describe_magisk_error(MagiskError::InvalidPackage, ""), "Invalid package name!");
    assert_eq!(
        describe_install_error(InstallError::UnknownLayout),
        "Structure of apk file hasn't been recognized."
    );
    assert_eq!(
        describe_install_error(InstallError::NeedsNew),
        "Structure of this apk file requires flag '--new'/'-n'"
    );
    assert_eq!(
        describe_install_error(InstallError::NotForNew),
        "Structure of this apk file can't be installed with flag '--new'/'-n'"
    );
    assert_eq!(
        describe_container_error(ContainerError::NoSession),
        "Can't start Waydroid container, because Waydroid session isn't running!"
    );
    assert_eq!(describe_container_error(ContainerError::NoDataHome), "Couldn't get current xdg_data_home");
    assert_eq!(
        describe_preflight_error(PreflightError::NoWaydroid),
        "Waydroid is not installed on your system!"
    );
    assert_eq!(describe_preflight_error(PreflightError::NotInitialized), "Your Waydroid is not initialized!");
    assert_eq!(describe_preflight_error(PreflightError::NotRoot), "Needs to be ran as sudo!");
    assert_eq!(
        describe_applet_error(AppletError::OnlyKitsune, "magiskhide"),
        "magiskhide - Is only available for Kitsune"
    );
    assert_eq!(
        describe_applet_error(AppletError::OnlyMagisk, "denylist"),
        "denylist - Is only available for Magisk"
    );
    assert_eq!(describe_fault(Fault::NoSystemImage), "Couldn't find Waydroid system image!");
    assert_eq!(describe_fault(Fault::NoVendorImage), "Couldn't find Waydroid vendor image!");
    assert_eq!(describe_fault(Fault::SessionNotRunning), "Waydroid session isn't running!");
    assert_eq!(describe_fault(Fault::Protocol), "The workflow was driven out of order.");
}

#[test]
fn the_managers_are_found_in_the_list_of_packages() {
    let packages = "package:com.android.shell\npackage:com.topjohnwu.magisk\n";
    assert!(has_manager(packages));
    assert!(!has_legacy_manager(packages));
    assert!(has_legacy_manager("package:io.github.huskydg.magisk"));
    assert!(!has_manager(""));
}
