use waydroidsu::magisk::{
    get_app_id, get_module_name, get_package, is_current, is_kitsune, is_modern, is_recognized,
    normalize_version, package_query, Magisk, MagiskError, ModuleEntry, POLICY_QUERY, ZYGISK_OFF,
    ZYGISK_ON, ZYGISK_QUERY,
};

fn framework() -> Magisk {
    Magisk::new(true, "v27.2-Waydroid:MAGISK:R\n", "/home/u/.local/share").unwrap()
}

fn strings(v: &[&str]) -> Vec<String> {
    v.iter().map(|s| s.to_string()).collect()
}

#[test]
fn the_version_loses_its_mark() {
    assert_eq!(normalize_version("25010:MAGISK:R"), "25010");
    assert_eq!(normalize_version("  25010:MAGISK:R\n"), "25010");
    assert_eq!(normalize_version("v27.2-Waydroid:MAGISK:R:MAGISK:R"), "v27.2-Waydroid");
    assert_eq!(normalize_version("25010"), "");
    assert_eq!(normalize_version(""), "");
    assert_eq!(normalize_version("25010:MAGISK:R (debug)"), "25010:MAGISK:R (debug)");
    assert_eq!(normalize_version(":MAGISK:R"), "");
}

#[test]
fn a_version_that_holds_the_offer_is_current() {
    let local = normalize_version("25010:MAGISK:R");
    assert_eq!(local, "25010");
    assert!(is_current(&local, "25010"));
    assert!(!is_current(&local, "25011"));
    assert!(is_current("v27.2-Waydroid-r3", "v27.2-Waydroid"));
    assert!(is_current("25010", "501"));
    assert!(is_current("25010", ""));
    assert!(!is_current("2501", "25010"));
}

#[test]
fn a_version_is_classified_by_what_it_holds() {
    assert!(is_recognized("v28.1-Waydroid"));
    assert!(is_recognized("25010"));
    assert!(is_recognized("v28.1-waydroid"));
    assert!(!is_recognized(""));
    assert!(!is_recognized(&normalize_version("")));
    assert!(!is_recognized(&normalize_version(":MAGISK:R")));
    assert!(is_modern("v28.1-Waydroid"));
    assert!(!is_modern("v27.2-Waydroid"));
    assert!(is_kitsune("v27.2-Waydroid"));
    assert!(is_kitsune("R65C33E4F-kitsune"));
    assert!(!is_kitsune("v28.1-Waydroid"));
    assert!(!is_kitsune("v27.2"));
}

#[test]
fn the_framework_has_to_be_installed() {
    assert_eq!(Magisk::new(false, "x:MAGISK:R", "/h").err(), Some(MagiskError::NotInstalled));
    let m = framework();
    assert!(m.installed);
    assert_eq!(m.version(), "v27.2-Waydroid");
    assert_eq!(m.modules_path, "/home/u/.local/share/waydroid/data/adb/modules");
    assert_eq!(m.ready(true), Ok(()));
    assert_eq!(m.ready(false), Err(MagiskError::ContainerNotRunning));
    let gone = Magisk { installed: false, version: String::new(), modules_path: String::new() };
    assert_eq!(gone.ready(true), Err(MagiskError::NotInstalled));
    assert_eq!(gone.ready(false), Err(MagiskError::ContainerNotRunning));
}

#[test]
fn modules_are_listed_with_their_state() {
    let m = framework();
    let modules = vec![
        ModuleEntry { name: "zygisk_lsposed".to_string(), disabled: false },
        ModuleEntry { name: "busybox".to_string(), disabled: true },
    ];
    assert_eq!(
        m.list_modules(true, &modules),
        Ok(strings(&["zygisk_lsposed", "busybox (disabled)"]))
    );
    assert_eq!(m.list_modules(true, &Vec::new()), Ok(Vec::new()));
    assert_eq!(m.list_modules(false, &modules), Err(MagiskError::SessionNotRunning));
    let gone = Magisk { installed: false, version: String::new(), modules_path: String::new() };
    assert_eq!(gone.list_modules(true, &modules), Err(MagiskError::NotInstalled));
}

#[test]
fn modules_are_switched_only_from_the_other_state() {
    let m = framework();
    assert_eq!(m.disable_module(true, true, false), Ok(()));
    assert_eq!(m.disable_module(true, true, true), Err(MagiskError::AlreadyDisabled));
    assert_eq!(m.disable_module(true, false, false), Err(MagiskError::ModuleNotFound));
    assert_eq!(m.disable_module(false, true, false), Err(MagiskError::ContainerNotRunning));
    assert_eq!(m.enable_module(true, true, true), Ok(()));
    assert_eq!(m.enable_module(true, true, false), Err(MagiskError::AlreadyEnabled));
    assert_eq!(m.enable_module(true, false, true), Err(MagiskError::ModuleNotFound));
    assert_eq!(m.remove_module(true, true), Ok(()));
    assert_eq!(m.remove_module(true, false), Err(MagiskError::ModuleNotFound));
    assert_eq!(m.remove_module(false, true), Err(MagiskError::ContainerNotRunning));
    assert_eq!(m.is_module_disabled(true, true, true), Ok(true));
    assert_eq!(m.is_module_disabled(true, true, false), Ok(false));
    assert_eq!(m.module_dir("busybox"), "/home/u/.local/share/waydroid/data/adb/modules/busybox");
    assert_eq!(
        m.disable_marker("busybox"),
        "/home/u/.local/share/waydroid/data/adb/modules/busybox/disable"
    );
}

#[test]
fn a_module_archive_has_to_exist_and_to_be_a_zip() {
    let m = framework();
    let ok = m.install_module(true, "/home/u/Downloads/LSPosed.ZIP", true).unwrap();
    assert_eq!(ok.file_name, "LSPosed.ZIP");
    assert_eq!(ok.guest_path, "/data/local/tmp/LSPosed.ZIP");
    let ok = m.install_module(true, "mod.zip", true).unwrap();
    assert_eq!(ok.file_name, "mod.zip");
    assert_eq!(m.install_module(true, "mod.zip", false).err(), Some(MagiskError::NoSuchFile));
    assert_eq!(m.install_module(true, "mod.tar", true).err(), Some(MagiskError::NotZip));
    assert_eq!(m.install_module(true, "zip", true).err(), Some(MagiskError::NotZip));
    assert_eq!(m.install_module(false, "mod.zip", true).err(), Some(MagiskError::ContainerNotRunning));
}

#[test]
fn the_module_id_is_the_value_of_the_first_id_line() {
    assert_eq!(
        get_module_name("# a module\n\nname=Some Module\nid=some_module\nid=other\n"),
        Ok("some_module".to_string())
    );
    assert_eq!(get_module_name("  id=x=y  \r\n"), Ok("x=y".to_string()));
    assert_eq!(get_module_name("id= spaced"), Ok(" spaced".to_string()));
    assert_eq!(get_module_name("id =x\n"), Err(MagiskError::NoModuleName));
    assert_eq!(get_module_name("#id=x\nname=y\nid\n"), Err(MagiskError::NoModuleName));
    assert_eq!(get_module_name(""), Err(MagiskError::NoModuleName));
    assert_eq!(get_module_name("id="), Ok(String::new()));
}

#[test]
fn applets_are_called_through_the_framework() {
    let m = framework();
    assert_eq!(
        m.cmd(true, "magiskhide", &strings(&["sulist", "enable"])),
        Ok(strings(&["magisk", "magiskhide", "sulist", "enable"]))
    );
    assert_eq!(m.cmd(true, "--denylist", &Vec::new()), Ok(strings(&["magisk", "--denylist"])));
    assert_eq!(m.cmd(false, "x", &Vec::new()), Err(MagiskError::ContainerNotRunning));
    assert_eq!(m.sqlite(true, "\"SELECT 1\""), Ok(strings(&["magisk", "--sqlite", "\"SELECT 1\""])));
    assert_eq!(m.set_zygisk(true, true), Ok(strings(&["magisk", "--sqlite", ZYGISK_ON])));
    assert_eq!(m.set_zygisk(true, false), Ok(strings(&["magisk", "--sqlite", ZYGISK_OFF])));
    assert_eq!(m.set_zygisk(false, false), Err(MagiskError::ContainerNotRunning));
    assert_eq!(ZYGISK_ON, "\"REPLACE INTO settings (key,value) VALUES('zygisk',1)\"");
    assert_eq!(ZYGISK_QUERY, "\"SELECT value FROM settings WHERE key == 'zygisk'\"");
    assert_eq!(POLICY_QUERY, "\"SELECT uid,policy FROM policies\"");
}

#[test]
fn zygisk_is_on_when_the_value_is_one() {
    let m = framework();
    assert_eq!(m.get_zygisk(true, "value=1"), Ok(true));
    assert_eq!(m.get_zygisk(true, " value=1 \n"), Ok(true));
    assert_eq!(m.get_zygisk(true, "1"), Ok(true));
    assert_eq!(m.get_zygisk(true, "value=0"), Ok(false));
    assert_eq!(m.get_zygisk(true, "value=11"), Ok(false));
    assert_eq!(m.get_zygisk(true, ""), Ok(false));
    assert_eq!(m.get_zygisk(true, "value=1="), Ok(false));
    assert_eq!(m.get_zygisk(false, "value=1"), Err(MagiskError::ContainerNotRunning));
}

#[test]
fn the_policy_table_is_read_line_by_line() {
    let m = framework();
    assert_eq!(
        m.superuser_list(true, "uid=10073|policy=2\nuid=10080|policy=1\n"),
        Ok(vec![(10073, true), (10080, false)])
    );
    assert_eq!(
        m.superuser_list(true, " uid = 2000 | policy = 2 |extra\nnoise\nuid=1|policy=x\nuid=|policy=2\n5|3"),
        Ok(vec![(2000, true), (5, false)])
    );
    assert_eq!(m.superuser_list(true, ""), Ok(Vec::new()));
    assert_eq!(m.superuser_list(true, "uid=1"), Ok(Vec::new()));
    assert_eq!(m.superuser_list(true, "uid=-7|policy=+2"), Ok(vec![(-7, true)]));
    assert_eq!(m.superuser_list(true, "uid=3000000000|policy=2"), Ok(Vec::new()));
    assert_eq!(m.superuser_list(false, "uid=1|policy=2"), Err(MagiskError::ContainerNotRunning));
}

#[test]
fn packages_are_named_by_what_follows_the_last_colon() {
    assert_eq!(
        get_package(Some("package:com.android.shell uid:2000\npackage:org.example uid:2000\n"), 2000),
        strings(&["com.android.shell", "org.example"])
    );
    assert_eq!(get_package(Some(""), 10073), strings(&["uid:10073"]));
    assert_eq!(get_package(Some("\n  \n"), -5), strings(&["uid:-5"]));
    assert_eq!(get_package(None, 0), strings(&["uid:0"]));
    assert_eq!(get_package(Some("plain"), 1), strings(&["plain"]));
    assert_eq!(get_package(Some("a:b: uid:1"), 1), strings(&[""]));
}

#[test]
fn the_app_id_is_taken_from_the_listing_of_the_package() {
    assert_eq!(get_app_id(Some("package:org.example uid:10073"), "org.example"), "10073");
    assert_eq!(
        get_app_id(Some("package:org.example.more uid:10074\npackage:org.example uid:10073"), "org.example"),
        "10074"
    );
    assert_eq!(get_app_id(Some("package:org.example.more uid:10074"), "org.example"), "");
    assert_eq!(get_app_id(Some("package:org.example"), "org.example"), "");
    assert_eq!(get_app_id(Some(""), "org.example"), "");
    assert_eq!(get_app_id(None, "org.example"), "");
    assert_eq!(
        package_query("org.example"),
        strings(&["pm", "list", "packages", "-U", "|", "grep", "org.example"])
    );
}

#[test]
fn an_app_is_allowed_or_denied_by_its_id() {
    let m = framework();
    assert_eq!(
        m.superuser_manage(true, "10073", true),
        Ok(strings(&["magisk", "--sqlite", "\"REPLACE INTO policies VALUES(10073,2,0,1,1)\""]))
    );
    assert_eq!(
        m.superuser_manage(true, "10073", false),
        Ok(strings(&["magisk", "--sqlite", "\"REPLACE INTO policies VALUES(10073,1,0,1,1)\""]))
    );
    assert_eq!(m.superuser_manage(true, "", true), Err(MagiskError::InvalidPackage));
    assert_eq!(m.superuser_manage(false, "", true), Err(MagiskError::ContainerNotRunning));
}
