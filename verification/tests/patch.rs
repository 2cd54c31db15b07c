use waydroidsu::codec::{gzip_compress, gzip_decompress};
use waydroidsu::constants::{
    BOOTANIM_RC, CONTEXT_RULE_DATA, CONTEXT_RULE_TMP, LEGACY_END, LEGACY_SERVICE, LEGACY_START,
    LEGACY_WAIT, MODERN_END, MODERN_SERVICE, MODERN_START, MODERN_WAIT, SERVICE_STEM,
    ZYGOTE_RESTART_LINE,
};
use waydroidsu::magisk_files::{
    clean_up, inject_zygote_restart, needs_backup, needs_restore, patch_bootanim,
    patch_bootanim_with, patch_init_zygote,
    patch_zygote_file, render_bootanim_rc, restore_bootanim, restore_init_zygote, restore_pair,
    secure, synthetic_marker, PatchError, PatchTarget, StagedTarget, ZygoteFiles,
};
use waydroidsu::selinux::{add_context_rules, patch_sepolicy, restore_sepolicy, SepolicyFiles};
use waydroidsu::workflow::Variant;

const X: &str = "AAAAAbbbbb11111";
const Y: &str = "zzzzzYYYYY99999";

fn target(plain: Option<&[u8]>, backup: Option<&[u8]>) -> PatchTarget {
    PatchTarget {
        plain: plain.map(|p| p.to_vec()),
        backup: backup.map(|b| b.to_vec()),
        synthetic: false,
    }
}

fn staged(plain: Option<&[u8]>, backup: Option<&[u8]>, staged: Option<&[u8]>) -> StagedTarget {
    StagedTarget { target: target(plain, backup), staged: staged.map(|s| s.to_vec()) }
}

fn pieces(variant: Variant) -> [&'static str; 4] {
    match variant {
        Variant::Legacy => [LEGACY_START, LEGACY_WAIT, LEGACY_SERVICE, LEGACY_END],
        Variant::Modern => [MODERN_START, MODERN_WAIT, MODERN_SERVICE, MODERN_END],
    }
}

fn rendered(variant: Variant, x: &str, y: &str) -> Vec<u8> {
    let [start, wait, service, end] = pieces(variant);
    format!("{}{}{}{}{}{}{}{}", BOOTANIM_RC, start, x, wait, x, service, y, end).into_bytes()
}

/// The names that a patched script of the variant holds, in their order.
/// Fails if the script is anything but the fixed text around three names of
/// 15 letters and digits.
fn names_of(variant: Variant, script: &[u8]) -> Vec<String> {
    let text = String::from_utf8(script.to_vec()).unwrap();
    let mut rest: &str = text.strip_prefix(BOOTANIM_RC).expect("the stock stanza comes first");
    let mut names: Vec<String> = Vec::new();
    for (i, piece) in pieces(variant).iter().enumerate() {
        if i > 0 {
            let name: String = rest.chars().take(15).collect();
            assert_eq!(name.len(), 15);
            assert!(name.chars().all(|c| c.is_ascii_alphanumeric()));
            names.push(name);
            rest = &rest[15..];
        }
        rest = rest.strip_prefix(piece).expect("the fixed text stands between the names");
    }
    assert_eq!(rest, "");
    names
}

#[test]
fn render_puts_the_names_into_the_modern_script() {
    let expected = "service bootanim /system/bin/bootanimation
    class core animation
    user graphics
    group graphics audio
    disabled
    oneshot
    ioprio rt 0
    task_profiles MaxPerformance

on post-fs-data
    start logd
    mkdir /debug_ramdisk 0755 root root
    mkdir /data/adb 0700 root root
    exec u:r:su:s0 root root -- /system/bin/sh /system/etc/init/magisk/loadpolicy.sh
    exec u:r:magisk:s0 0 0 -- /system/etc/init/magisk/magisk --setup /system/etc/init/magisk /debug_ramdisk
    rm /dev/.magisk_unblock
    start AAAAAbbbbb11111
    wait /dev/.magisk_unblock 40
    rm /dev/.magisk_unblock

service AAAAAbbbbb11111 /debug_ramdisk/magisk --post-fs-data
    user root
    seclabel u:r:magisk:s0
    oneshot

service zzzzzYYYYY99999 /debug_ramdisk/magisk --service
    class late_start
    user root
    seclabel u:r:magisk:s0
    oneshot

on property:sys.boot_completed=1
    mkdir /data/adb/magisk 755
    exec u:r:magisk:s0 0 0 -- /debug_ramdisk/magisk --boot-complete

on property:init.svc.zygote=restarting
    exec u:r:magisk:s0 0 0 -- /debug_ramdisk/magisk --zygote-restart

on property:init.svc.zygote=stopped
    exec u:r:magisk:s0 0 0 -- /debug_ramdisk/magisk --zygote-restart
";
    let modern = String::from_utf8(render_bootanim_rc(Variant::Modern, X, Y)).unwrap();
    assert_eq!(modern, expected);
    assert_eq!(modern.into_bytes(), rendered(Variant::Modern, X, Y));
}

#[test]
fn render_puts_each_name_in_its_places_and_leaves_no_placeholder() {
    for variant in [Variant::Legacy, Variant::Modern] {
        let script = render_bootanim_rc(variant, X, Y);
        assert_eq!(script, rendered(variant, X, Y));
        assert_eq!(names_of(variant, &script), vec![X, X, Y]);
        let text = String::from_utf8(script).unwrap();
        assert!(!text.contains("magisk_service_x"));
        assert!(!text.contains("magisk_service_y"));
        assert_eq!(SERVICE_STEM, "magisk_service_");
        assert!(!text.contains(SERVICE_STEM));
        assert_eq!(text.matches(X).count(), 2);
        assert_eq!(text.matches(Y).count(), 1);
        assert!(text.contains("--zygote-restart"));
    }
    assert_ne!(render_bootanim_rc(Variant::Legacy, X, Y), render_bootanim_rc(Variant::Modern, X, Y));
}

#[test]
fn two_scripts_of_a_variant_differ_in_the_names_only() {
    for variant in [Variant::Legacy, Variant::Modern] {
        let one = String::from_utf8(render_bootanim_rc(variant, X, Y)).unwrap();
        let other =
            String::from_utf8(render_bootanim_rc(variant, "PPPPPqqqqq22222", "RRRRRsssss33333"))
                .unwrap();
        assert_eq!(one.len(), other.len());
        assert_eq!(
            one.replace(X, "PPPPPqqqqq22222").replace(Y, "RRRRRsssss33333"),
            other
        );
    }
}

#[test]
fn the_marker_of_a_script_stands_beside_it() {
    assert_eq!(
        synthetic_marker("/var/lib/waydroid/overlay/system/etc/init/bootanim.rc"),
        "/var/lib/waydroid/overlay/system/etc/init/bootanim.rc.wsu-new"
    );
    assert_eq!(synthetic_marker(""), ".wsu-new");
}

#[test]
fn secure_backs_up_an_original_once() {
    let mut t = target(Some(b"original"), None);
    assert_eq!(secure(&mut t), Ok(()));
    assert_eq!(t.plain, Some(b"original".to_vec()));
    assert_eq!(gzip_decompress(&t.backup.clone().unwrap()), Some(b"original".to_vec()));
    assert!(!t.synthetic);
    let backup = t.backup.clone();
    t.plain = Some(b"patched".to_vec());
    assert_eq!(secure(&mut t), Ok(()));
    assert_eq!(t.backup, backup);
    assert!(!t.synthetic);
}

#[test]
fn secure_marks_what_is_about_to_be_introduced() {
    let mut t = target(None, None);
    assert_eq!(secure(&mut t), Ok(()));
    assert_eq!(t.plain, None);
    assert_eq!(t.backup, None);
    assert!(t.synthetic);
    t.plain = Some(b"patched".to_vec());
    assert_eq!(secure(&mut t), Ok(()));
    assert_eq!(t.backup, None);
    assert!(t.synthetic);
    let mut kept = target(None, Some(b"kept"));
    assert_eq!(secure(&mut kept), Ok(()));
    assert_eq!(kept.backup, Some(b"kept".to_vec()));
    assert!(!kept.synthetic);
}

#[test]
fn a_backup_is_owed_to_an_original_without_one() {
    assert!(needs_backup(&target(Some(b"original"), None)));
    assert!(!needs_backup(&target(Some(b"patched"), Some(b"kept"))));
    assert!(!needs_backup(&target(None, None)));
    assert!(!needs_backup(&target(None, Some(b"kept"))));
    let mut introduced = target(Some(b"patched"), None);
    introduced.synthetic = true;
    assert!(!needs_backup(&introduced));
    assert!(needs_restore(&introduced));
    assert!(needs_restore(&target(Some(b"patched"), Some(b"kept"))));
    assert!(needs_restore(&target(None, Some(b"kept"))));
    assert!(!needs_restore(&target(Some(b"original"), None)));
    assert!(!needs_restore(&target(None, None)));
    let mut marked = target(None, None);
    marked.synthetic = true;
    assert!(!needs_restore(&marked));
}

#[test]
fn patch_backs_up_an_original_and_writes_the_script() {
    let original = b"service bootanim /system/bin/bootanimation\n    oneshot\n";
    let mut t = target(Some(original), None);
    assert_eq!(patch_bootanim_with(&mut t, Variant::Modern, X, Y), Ok(()));
    assert_eq!(t.plain, Some(rendered(Variant::Modern, X, Y)));
    let backup = t.backup.expect("a backup was made");
    assert_eq!(backup, gzip_compress(original).unwrap());
    assert_eq!(gzip_decompress(&backup), Some(original.to_vec()));
    assert!(!t.synthetic);
}

#[test]
fn patch_keeps_a_backup_that_exists() {
    let kept = gzip_compress(b"the first original").unwrap();
    let mut t = target(Some(b"already patched"), Some(&kept));
    assert_eq!(patch_bootanim_with(&mut t, Variant::Legacy, X, Y), Ok(()));
    assert_eq!(t.plain, Some(rendered(Variant::Legacy, X, Y)));
    assert_eq!(t.backup, Some(kept));
    assert!(!t.synthetic);
}

#[test]
fn patch_with_a_backup_and_no_script_keeps_the_backup() {
    let kept = gzip_compress(b"the first original").unwrap();
    let mut t = target(None, Some(&kept));
    assert_eq!(patch_bootanim_with(&mut t, Variant::Modern, X, Y), Ok(()));
    assert_eq!(t.plain, Some(rendered(Variant::Modern, X, Y)));
    assert_eq!(t.backup, Some(kept));
    assert!(!t.synthetic);
}

#[test]
fn patch_without_a_script_makes_no_backup_and_marks_the_script() {
    let mut t = target(None, None);
    assert_eq!(patch_bootanim_with(&mut t, Variant::Modern, X, Y), Ok(()));
    assert_eq!(t.plain, Some(rendered(Variant::Modern, X, Y)));
    assert_eq!(t.backup, None);
    assert!(t.synthetic);
}

#[test]
fn patching_twice_is_patching_once_but_for_the_names() {
    let original = b"the original script\n";
    for variant in [Variant::Legacy, Variant::Modern] {
        let mut twice = target(Some(original), None);
        patch_bootanim_with(&mut twice, variant, X, Y).unwrap();
        let after_first = twice.backup.clone();
        patch_bootanim_with(&mut twice, variant, "PPPPPqqqqq22222", "RRRRRsssss33333").unwrap();
        let mut once = target(Some(original), None);
        patch_bootanim_with(&mut once, variant, "PPPPPqqqqq22222", "RRRRRsssss33333").unwrap();
        assert_eq!(twice.plain, once.plain);
        assert_eq!(twice.backup, once.backup);
        assert_eq!(twice.synthetic, once.synthetic);
        assert_eq!(twice.backup, after_first);
        assert_eq!(gzip_decompress(&twice.backup.unwrap()), Some(original.to_vec()));
    }
}

#[test]
fn a_second_patch_without_original_never_backs_up_the_patched_script() {
    for variant in [Variant::Legacy, Variant::Modern] {
        let mut twice = target(None, None);
        patch_bootanim_with(&mut twice, variant, X, Y).unwrap();
        patch_bootanim_with(&mut twice, variant, "PPPPPqqqqq22222", "RRRRRsssss33333").unwrap();
        let mut once = target(None, None);
        patch_bootanim_with(&mut once, variant, "PPPPPqqqqq22222", "RRRRRsssss33333").unwrap();
        assert_eq!(twice.backup, None);
        assert!(twice.synthetic);
        assert_eq!(twice.plain, once.plain);
        assert_eq!(twice.backup, once.backup);
        assert_eq!(twice.synthetic, once.synthetic);
    }
}

#[test]
fn patching_twice_with_drawn_names_differs_in_the_names_only() {
    let original = b"the original script\n";
    for variant in [Variant::Legacy, Variant::Modern] {
        let mut t = target(Some(original), None);
        patch_bootanim(&mut t, variant).unwrap();
        let first = t.plain.clone().unwrap();
        let backup = t.backup.clone();
        patch_bootanim(&mut t, variant).unwrap();
        let second = t.plain.clone().unwrap();
        assert_eq!(t.backup, backup);
        assert_eq!(gzip_decompress(&backup.unwrap()), Some(original.to_vec()));
        assert_ne!(first, second);
        assert_eq!(first.len(), second.len());
        for script in [&first, &second] {
            let names = names_of(variant, script);
            assert_eq!(names.len(), 3);
            assert_eq!(names[0], names[1]);
            let text = String::from_utf8(script.clone()).unwrap();
            assert!(!text.contains("magisk_service_x"));
            assert!(!text.contains("magisk_service_y"));
        }
    }
}

#[test]
fn restore_after_patch_gives_the_original_back() {
    let original: Vec<u8> = (0..=255u8).chain(0..=255u8).collect();
    for variant in [Variant::Legacy, Variant::Modern] {
        let mut t = target(Some(&original), None);
        patch_bootanim_with(&mut t, variant, X, Y).unwrap();
        assert_eq!(restore_bootanim(&mut t), Ok(()));
        assert_eq!(t.plain, Some(original.clone()));
        assert_eq!(t.backup, None);
        assert!(!t.synthetic);
    }
}

#[test]
fn restore_after_two_patches_gives_the_original_back() {
    let mut t = target(Some(b"original"), None);
    patch_bootanim(&mut t, Variant::Modern).unwrap();
    patch_bootanim(&mut t, Variant::Legacy).unwrap();
    assert_eq!(restore_bootanim(&mut t), Ok(()));
    assert_eq!(t.plain, Some(b"original".to_vec()));
    assert_eq!(t.backup, None);
}

#[test]
fn restore_of_a_script_that_the_patch_introduced_leaves_nothing() {
    for variant in [Variant::Legacy, Variant::Modern] {
        let mut t = target(None, None);
        patch_bootanim_with(&mut t, variant, X, Y).unwrap();
        assert_eq!(restore_bootanim(&mut t), Ok(()));
        assert_eq!(t.plain, None);
        assert_eq!(t.backup, None);
        assert!(!t.synthetic);
        let mut twice = target(None, None);
        patch_bootanim(&mut twice, variant).unwrap();
        patch_bootanim(&mut twice, variant).unwrap();
        assert_eq!(restore_bootanim(&mut twice), Ok(()));
        assert_eq!(twice.plain, None);
        assert_eq!(twice.backup, None);
    }
}

#[test]
fn a_restore_without_a_backup_leaves_an_untouched_script_as_it_is() {
    let mut t = target(Some(b"original"), None);
    assert_eq!(restore_bootanim(&mut t), Ok(()));
    assert_eq!(t.plain, Some(b"original".to_vec()));
    assert_eq!(t.backup, None);
    assert!(!t.synthetic);
    let mut t = target(Some(b"original"), None);
    assert_eq!(restore_pair(&mut t), Ok(false));
    assert_eq!(t.plain, Some(b"original".to_vec()));
}

#[test]
fn a_second_restore_changes_nothing() {
    let mut t = target(Some(b"original"), None);
    patch_bootanim_with(&mut t, Variant::Modern, X, Y).unwrap();
    restore_bootanim(&mut t).unwrap();
    assert_eq!(t.plain, Some(b"original".to_vec()));
    assert_eq!(restore_bootanim(&mut t), Ok(()));
    assert_eq!(t.plain, Some(b"original".to_vec()));
    assert_eq!(t.backup, None);
    let mut t = target(Some(b"patched"), Some(&gzip_compress(b"first").unwrap()));
    assert_eq!(restore_pair(&mut t), Ok(true));
    assert_eq!(t.plain, Some(b"first".to_vec()));
    assert_eq!(restore_pair(&mut t), Ok(false));
    assert_eq!(t.plain, Some(b"first".to_vec()));
    assert_eq!(t.backup, None);
}

#[test]
fn restore_of_nothing_changes_nothing() {
    let mut t = target(None, None);
    assert_eq!(restore_bootanim(&mut t), Ok(()));
    assert_eq!(t.plain, None);
    assert_eq!(t.backup, None);
    assert!(!t.synthetic);
}

#[test]
fn restore_with_a_damaged_backup_fails_and_keeps_the_backup() {
    let mut t = target(Some(b"patched"), Some(b"no gzip at all"));
    assert_eq!(restore_bootanim(&mut t), Err(PatchError::Decompress));
    assert_eq!(t.plain, None);
    assert_eq!(t.backup, Some(b"no gzip at all".to_vec()));
}

#[test]
fn inject_adds_the_directive_after_the_zygote_service_line() {
    let script = b"import /init.rc\nservice zygote /system/bin/app_process64 -Xzygote\n    class main\n";
    let expected = format!(
        "import /init.rc\nservice zygote /system/bin/app_process64 -Xzygote\n{}\n    class main",
        ZYGOTE_RESTART_LINE
    );
    assert_eq!(inject_zygote_restart(script), Some(expected.into_bytes()));
}

#[test]
fn inject_adds_the_directive_after_every_zygote_service_line() {
    let script = b"service zygote a\nx\nservice zygote_secondary b\nservice zygote c";
    let expected = format!(
        "service zygote a\n{d}\nx\nservice zygote_secondary b\nservice zygote c\n{d}",
        d = ZYGOTE_RESTART_LINE
    );
    assert_eq!(inject_zygote_restart(script), Some(expected.into_bytes()));
}

#[test]
fn inject_leaves_a_script_with_the_directive_alone() {
    let script = format!("service zygote a\r\n{}\r\n\r\n", ZYGOTE_RESTART_LINE).into_bytes();
    assert_eq!(inject_zygote_restart(&script), Some(script.clone()));
}

#[test]
fn inject_is_stable_once_a_zygote_line_was_found() {
    let script = b"service zygote a\n    class main\n\n";
    let once = inject_zygote_restart(script).unwrap();
    assert_eq!(inject_zygote_restart(&once), Some(once.clone()));
}

#[test]
fn inject_without_a_zygote_line_rewrites_the_line_ends() {
    assert_eq!(inject_zygote_restart(b"a\r\nb\n\nc\n"), Some(b"a\nb\n\nc".to_vec()));
    assert_eq!(inject_zygote_restart(b"a\rb\r"), Some(b"a\rb\r".to_vec()));
    assert_eq!(inject_zygote_restart(b""), Some(Vec::new()));
    assert_eq!(inject_zygote_restart(b"\n"), Some(Vec::new()));
    assert_eq!(inject_zygote_restart(b"\n\n"), Some(b"\n".to_vec()));
}

#[test]
fn inject_refuses_what_is_not_text() {
    assert_eq!(inject_zygote_restart(&[b's', 0xff, 0xfe, b'\n']), None);
    assert_eq!(inject_zygote_restart(&[0xc3]), None);
    assert!(inject_zygote_restart("z\u{fc}rich service zygote \n".as_bytes()).is_some());
}

#[test]
fn zygote_patch_backs_up_and_injects() {
    let script = b"service zygote a\n";
    let mut f = staged(Some(script), None, Some(b"staged copy"));
    assert_eq!(patch_zygote_file(&mut f), Ok(()));
    assert_eq!(
        f.target.plain,
        Some(format!("service zygote a\n{}", ZYGOTE_RESTART_LINE).into_bytes())
    );
    assert_eq!(gzip_decompress(&f.target.backup.unwrap()), Some(script.to_vec()));
    assert_eq!(f.staged, None);
}

#[test]
fn zygote_patch_takes_a_missing_script_from_the_staged_copy() {
    let mut f = staged(None, None, Some(b"service zygote s\n"));
    assert_eq!(patch_zygote_file(&mut f), Ok(()));
    assert_eq!(
        f.target.plain,
        Some(format!("service zygote s\n{}", ZYGOTE_RESTART_LINE).into_bytes())
    );
    assert_eq!(f.target.backup, None);
    assert_eq!(f.staged, None);
}

#[test]
fn zygote_patch_fails_without_script_and_staged_copy() {
    let mut f = staged(None, None, None);
    assert_eq!(patch_zygote_file(&mut f), Err(PatchError::MissingStaged));
    assert_eq!(f.target.plain, None);
}

#[test]
fn zygote_patch_fails_at_its_end_without_a_staged_copy_to_consume() {
    let mut f = staged(Some(b"service zygote a\n"), None, None);
    assert_eq!(patch_zygote_file(&mut f), Err(PatchError::MissingStaged));
    assert_eq!(
        f.target.plain,
        Some(format!("service zygote a\n{}", ZYGOTE_RESTART_LINE).into_bytes())
    );
    assert!(f.target.backup.is_some());
}

#[test]
fn zygote_patch_refuses_a_script_that_is_not_text() {
    let mut f = staged(Some(&[0xff, 0x00]), None, Some(b"s"));
    assert_eq!(patch_zygote_file(&mut f), Err(PatchError::NotText));
    assert_eq!(f.target.plain, Some(vec![0xff, 0x00]));
    assert_eq!(f.staged, Some(b"s".to_vec()));
}

#[test]
fn zygote_patch_of_both_scripts_stops_at_the_first_failure() {
    let mut files = ZygoteFiles {
        zygote32: staged(None, None, None),
        zygote64_32: staged(Some(b"service zygote b\n"), None, Some(b"s")),
    };
    assert_eq!(patch_init_zygote(&mut files), Err(PatchError::MissingStaged));
    assert_eq!(files.zygote64_32.target.plain, Some(b"service zygote b\n".to_vec()));
    assert_eq!(files.zygote64_32.staged, Some(b"s".to_vec()));
}

#[test]
fn zygote_restore_after_patch_gives_both_originals_back() {
    let a = b"service zygote a\r\n    class main\r\n";
    let b = b"service zygote b\n\n\n";
    let mut files = ZygoteFiles {
        zygote32: staged(Some(a), None, Some(b"sa")),
        zygote64_32: staged(Some(b), None, Some(b"sb")),
    };
    assert_eq!(patch_init_zygote(&mut files), Ok(()));
    assert_ne!(files.zygote32.target.plain, Some(a.to_vec()));
    assert_eq!(restore_init_zygote(&mut files), Ok(true));
    assert_eq!(files.zygote32.target.plain, Some(a.to_vec()));
    assert_eq!(files.zygote64_32.target.plain, Some(b.to_vec()));
    assert_eq!(files.zygote32.target.backup, None);
    assert_eq!(files.zygote64_32.target.backup, None);
    assert_eq!(restore_init_zygote(&mut files), Ok(false));
    assert_eq!(files.zygote32.target.plain, Some(a.to_vec()));
}

#[test]
fn zygote_restore_of_one_original_and_one_introduced_script() {
    let a = b"service zygote a\n";
    let mut files = ZygoteFiles {
        zygote32: staged(Some(a), None, Some(b"sa")),
        zygote64_32: staged(None, None, Some(b"service zygote b\n")),
    };
    assert_eq!(patch_init_zygote(&mut files), Ok(()));
    assert!(!files.zygote32.target.synthetic);
    assert!(files.zygote64_32.target.synthetic);
    assert_eq!(restore_init_zygote(&mut files), Ok(true));
    assert_eq!(files.zygote32.target.plain, Some(a.to_vec()));
    assert_eq!(files.zygote64_32.target.plain, None);
    assert_eq!(files.zygote64_32.target.backup, None);
    assert!(!files.zygote64_32.target.synthetic);
}

#[test]
fn zygote_restore_of_synthetic_scripts() {
    let mut files = ZygoteFiles {
        zygote32: staged(None, None, Some(b"service zygote a\n")),
        zygote64_32: staged(None, None, Some(b"service zygote b\n")),
    };
    patch_init_zygote(&mut files).unwrap();
    assert!(files.zygote32.target.plain.is_some());
    assert_eq!(files.zygote32.target.backup, None);
    assert!(files.zygote32.target.synthetic);
    assert!(files.zygote64_32.target.synthetic);
    assert_eq!(restore_init_zygote(&mut files), Ok(true));
    assert_eq!(files.zygote32.target.plain, None);
    assert_eq!(files.zygote64_32.target.plain, None);
    assert_eq!(files.zygote32.target.backup, None);
    assert_eq!(files.zygote64_32.target.backup, None);
    assert_eq!(restore_init_zygote(&mut files), Ok(false));
}

#[test]
fn restore_pair_reports_whether_it_did_anything() {
    let mut t = target(None, None);
    assert_eq!(restore_pair(&mut t), Ok(false));
    let mut t = target(Some(b"x"), None);
    assert_eq!(restore_pair(&mut t), Ok(false));
    assert_eq!(t.plain, Some(b"x".to_vec()));
    t.synthetic = true;
    assert_eq!(restore_pair(&mut t), Ok(true));
    assert_eq!(t.plain, None);
    assert!(!t.synthetic);
    let mut t = target(None, None);
    t.synthetic = true;
    assert_eq!(restore_pair(&mut t), Ok(false));
    assert!(!t.synthetic);
    let mut t = target(None, Some(b"junk"));
    assert_eq!(restore_pair(&mut t), Err(PatchError::Decompress));
    assert_eq!(t.backup, Some(b"junk".to_vec()));
}

#[test]
fn context_rules_are_added_once() {
    let list = b"/system(/.*)? u:object_r:system_file:s0\n";
    let once = add_context_rules(list);
    let expected = format!(
        "/system(/.*)? u:object_r:system_file:s0\n{}\n{}\n",
        CONTEXT_RULE_TMP, CONTEXT_RULE_DATA
    );
    assert_eq!(once, expected.clone().into_bytes());
    assert_eq!(add_context_rules(&once), expected.into_bytes());
    let half = format!("{}\n", CONTEXT_RULE_DATA).into_bytes();
    assert_eq!(
        add_context_rules(&half),
        format!("{}\n{}\n", CONTEXT_RULE_DATA, CONTEXT_RULE_TMP).into_bytes()
    );
    assert_eq!(
        add_context_rules(b""),
        format!("{}\n{}\n", CONTEXT_RULE_TMP, CONTEXT_RULE_DATA).into_bytes()
    );
}

#[test]
fn sepolicy_patch_replaces_the_policy_and_extends_the_contexts() {
    let mut files = SepolicyFiles {
        policy: staged(Some(b"old policy"), None, Some(b"new policy")),
        contexts: staged(Some(b"/a u:object_r:a:s0\n"), None, Some(b"guest list")),
    };
    assert_eq!(patch_sepolicy(&mut files), Ok(()));
    assert_eq!(files.policy.target.plain, Some(b"new policy".to_vec()));
    assert_eq!(gzip_decompress(&files.policy.target.backup.clone().unwrap()), Some(b"old policy".to_vec()));
    assert_eq!(files.policy.staged, None);
    assert_eq!(
        files.contexts.target.plain,
        Some(format!("/a u:object_r:a:s0\n{}\n{}\n", CONTEXT_RULE_TMP, CONTEXT_RULE_DATA).into_bytes())
    );
    assert_eq!(
        gzip_decompress(&files.contexts.target.backup.clone().unwrap()),
        Some(b"/a u:object_r:a:s0\n".to_vec())
    );
    assert_eq!(files.contexts.staged, None);
    assert_eq!(restore_sepolicy(&mut files), Ok(true));
    assert_eq!(files.policy.target.plain, Some(b"old policy".to_vec()));
    assert_eq!(files.contexts.target.plain, Some(b"/a u:object_r:a:s0\n".to_vec()));
    assert_eq!(files.policy.target.backup, None);
    assert_eq!(files.contexts.target.backup, None);
}

#[test]
fn sepolicy_patch_of_files_that_it_introduced_is_undone() {
    let mut files = SepolicyFiles {
        policy: staged(None, None, Some(b"new policy")),
        contexts: staged(None, None, Some(b"guest list\n")),
    };
    assert_eq!(patch_sepolicy(&mut files), Ok(()));
    assert_eq!(files.policy.target.backup, None);
    assert_eq!(
        files.contexts.target.plain,
        Some(format!("guest list\n{}\n{}\n", CONTEXT_RULE_TMP, CONTEXT_RULE_DATA).into_bytes())
    );
    assert!(files.policy.target.synthetic);
    assert!(files.contexts.target.synthetic);
    assert_eq!(restore_sepolicy(&mut files), Ok(true));
    assert_eq!(files.policy.target.plain, None);
    assert_eq!(files.contexts.target.plain, None);
    assert_eq!(files.policy.target.backup, None);
    assert_eq!(files.contexts.target.backup, None);
}

#[test]
fn sepolicy_patch_keeps_the_first_backup() {
    let first = gzip_compress(b"first policy").unwrap();
    let mut files = SepolicyFiles {
        policy: staged(Some(b"patched before"), Some(&first), Some(b"new policy")),
        contexts: staged(Some(b"list\n"), Some(b"kept"), Some(b"guest list")),
    };
    assert_eq!(patch_sepolicy(&mut files), Ok(()));
    assert_eq!(files.policy.target.backup, Some(first));
    assert_eq!(files.contexts.target.backup, Some(b"kept".to_vec()));
}

#[test]
fn sepolicy_patch_fails_where_the_guest_staged_nothing() {
    let mut files = SepolicyFiles {
        policy: staged(Some(b"old policy"), None, None),
        contexts: staged(Some(b"list\n"), None, Some(b"guest list")),
    };
    assert_eq!(patch_sepolicy(&mut files), Err(PatchError::MissingStaged));
    assert_eq!(files.policy.target.plain, None);
    assert_eq!(
        gzip_decompress(&files.policy.target.backup.clone().unwrap()),
        Some(b"old policy".to_vec())
    );
    assert_eq!(files.contexts.target.plain, Some(b"list\n".to_vec()));
    assert_eq!(files.contexts.target.backup, None);

    let mut files = SepolicyFiles {
        policy: staged(None, None, Some(b"new policy")),
        contexts: staged(Some(b"list\n"), None, None),
    };
    assert_eq!(patch_sepolicy(&mut files), Err(PatchError::MissingStaged));
    assert_eq!(files.policy.target.plain, Some(b"new policy".to_vec()));
    assert_eq!(files.policy.staged, None);
    assert_eq!(files.contexts.target.plain, Some(b"list\n".to_vec()));
    assert!(files.contexts.target.backup.is_some());
}

#[test]
fn sepolicy_patch_refuses_contexts_that_are_not_text() {
    let mut files = SepolicyFiles {
        policy: staged(None, None, Some(b"new policy")),
        contexts: staged(Some(&[0xff]), None, Some(b"guest list")),
    };
    assert_eq!(patch_sepolicy(&mut files), Err(PatchError::NotText));
    assert_eq!(files.contexts.target.plain, Some(vec![0xff]));
    assert_eq!(files.contexts.staged, None);
}

#[test]
fn clean_up_on_an_image_removes_the_tree_and_the_addon_script() {
    let plan = clean_up("/tmp/waydroidsu/mnt", false, "/var/lib/waydroid/overlay_rw/system", "");
    assert_eq!(
        plan.removals,
        vec![
            "/var/lib/waydroid/overlay_rw/system/system/etc/init/magisk",
            "/tmp/waydroidsu/mnt/system/etc/init/magisk",
            "/var/lib/waydroid/overlay_rw/system/system/addon.d/99-magisk.sh",
            "/tmp/waydroidsu/mnt/system/addon.d/99-magisk.sh",
        ]
    );
    assert!(plan.moves.is_empty());
}

#[test]
fn clean_up_with_a_data_directory_removes_the_tree_there_too() {
    let plan = clean_up("/r", false, "/rw", "/home/u/.local/share/waydroid/data");
    assert_eq!(plan.removals.len(), 5);
    assert_eq!(plan.removals[4], "/home/u/.local/share/waydroid/data/adb/magisk");
}

#[test]
fn clean_up_on_an_overlay_reconciles_the_shadow() {
    let plan = clean_up("/var/lib/waydroid/overlay", true, "/var/lib/waydroid/overlay_rw/system", "");
    assert_eq!(
        plan.removals,
        vec![
            "/var/lib/waydroid/overlay_rw/system/system/etc/init/magisk",
            "/var/lib/waydroid/overlay/system/etc/init/magisk",
            "/var/lib/waydroid/overlay_rw/system/system/addon.d/99-magisk.sh",
            "/var/lib/waydroid/overlay/system/addon.d/99-magisk.sh",
            "/var/lib/waydroid/overlay/vendor/etc/selinux/precompiled_sepolicy",
            "/var/lib/waydroid/overlay_rw/vendor/etc/selinux/precompiled_sepolicy",
            "/var/lib/waydroid/overlay/vendor/etc/selinux/precompiled_sepolicy.gz",
            "/var/lib/waydroid/overlay_rw/vendor/etc/selinux/precompiled_sepolicy.gz",
            "/var/lib/waydroid/overlay/debug_ramdisk",
        ]
    );
    let moves: Vec<(&str, &str)> =
        plan.moves.iter().map(|(a, b)| (a.as_str(), b.as_str())).collect();
    assert_eq!(
        moves,
        vec![
            (
                "/var/lib/waydroid/overlay_rw/vendor/etc/selinux/vendor_file_contexts",
                "/var/lib/waydroid/overlay/vendor/etc/selinux/vendor_file_contexts"
            ),
            (
                "/var/lib/waydroid/overlay_rw/vendor/etc/selinux/vendor_file_contexts.gz",
                "/var/lib/waydroid/overlay/vendor/etc/selinux/vendor_file_contexts.gz"
            ),
            (
                "/var/lib/waydroid/overlay_rw/system/system/etc/init/hw/init.zygote32.rc",
                "/var/lib/waydroid/overlay/system/etc/init/hw/init.zygote32.rc"
            ),
            (
                "/var/lib/waydroid/overlay_rw/system/system/etc/init/hw/init.zygote64_32.rc",
                "/var/lib/waydroid/overlay/system/etc/init/hw/init.zygote64_32.rc"
            ),
            (
                "/var/lib/waydroid/overlay_rw/system/system/etc/init/hw/init.zygote32.rc.gz",
                "/var/lib/waydroid/overlay/system/etc/init/hw/init.zygote32.rc.gz"
            ),
            (
                "/var/lib/waydroid/overlay_rw/system/system/etc/init/hw/init.zygote64_32.rc.gz",
                "/var/lib/waydroid/overlay/system/etc/init/hw/init.zygote64_32.rc.gz"
            ),
            (
                "/var/lib/waydroid/overlay_rw/system/system/etc/init/bootanim.rc",
                "/var/lib/waydroid/overlay/system/etc/init/bootanim.rc"
            ),
            (
                "/var/lib/waydroid/overlay_rw/system/system/etc/init/bootanim.rc.gz",
                "/var/lib/waydroid/overlay/system/etc/init/bootanim.rc.gz"
            ),
        ]
    );
}

#[test]
fn clean_up_leaves_nothing_of_the_tree() {
    for has_overlay in [true, false] {
        let plan = clean_up("/root/", has_overlay, "/rw", "/data");
        let tree = "/root/system/etc/init/magisk";
        assert!(plan.removals.iter().any(|p| p == tree));
        for (_, to) in &plan.moves {
            assert!(!to.starts_with(tree));
        }
    }
}
