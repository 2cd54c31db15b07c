//! The patched boot-animation script names its services by the names that
//! were drawn for it, and by no other: the stem under which the framework's
//! own scripts know them occurs nowhere in it.

use crate::constants::{
    BOOTANIM_RC, LEGACY_END, LEGACY_SERVICE, LEGACY_START, LEGACY_WAIT, MODERN_END,
    MODERN_SERVICE, MODERN_START, MODERN_WAIT, SERVICE_STEM,
};
use crate::magisk_files::{
    bytes_of, directives, is_alphanumeric_byte, lemma_token_bytes, render_bootanim,
};
use crate::random::is_token;
use crate::text::{has_subseq, matches_at};
use crate::workflow::Variant;
use vstd::prelude::*;

verus! {

/// An underscore, then `s`, then `e`, as the stem has them, stand at `i`.
pub open spec fn stem_mark_at(s: Seq<u8>, i: int) -> bool {
    0 <= i && i + 2 < s.len() && s[i] == 95 && s[i + 1] == 115 && s[i + 2] == 101
}

/// The text holds the mark of the stem nowhere.
pub open spec fn unmarked(s: Seq<u8>) -> bool {
    forall|i: int| !stem_mark_at(s, i)
}

/// The text does not end in what the mark of the stem begins with.
pub open spec fn closed(s: Seq<u8>) -> bool {
    &&& s.len() >= 1 ==> s[s.len() - 1] != 95
    &&& s.len() >= 2 ==> !(s[s.len() - 2] == 95 && s[s.len() - 1] == 115)
}

/// A fixed piece of the script: at least two bytes, without the mark of the
/// stem, and no beginning of one at its end.
pub open spec fn settled(s: Seq<u8>) -> bool {
    s.len() >= 2 && unmarked(s) && closed(s)
}

/// The same of a text, character by character.
spec fn settled_chars(t: Seq<char>) -> bool {
    &&& t.len() >= 2
    &&& forall|i: int| 0 <= i < t.len() ==> '\0' <= #[trigger] t[i] <= '\u{7f}'
    &&& forall|i: int|
        0 <= i && i + 2 < t.len() ==> !(#[trigger] t[i] == '_' && t[i + 1] == 's' && t[i + 2]
            == 'e')
    &&& t[t.len() - 1] != '_'
    &&& !(t[t.len() - 2] == '_' && t[t.len() - 1] == 's')
}

proof fn lemma_settled_text(t: Seq<char>)
    requires
        settled_chars(t),
    ensures
        settled(bytes_of(t)),
{
    assert(vstd::utf8::is_ascii_chars(t));
    vstd::utf8::is_ascii_chars_encode_utf8(t);
    let b = bytes_of(t);
    assert forall|i: int| 0 <= i < t.len() implies (#[trigger] b[i] == 95) == (t[i] == '_') && (b[i]
        == 115) == (t[i] == 's') && (b[i] == 101) == (t[i] == 'e') by {
        assert(t[i] as u8 == b[i]);
    }
    assert forall|i: int| !stem_mark_at(b, i) by {
        if stem_mark_at(b, i) {
            assert(t[i] == '_' && t[i + 1] == 's' && t[i + 2] == 'e');
        }
    }
}

proof fn lemma_bootanim_rc()
    ensures
        settled(bytes_of(BOOTANIM_RC@)),
{
    reveal_strlit("service bootanim /system/bin/bootanimation
    class core animation
    user graphics
    group graphics audio
    disabled
    oneshot
    ioprio rt 0
    task_profiles MaxPerformance
");
    lemma_settled_text(BOOTANIM_RC@);
}

proof fn lemma_legacy_start()
    ensures
        settled(bytes_of(LEGACY_START@)),
{
    reveal_strlit("
on post-fs-data
    start logd
    mkdir /sbin 0755 root root
    mkdir /dev/magisk_tmp 0700 root root
    exec u:r:su:s0 root root -- /system/etc/init/magisk/magiskpolicy --live --magisk \"allow * magisk_file lnk_file *\"
    exec u:r:magisk:s0 root root -- /system/etc/init/magisk/magisk64 --auto-selinux --setup-sbin /system/etc/init/magisk /sbin
    rm /dev/.magisk_unblock
    start ");
    lemma_settled_text(LEGACY_START@);
}

proof fn lemma_legacy_wait()
    ensures
        settled(bytes_of(LEGACY_WAIT@)),
{
    reveal_strlit("
    wait /dev/.magisk_unblock 40
    rm /dev/.magisk_unblock

service ");
    lemma_settled_text(LEGACY_WAIT@);
}

proof fn lemma_legacy_service()
    ensures
        settled(bytes_of(LEGACY_SERVICE@)),
{
    reveal_strlit(" /sbin/magisk --auto-selinux --post-fs-data
    user root
    seclabel u:r:magisk:s0
    oneshot

service ");
    lemma_settled_text(LEGACY_SERVICE@);
}

proof fn lemma_legacy_end()
    ensures
        settled(bytes_of(LEGACY_END@)),
{
    reveal_strlit(" /sbin/magisk --auto-selinux --service
    class late_start
    user root
    seclabel u:r:magisk:s0
    oneshot

on property:sys.boot_completed=1
    mkdir /data/adb/magisk 755
    exec u:r:magisk:s0 root root -- /sbin/magisk --auto-selinux --boot-complete

on property:init.svc.zygote=restarting
    exec u:r:magisk:s0 root root -- /sbin/magisk --auto-selinux --zygote-restart

on property:init.svc.zygote=stopped
    exec u:r:magisk:s0 root root -- /sbin/magisk --auto-selinux --zygote-restart
");
    lemma_settled_text(LEGACY_END@);
}

proof fn lemma_modern_start()
    ensures
        settled(bytes_of(MODERN_START@)),
{
    reveal_strlit("
on post-fs-data
    start logd
    mkdir /debug_ramdisk 0755 root root
    mkdir /data/adb 0700 root root
    exec u:r:su:s0 root root -- /system/bin/sh /system/etc/init/magisk/loadpolicy.sh
    exec u:r:magisk:s0 0 0 -- /system/etc/init/magisk/magisk --setup /system/etc/init/magisk /debug_ramdisk
    rm /dev/.magisk_unblock
    start ");
    lemma_settled_text(MODERN_START@);
}

proof fn lemma_modern_wait()
    ensures
        settled(bytes_of(MODERN_WAIT@)),
{
    reveal_strlit("
    wait /dev/.magisk_unblock 40
    rm /dev/.magisk_unblock

service ");
    lemma_settled_text(MODERN_WAIT@);
}

proof fn lemma_modern_service()
    ensures
        settled(bytes_of(MODERN_SERVICE@)),
{
    reveal_strlit(" /debug_ramdisk/magisk --post-fs-data
    user root
    seclabel u:r:magisk:s0
    oneshot

service ");
    lemma_settled_text(MODERN_SERVICE@);
}

proof fn lemma_modern_end()
    ensures
        settled(bytes_of(MODERN_END@)),
{
    reveal_strlit(" /debug_ramdisk/magisk --service
    class late_start
    user root
    seclabel u:r:magisk:s0
    oneshot

on property:sys.boot_completed=1
    mkdir /data/adb/magisk 755
    exec u:r:magisk:s0 0 0 -- /debug_ramdisk/magisk --boot-complete

on property:init.svc.zygote=restarting
    exec u:r:magisk:s0 0 0 -- /debug_ramdisk/magisk --zygote-restart

on property:init.svc.zygote=stopped
    exec u:r:magisk:s0 0 0 -- /debug_ramdisk/magisk --zygote-restart
");
    lemma_settled_text(MODERN_END@);
}

/// Every fixed piece of the script of either variant is settled.
proof fn lemma_pieces_settled(variant: Variant)
    ensures
        settled(bytes_of(BOOTANIM_RC@)),
        settled(bytes_of(directives(variant).0)),
        settled(bytes_of(directives(variant).1)),
        settled(bytes_of(directives(variant).2)),
        settled(bytes_of(directives(variant).3)),
{
    lemma_bootanim_rc();
    lemma_legacy_start();
    lemma_legacy_wait();
    lemma_legacy_service();
    lemma_legacy_end();
    lemma_modern_start();
    lemma_modern_wait();
    lemma_modern_service();
    lemma_modern_end();
}

/// Every byte is that of an ASCII letter or digit.
pub open spec fn alphanumeric_bytes(s: Seq<u8>) -> bool {
    forall|i: int| 0 <= i < s.len() ==> is_alphanumeric_byte(#[trigger] s[i])
}

proof fn lemma_piece_follows(a: Seq<u8>, b: Seq<u8>)
    requires
        unmarked(a),
        closed(a),
        settled(b),
    ensures
        unmarked(a + b),
        closed(a + b),
{
    let s = a + b;
    assert forall|i: int| !stem_mark_at(s, i) by {
        if stem_mark_at(s, i) {
            if i + 2 < a.len() {
                assert(stem_mark_at(a, i));
            } else if i >= a.len() {
                assert(stem_mark_at(b, i - a.len()));
            } else {
                assert(s[i] == a[i]);
                if i + 1 < a.len() {
                    assert(s[i + 1] == a[i + 1]);
                }
            }
        }
    }
    assert(s[s.len() - 1] == b[b.len() - 1]);
    assert(s[s.len() - 2] == b[b.len() - 2]);
}

proof fn lemma_name_follows(a: Seq<u8>, name: Seq<u8>)
    requires
        unmarked(a),
        closed(a),
        alphanumeric_bytes(name),
    ensures
        unmarked(a + name),
        closed(a + name),
{
    let s = a + name;
    assert forall|i: int| !stem_mark_at(s, i) by {
        if stem_mark_at(s, i) {
            if i + 2 < a.len() {
                assert(stem_mark_at(a, i));
            } else if i >= a.len() {
                assert(is_alphanumeric_byte(name[i - a.len()]));
            } else {
                assert(s[i] == a[i]);
                if i + 1 < a.len() {
                    assert(s[i + 1] == a[i + 1]);
                }
            }
        }
    }
    if name.len() >= 1 {
        assert(is_alphanumeric_byte(name[name.len() - 1]));
        assert(s[s.len() - 1] == name[name.len() - 1]);
        if name.len() >= 2 {
            assert(is_alphanumeric_byte(name[name.len() - 2]));
            assert(s[s.len() - 2] == name[name.len() - 2]);
        } else if a.len() >= 1 {
            assert(s[s.len() - 2] == a[a.len() - 1]);
        }
    } else {
        assert(s =~= a);
    }
}

/// A patched script holds the stem nowhere, whatever letters and digits its
/// two service names are made of: its services go by the names that were
/// drawn, and nothing of a name that the framework's own scripts use is
/// left in it.
pub proof fn lemma_script_holds_no_stem(variant: Variant, x: Seq<u8>, y: Seq<u8>)
    requires
        alphanumeric_bytes(x),
        alphanumeric_bytes(y),
    ensures
        !has_subseq(render_bootanim(variant, x, y), bytes_of(SERVICE_STEM@)),
{
    lemma_pieces_settled(variant);
    let stock = bytes_of(BOOTANIM_RC@);
    let start = bytes_of(directives(variant).0);
    let wait = bytes_of(directives(variant).1);
    let service = bytes_of(directives(variant).2);
    let end = bytes_of(directives(variant).3);
    lemma_piece_follows(stock, start);
    lemma_name_follows(stock + start, x);
    lemma_piece_follows(stock + start + x, wait);
    lemma_name_follows(stock + start + x + wait, x);
    lemma_piece_follows(stock + start + x + wait + x, service);
    lemma_name_follows(stock + start + x + wait + x + service, y);
    lemma_piece_follows(stock + start + x + wait + x + service + y, end);
    let script = render_bootanim(variant, x, y);
    assert(unmarked(script));
    reveal_strlit("magisk_service_");
    let stem = bytes_of(SERVICE_STEM@);
    assert(vstd::utf8::is_ascii_chars(SERVICE_STEM@));
    vstd::utf8::is_ascii_chars_encode_utf8(SERVICE_STEM@);
    assert(stem.len() == 15);
    assert(stem[6] == SERVICE_STEM@[6] as u8);
    assert(stem[7] == SERVICE_STEM@[7] as u8);
    assert(stem[8] == SERVICE_STEM@[8] as u8);
    assert forall|i: int| !matches_at(script, stem, i) by {
        if matches_at(script, stem, i) {
            let part = script.subrange(i, i + stem.len());
            assert(part[6] == script[i + 6]);
            assert(part[7] == script[i + 7]);
            assert(part[8] == script[i + 8]);
            assert(stem_mark_at(script, i + 6));
        }
    }
}

/// The script that a patch writes holds the stem nowhere: its two service
/// names are made of letters and digits.
pub proof fn lemma_patched_script_holds_no_stem(
    variant: Variant,
    x: Seq<char>,
    y: Seq<char>,
    n: nat,
)
    requires
        is_token(x, n),
        is_token(y, n),
    ensures
        !has_subseq(
            render_bootanim(variant, bytes_of(x), bytes_of(y)),
            bytes_of(SERVICE_STEM@),
        ),
{
    lemma_token_bytes(x, n);
    lemma_token_bytes(y, n);
    lemma_script_holds_no_stem(variant, bytes_of(x), bytes_of(y));
}

} // verus!
