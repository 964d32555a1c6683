//! Root detection.

use vstd::prelude::*;
use crate::scan::{next_step, scan_step, ScanStep};
use crate::text::{contains, split_on, split_text, str_contains, same_text};

verus! {

/// A system property whose value, when it equals `sus`, suggests a rooted
/// or otherwise insecure build.
#[derive(Clone, Copy)]
pub struct Property {
    pub name: &'static str,
    pub sus: Option<&'static str>,
}

/// The properties checked by `check_known_root_properties`, in order.
pub open spec fn known_root_property(i: int) -> Property {
    if i == 0 {
        Property { name: "ro.secure", sus: Some("0") }
    } else if i == 1 {
        Property { name: "ro.debuggable", sus: Some("1") }
    } else {
        Property { name: "ro.build.type", sus: Some("userdebug") }
    }
}

/// How many properties `check_known_root_properties` checks.
pub const KNOWN_ROOT_PROPERTY_COUNT: usize = 3;

/// Entry `i` of the known root properties.
pub fn known_root_properties(i: usize) -> (p: Property)
    requires
        i < KNOWN_ROOT_PROPERTY_COUNT,
    ensures
        p == known_root_property(i as int),
{
    if i == 0 {
        Property { name: "ro.secure", sus: Some("0") }
    } else if i == 1 {
        Property { name: "ro.debuggable", sus: Some("1") }
    } else {
        Property { name: "ro.build.type", sus: Some("userdebug") }
    }
}

/// Property `i` of the table has a suspicious value and `value` is it.
pub open spec fn root_property_hit(i: int, value: Seq<char>) -> bool {
    0 <= i < 3 && match known_root_property(i).sus {
        Some(sus) => value == sus@,
        None => false,
    }
}

/// The outcomes of the property probes, given the values read so far
/// (value `i` is that of property `i`).
pub open spec fn root_property_hits(values: Seq<String>) -> Seq<bool> {
    Seq::new(values.len(), |i: int| root_property_hit(i, values[i]@))
}

/// Checks some properties that may reveal an insecure environment: probe
/// `i` reads property `known_root_properties(i).name`, and the caller passes
/// the values read so far; the scan stops at the first suspicious value.
pub fn check_known_root_properties(values: &Vec<String>) -> (step: ScanStep)
    ensures
        step == next_step(3, root_property_hits(values@)),
{
    let mut hits: Vec<bool> = Vec::new();
    let n = values.len();
    for i in 0..n
        invariant
            n == values@.len(),
            hits@ =~= root_property_hits(values@).take(i as int),
    {
        let hit = if i < 3 {
            let property = known_root_properties(i);
            match property.sus {
                Some(sus) => same_text(values[i].as_str(), sus),
                None => false,
            }
        } else {
            false
        };
        hits.push(hit);
    }
    assert(hits@ =~= root_property_hits(values@));
    scan_step(3, &hits)
}

/// System directories that an unrooted application cannot write to, in the
/// order `check_writable_paths` tries them.
pub const NON_WRITABLE_PATHS: [&'static str; 7] = [
    "/system",
    "/system/bin",
    "/system/sbin",
    "/system/xbin",
    "/vendor/bin",
    "/sbin",
    "/etc",
];

/// Tries to create a file in each directory of `NON_WRITABLE_PATHS`: probe
/// `i` reports whether directory `i` exists and accepted a new file; the scan
/// stops at the first writable one.
pub fn check_writable_paths(writable: &Vec<bool>) -> (step: ScanStep)
    ensures
        step == next_step(7, writable@),
{
    scan_step(7, writable)
}

/// Files left by root managers, hooking tools and emulators, in the order
/// `detect_su_files` looks for them.
pub const SU_FILES: [&'static str; 65] = [
    "/sbin/su",
    "/system/bin/su",
    "/system/xbin/su",
    "/data/local/xbin/su",
    "/data/local/bin/su",
    "/system/sd/xbin/su",
    "/system/bin/failsafe/su",
    "/data/local/su",
    "/su/bin/su",
    "/system/bin/.ext/su",
    "/system/usr/we-need-root/su",
    "/cache/su",
    "/dev/su",
    "/data/su",
    "/su",
    "/system/app/Superuser.apk",
    "/system/app/SuperSU.apk",
    "/system/app/SuperSU",
    "/system/app/SuperSU/SuperSU.apk",
    "/system/app/Kinguser.apk",
    "/system/app/KingUser.apk",
    "/system/lib/libsu.so",
    "/system/lib64/libsu.so",
    "/data/data/com.noshufou.android.su/",
    "/data/data/eu.chainfire.supersu/",
    "/system/xbin/daemonsu",
    "/system/xbin/busybox",
    "/data/media/0/TWRP",
    "/sdcard/TWRP",
    "/data/TWRP",
    "./frida-server",
    "/data/local/tmp/frida-server",
    "/system/framework/root-access.jar",
    "/system/su.d",
    "/system/xbin/ku.sud",
    "/system/xbin/daemonsu",
    "/system/xbin/supolicy",
    "/system/xbin/supolicy.so",
    "/system/xbin/resize2fs_static",
    "/system/xbin/sush",
    "/system/xbin/busybox",
    "/system/xbin/busybox_mksh",
    "/system/xbin/busybox_insmod",
    "/system/xbin/busybox_rmmod",
    "/system/xbin/toybox",
    "/data/local/tmp/su",
    "/data/local/tmp/supolicy",
    "/data/local/tmp/busybox",
    "/data/local/tmp/magisk",
    "/data/local/tmp/frida-server",
    "/data/local/tmp/frida64",
    "/data/local/tmp/magiskhide",
    "/data/local/tmp/magiskcore",
    "/data/adb/ksu",
    "/system/lib/libc_malloc_debug_qemu.so",
    "/system/bin/qemud",
    "/sys/qemu_trace",
    "/system/bin/androVM-prop",
    "/system/bin/microvirt-prop",
    "/dev/vboxguest",
    "/dev/vboxuser",
    "/mnt/prebundledapps/",
    "/system/bluestacks.prop",
    "/system/bin/qemu-props",
    "/sys/devices/virtual/misc/qemu_pipe",
];

/// Looks for each file of `SU_FILES`: probe `i` reports whether file `i`
/// exists; the scan stops at the first one found.
pub fn detect_su_files(found: &Vec<bool>) -> (step: ScanStep)
    ensures
        step == next_step(65, found@),
{
    scan_step(65, found)
}

/// Whether the build tags name the test signing keys.
pub fn check_test_keys(build_tags: &str) -> (r: bool)
    ensures
        r == contains(build_tags@, "test-keys"@),
{
    str_contains(build_tags, "test-keys")
}

/// The files `check_root_path` looks for, in order: for each directory of
/// the search path `path_env` (split at `:`), the name `su` and then the name
/// `magisk` in it.
pub open spec fn root_path_candidate(path_env: Seq<char>, i: int) -> (Seq<char>, &'static str) {
    (split_on(path_env, ':')[i / 2], if i % 2 == 0 { "su" } else { "magisk" })
}

/// The (directory, file name) pairs to look for, as `root_path_candidate`
/// lists them.
pub fn root_path_candidates(path_env: &str) -> (c: Vec<(String, &'static str)>)
    ensures
        c@.len() == 2 * split_on(path_env@, ':').len(),
        forall|i: int|
            0 <= i < c@.len() ==> (#[trigger] c@[i]).0@ == root_path_candidate(path_env@, i).0
                && c@[i].1 == root_path_candidate(path_env@, i).1,
{
    let dirs = split_text(path_env, ':');
    let mut c: Vec<(String, &'static str)> = Vec::new();
    let n = dirs.len();
    for k in 0..n
        invariant
            n == dirs@.len(),
            n == split_on(path_env@, ':').len(),
            forall|j: int| 0 <= j < n ==> #[trigger] dirs@[j]@ == split_on(path_env@, ':')[j],
            c@.len() == 2 * k,
            forall|i: int|
                0 <= i < c@.len() ==> (#[trigger] c@[i]).0@ == root_path_candidate(path_env@, i).0
                    && c@[i].1 == root_path_candidate(path_env@, i).1,
    {
        let dir = dirs[k].clone();
        c.push((dir, "su"));
        let dir = dirs[k].clone();
        c.push((dir, "magisk"));
        assert((2 * k) / 2 == k && (2 * k + 1) / 2 == k && (2 * k) % 2 == 0 && (2 * k + 1) % 2
            == 1);
    }
    c
}

/// Looks for `su` and `magisk` in each directory of the search path
/// `path_env`: probe `i` reports whether candidate `i` of
/// `root_path_candidates(path_env)` exists; the scan stops at the first one
/// found.
pub fn check_root_path(path_env: &str, found: &Vec<bool>) -> (step: ScanStep)
    ensures
        step == next_step(2 * split_on(path_env@, ':').len(), found@),
{
    let candidates = root_path_candidates(path_env);
    scan_step(candidates.len(), found)
}

/// Mount entries that reveal Magisk or a mounted `su`.
pub const BLACKLISTED_MOUNT_PATHS: [&'static str; 9] = [
    "/sbin/.magisk/",
    "/data/magisk/",
    "/cache/magisk/",
    "/system/.magisk/",
    "/system/xbin/su",
    "/system/bin/su",
    "magisk",
    "core/mirror",
    "core/img",
];

/// Some line of the mount table contains one of `BLACKLISTED_MOUNT_PATHS`.
pub open spec fn mount_info_blacklisted(lines: Seq<String>) -> bool {
    exists|i: int, j: int|
        0 <= i < lines.len() && 0 <= j < 9 && contains(
            #[trigger] lines[i]@,
            (#[trigger] BLACKLISTED_MOUNT_PATHS[j])@,
        )
}

/// Whether some line of the mount table (the lines that could be read)
/// mentions a blacklisted path.
pub fn is_blacklisted_mount_path(lines: &Vec<String>) -> (r: bool)
    ensures
        r == mount_info_blacklisted(lines@),
{
    let n = lines.len();
    for i in 0..n
        invariant
            n == lines@.len(),
            forall|a: int, b: int|
                0 <= a < i && 0 <= b < 9 ==> !contains(
                    #[trigger] lines@[a]@,
                    (#[trigger] BLACKLISTED_MOUNT_PATHS[b])@,
                ),
    {
        for j in 0..9
            invariant
                n == lines@.len(),
                i < n,
                forall|a: int, b: int|
                    0 <= a < i && 0 <= b < 9 ==> !contains(
                        #[trigger] lines@[a]@,
                        (#[trigger] BLACKLISTED_MOUNT_PATHS[b])@,
                    ),
                forall|b: int|
                    0 <= b < j ==> !contains(
                        lines@[i as int]@,
                        (#[trigger] BLACKLISTED_MOUNT_PATHS[b])@,
                    ),
        {
            if str_contains(lines[i].as_str(), BLACKLISTED_MOUNT_PATHS[j]) {
                return true;
            }
        }
    }
    false
}

/// The checks that make up root detection, in the order `is_root` runs them.
#[derive(Clone, Copy, Debug, PartialEq, Eq, Structural)]
pub enum RootCheck {
    KnownRootProperties,
    WritablePaths,
    TestKeys,
    DeviceRootedExec,
    RootPath,
    ExecWhichSu,
    SuFiles,
    BlacklistedMountPath,
}

/// The order of the root checks: probe `i` of `is_root` is `ROOT_CHECKS[i]`.
pub const ROOT_CHECKS: [RootCheck; 8] = [
    RootCheck::KnownRootProperties,
    RootCheck::WritablePaths,
    RootCheck::TestKeys,
    RootCheck::DeviceRootedExec,
    RootCheck::RootPath,
    RootCheck::ExecWhichSu,
    RootCheck::SuFiles,
    RootCheck::BlacklistedMountPath,
];

/// Root detection: runs the checks of `ROOT_CHECKS` in order (probe `i`
/// reports the result of check `i`) and stops at the first that detects
/// root.
pub fn is_root(results: &Vec<bool>) -> (step: ScanStep)
    ensures
        step == next_step(8, results@),
{
    scan_step(8, results)
}

/// A line mentioning a blacklisted path makes the table blacklisted,
/// whichever line it is and whichever path it mentions; and a blacklisted
/// table has such a line.
pub proof fn lemma_mount_blacklist_any_line(lines: Seq<String>)
    ensures
        forall|i: int, j: int|
            0 <= i < lines.len() && 0 <= j < 9 && contains(
                #[trigger] lines[i]@,
                (#[trigger] BLACKLISTED_MOUNT_PATHS[j])@,
            ) ==> mount_info_blacklisted(lines),
        mount_info_blacklisted(lines) ==> exists|i: int, j: int|
            0 <= i < lines.len() && 0 <= j < 9 && contains(
                #[trigger] lines[i]@,
                (#[trigger] BLACKLISTED_MOUNT_PATHS[j])@,
            ),
        lines.len() == 0 ==> !mount_info_blacklisted(lines),
{
}

/// More lines, before or after, never make a blacklisted table clean.
pub proof fn lemma_mount_blacklist_extend(lines: Seq<String>, extra: Seq<String>)
    requires
        mount_info_blacklisted(lines),
    ensures
        mount_info_blacklisted(lines + extra),
        mount_info_blacklisted(extra + lines),
{
    let (i, j) = choose|i: int, j: int|
        0 <= i < lines.len() && 0 <= j < 9 && contains(
            #[trigger] lines[i]@,
            (#[trigger] BLACKLISTED_MOUNT_PATHS[j])@,
        );
    assert((lines + extra)[i] == lines[i]);
    assert((extra + lines)[extra.len() + i] == lines[i]);
}

/// A property probe is positive exactly when the value read equals the
/// table's suspicious value for that property.
pub proof fn lemma_root_property_hits(values: Seq<String>)
    ensures
        root_property_hits(values).len() == values.len(),
        forall|i: int|
            0 <= i < values.len() && i < 3 ==> (#[trigger] root_property_hits(values)[i] <==> Some(
                values[i]@,
            ) == (match known_root_property(i).sus {
                Some(sus) => Some(sus@),
                None => None,
            })),
{
}

/// For each directory of the search path, in order, `su` is looked for and
/// then `magisk`; no other file is looked for.
pub proof fn lemma_root_path_candidates(path_env: Seq<char>)
    ensures
        forall|k: int|
            0 <= k < split_on(path_env, ':').len() ==> #[trigger] root_path_candidate(path_env, 2 * k)
                == (split_on(path_env, ':')[k], "su") && root_path_candidate(path_env, 2 * k + 1)
                == (split_on(path_env, ':')[k], "magisk"),
{
    assert forall|k: int| 0 <= k < split_on(path_env, ':').len() implies #[trigger] root_path_candidate(
        path_env,
        2 * k,
    ) == (split_on(path_env, ':')[k], "su") && root_path_candidate(path_env, 2 * k + 1) == (
    split_on(path_env, ':')[k], "magisk") by {
        assert((2 * k) / 2 == k && (2 * k + 1) / 2 == k && (2 * k) % 2 == 0 && (2 * k + 1) % 2
            == 1);
    }
}

} // verus!
