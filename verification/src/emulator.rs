//! Emulator detection.

use vstd::prelude::*;
use crate::scan::{next_step, scan_step, ScanStep};
use crate::text::{contains, str_contains, same_text};

verus! {

/// How many property probes `check_device_props` makes.
pub const DEVICE_PROP_COUNT: usize = 46;

/// The properties that `check_device_props` reads, in order; property `i`
/// suggests an emulator when its value is `DEVICE_PROP_VALUES[i]` (a name
/// may occur more than once, with different values).
pub const DEVICE_PROP_NAMES: [&'static str; 46] = [
    "ro.kernel.qemu",
    "ro.bootloader",
    "ro.hardware",
    "ro.hardware",
    "ro.product.device",
    "ro.product.model",
    "ro.product.model",
    "ro.product.name",
    "ro.product.name",
    "ro.product.name",
    "ro.product.name",
    "ro.product.name",
    "ro.product.name",
    "ro.product.name",
    "ro.product.manufacturer",
    "ro.product.manufacturer",
    "ro.product.manufacturer",
    "ro.product.manufacturer",
    "ro.product.manufacturer",
    "ro.product.model",
    "ro.product.model",
    "ro.product.brand",
    "ro.product.device",
    "ro.product.device",
    "ro.product.device",
    "ro.product.name",
    "ro.product.name",
    "ro.product.name",
    "ro.build.fingerprint",
    "ro.build.fingerprint",
    "ro.build.fingerprint",
    "ro.build.fingerprint",
    "ro.hardware.audio.primary",
    "ro.hardware.audio.a2dp",
    "ro.hardware.audio.usb",
    "ro.hardware.audio.r_submix",
    "ro.hardware.audio.bluetooth",
    "ro.hardware.audio.legacy",
    "ro.hardware.graphics",
    "ro.hardware.graphics.egl",
    "ro.hardware.graphics.allocator",
    "init.svc.vbox86-setup",
    "init.svc.qemud",
    "init.svc.qemu-props",
    "init.svc.goldfish-logcat",
    "init.svc.goldfish-setup",
];

/// The emulator values of the properties of `DEVICE_PROP_NAMES`.
pub const DEVICE_PROP_VALUES: [&'static str; 46] = [
    "1",
    "unknown",
    "goldfish",
    "ranchu",
    "generic",
    "sdk",
    "google_sdk",
    "sdk",
    "sdk_x86",
    "sdk_google",
    "Andy",
    "Droid4X",
    "nox",
    "ttVM_Hdragon",
    "Genymotion",
    "Andy",
    "BlueStacks",
    "ARC Welder",
    "Nox",
    "Emulator",
    "Android SDK built for x86",
    "generic",
    "generic",
    "generic_x86",
    "generic_x86_64",
    "sdk",
    "sdk_x86",
    "sdk_google",
    "generic",
    "generic_x86",
    "generic_x86_64",
    "Android/sdk_google_phone_x86_64/generic_x86_64:10/QQ3A.200805.001/6578215:userdebug/dev-keys",
    "goldfish",
    "goldfish",
    "goldfish",
    "goldfish",
    "goldfish",
    "goldfish",
    "goldfish",
    "goldfish",
    "goldfish",
    "running",
    "running",
    "running",
    "running",
    "running",
];

/// The outcomes of the property probes, given the values read so far
/// (value `i` is that of `DEVICE_PROP_NAMES[i]`).
pub open spec fn device_prop_hits(values: Seq<String>) -> Seq<bool> {
    Seq::new(
        values.len(),
        |i: int| 0 <= i < 46 && values[i]@ == DEVICE_PROP_VALUES[i]@,
    )
}

/// Checks properties whose values reveal common emulators: probe `i` reads
/// property `DEVICE_PROP_NAMES[i]`, and the caller passes the values read so
/// far; the scan stops at the first value equal to `DEVICE_PROP_VALUES[i]`.
pub fn check_device_props(values: &Vec<String>) -> (step: ScanStep)
    ensures
        step == next_step(46, device_prop_hits(values@)),
{
    let mut hits: Vec<bool> = Vec::new();
    let n = values.len();
    for i in 0..n
        invariant
            n == values@.len(),
            hits@ =~= device_prop_hits(values@).take(i as int),
    {
        let hit = if i < DEVICE_PROP_COUNT {
            same_text(values[i].as_str(), DEVICE_PROP_VALUES[i])
        } else {
            false
        };
        hits.push(hit);
    }
    assert(hits@ =~= device_prop_hits(values@));
    scan_step(DEVICE_PROP_COUNT, &hits)
}

/// The GPU renderer name (when it could be read) names VirtualBox or QEMU.
pub open spec fn virtual_renderer(content: Option<Seq<char>>) -> bool {
    match content {
        Some(c) => contains(c, "vbox"@) || contains(c, "qemu"@),
        None => false,
    }
}

/// Checks the DRI renderer name for VirtualBox or QEMU.
pub fn check_opengl_renderer(content: Option<&str>) -> (r: bool)
    ensures
        r == virtual_renderer(
            match content {
                Some(c) => Some(c@),
                None => None,
            },
        ),
{
    match content {
        Some(c) => str_contains(c, "vbox") || str_contains(c, "qemu"),
        None => false,
    }
}

/// Checks the mount table (when it could be read) for VirtualBox shared
/// folders.
pub fn check_filesystem_mounts(content: Option<&str>) -> (r: bool)
    ensures
        r == (content matches Some(c) && contains(c@, "vboxsf"@)),
{
    match content {
        Some(c) => str_contains(c, "vboxsf"),
        None => false,
    }
}

/// The files that `check_qemu_drivers` reads, in order.
pub const QEMU_DRIVER_FILES: [&'static str; 2] = ["/proc/tty/drivers", "/proc/cpuinfo"];

/// Driver names that reveal QEMU or VirtualBox.
pub const QEMU_DRIVER_MARKERS: [&'static str; 4] = ["goldfish", "qemu", "vboxguest", "vboxuser"];

/// A driver file (when it could be read) mentions one of the markers.
pub open spec fn driver_file_hit(content: Option<String>) -> bool {
    match content {
        Some(c) => exists|j: int| 0 <= j < 4 && contains(c@, (#[trigger] QEMU_DRIVER_MARKERS[j])@),
        None => false,
    }
}

/// The outcomes of the driver-file probes, given the contents read so far.
pub open spec fn driver_hits(contents: Seq<Option<String>>) -> Seq<bool> {
    Seq::new(contents.len(), |i: int| driver_file_hit(contents[i]))
}

fn mentions_driver_marker(content: &str) -> (r: bool)
    ensures
        r == exists|j: int| 0 <= j < 4 && contains(content@, (#[trigger] QEMU_DRIVER_MARKERS[j])@),
{
    for j in 0..4
        invariant
            forall|b: int| 0 <= b < j ==> !contains(content@, (#[trigger] QEMU_DRIVER_MARKERS[b])@),
    {
        if str_contains(content, QEMU_DRIVER_MARKERS[j]) {
            return true;
        }
    }
    false
}

/// Reads the files of `QEMU_DRIVER_FILES` in order (probe `i` reports the
/// content of file `i`, or `None` when it could not be read) and stops at
/// the first that mentions a QEMU or VirtualBox driver.
pub fn check_qemu_drivers(contents: &Vec<Option<String>>) -> (step: ScanStep)
    ensures
        step == next_step(2, driver_hits(contents@)),
{
    let mut hits: Vec<bool> = Vec::new();
    let n = contents.len();
    for i in 0..n
        invariant
            n == contents@.len(),
            hits@ =~= driver_hits(contents@).take(i as int),
    {
        let hit = match &contents[i] {
            Some(c) => mentions_driver_marker(c.as_str()),
            None => false,
        };
        hits.push(hit);
    }
    assert(hits@ =~= driver_hits(contents@));
    scan_step(2, &hits)
}

/// `s` with every character in lower case, as `str::to_lowercase` gives it.
pub uninterp spec fn lowercase(s: Seq<char>) -> Seq<char>;

/// `str::to_lowercase`, named by `lowercase` (a function of the text alone:
/// the Unicode lower-case mapping of each character, with the final-sigma
/// rule).
#[verifier::external_body]
fn to_lowercase(s: &str) -> (r: String)
    ensures
        r@ == lowercase(s@),
{
    s.to_lowercase()
}

/// Words in the processor description that reveal a virtual machine.
pub const VIRTUALIZATION_MARKERS: [&'static str; 7] = [
    "qemu",
    "virtualbox",
    "vmware",
    "kvm",
    "xen",
    "hyper-v",
    "hypervisor",
];

/// The processor description (when it could be read), in lower case,
/// mentions one of the virtualization markers.
pub open spec fn virtual_cpu(content: Option<Seq<char>>) -> bool {
    match content {
        Some(c) => exists|j: int|
            0 <= j < 7 && contains(lowercase(c), (#[trigger] VIRTUALIZATION_MARKERS[j])@),
        None => false,
    }
}

/// Checks the processor description for a hypervisor.
pub fn check_cpu_features(content: Option<&str>) -> (r: bool)
    ensures
        r == virtual_cpu(
            match content {
                Some(c) => Some(c@),
                None => None,
            },
        ),
{
    match content {
        Some(c) => {
            let lower = to_lowercase(c);
            mentions_virtualization(lower.as_str())
        },
        None => false,
    }
}

fn mentions_virtualization(text: &str) -> (r: bool)
    ensures
        r == exists|j: int| 0 <= j < 7 && contains(text@, (#[trigger] VIRTUALIZATION_MARKERS[j])@),
{
    for j in 0..7
        invariant
            forall|b: int| 0 <= b < j ==> !contains(text@, (#[trigger] VIRTUALIZATION_MARKERS[b])@),
    {
        if str_contains(text, VIRTUALIZATION_MARKERS[j]) {
            return true;
        }
    }
    false
}

/// The checks that make up emulator detection, in the order `is_emulator`
/// runs them.
#[derive(Clone, Copy, Debug, PartialEq, Eq, Structural)]
pub enum EmulatorCheck {
    DeviceProps,
    QemuDrivers,
    CpuFeatures,
    OpenglRenderer,
    FilesystemMounts,
}

/// The order of the emulator checks: probe `i` of `is_emulator` is
/// `EMULATOR_CHECKS[i]`.
pub const EMULATOR_CHECKS: [EmulatorCheck; 5] = [
    EmulatorCheck::DeviceProps,
    EmulatorCheck::QemuDrivers,
    EmulatorCheck::CpuFeatures,
    EmulatorCheck::OpenglRenderer,
    EmulatorCheck::FilesystemMounts,
];

/// Emulator detection: runs the checks of `EMULATOR_CHECKS` in order (probe
/// `i` reports the result of check `i`) and stops at the first that detects
/// an emulator.
pub fn is_emulator(results: &Vec<bool>) -> (step: ScanStep)
    ensures
        step == next_step(5, results@),
{
    scan_step(5, results)
}

/// A hypervisor word anywhere in the lower-cased processor description makes
/// it virtual, whichever of the words it is; a virtual description has such
/// a word; and an unreadable description is not virtual.
pub proof fn lemma_virtual_cpu_markers(c: Seq<char>)
    ensures
        forall|j: int|
            0 <= j < 7 && contains(lowercase(c), (#[trigger] VIRTUALIZATION_MARKERS[j])@)
                ==> virtual_cpu(Some(c)),
        virtual_cpu(Some(c)) ==> exists|j: int|
            0 <= j < 7 && contains(lowercase(c), (#[trigger] VIRTUALIZATION_MARKERS[j])@),
        !virtual_cpu(None),
{
}

/// A driver file mentioning any marker anywhere is a hit; a hit file
/// mentions one; an unreadable file is never a hit.
pub proof fn lemma_driver_file_hit(content: String)
    ensures
        forall|j: int|
            0 <= j < 4 && contains(content@, (#[trigger] QEMU_DRIVER_MARKERS[j])@)
                ==> driver_file_hit(Some(content)),
        driver_file_hit(Some(content)) ==> exists|j: int|
            0 <= j < 4 && contains(content@, (#[trigger] QEMU_DRIVER_MARKERS[j])@),
        !driver_file_hit(None),
{
}

/// A property probe is positive exactly when the value read equals the
/// table's emulator value for that property.
pub proof fn lemma_device_prop_hits(values: Seq<String>)
    ensures
        device_prop_hits(values).len() == values.len(),
        forall|i: int|
            0 <= i < values.len() && i < 46 ==> (#[trigger] device_prop_hits(values)[i] <==> values[i]@
                == DEVICE_PROP_VALUES[i]@),
        forall|i: int|
            46 <= i < values.len() ==> !#[trigger] device_prop_hits(values)[i],
{
}

/// The renderer is virtual exactly when its name mentions `vbox` or `qemu`
/// somewhere.
pub proof fn lemma_virtual_renderer(c: Seq<char>)
    ensures
        virtual_renderer(Some(c)) <==> (contains(c, "vbox"@) || contains(c, "qemu"@)),
        !virtual_renderer(None),
{
}

} // verus!
