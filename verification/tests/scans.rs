use mugen::emulator::{
    check_device_props, check_qemu_drivers, is_emulator, DEVICE_PROP_NAMES, DEVICE_PROP_VALUES,
    EMULATOR_CHECKS, EmulatorCheck, QEMU_DRIVER_FILES,
};
use mugen::root::{
    check_known_root_properties, check_root_path, check_writable_paths, detect_su_files,
    is_root, known_root_properties, root_path_candidates, RootCheck, NON_WRITABLE_PATHS,
    ROOT_CHECKS, SU_FILES,
};
use mugen::scan::{scan_step, ScanStep};

/// Drives a scan with fixed outcomes, returning the probes asked for and the answer.
fn drive(step: impl Fn(&Vec<bool>) -> ScanStep, oracle: &[bool]) -> (Vec<usize>, bool) {
    let mut seen = Vec::new();
    let mut asked = Vec::new();
    loop {
        match step(&seen) {
            ScanStep::Probe(i) => {
                asked.push(i);
                seen.push(oracle[i]);
            }
            ScanStep::Finished(answer) => return (asked, answer),
        }
    }
}

#[test]
fn scan_stops_at_first_positive() {
    let (asked, answer) = drive(|h| scan_step(5, h), &[false, false, true, true, false]);
    assert_eq!(asked, vec![0, 1, 2]);
    assert!(answer);
}

#[test]
fn scan_runs_all_probes_when_negative() {
    let (asked, answer) = drive(|h| scan_step(4, h), &[false; 4]);
    assert_eq!(asked, vec![0, 1, 2, 3]);
    assert!(!answer);
}

#[test]
fn scan_of_nothing_is_negative() {
    assert_eq!(scan_step(0, &vec![]), ScanStep::Finished(false));
}

#[test]
fn scan_ignores_outcomes_beyond_its_probes() {
    assert_eq!(scan_step(2, &vec![false, false, true]), ScanStep::Finished(false));
}

#[test]
fn root_checks_in_order() {
    assert_eq!(ROOT_CHECKS[0], RootCheck::KnownRootProperties);
    assert_eq!(ROOT_CHECKS[7], RootCheck::BlacklistedMountPath);
    let (asked, answer) = drive(is_root, &[false, false, false, false, true, false, false, false]);
    assert_eq!(asked, vec![0, 1, 2, 3, 4]);
    assert!(answer);
    assert_eq!(is_root(&vec![false; 8]), ScanStep::Finished(false));
}

#[test]
fn emulator_checks_in_order() {
    assert_eq!(EMULATOR_CHECKS[0], EmulatorCheck::DeviceProps);
    assert_eq!(EMULATOR_CHECKS[4], EmulatorCheck::FilesystemMounts);
    assert_eq!(is_emulator(&vec![]), ScanStep::Probe(0));
    assert_eq!(is_emulator(&vec![false, true]), ScanStep::Finished(true));
    assert_eq!(is_emulator(&vec![false; 5]), ScanStep::Finished(false));
}

#[test]
fn writable_paths_and_su_files() {
    assert_eq!(NON_WRITABLE_PATHS.len(), 7);
    assert_eq!(check_writable_paths(&vec![false; 3]), ScanStep::Probe(3));
    assert_eq!(check_writable_paths(&vec![false; 7]), ScanStep::Finished(false));
    assert_eq!(SU_FILES.len(), 65);
    assert_eq!(SU_FILES[0], "/sbin/su");
    assert_eq!(detect_su_files(&vec![false, false, true]), ScanStep::Finished(true));
    assert_eq!(detect_su_files(&vec![false; 64]), ScanStep::Probe(64));
}

#[test]
fn known_root_properties_compare_values() {
    assert_eq!(known_root_properties(0).name, "ro.secure");
    assert_eq!(known_root_properties(2).sus, Some("userdebug"));
    assert_eq!(check_known_root_properties(&vec![]), ScanStep::Probe(0));
    assert_eq!(check_known_root_properties(&vec!["1".to_string()]), ScanStep::Probe(1));
    assert_eq!(
        check_known_root_properties(&vec!["1".to_string(), "1".to_string()]),
        ScanStep::Finished(true)
    );
    assert_eq!(
        check_known_root_properties(&vec!["1".into(), "0".into(), "user".into()]),
        ScanStep::Finished(false)
    );
    assert_eq!(
        check_known_root_properties(&vec!["1".into(), "0".into(), "userdebug".into()]),
        ScanStep::Finished(true)
    );
}

#[test]
fn device_props_compare_values() {
    assert_eq!(DEVICE_PROP_NAMES.len(), DEVICE_PROP_VALUES.len());
    assert_eq!(DEVICE_PROP_NAMES[0], "ro.kernel.qemu");
    assert_eq!(check_device_props(&vec!["0".to_string()]), ScanStep::Probe(1));
    assert_eq!(check_device_props(&vec!["1".to_string()]), ScanStep::Finished(true));
    let mut values: Vec<String> = vec!["".to_string(); 2];
    values.push("goldfish".to_string());
    assert_eq!(check_device_props(&values), ScanStep::Finished(true));
    let clean: Vec<String> = vec!["real".to_string(); 46];
    assert_eq!(check_device_props(&clean), ScanStep::Finished(false));
}

#[test]
fn qemu_drivers_scan_contents() {
    assert_eq!(QEMU_DRIVER_FILES[0], "/proc/tty/drivers");
    assert_eq!(check_qemu_drivers(&vec![]), ScanStep::Probe(0));
    assert_eq!(check_qemu_drivers(&vec![None]), ScanStep::Probe(1));
    assert_eq!(
        check_qemu_drivers(&vec![Some("serial /dev/ttyS".into()), Some("model: goldfish".into())]),
        ScanStep::Finished(true)
    );
    assert_eq!(
        check_qemu_drivers(&vec![Some("vboxguest 1".into())]),
        ScanStep::Finished(true)
    );
    assert_eq!(check_qemu_drivers(&vec![None, None]), ScanStep::Finished(false));
}

#[test]
fn root_path_candidates_pair_each_directory() {
    let c = root_path_candidates("/bin:/usr/bin");
    assert_eq!(
        c,
        vec![
            ("/bin".to_string(), "su"),
            ("/bin".to_string(), "magisk"),
            ("/usr/bin".to_string(), "su"),
            ("/usr/bin".to_string(), "magisk"),
        ]
    );
    assert_eq!(root_path_candidates(""), vec![("".to_string(), "su"), ("".to_string(), "magisk")]);
    assert_eq!(check_root_path("/bin:/usr/bin", &vec![false; 3]), ScanStep::Probe(3));
    assert_eq!(check_root_path("/bin:/usr/bin", &vec![false; 4]), ScanStep::Finished(false));
    assert_eq!(check_root_path("/bin", &vec![false, true]), ScanStep::Finished(true));
}
