use mugen::debug::{debug_check, has_tracer_pid, is_debug};
use mugen::emulator::{check_cpu_features, check_filesystem_mounts, check_opengl_renderer};
use mugen::general::is_frozen;
use mugen::hook::{check_frida_port, check_frida_process, check_suspicious_files};
use mugen::network::{burpcheck, check_redirects, detect_proxy, is_cer_file};
use mugen::props::prop_value;
use mugen::root::{check_test_keys, is_blacklisted_mount_path};
use mugen::security::{security_issue_detected, SecurityFindings};

fn lines(text: &str) -> Vec<String> {
    text.lines().map(|l| l.to_string()).collect()
}

#[test]
fn tracer_pid_zero_means_no_tracer() {
    assert!(!has_tracer_pid(&lines("Name:\tapp\nTracerPid:\t0\nUid:\t1000")));
}

#[test]
fn tracer_pid_nonzero_means_tracer() {
    assert!(has_tracer_pid(&lines("Name:\tapp\nTracerPid:\t4321\n")));
}

#[test]
fn tracer_pid_first_line_decides() {
    assert!(!has_tracer_pid(&lines("TracerPid: 0\nTracerPid: 9")));
    assert!(!has_tracer_pid(&lines("Name: app\nState: S")));
    assert!(!has_tracer_pid(&vec![]));
    assert!(has_tracer_pid(&lines("TracerPid:")));
}

#[test]
fn debuggable_flag_and_combination() {
    assert!(debug_check(0x2 | 0x8, 0x2));
    assert!(!debug_check(0x8, 0x2));
    assert!(!debug_check(-1, 0));
    assert!(is_debug(0, 0, false, true));
    assert!(is_debug(1, 0, false, false));
    assert!(!is_debug(0, 0, false, false));
}

#[test]
fn renderer_and_mounts() {
    assert!(check_opengl_renderer(Some("VBoxVGA vbox")));
    assert!(check_opengl_renderer(Some("qemu virtio")));
    assert!(!check_opengl_renderer(Some("Adreno")));
    assert!(!check_opengl_renderer(None));
    assert!(check_filesystem_mounts(Some("none /mnt/shared vboxsf rw 0 0")));
    assert!(!check_filesystem_mounts(Some("/dev/block/sda / ext4")));
    assert!(!check_filesystem_mounts(None));
}

#[test]
fn cpu_features_are_case_insensitive() {
    assert!(check_cpu_features(Some("model name : QEMU Virtual CPU version 2.5+")));
    assert!(check_cpu_features(Some("flags : fpu HYPERVISOR")));
    assert!(check_cpu_features(Some("KVM")));
    assert!(!check_cpu_features(Some("Hardware : Qualcomm Technologies")));
    assert!(!check_cpu_features(None));
}

#[test]
fn frida_outputs() {
    assert!(check_frida_process("u0_a1 1234 frida-server"));
    assert!(!check_frida_process(""));
    assert!(check_frida_port("tcp 0 0 127.0.0.1:27042 LISTEN"));
    assert!(!check_frida_port("tcp 0 0 127.0.0.1:8080 LISTEN"));
    assert!(check_redirects("10.0.0.0/8 via frida"));
    assert!(!check_redirects("default via 10.0.2.2"));
}

#[test]
fn suspicious_paths_match_any_case() {
    let paths = vec!["/sdcard/Download".to_string(), "/sdcard/FRIDA-gadget.so".to_string()];
    assert_eq!(check_suspicious_files(&paths).unwrap(), true);
    let clean = vec!["/sdcard/Music/song.mp3".to_string()];
    assert_eq!(check_suspicious_files(&clean).unwrap(), false);
    assert_eq!(check_suspicious_files(&vec![]).unwrap(), false);
}

#[test]
fn burp_certificates_by_word() {
    let certs = vec!["CN=PortSwigger CA, OU=PortSwigger CA".to_string()];
    assert_eq!(burpcheck(&certs).unwrap(), true);
    let lower = vec!["issuer portswigger".to_string()];
    assert_eq!(burpcheck(&lower).unwrap(), true);
    let glued = vec!["XPortSwiggerX".to_string()];
    assert_eq!(burpcheck(&glued).unwrap(), false);
    assert_eq!(burpcheck(&vec![]).unwrap(), false);
}

#[test]
fn cer_extension() {
    assert!(is_cer_file("burp.cer"));
    assert!(is_cer_file("a.b.cer"));
    assert!(!is_cer_file("burp.der"));
    assert!(!is_cer_file(".cer"));
    assert!(!is_cer_file("cer"));
    assert!(!is_cer_file("burp.CER"));
    assert!(!is_cer_file(""));
    assert!(!is_cer_file(".."));
    for name in ["x.cer", ".cer", "a.", "noext", "..cer", "a..cer"] {
        let expected = std::path::Path::new(name).extension().and_then(|s| s.to_str()) == Some("cer");
        assert_eq!(is_cer_file(name), expected);
    }
}

#[test]
fn proxy_needs_host_and_port() {
    assert!(detect_proxy("10.0.0.1\n", "8080\n"));
    assert!(!detect_proxy("\n", "8080\n"));
    assert!(!detect_proxy("10.0.0.1", "  "));
    assert!(!detect_proxy("", ""));
}

#[test]
fn unset_proxy_settings_read_null() {
    assert!(!detect_proxy("null\n", "null\n"));
    assert!(!detect_proxy("null\n", "8080\n"));
    assert!(!detect_proxy("10.0.0.1\n", " null "));
    assert!(detect_proxy("nullhost\n", "8080\n"));
    assert!(detect_proxy("Null\n", "8080\n"));
}

#[test]
fn frozen_package() {
    assert!(is_frozen("User 0: installed=true enabled=false"));
    assert!(!is_frozen("User 0: installed=true enabled=true"));
}

#[test]
fn test_keys_and_mounts() {
    assert!(check_test_keys("release-keys,test-keys"));
    assert!(!check_test_keys("release-keys"));
    assert!(is_blacklisted_mount_path(&lines("1 2 0:1 / /system rw\n35 1 0:2 /sbin/.magisk/mirror rw")));
    assert!(is_blacklisted_mount_path(&lines("x core/img y")));
    assert!(!is_blacklisted_mount_path(&lines("1 2 0:1 / /system ro")));
    assert!(!is_blacklisted_mount_path(&vec![]));
}

#[test]
fn prop_values_are_trimmed() {
    assert_eq!(prop_value("userdebug\n"), "userdebug");
    assert_eq!(prop_value("\n"), "");
}

#[test]
fn security_verdict_is_any_finding() {
    let none = SecurityFindings {
        burp_certificate: false,
        frida_port: false,
        proxy: false,
        frida_process: false,
        suspicious_files: false,
        redirects: false,
        frozen: false,
    };
    assert!(!security_issue_detected(&none));
    let one = SecurityFindings { frozen: true, ..none };
    assert!(security_issue_detected(&one));
}
