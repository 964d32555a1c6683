//! The combined verdict of the environment security checks.

use vstd::prelude::*;

verus! {

/// The results of the environment security checks.
pub struct SecurityFindings {
    /// A Burp Suite certificate was found.
    pub burp_certificate: bool,
    /// Frida's default port is open.
    pub frida_port: bool,
    /// A global HTTP proxy is configured.
    pub proxy: bool,
    /// A Frida process is running.
    pub frida_process: bool,
    /// Files named after Frida were found.
    pub suspicious_files: bool,
    /// Network routes mention Frida.
    pub redirects: bool,
    /// The application package is disabled.
    pub frozen: bool,
}

/// Whether any of the security checks found something.
pub fn security_issue_detected(findings: &SecurityFindings) -> (r: bool)
    ensures
        r == (findings.burp_certificate || findings.frida_port || findings.proxy
            || findings.frida_process || findings.suspicious_files || findings.redirects
            || findings.frozen),
{
    findings.burp_certificate || findings.frida_port || findings.proxy || findings.frida_process
        || findings.suspicious_files || findings.redirects || findings.frozen
}

} // verus!
