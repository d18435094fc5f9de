//! What every session strategy shares: the failure taxonomy, the command it
//! runs, and how its captured output and errors are classified.
use crate::text::{contains, join2, join3, lower_of, str_contains, to_lower, trim_of, trimmed};
use vstd::prelude::*;

verus! {

/// Administrative port of the devices.
pub const SSH_PORT: u16 = 22;

/// Factory-default administrative user name.
pub const DEFAULT_USERNAME: &'static str = "ubnt";

/// Factory-default administrative password.
pub const DEFAULT_PASSWORD: &'static str = "ubnt";

/// Deadline for opening a session, in seconds.
pub const CONNECT_TIMEOUT_SECS: u64 = 10;

/// The class of a failed session attempt.
#[derive(PartialEq, Eq, Structural, Clone, Copy, Debug)]
pub enum FailureKind {
    ConnectionRefused,
    ConnectionTimeout,
    AuthenticationFailed,
    CommandFailed,
    Other,
}

/// A failed session attempt, with a message for the operator.
#[derive(Debug)]
pub enum SshError {
    ConnectionRefused(String),
    ConnectionTimeout(String),
    AuthFailed(String),
    CommandFailed(String),
    Other(String),
}

impl View for SshError {
    type V = (FailureKind, Seq<char>);

    open spec fn view(&self) -> (FailureKind, Seq<char>) {
        match self {
            SshError::ConnectionRefused(m) => (FailureKind::ConnectionRefused, m@),
            SshError::ConnectionTimeout(m) => (FailureKind::ConnectionTimeout, m@),
            SshError::AuthFailed(m) => (FailureKind::AuthenticationFailed, m@),
            SshError::CommandFailed(m) => (FailureKind::CommandFailed, m@),
            SshError::Other(m) => (FailureKind::Other, m@),
        }
    }
}

/// The operator-facing text of an error of class `kind` with message `m`.
pub open spec fn error_text(kind: FailureKind, m: Seq<char>) -> Seq<char> {
    match kind {
        FailureKind::ConnectionRefused => "Connection refused: "@ + m,
        FailureKind::ConnectionTimeout => "Connection timeout: "@ + m,
        FailureKind::AuthenticationFailed => "Authentication failed: "@ + m,
        FailureKind::CommandFailed => "Command failed: "@ + m,
        FailureKind::Other => "SSH error: "@ + m,
    }
}

impl SshError {
    /// The class of this failure.
    pub fn kind(&self) -> (r: FailureKind)
        ensures
            r == self@.0,
    {
        match self {
            SshError::ConnectionRefused(_) => FailureKind::ConnectionRefused,
            SshError::ConnectionTimeout(_) => FailureKind::ConnectionTimeout,
            SshError::AuthFailed(_) => FailureKind::AuthenticationFailed,
            SshError::CommandFailed(_) => FailureKind::CommandFailed,
            SshError::Other(_) => FailureKind::Other,
        }
    }

    /// The text shown to the operator: the class, then the message.
    pub fn message(&self) -> (r: String)
        ensures
            r@ == error_text(self@.0, self@.1),
    {
        match self {
            SshError::ConnectionRefused(m) => join2("Connection refused: ", m.as_str()),
            SshError::ConnectionTimeout(m) => join2("Connection timeout: ", m.as_str()),
            SshError::AuthFailed(m) => join2("Authentication failed: ", m.as_str()),
            SshError::CommandFailed(m) => join2("Command failed: ", m.as_str()),
            SshError::Other(m) => join2("SSH error: ", m.as_str()),
        }
    }
}

/// Message of an authentication failure at `ip`.
pub open spec fn auth_failed_text(ip: Seq<char>) -> Seq<char> {
    "Authentication failed for "@ + ip + " \u{2014} password may have been changed from factory default"@
}

/// Message of a refused connection to `ip`.
pub open spec fn refused_text(ip: Seq<char>) -> Seq<char> {
    "Connection refused at "@ + ip
}

/// Message of a connection to `ip` that did not open in time.
pub open spec fn timeout_text(ip: Seq<char>) -> Seq<char> {
    "Timed out connecting to "@ + ip
}

/// Message of any other failure to reach `ip`, with the detail seen.
pub open spec fn connect_failed_text(ip: Seq<char>, detail: Seq<char>) -> Seq<char> {
    "Failed to connect to "@ + ip + ": "@ + detail
}

/// The failure for rejected credentials at `ip`.
pub fn auth_failure(ip: &str) -> (e: SshError)
    ensures
        e@ == (FailureKind::AuthenticationFailed, auth_failed_text(ip@)),
{
    SshError::AuthFailed(
        join3(
            "Authentication failed for ",
            ip,
            " \u{2014} password may have been changed from factory default",
        ),
    )
}

/// The failure for a session to `ip` that did not open before the deadline.
pub fn timeout_failure(ip: &str) -> (e: SshError)
    ensures
        e@ == (FailureKind::ConnectionTimeout, timeout_text(ip@)),
{
    SshError::ConnectionTimeout(join2("Timed out connecting to ", ip))
}

/// The class and message of a failed connection attempt whose error reads
/// `detail`: a refusal when it mentions "refused", anything else otherwise.
pub open spec fn connect_error_spec(detail: Seq<char>, ip: Seq<char>) -> (FailureKind, Seq<char>) {
    if contains(detail, "refused"@) {
        (FailureKind::ConnectionRefused, refused_text(ip))
    } else {
        (FailureKind::Other, connect_failed_text(ip, detail))
    }
}

/// Classifies the error text of a failed connection attempt to `ip`.
pub fn classify_connect_error(detail: &str, ip: &str) -> (e: SshError)
    ensures
        e@ == connect_error_spec(detail@, ip@),
{
    if str_contains(detail, "refused") {
        SshError::ConnectionRefused(join2("Connection refused at ", ip))
    } else {
        SshError::Other(join3(join2("Failed to connect to ", ip).as_str(), ": ", detail))
    }
}

/// The class and message of a session-client run at `ip` that exited with
/// failure, given its trimmed, combined output `c`.
pub open spec fn exit_failure_spec(c: Seq<char>, ip: Seq<char>) -> (FailureKind, Seq<char>) {
    if contains(c, "Permission denied"@) || contains(c, "Authentication failed"@) {
        (FailureKind::AuthenticationFailed, auth_failed_text(ip))
    } else if contains(c, "Connection refused"@) {
        (FailureKind::ConnectionRefused, refused_text(ip))
    } else if contains(c, "timed out"@) {
        (FailureKind::ConnectionTimeout, timeout_text(ip))
    } else {
        (FailureKind::Other, connect_failed_text(ip, c))
    }
}

/// Classifies a failed run of the session client at `ip` from its trimmed,
/// combined output.
pub fn classify_exit_failure(combined: &str, ip: &str) -> (e: SshError)
    ensures
        e@ == exit_failure_spec(combined@, ip@),
{
    if str_contains(combined, "Permission denied") || str_contains(combined, "Authentication failed") {
        auth_failure(ip)
    } else if str_contains(combined, "Connection refused") {
        SshError::ConnectionRefused(join2("Connection refused at ", ip))
    } else if str_contains(combined, "timed out") {
        timeout_failure(ip)
    } else {
        SshError::Other(join3(join2("Failed to connect to ", ip).as_str(), ": ", combined))
    }
}

/// Whether lower-cased command output reads as a failure: it mentions
/// "error" and not "inform". The command does not reliably set its exit
/// status, so this text is what tells success from failure.
pub open spec fn output_failed_spec(lower: Seq<char>) -> bool {
    contains(lower, "error"@) && !contains(lower, "inform"@)
}

/// Whether already lower-cased command output reads as a failure.
pub fn lowered_output_failed(lower: &str) -> (r: bool)
    ensures
        r == output_failed_spec(lower@),
{
    str_contains(lower, "error") && !str_contains(lower, "inform")
}

/// What a session whose command printed `output` comes to: the trimmed
/// output, or a command failure that quotes it.
pub open spec fn command_outcome_spec(output: Seq<char>) -> Result<Seq<char>, (FailureKind, Seq<char>)> {
    if output_failed_spec(lower_of(output)) {
        Err((FailureKind::CommandFailed, "set-inform returned an error: "@ + trim_of(output)))
    } else {
        Ok(trim_of(output))
    }
}

/// The view of a session outcome.
pub open spec fn outcome_view(r: Result<String, SshError>) -> Result<Seq<char>, (FailureKind, Seq<char>)> {
    match r {
        Ok(s) => Ok(s@),
        Err(e) => Err(e@),
    }
}

/// Judges the captured output of the reconfiguration command.
pub fn check_command_output(output: &str) -> (r: Result<String, SshError>)
    ensures
        outcome_view(r) == command_outcome_spec(output@),
{
    let lower = to_lower(output);
    let text = trimmed(output);
    if lowered_output_failed(lower.as_str()) {
        Err(SshError::CommandFailed(join2("set-inform returned an error: ", text.as_str())))
    } else {
        Ok(text)
    }
}

/// What a run of the session client at `ip` comes to, from its exit status
/// and captured streams.
pub open spec fn process_outcome_spec(
    success: bool,
    stdout: Seq<char>,
    stderr: Seq<char>,
    ip: Seq<char>,
) -> Result<Seq<char>, (FailureKind, Seq<char>)> {
    if !success {
        Err(exit_failure_spec(trim_of(stdout + "\n"@ + stderr), ip))
    } else {
        command_outcome_spec(stdout)
    }
}

/// Judges a finished run of the session client at `ip`.
pub fn process_outcome(success: bool, stdout: &str, stderr: &str, ip: &str) -> (r: Result<
    String,
    SshError,
>)
    ensures
        outcome_view(r) == process_outcome_spec(success, stdout@, stderr@, ip@),
{
    if !success {
        let combined = trimmed(join3(stdout, "\n", stderr).as_str());
        Err(classify_exit_failure(combined.as_str(), ip))
    } else {
        check_command_output(stdout)
    }
}

/// The reconfiguration command that points a device at `inform_url`.
pub fn inform_command(inform_url: &str) -> (r: String)
    ensures
        r@ == "set-inform "@ + inform_url@,
{
    join2("set-inform ", inform_url)
}

/// The password to log in with: the one supplied, else the factory default.
pub fn password_or_default(custom: Option<&str>) -> (r: &str)
    ensures
        r@ == match custom {
            Some(p) => p@,
            None => DEFAULT_PASSWORD@,
        },
{
    match custom {
        Some(p) => p,
        None => DEFAULT_PASSWORD,
    }
}

/// The texts of a list of strings.
pub open spec fn texts(v: Seq<String>) -> Seq<Seq<char>> {
    v.map_values(|s: String| s@)
}

/// Arguments of the system session client that runs `command` at `ip`:
/// no host identity check, the legacy host-key algorithm allowed, no public
/// key authentication, a bounded connect time; with `one_prompt`, a single
/// password prompt.
pub open spec fn client_args_spec(ip: Seq<char>, command: Seq<char>, one_prompt: bool) -> Seq<
    Seq<char>,
> {
    let options = seq![
        "-o"@,
        "StrictHostKeyChecking=no"@,
        "-o"@,
        "UserKnownHostsFile=/dev/null"@,
        "-o"@,
        "ConnectTimeout=10"@,
        "-o"@,
        "HostKeyAlgorithms=+ssh-rsa"@,
        "-o"@,
        "PubkeyAcceptedAlgorithms=+ssh-rsa"@,
        "-o"@,
        "PubkeyAuthentication=no"@,
    ];
    let prompts = if one_prompt {
        seq!["-o"@, "NumberOfPasswordPrompts=1"@]
    } else {
        seq![]
    };
    options + prompts + seq!["-p"@, "22"@, "ubnt@"@ + ip, command]
}

/// Builds the arguments of the system session client.
pub fn client_args(ip: &str, command: &str, one_prompt: bool) -> (r: Vec<String>)
    ensures
        texts(r@) == client_args_spec(ip@, command@, one_prompt),
{
    let mut r: Vec<String> = Vec::new();
    r.push("-o".to_owned());
    r.push("StrictHostKeyChecking=no".to_owned());
    r.push("-o".to_owned());
    r.push("UserKnownHostsFile=/dev/null".to_owned());
    r.push("-o".to_owned());
    r.push("ConnectTimeout=10".to_owned());
    r.push("-o".to_owned());
    r.push("HostKeyAlgorithms=+ssh-rsa".to_owned());
    r.push("-o".to_owned());
    r.push("PubkeyAcceptedAlgorithms=+ssh-rsa".to_owned());
    r.push("-o".to_owned());
    r.push("PubkeyAuthentication=no".to_owned());
    if one_prompt {
        r.push("-o".to_owned());
        r.push("NumberOfPasswordPrompts=1".to_owned());
    }
    r.push("-p".to_owned());
    r.push("22".to_owned());
    r.push(join2("ubnt@", ip));
    r.push(command.to_owned());
    assert(texts(r@) =~= client_args_spec(ip@, command@, one_prompt));
    r
}

/// Key-exchange methods the native strategy can offer.
#[derive(PartialEq, Eq, Structural, Clone, Copy, Debug)]
pub enum KexAlgorithm {
    /// `curve25519-sha256`
    Curve25519Sha256,
    /// `curve25519-sha256@libssh.org`
    Curve25519Sha256Libssh,
    /// `diffie-hellman-group16-sha512`
    DhGroup16Sha512,
    /// `diffie-hellman-group14-sha256`
    DhGroup14Sha256,
    /// `diffie-hellman-group14-sha1`
    DhGroup14Sha1,
    /// `diffie-hellman-group1-sha1`
    DhGroup1Sha1,
}

/// Host-key signature schemes the native strategy can offer.
#[derive(PartialEq, Eq, Structural, Clone, Copy, Debug)]
pub enum HostKeyAlgorithm {
    /// `ssh-rsa`: RSA signed with SHA-1.
    RsaSha1,
    /// `rsa-sha2-256`
    RsaSha256,
    /// `rsa-sha2-512`
    RsaSha512,
    Ed25519,
    EcdsaNistP256,
    EcdsaNistP384,
    EcdsaNistP521,
}

/// Key exchange, most preferred first; the legacy groups that old firmware
/// supports are kept at the end.
pub open spec fn kex_order() -> Seq<KexAlgorithm> {
    seq![
        KexAlgorithm::Curve25519Sha256,
        KexAlgorithm::Curve25519Sha256Libssh,
        KexAlgorithm::DhGroup16Sha512,
        KexAlgorithm::DhGroup14Sha256,
        KexAlgorithm::DhGroup14Sha1,
        KexAlgorithm::DhGroup1Sha1,
    ]
}

/// Host-key schemes, most preferred first. RSA is offered only as `ssh-rsa`:
/// the target firmware signs with SHA-1 even when it advertises SHA-2, so
/// both sides must settle on SHA-1.
pub open spec fn host_key_order() -> Seq<HostKeyAlgorithm> {
    seq![
        HostKeyAlgorithm::RsaSha1,
        HostKeyAlgorithm::Ed25519,
        HostKeyAlgorithm::EcdsaNistP256,
        HostKeyAlgorithm::EcdsaNistP384,
        HostKeyAlgorithm::EcdsaNistP521,
    ]
}

/// The key-exchange methods to offer, in order.
pub fn preferred_kex() -> (r: Vec<KexAlgorithm>)
    ensures
        r@ == kex_order(),
        r@.contains(KexAlgorithm::DhGroup1Sha1),
        r@.contains(KexAlgorithm::DhGroup14Sha1),
{
    let r = vec![
        KexAlgorithm::Curve25519Sha256,
        KexAlgorithm::Curve25519Sha256Libssh,
        KexAlgorithm::DhGroup16Sha512,
        KexAlgorithm::DhGroup14Sha256,
        KexAlgorithm::DhGroup14Sha1,
        KexAlgorithm::DhGroup1Sha1,
    ];
    assert(r@ =~= kex_order());
    assert(r@[5] == KexAlgorithm::DhGroup1Sha1);
    assert(r@[4] == KexAlgorithm::DhGroup14Sha1);
    r
}

/// The host-key schemes to offer, in order: `ssh-rsa` first, and neither
/// SHA-2 RSA scheme.
pub fn preferred_host_keys() -> (r: Vec<HostKeyAlgorithm>)
    ensures
        r@ == host_key_order(),
        r@[0] == HostKeyAlgorithm::RsaSha1,
        !r@.contains(HostKeyAlgorithm::RsaSha256),
        !r@.contains(HostKeyAlgorithm::RsaSha512),
{
    let r = vec![
        HostKeyAlgorithm::RsaSha1,
        HostKeyAlgorithm::Ed25519,
        HostKeyAlgorithm::EcdsaNistP256,
        HostKeyAlgorithm::EcdsaNistP384,
        HostKeyAlgorithm::EcdsaNistP521,
    ];
    assert(r@ =~= host_key_order());
    r
}

} // verus!
