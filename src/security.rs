//! Security hardening: privilege levels, memory locking and privilege dropping as
//! decisions over their outcomes, file permission rules, input validation, and audit
//! events.

use vstd::prelude::*;
use crate::addr::{cidr_literal, ip_literal, parse_cidr, parse_ip};
use crate::error::{msg, WgAgentError};
use crate::text::{fields, field_bounds, is_alphabetic, is_alphanumeric, unicode_alphabetic, unicode_alphanumeric};

verus! {

/// Privilege level of the process.
#[derive(Debug, Clone, Copy, PartialEq, Eq, Structural)]
pub enum PrivilegeLevel {
    Root,
    Administrator,
    User,
    Unknown,
}

pub open spec fn elevated(p: PrivilegeLevel) -> bool {
    p == PrivilegeLevel::Root || p == PrivilegeLevel::Administrator
}

impl PrivilegeLevel {
    /// Root when the real or the effective user id is 0.
    pub fn from_ids(uid: u32, euid: u32) -> (r: PrivilegeLevel)
        ensures
            r == (if uid == 0 || euid == 0 {
                PrivilegeLevel::Root
            } else {
                PrivilegeLevel::User
            }),
    {
        if uid == 0 || euid == 0 {
            PrivilegeLevel::Root
        } else {
            PrivilegeLevel::User
        }
    }

    pub fn is_elevated(&self) -> (r: bool)
        ensures
            r == elevated(*self),
    {
        match self {
            PrivilegeLevel::Root | PrivilegeLevel::Administrator => true,
            _ => false,
        }
    }

    pub fn to_string(&self) -> (r: String)
        ensures
            r@ == match *self {
                PrivilegeLevel::Root => "root"@,
                PrivilegeLevel::Administrator => "administrator"@,
                PrivilegeLevel::User => "user"@,
                PrivilegeLevel::Unknown => "unknown"@,
            },
    {
        match self {
            PrivilegeLevel::Root => msg("root"),
            PrivilegeLevel::Administrator => msg("administrator"),
            PrivilegeLevel::User => msg("user"),
            PrivilegeLevel::Unknown => msg("unknown"),
        }
    }
}

/// The agent's security state.
#[derive(Debug, Clone)]
pub struct SecurityContext {
    pub privilege_level: PrivilegeLevel,
    pub memory_locked: bool,
    pub target_uid: Option<u32>,
    pub target_gid: Option<u32>,
}

impl SecurityContext {
    /// A context at a detected privilege level, memory not yet locked.
    pub fn new(privilege_level: PrivilegeLevel) -> (r: SecurityContext)
        ensures
            r.privilege_level == privilege_level,
            !r.memory_locked,
            r.target_uid is None && r.target_gid is None,
    {
        SecurityContext { privilege_level, memory_locked: false, target_uid: None, target_gid: None }
    }

    pub fn is_elevated(&self) -> (r: bool)
        ensures
            r == elevated(self.privilege_level),
    {
        self.privilege_level.is_elevated()
    }

    /// Locks memory once: when it is already locked nothing is asked; otherwise `lock`
    /// is run and its failure is returned.
    pub fn lock_memory<F: FnOnce() -> Result<(), WgAgentError>>(&mut self, lock: F) -> (r: Result<(), WgAgentError>)
        requires
            lock.requires(()),
        ensures
            old(self).memory_locked ==> r is Ok && *final(self) == *old(self),
            !old(self).memory_locked ==> (r is Ok <==> final(self).memory_locked),
            final(self).privilege_level == old(self).privilege_level,
            final(self).target_uid == old(self).target_uid,
            final(self).target_gid == old(self).target_gid,
    {
        if self.memory_locked {
            return Ok(());
        }
        match lock() {
            Ok(()) => {
                self.memory_locked = true;
                Ok(())
            },
            Err(e) => Err(e),
        }
    }

    /// Drops to a user and group when elevated; otherwise there is nothing to drop.
    /// `drop` performs the change; on its failure the context is unchanged.
    pub fn drop_privileges<F: FnOnce(Option<u32>, Option<u32>) -> Result<(), WgAgentError>>(
        &mut self,
        uid: Option<u32>,
        gid: Option<u32>,
        drop: F,
    ) -> (r: Result<(), WgAgentError>)
        requires
            drop.requires((uid, gid)),
        ensures
            !elevated(old(self).privilege_level) ==> r is Ok && *final(self) == *old(self),
            r is Err ==> *final(self) == *old(self),
            elevated(old(self).privilege_level) && r is Ok ==> final(self).privilege_level == PrivilegeLevel::User
                && final(self).target_uid == uid && final(self).target_gid == gid,
            final(self).memory_locked == old(self).memory_locked,
    {
        if !self.is_elevated() {
            return Ok(());
        }
        match drop(uid, gid) {
            Ok(()) => {
                self.privilege_level = PrivilegeLevel::User;
                self.target_uid = uid;
                self.target_gid = gid;
                Ok(())
            },
            Err(e) => Err(e),
        }
    }
}

/// A security audit event.
#[derive(Debug, Clone)]
pub enum SecurityEvent {
    PrivilegeChange { from: String, to: String },
    InvalidPermissions { path: String, expected: String, actual: String },
    SuspiciousInput { input: String, reason: String },
    KeyRotation { network: String },
    AuthenticationAttempt { success: bool, reason: Option<String> },
}

/// One audit log line: its text and whether it is a warning.
#[derive(Debug, Clone)]
pub struct AuditLine {
    pub warning: bool,
    pub text: String,
}

impl SecurityEvent {
    /// The audit line for this event. Privilege changes, key rotations and successful
    /// authentication are informational; the rest are warnings.
    pub fn log(&self) -> (r: AuditLine)
        ensures
            r.warning == match *self {
                SecurityEvent::PrivilegeChange { .. } => false,
                SecurityEvent::KeyRotation { .. } => false,
                SecurityEvent::AuthenticationAttempt { success, .. } => !success,
                _ => true,
            },
            self matches SecurityEvent::PrivilegeChange { from, to } ==> r.text@
                == "Security: Privilege changed from "@ + from@ + " to "@ + to@,
    {
        match self {
            SecurityEvent::PrivilegeChange { from, to } => {
                let mut t = msg("Security: Privilege changed from ");
                t.append(from.as_str());
                t.append(" to ");
                t.append(to.as_str());
                AuditLine { warning: false, text: t }
            },
            SecurityEvent::InvalidPermissions { path, expected, actual } => {
                let mut t = msg("Security: Invalid permissions on ");
                t.append(path.as_str());
                t.append(": expected ");
                t.append(expected.as_str());
                t.append(", got ");
                t.append(actual.as_str());
                AuditLine { warning: true, text: t }
            },
            SecurityEvent::SuspiciousInput { input, reason } => {
                let mut t = msg("Security: Suspicious input '");
                t.append(input.as_str());
                t.append("': ");
                t.append(reason.as_str());
                AuditLine { warning: true, text: t }
            },
            SecurityEvent::KeyRotation { network } => {
                let mut t = msg("Security: Key rotation performed for network '");
                t.append(network.as_str());
                t.append("'");
                AuditLine { warning: false, text: t }
            },
            SecurityEvent::AuthenticationAttempt { success, reason } => {
                if *success {
                    AuditLine { warning: false, text: msg("Security: Authentication successful") }
                } else {
                    let mut t = msg("Security: Authentication failed: ");
                    match reason {
                        Some(m) => t.append(m.as_str()),
                        None => t.append("unknown reason"),
                    }
                    AuditLine { warning: true, text: t }
                }
            },
        }
    }
}

/// Insecure mode is asked for by the setting `1` or `true` (in any case).
pub open spec fn insecure_setting(v: Seq<char>) -> bool {
    v == "1"@ || (v.len() == 4 && lower_ascii(v[0]) == 't' && lower_ascii(v[1]) == 'r' && lower_ascii(v[2]) == 'u'
        && lower_ascii(v[3]) == 'e')
}

pub open spec fn lower_ascii(c: char) -> char {
    if 'A' <= c && c <= 'Z' {
        ((c as u32) + 32) as char
    } else {
        c
    }
}

/// Whether the agent runs in secure mode, given the insecure-mode setting, if any.
pub fn is_secure_mode(setting: Option<&str>) -> (r: bool)
    ensures
        r == match setting {
            Some(v) => !insecure_setting(v@),
            None => true,
        },
{
    match setting {
        None => true,
        Some(v) => {
            proof {
                reveal_strlit("1");
            }
            if crate::tunnel::string_eq(&String::from_str(v), "1") {
                return false;
            }
            if v.unicode_len() != 4 {
                return true;
            }
            let a = v.get_char(0);
            let b = v.get_char(1);
            let c = v.get_char(2);
            let d = v.get_char(3);
            !((a == 't' || a == 'T') && (b == 'r' || b == 'R') && (c == 'u' || c == 'U') && (d == 'e' || d == 'E'))
        },
    }
}

/// Refuses to run outside secure mode.
pub fn validate_secure_defaults(setting: Option<&str>) -> (r: Result<(), WgAgentError>)
    ensures
        r is Ok <==> match setting {
            Some(v) => !insecure_setting(v@),
            None => true,
        },
        r is Err ==> r matches Err(WgAgentError::Security(_)),
{
    if !is_secure_mode(setting) {
        return Err(WgAgentError::Security(msg("Insecure mode is not recommended for production")));
    }
    Ok(())
}

/// The permission classes of sensitive files.
#[derive(Debug, Clone, Copy, PartialEq, Eq, Structural)]
pub enum SecureFileMode {
    PrivateKey,
    Config,
    Socket,
    Directory,
}

pub open spec fn max_mode_of(m: SecureFileMode) -> u32 {
    match m {
        SecureFileMode::PrivateKey => 0o600,
        SecureFileMode::Config => 0o640,
        SecureFileMode::Socket => 0o660,
        SecureFileMode::Directory => 0o755,
    }
}

impl SecureFileMode {
    /// The widest permission bits allowed.
    pub fn max_mode(&self) -> (r: u32)
        ensures
            r == max_mode_of(*self),
    {
        match self {
            SecureFileMode::PrivateKey => 0o600,
            SecureFileMode::Config => 0o640,
            SecureFileMode::Socket => 0o660,
            SecureFileMode::Directory => 0o755,
        }
    }

    pub fn description(&self) -> (r: &'static str)
        ensures
            r@ == match *self {
                SecureFileMode::PrivateKey => "0600 (owner read/write only)"@,
                SecureFileMode::Config => "0640 (owner read/write, group read)"@,
                SecureFileMode::Socket => "0660 (owner/group read/write)"@,
                SecureFileMode::Directory => "0755 (owner full, others read/execute)"@,
            },
    {
        match self {
            SecureFileMode::PrivateKey => "0600 (owner read/write only)",
            SecureFileMode::Config => "0640 (owner read/write, group read)",
            SecureFileMode::Socket => "0660 (owner/group read/write)",
            SecureFileMode::Directory => "0755 (owner full, others read/execute)",
        }
    }
}

/// Checks a file's permission bits and owner: the bits may not exceed the class's
/// maximum, and the owner must be the current user or root.
pub fn validate_file_permissions(file_mode: u32, file_uid: u32, current_uid: u32, mode: SecureFileMode) -> (r: Result<(), WgAgentError>)
    ensures
        r is Ok <==> (file_mode & 0o777) <= max_mode_of(mode) && (file_uid == current_uid || file_uid == 0),
        r is Err ==> r matches Err(WgAgentError::Security(_)),
{
    if (file_mode & 0o777) > mode.max_mode() {
        return Err(WgAgentError::Security(msg("File has insecure permissions")));
    }
    if file_uid != current_uid && file_uid != 0 {
        return Err(WgAgentError::Security(msg("File is not owned by current user or root")));
    }
    Ok(())
}

/// A directory holding secrets must be a directory and not writable by others.
pub fn validate_directory_security(is_dir: bool, mode: u32) -> (r: Result<(), WgAgentError>)
    ensures
        r is Ok <==> is_dir && (mode & 0o002) == 0,
        r is Err ==> r matches Err(WgAgentError::Security(_)),
{
    if !is_dir {
        return Err(WgAgentError::Security(msg("Path is not a directory")));
    }
    if (mode & 0o002) != 0 {
        return Err(WgAgentError::Security(msg("Directory is world-writable")));
    }
    Ok(())
}

/// A private key file may not grant any access to group or others.
pub fn check_key_file_mode(mode: u32) -> (r: Result<(), WgAgentError>)
    ensures
        r is Ok <==> (mode & 0o077) == 0,
        r is Err ==> r matches Err(WgAgentError::Permission(_)),
{
    if (mode & 0o077) != 0 {
        return Err(WgAgentError::Permission(msg("Private key file has insecure permissions (should be 0600)")));
    }
    Ok(())
}

pub open spec fn validation_error<T>(r: Result<T, WgAgentError>) -> bool {
    r matches Err(WgAgentError::Validation(_))
}

pub open spec fn network_name_char(c: char) -> bool {
    unicode_alphanumeric(c) || c == '-' || c == '_'
}

/// A network name: 1 to 64 bytes of letters, digits, `-` and `_`, not starting with `-`
/// or `_`.
pub open spec fn network_name_ok(s: &str) -> bool {
    &&& s@.len() > 0
    &&& s.len() <= 64
    &&& forall|i: int| 0 <= i < s@.len() ==> network_name_char(#[trigger] s@[i])
    &&& s@[0] != '-' && s@[0] != '_'
}

pub fn validate_network_name(name: &str) -> (r: Result<(), WgAgentError>)
    ensures
        r is Ok <==> network_name_ok(name),
        r is Err ==> validation_error(r),
{
    if name.is_empty() {
        return Err(WgAgentError::Validation(msg("Network name cannot be empty")));
    }
    if name.len() > 64 {
        return Err(WgAgentError::Validation(msg("Network name too long (max 64 characters)")));
    }
    let n = name.unicode_len();
    let mut i: usize = 0;
    while i < n
        invariant
            n == name@.len(),
            i <= n,
            forall|j: int| 0 <= j < i ==> network_name_char(#[trigger] name@[j]),
        decreases n - i,
    {
        let c = name.get_char(i);
        if !(is_alphanumeric(c) || c == '-' || c == '_') {
            assert(!network_name_char(name@[i as int]));
            return Err(WgAgentError::Validation(msg("Invalid network name: only alphanumeric, dash, and underscore allowed")));
        }
        i = i + 1;
    }
    let first = name.get_char(0);
    if first == '-' || first == '_' {
        return Err(WgAgentError::Validation(msg("Network name cannot start with dash or underscore")));
    }
    Ok(())
}

pub open spec fn iface_char(c: char) -> bool {
    unicode_alphanumeric(c) || c == '_'
}

/// An interface name: 1 to 15 bytes, a letter first, then letters, digits and `_`.
pub open spec fn secure_interface_name_ok(s: &str) -> bool {
    &&& s@.len() > 0
    &&& s.len() <= 15
    &&& unicode_alphabetic(s@[0])
    &&& forall|i: int| 0 <= i < s@.len() ==> iface_char(#[trigger] s@[i])
}

pub fn validate_interface_name(name: &str) -> (r: Result<(), WgAgentError>)
    ensures
        r is Ok <==> secure_interface_name_ok(name),
        r is Err ==> validation_error(r),
{
    if name.is_empty() {
        return Err(WgAgentError::Validation(msg("Interface name cannot be empty")));
    }
    if name.len() > 15 {
        return Err(WgAgentError::Validation(msg("Interface name too long (max 15 characters)")));
    }
    if !is_alphabetic(name.get_char(0)) {
        return Err(WgAgentError::Validation(msg("Interface name must start with a letter")));
    }
    let n = name.unicode_len();
    let mut i: usize = 0;
    while i < n
        invariant
            n == name@.len(),
            i <= n,
            forall|j: int| 0 <= j < i ==> iface_char(#[trigger] name@[j]),
        decreases n - i,
    {
        let c = name.get_char(i);
        if !(is_alphanumeric(c) || c == '_') {
            assert(!iface_char(name@[i as int]));
            return Err(WgAgentError::Validation(msg("Invalid interface name: only alphanumeric and underscore allowed")));
        }
        i = i + 1;
    }
    Ok(())
}

/// A path is safe when it holds no NUL and no `..` component.
pub open spec fn path_ok(s: Seq<char>) -> bool {
    &&& forall|i: int| 0 <= i < s.len() ==> s[i] != '\0'
    &&& forall|k: int| 0 <= k < fields(s, '/').len() ==> #[trigger] fields(s, '/')[k] != ".."@
}

/// Refuses paths with a NUL byte or a parent-directory component; returns the path.
pub fn sanitize_path(path: &str) -> (r: Result<String, WgAgentError>)
    ensures
        r is Ok <==> path_ok(path@),
        r matches Ok(p) ==> p@ == path@,
        r is Err ==> validation_error(r),
{
    let n = path.unicode_len();
    let mut i: usize = 0;
    while i < n
        invariant
            n == path@.len(),
            i <= n,
            forall|j: int| 0 <= j < i ==> path@[j] != '\0',
        decreases n - i,
    {
        if path.get_char(i) == '\0' {
            return Err(WgAgentError::Validation(msg("Path contains null byte")));
        }
        i = i + 1;
    }
    let b = field_bounds(path, '/');
    let ghost f = fields(path@, '/');
    proof {
        reveal_strlit("..");
    }
    let mut k: usize = 0;
    while k < b.len()
        invariant
            b@.len() == f.len(),
            f == fields(path@, '/'),
            k <= b@.len(),
            forall|j: int| 0 <= j < b@.len() ==> #[trigger] b@[j].0 <= b@[j].1 && b@[j].1 <= path@.len(),
            forall|j: int| 0 <= j < b@.len() ==> path@.subrange(b@[j].0 as int, b@[j].1 as int) == #[trigger] f[j],
            forall|j: int| 0 <= j < k ==> #[trigger] f[j] != ".."@,
        decreases b@.len() - k,
    {
        let (lo, hi) = b[k];
        proof {
            reveal_strlit("..");
        }
        assert(path@.subrange(b@[k as int].0 as int, b@[k as int].1 as int) == f[k as int]);
        if hi - lo == 2 && path.get_char(lo) == '.' && path.get_char(lo + 1) == '.' {
            assert(f[k as int] =~= ".."@);
            return Err(WgAgentError::Validation(msg("Path contains invalid parent directory reference")));
        }
        assert(f[k as int] != ".."@) by {
            if f[k as int] == ".."@ {
                assert(f[k as int].len() == 2);
                assert(f[k as int][0] == path@[lo as int]);
                assert(f[k as int][1] == path@[lo + 1]);
            }
        }
        k = k + 1;
    }
    Ok(String::from_str(path))
}

pub fn validate_ip_address(ip: &str) -> (r: Result<(), WgAgentError>)
    ensures
        r is Ok <==> ip_literal(ip@) is Some,
        r is Err ==> validation_error(r),
{
    match parse_ip(ip) {
        Some(_) => Ok(()),
        None => Err(WgAgentError::Validation(msg("Invalid IP address"))),
    }
}

pub fn validate_port(port: u16) -> (r: Result<(), WgAgentError>)
    ensures
        r is Ok <==> port != 0,
        r is Err ==> validation_error(r),
{
    if port == 0 {
        return Err(WgAgentError::Validation(msg("Port number cannot be 0")));
    }
    Ok(())
}

pub fn validate_cidr(cidr: &str) -> (r: Result<(), WgAgentError>)
    ensures
        r is Ok <==> cidr_literal(cidr@) is Some,
        r is Err ==> validation_error(r),
{
    match parse_cidr(cidr) {
        Ok(_) => Ok(()),
        Err(_) => Err(WgAgentError::Validation(msg("Invalid CIDR notation"))),
    }
}

/// The smallest MTU an IPv4 path must carry.
pub const MIN_MTU: u16 = 576;

pub fn validate_mtu(mtu: u16) -> (r: Result<(), WgAgentError>)
    ensures
        r is Ok <==> mtu >= MIN_MTU,
        r is Err ==> validation_error(r),
{
    if mtu < MIN_MTU {
        return Err(WgAgentError::Validation(msg("MTU too small (minimum 576)")));
    }
    Ok(())
}

} // verus!
