//! Integration with service managers (systemd, launchd, the Windows service control
//! manager, or none): each service is a small state machine; what must be told to the
//! manager is queued as notification text for the caller to deliver.

use vstd::prelude::*;
use crate::error::{msg, WgAgentError};

verus! {

/// State of the agent as a service.
#[derive(Debug, Clone, Copy, PartialEq, Eq, Structural)]
pub enum ServiceState {
    Initializing,
    Running,
    Stopping,
    Stopped,
    Failed,
}

impl ServiceState {
    pub fn to_string(&self) -> (r: String)
        ensures
            r@ == match *self {
                ServiceState::Initializing => "initializing"@,
                ServiceState::Running => "running"@,
                ServiceState::Stopping => "stopping"@,
                ServiceState::Stopped => "stopped"@,
                ServiceState::Failed => "failed"@,
            },
    {
        match self {
            ServiceState::Initializing => msg("initializing"),
            ServiceState::Running => msg("running"),
            ServiceState::Stopping => msg("stopping"),
            ServiceState::Stopped => msg("stopped"),
            ServiceState::Failed => msg("failed"),
        }
    }
}

/// How the agent runs.
#[derive(Debug, Clone, Copy, PartialEq, Eq, Structural)]
pub enum ServiceMode {
    Daemon,
    Ephemeral,
    Container,
}

/// The operating system the agent was built for.
#[derive(Debug, Clone, Copy, PartialEq, Eq, Structural)]
pub enum TargetOs {
    Linux,
    MacOs,
    Windows,
    Other,
}

impl ServiceMode {
    /// The mode from what the caller found: inside a container, started by systemd
    /// (Linux), or started as a LaunchDaemon (macOS); else ephemeral.
    pub fn detect(os: TargetOs, in_container: bool, systemd_started: bool, launch_daemon: bool) -> (r: ServiceMode)
        ensures
            r == (if in_container {
                ServiceMode::Container
            } else if os == TargetOs::Linux && systemd_started {
                ServiceMode::Daemon
            } else if os == TargetOs::MacOs && launch_daemon {
                ServiceMode::Daemon
            } else {
                ServiceMode::Ephemeral
            }),
    {
        if in_container {
            return ServiceMode::Container;
        }
        match os {
            TargetOs::Linux => {
                if systemd_started {
                    return ServiceMode::Daemon;
                }
            },
            TargetOs::MacOs => {
                if launch_daemon {
                    return ServiceMode::Daemon;
                }
            },
            _ => {},
        }
        ServiceMode::Ephemeral
    }
}

/// Status of the service: uptime in seconds and process id.
#[derive(Debug, Clone, PartialEq, Eq)]
pub struct ServiceStatus {
    pub state: ServiceState,
    pub uptime: Option<u64>,
    pub pid: Option<u32>,
    pub last_error: Option<String>,
}

/// A service-manager integration. Times are seconds on a monotonic clock.
pub trait Service {
    spec fn running(&self) -> bool;

    fn init(&mut self) -> (r: Result<(), WgAgentError>);

    fn start(&mut self, now: u64) -> (r: Result<(), WgAgentError>)
        ensures
            r is Ok ==> final(self).running();

    fn stop(&mut self) -> (r: Result<(), WgAgentError>)
        ensures
            !final(self).running();

    fn reload(&mut self) -> (r: Result<(), WgAgentError>);

    fn is_running(&self) -> (r: bool)
        ensures
            r == self.running();

    fn status(&self, now: u64, pid: u32) -> (r: ServiceStatus)
        ensures
            r.state == (if self.running() {
                ServiceState::Running
            } else {
                r.state
            }),
            !self.running() ==> r.state != ServiceState::Running;

    fn notify_ready(&mut self) -> (r: Result<(), WgAgentError>);

    fn notify_stopping(&mut self) -> (r: Result<(), WgAgentError>);
}

pub open spec fn uptime_of(start: Option<u64>, now: u64) -> Option<u64> {
    match start {
        Some(t) => Some(if now >= t { (now - t) as u64 } else { 0u64 }),
        None => None,
    }
}

fn uptime(start: Option<u64>, now: u64) -> (r: Option<u64>)
    ensures
        r == uptime_of(start, now),
{
    match start {
        Some(t) => Some(if now >= t { now - t } else { 0 }),
        None => None,
    }
}

/// A service with no manager: a foreground process.
pub struct EphemeralService {
    running: bool,
    start_time: Option<u64>,
}

impl EphemeralService {
    pub fn new() -> (r: EphemeralService)
        ensures
            !r.running(),
    {
        EphemeralService { running: false, start_time: None }
    }
}

impl Service for EphemeralService {
    closed spec fn running(&self) -> bool {
        self.running
    }

    fn init(&mut self) -> (r: Result<(), WgAgentError>) {
        Ok(())
    }

    fn start(&mut self, now: u64) -> (r: Result<(), WgAgentError>) {
        self.running = true;
        self.start_time = Some(now);
        Ok(())
    }

    fn stop(&mut self) -> (r: Result<(), WgAgentError>) {
        self.running = false;
        Ok(())
    }

    fn reload(&mut self) -> (r: Result<(), WgAgentError>) {
        Ok(())
    }

    fn is_running(&self) -> (r: bool) {
        self.running
    }

    fn status(&self, now: u64, pid: u32) -> (r: ServiceStatus) {
        ServiceStatus {
            state: if self.running { ServiceState::Running } else { ServiceState::Stopped },
            uptime: uptime(self.start_time, now),
            pid: Some(pid),
            last_error: None,
        }
    }

    fn notify_ready(&mut self) -> (r: Result<(), WgAgentError>) {
        Ok(())
    }

    fn notify_stopping(&mut self) -> (r: Result<(), WgAgentError>) {
        Ok(())
    }
}

/// The service on a platform with no supported manager: it cannot start.
pub struct DummyService;

impl DummyService {
    pub fn new() -> (r: DummyService)
        ensures
            !r.running(),
    {
        DummyService
    }
}

impl Service for DummyService {
    closed spec fn running(&self) -> bool {
        false
    }

    fn init(&mut self) -> (r: Result<(), WgAgentError>) {
        Err(WgAgentError::Platform(msg("Service not supported on this platform")))
    }

    fn start(&mut self, now: u64) -> (r: Result<(), WgAgentError>) {
        Err(WgAgentError::Platform(msg("Service not supported on this platform")))
    }

    fn stop(&mut self) -> (r: Result<(), WgAgentError>) {
        Ok(())
    }

    fn reload(&mut self) -> (r: Result<(), WgAgentError>) {
        Ok(())
    }

    fn is_running(&self) -> (r: bool) {
        false
    }

    fn status(&self, now: u64, pid: u32) -> (r: ServiceStatus) {
        ServiceStatus { state: ServiceState::Failed, uptime: None, pid: None, last_error: Some(msg("Unsupported platform")) }
    }

    fn notify_ready(&mut self) -> (r: Result<(), WgAgentError>) {
        Ok(())
    }

    fn notify_stopping(&mut self) -> (r: Result<(), WgAgentError>) {
        Ok(())
    }
}

/// The service under systemd. With a notification socket, state changes queue
/// `sd_notify` messages.
pub struct SystemdService {
    running: bool,
    start_time: Option<u64>,
    notify: bool,
    outbox: Vec<String>,
}

impl SystemdService {
    /// `notify_socket_set`: the `NOTIFY_SOCKET` variable is set.
    pub fn new(notify_socket_set: bool) -> (r: SystemdService)
        ensures
            !r.running(),
            r.pending()@.len() == 0,
    {
        SystemdService { running: false, start_time: None, notify: notify_socket_set, outbox: Vec::new() }
    }

    pub closed spec fn pending(&self) -> Vec<String> {
        self.outbox
    }

    fn sd_notify(&mut self, state: &str)
        ensures
            final(self).running == old(self).running,
            final(self).start_time == old(self).start_time,
            final(self).notify == old(self).notify,
            old(self).notify ==> final(self).outbox@.len() == old(self).outbox@.len() + 1
                && final(self).outbox@.last()@ == state@,
            !old(self).notify ==> final(self).outbox@ == old(self).outbox@,
    {
        if self.notify {
            self.outbox.push(String::from_str(state));
        }
    }

    /// Hands over the queued notifications, oldest first.
    pub fn take_notifications(&mut self) -> (r: Vec<String>)
        ensures
            r@ == old(self).pending()@,
            final(self).pending()@.len() == 0,
            final(self).running() == old(self).running(),
    {
        let mut out: Vec<String> = Vec::new();
        std::mem::swap(&mut out, &mut self.outbox);
        out
    }
}

impl Service for SystemdService {
    closed spec fn running(&self) -> bool {
        self.running
    }

    fn init(&mut self) -> (r: Result<(), WgAgentError>) {
        self.sd_notify("STATUS=Initializing");
        Ok(())
    }

    fn start(&mut self, now: u64) -> (r: Result<(), WgAgentError>) {
        self.running = true;
        self.start_time = Some(now);
        self.sd_notify("STATUS=Starting");
        Ok(())
    }

    fn stop(&mut self) -> (r: Result<(), WgAgentError>) {
        self.sd_notify("STOPPING=1");
        self.running = false;
        Ok(())
    }

    fn reload(&mut self) -> (r: Result<(), WgAgentError>) {
        self.sd_notify("RELOADING=1");
        self.sd_notify("READY=1");
        Ok(())
    }

    fn is_running(&self) -> (r: bool) {
        self.running
    }

    fn status(&self, now: u64, pid: u32) -> (r: ServiceStatus) {
        ServiceStatus {
            state: if self.running { ServiceState::Running } else { ServiceState::Stopped },
            uptime: uptime(self.start_time, now),
            pid: Some(pid),
            last_error: None,
        }
    }

    fn notify_ready(&mut self) -> (r: Result<(), WgAgentError>) {
        self.sd_notify("READY=1\nSTATUS=Running");
        Ok(())
    }

    fn notify_stopping(&mut self) -> (r: Result<(), WgAgentError>) {
        self.sd_notify("STOPPING=1");
        Ok(())
    }
}

/// The service under launchd.
pub struct LaunchdService {
    running: bool,
    start_time: Option<u64>,
}

impl LaunchdService {
    pub fn new() -> (r: LaunchdService)
        ensures
            !r.running(),
    {
        LaunchdService { running: false, start_time: None }
    }
}

impl Service for LaunchdService {
    closed spec fn running(&self) -> bool {
        self.running
    }

    fn init(&mut self) -> (r: Result<(), WgAgentError>) {
        Ok(())
    }

    fn start(&mut self, now: u64) -> (r: Result<(), WgAgentError>) {
        self.running = true;
        self.start_time = Some(now);
        Ok(())
    }

    fn stop(&mut self) -> (r: Result<(), WgAgentError>) {
        self.running = false;
        Ok(())
    }

    fn reload(&mut self) -> (r: Result<(), WgAgentError>) {
        Ok(())
    }

    fn is_running(&self) -> (r: bool) {
        self.running
    }

    fn status(&self, now: u64, pid: u32) -> (r: ServiceStatus) {
        ServiceStatus {
            state: if self.running { ServiceState::Running } else { ServiceState::Stopped },
            uptime: uptime(self.start_time, now),
            pid: Some(pid),
            last_error: None,
        }
    }

    fn notify_ready(&mut self) -> (r: Result<(), WgAgentError>) {
        Ok(())
    }

    fn notify_stopping(&mut self) -> (r: Result<(), WgAgentError>) {
        Ok(())
    }
}

/// The service under the Windows service control manager.
pub struct WindowsService {
    running: bool,
    start_time: Option<u64>,
}

impl WindowsService {
    pub fn new() -> (r: WindowsService)
        ensures
            !r.running(),
    {
        WindowsService { running: false, start_time: None }
    }
}

impl Service for WindowsService {
    closed spec fn running(&self) -> bool {
        self.running
    }

    fn init(&mut self) -> (r: Result<(), WgAgentError>) {
        Ok(())
    }

    fn start(&mut self, now: u64) -> (r: Result<(), WgAgentError>) {
        self.running = true;
        self.start_time = Some(now);
        Ok(())
    }

    fn stop(&mut self) -> (r: Result<(), WgAgentError>) {
        self.running = false;
        Ok(())
    }

    fn reload(&mut self) -> (r: Result<(), WgAgentError>) {
        Ok(())
    }

    fn is_running(&self) -> (r: bool) {
        self.running
    }

    fn status(&self, now: u64, pid: u32) -> (r: ServiceStatus) {
        ServiceStatus {
            state: if self.running { ServiceState::Running } else { ServiceState::Stopped },
            uptime: uptime(self.start_time, now),
            pid: Some(pid),
            last_error: None,
        }
    }

    fn notify_ready(&mut self) -> (r: Result<(), WgAgentError>) {
        Ok(())
    }

    fn notify_stopping(&mut self) -> (r: Result<(), WgAgentError>) {
        Ok(())
    }
}

/// The service integration chosen for a mode and platform.
pub enum AgentService {
    Systemd(SystemdService),
    Launchd(LaunchdService),
    Windows(WindowsService),
    Ephemeral(EphemeralService),
    Dummy(DummyService),
}

/// Picks the integration: systemd for a daemon or container on Linux, launchd for a
/// daemon on macOS, the service control manager for a daemon on Windows, none on other
/// systems, and a foreground process otherwise.
pub fn create_service(mode: ServiceMode, os: TargetOs, notify_socket_set: bool) -> (r: AgentService)
    ensures
        os == TargetOs::Other ==> r is Dummy,
        os == TargetOs::Linux && mode != ServiceMode::Ephemeral ==> r is Systemd,
        os == TargetOs::MacOs && mode == ServiceMode::Daemon ==> r is Launchd,
        os == TargetOs::Windows && mode == ServiceMode::Daemon ==> r is Windows,
        os != TargetOs::Other && !(os == TargetOs::Linux && mode != ServiceMode::Ephemeral) && !(os
            == TargetOs::MacOs && mode == ServiceMode::Daemon) && !(os == TargetOs::Windows && mode
            == ServiceMode::Daemon) ==> r is Ephemeral,
        !r.running(),
{
    match (os, mode) {
        (TargetOs::Other, _) => AgentService::Dummy(DummyService::new()),
        (TargetOs::Linux, ServiceMode::Daemon) | (TargetOs::Linux, ServiceMode::Container) => AgentService::Systemd(
            SystemdService::new(notify_socket_set),
        ),
        (TargetOs::MacOs, ServiceMode::Daemon) => AgentService::Launchd(LaunchdService::new()),
        (TargetOs::Windows, ServiceMode::Daemon) => AgentService::Windows(WindowsService::new()),
        _ => AgentService::Ephemeral(EphemeralService::new()),
    }
}

impl AgentService {
    /// Hands over queued notifications for the service manager; only systemd has any.
    pub fn take_notifications(&mut self) -> (r: Vec<String>)
        ensures
            !(*old(self) is Systemd) ==> r@.len() == 0,
            final(self).running() == old(self).running(),
    {
        match self {
            AgentService::Systemd(s) => s.take_notifications(),
            _ => Vec::new(),
        }
    }
}

impl Service for AgentService {
    closed spec fn running(&self) -> bool {
        match self {
            AgentService::Systemd(s) => s.running(),
            AgentService::Launchd(s) => s.running(),
            AgentService::Windows(s) => s.running(),
            AgentService::Ephemeral(s) => s.running(),
            AgentService::Dummy(s) => s.running(),
        }
    }

    fn init(&mut self) -> (r: Result<(), WgAgentError>) {
        match self {
            AgentService::Systemd(s) => s.init(),
            AgentService::Launchd(s) => s.init(),
            AgentService::Windows(s) => s.init(),
            AgentService::Ephemeral(s) => s.init(),
            AgentService::Dummy(s) => s.init(),
        }
    }

    fn start(&mut self, now: u64) -> (r: Result<(), WgAgentError>) {
        match self {
            AgentService::Systemd(s) => s.start(now),
            AgentService::Launchd(s) => s.start(now),
            AgentService::Windows(s) => s.start(now),
            AgentService::Ephemeral(s) => s.start(now),
            AgentService::Dummy(s) => s.start(now),
        }
    }

    fn stop(&mut self) -> (r: Result<(), WgAgentError>) {
        match self {
            AgentService::Systemd(s) => s.stop(),
            AgentService::Launchd(s) => s.stop(),
            AgentService::Windows(s) => s.stop(),
            AgentService::Ephemeral(s) => s.stop(),
            AgentService::Dummy(s) => s.stop(),
        }
    }

    fn reload(&mut self) -> (r: Result<(), WgAgentError>) {
        match self {
            AgentService::Systemd(s) => s.reload(),
            AgentService::Launchd(s) => s.reload(),
            AgentService::Windows(s) => s.reload(),
            AgentService::Ephemeral(s) => s.reload(),
            AgentService::Dummy(s) => s.reload(),
        }
    }

    fn is_running(&self) -> (r: bool) {
        match self {
            AgentService::Systemd(s) => s.is_running(),
            AgentService::Launchd(s) => s.is_running(),
            AgentService::Windows(s) => s.is_running(),
            AgentService::Ephemeral(s) => s.is_running(),
            AgentService::Dummy(s) => s.is_running(),
        }
    }

    fn status(&self, now: u64, pid: u32) -> (r: ServiceStatus) {
        match self {
            AgentService::Systemd(s) => s.status(now, pid),
            AgentService::Launchd(s) => s.status(now, pid),
            AgentService::Windows(s) => s.status(now, pid),
            AgentService::Ephemeral(s) => s.status(now, pid),
            AgentService::Dummy(s) => s.status(now, pid),
        }
    }

    fn notify_ready(&mut self) -> (r: Result<(), WgAgentError>) {
        match self {
            AgentService::Systemd(s) => s.notify_ready(),
            AgentService::Launchd(s) => s.notify_ready(),
            AgentService::Windows(s) => s.notify_ready(),
            AgentService::Ephemeral(s) => s.notify_ready(),
            AgentService::Dummy(s) => s.notify_ready(),
        }
    }

    fn notify_stopping(&mut self) -> (r: Result<(), WgAgentError>) {
        match self {
            AgentService::Systemd(s) => s.notify_stopping(),
            AgentService::Launchd(s) => s.notify_stopping(),
            AgentService::Windows(s) => s.notify_stopping(),
            AgentService::Ephemeral(s) => s.notify_stopping(),
            AgentService::Dummy(s) => s.notify_stopping(),
        }
    }
}

} // verus!
