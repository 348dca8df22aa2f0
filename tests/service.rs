use harmony_agent::service::{
    create_service, AgentService, ServiceMode, TargetOs, DummyService, EphemeralService, LaunchdService, Service, ServiceState, SystemdService, WindowsService,
};

#[test]
fn test_ephemeral_service() {
    let mut service = EphemeralService::new();
    assert!(!service.is_running());
    service.init().unwrap();
    service.start(10).unwrap();
    assert!(service.is_running());
    let status = service.status(15, 4242);
    assert_eq!(status.state, ServiceState::Running);
    assert!(status.pid.is_some());
    assert_eq!(status.uptime, Some(5));
    service.stop().unwrap();
    assert!(!service.is_running());
}

#[test]
fn test_service_state_display() {
    assert_eq!(ServiceState::Running.to_string(), "running");
    assert_eq!(ServiceState::Stopped.to_string(), "stopped");
    assert_eq!(ServiceState::Failed.to_string(), "failed");
}

#[test]
fn test_systemd_service_creation() {
    let service = SystemdService::new(false);
    assert!(!service.is_running());
}

#[test]
fn test_systemd_service_lifecycle() {
    let mut service = SystemdService::new(false);
    service.init().unwrap();
    service.start(0).unwrap();
    assert!(service.is_running());
    let status = service.status(0, 1);
    assert_eq!(status.state, ServiceState::Running);
    service.stop().unwrap();
    assert!(!service.is_running());
}

#[test]
fn test_launchd_service_creation() {
    let service = LaunchdService::new();
    assert!(!service.is_running());
}

#[test]
fn test_launchd_service_lifecycle() {
    let mut service = LaunchdService::new();
    service.init().unwrap();
    service.start(0).unwrap();
    assert!(service.is_running());
    let status = service.status(0, 1);
    assert_eq!(status.state, ServiceState::Running);
    service.stop().unwrap();
    assert!(!service.is_running());
}

#[test]
fn test_windows_service_creation() {
    let service = WindowsService::new();
    assert!(!service.is_running());
}

#[test]
fn test_windows_service_lifecycle() {
    let mut service = WindowsService::new();
    service.init().unwrap();
    service.start(0).unwrap();
    assert!(service.is_running());
    let status = service.status(0, 1);
    assert_eq!(status.state, ServiceState::Running);
    service.stop().unwrap();
    assert!(!service.is_running());
}

#[test]
fn systemd_queues_notifications_only_with_a_socket() {
    let mut quiet = SystemdService::new(false);
    quiet.start(0).unwrap();
    assert!(quiet.take_notifications().is_empty());
    let mut told = SystemdService::new(true);
    told.init().unwrap();
    told.start(0).unwrap();
    told.notify_ready().unwrap();
    told.stop().unwrap();
    assert_eq!(
        told.take_notifications(),
        vec!["STATUS=Initializing", "STATUS=Starting", "READY=1\nSTATUS=Running", "STOPPING=1"]
    );
    assert!(told.take_notifications().is_empty());
}

#[test]
fn unsupported_platform_cannot_start() {
    let mut d = DummyService::new();
    assert!(d.init().is_err());
    assert!(d.start(0).is_err());
    assert!(!d.is_running());
    assert_eq!(d.status(0, 1).state, ServiceState::Failed);
}

#[test]
fn mode_and_integration_selection() {
    assert_eq!(ServiceMode::detect(TargetOs::Linux, true, true, false), ServiceMode::Container);
    assert_eq!(ServiceMode::detect(TargetOs::Linux, false, true, false), ServiceMode::Daemon);
    assert_eq!(ServiceMode::detect(TargetOs::MacOs, false, true, false), ServiceMode::Ephemeral);
    assert_eq!(ServiceMode::detect(TargetOs::MacOs, false, false, true), ServiceMode::Daemon);
    assert!(matches!(create_service(ServiceMode::Container, TargetOs::Linux, false), AgentService::Systemd(_)));
    assert!(matches!(create_service(ServiceMode::Daemon, TargetOs::MacOs, false), AgentService::Launchd(_)));
    assert!(matches!(create_service(ServiceMode::Daemon, TargetOs::Windows, false), AgentService::Windows(_)));
    assert!(matches!(create_service(ServiceMode::Ephemeral, TargetOs::Linux, false), AgentService::Ephemeral(_)));
    assert!(matches!(create_service(ServiceMode::Daemon, TargetOs::Other, false), AgentService::Dummy(_)));
}
