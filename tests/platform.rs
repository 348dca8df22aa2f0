use harmony_agent::platform::{
    detect_environment, ContainerEnvironment, EnvironmentFacts, LinuxPlatform, MacOsPlatform, PlatformInfo,
    WindowsPlatform,
};

fn facts() -> EnvironmentFacts {
    EnvironmentFacts {
        os: "linux".to_string(),
        os_version: "Ubuntu 22.04".to_string(),
        kernel_version: Some("6.1.0".to_string()),
        dockerenv_exists: false,
        kubernetes_host_set: false,
        container_var: None,
        init_cgroup: None,
        is_root: false,
    }
}

#[test]
fn test_platform_info_new() {
    let info = PlatformInfo::new("linux".to_string());
    assert!(!info.os.is_empty());
    assert_eq!(info.container, ContainerEnvironment::NoContainer);
}

#[test]
fn test_platform_info_description() {
    let mut info = PlatformInfo::new("linux".to_string());
    info.os = "Linux".to_string();
    info.os_version = "Ubuntu 22.04".to_string();
    info.container = ContainerEnvironment::Docker;
    let desc = info.description();
    assert!(desc.contains("Linux"));
    assert!(desc.contains("Ubuntu"));
    assert!(desc.contains("Docker"));
    assert_eq!(desc, "Linux Ubuntu 22.04 (Docker)");
}

#[test]
fn test_is_containerized() {
    let mut info = PlatformInfo::new("linux".to_string());
    assert!(!info.is_containerized());
    info.container = ContainerEnvironment::Docker;
    assert!(info.is_containerized());
    info.container = ContainerEnvironment::Kubernetes;
    assert!(info.is_containerized());
}

#[test]
fn test_detect_environment() {
    let info = detect_environment(&facts());
    assert!(!info.os.is_empty());
}

#[test]
fn test_container_environment_equality() {
    assert_eq!(ContainerEnvironment::NoContainer, ContainerEnvironment::NoContainer);
    assert_eq!(ContainerEnvironment::Docker, ContainerEnvironment::Docker);
    assert_ne!(ContainerEnvironment::Docker, ContainerEnvironment::Kubernetes);
}

#[test]
fn test_linux_platform_new() {
    let platform = LinuxPlatform::new(detect_environment(&facts()));
    assert_eq!(platform.platform_info().os, "linux");
}

#[test]
fn linux_test_platform_info() {
    let platform = LinuxPlatform::new(detect_environment(&facts()));
    let info = platform.platform_info();
    assert!(!info.os.is_empty());
}

#[test]
fn test_macos_platform_new() {
    let platform = MacOsPlatform::new(PlatformInfo::new("macos".to_string()));
    assert_eq!(platform.platform_info().os, "macos");
}

#[test]
fn macos_test_platform_info() {
    let platform = MacOsPlatform::new(PlatformInfo::new("macos".to_string()));
    assert!(!platform.platform_info().os.is_empty());
}

#[test]
fn test_windows_platform_new() {
    let platform = WindowsPlatform::new(PlatformInfo::new("windows".to_string()));
    assert_eq!(platform.platform_info().os, "windows");
}

#[test]
fn windows_test_platform_info() {
    let platform = WindowsPlatform::new(PlatformInfo::new("windows".to_string()));
    assert!(!platform.platform_info().os.is_empty());
}

#[test]
fn container_detection_order() {
    let mut f = facts();
    assert_eq!(detect_environment(&f).container, ContainerEnvironment::NoContainer);
    f.init_cgroup = Some("0::/system.slice/cron.service".to_string());
    assert_eq!(detect_environment(&f).container, ContainerEnvironment::NoContainer);
    f.init_cgroup = Some("0::/lxc/abc".to_string());
    assert_eq!(detect_environment(&f).container, ContainerEnvironment::Unknown);
    f.init_cgroup = Some("12:pids:/kubepods/burstable".to_string());
    assert_eq!(detect_environment(&f).container, ContainerEnvironment::Kubernetes);
    f.container_var = Some("podman".to_string());
    assert_eq!(detect_environment(&f).container, ContainerEnvironment::Podman);
    f.kubernetes_host_set = true;
    assert_eq!(detect_environment(&f).container, ContainerEnvironment::Kubernetes);
    f.dockerenv_exists = true;
    assert_eq!(detect_environment(&f).container, ContainerEnvironment::Docker);
    let unknown = PlatformInfo { os_version: String::new(), ..PlatformInfo::new("freebsd".to_string()) };
    assert_eq!(unknown.description(), "freebsd unknown");
}
