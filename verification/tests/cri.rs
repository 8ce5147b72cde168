use flame::cri::{
    containers_of_sandbox, default_test_runtime, pods_with_containers, with_sandbox_id, ApplicationContext, Container, ContainerConfig,
    DnsConfig, Pod, PodRuntime, PodSandboxConfig, PodState, RuntimeContainer, RuntimeSandbox,
    SecurityContext, StopSignal,
};
use flame::error::FlameError;

fn app(image: Option<&str>) -> ApplicationContext {
    ApplicationContext {
        name: "test-pod".to_string(),
        image: image.map(|s| s.to_string()),
        command: Some("nginx".to_string()),
        arguments: vec!["-g".to_string(), "daemon off;".to_string()],
        environments: vec![("MODE".to_string(), "test".to_string())],
        working_directory: None,
    }
}

fn runtime() -> PodRuntime {
    PodRuntime {
        runtime_handler: "runc".to_string(),
        log_directory: "/var/log/flame".to_string(),
        cgroup_parent: "flame.slice".to_string(),
        dns_config: DnsConfig {
            servers: vec!["8.8.8.8".to_string()],
            searches: vec![],
            options: vec!["ndots:1".to_string()],
        },
        security_context: SecurityContext { privileged: true },
    }
}

fn listed(id: &str, sandbox: &str, name: Option<&str>, image: Option<&str>) -> RuntimeContainer {
    RuntimeContainer {
        id: id.to_string(),
        pod_sandbox_id: sandbox.to_string(),
        name: name.map(|s| s.to_string()),
        image: image.map(|s| s.to_string()),
    }
}

#[test]
fn new_pod_for_an_application() {
    let pod = Pod::new(&app(Some("nginx"))).unwrap();
    let name = &pod.metadata.name;
    assert!(name.starts_with("test-pod-"));
    assert_eq!(name.len(), "test-pod-".len() + 8);
    assert!(name["test-pod-".len()..].chars().all(|c| c.is_ascii_alphanumeric()));
    assert_eq!(pod.metadata.namespace, "test-pod");
    let uid: Vec<char> = pod.metadata.uid.chars().collect();
    assert_eq!(uid.len(), 36);
    for (i, c) in uid.iter().enumerate() {
        if i == 8 || i == 13 || i == 18 || i == 23 {
            assert_eq!(*c, '-');
        } else {
            assert!(c.is_ascii_hexdigit() && !c.is_ascii_uppercase());
        }
    }
    assert_eq!(uid[14], '4');
    assert!(matches!(uid[19], '8' | '9' | 'a' | 'b'));
    assert_eq!(pod.spec.containers.len(), 1);
    let c = &pod.spec.containers[0];
    assert_eq!(&c.name, name);
    assert_eq!(c.image, "nginx");
    assert_eq!(c.command, Some("nginx".to_string()));
    assert_eq!(c.args, vec!["-g".to_string(), "daemon off;".to_string()]);
    assert_eq!(c.working_directory, "");
    assert!(pod.status.is_none());

    let other = Pod::new(&app(Some("nginx"))).unwrap();
    assert_ne!(other.metadata.uid, pod.metadata.uid);
}

#[test]
fn pod_needs_an_image() {
    match Pod::new(&app(None)) {
        Err(FlameError::InvalidConfig(m)) => assert_eq!(m, "image is empty for application test-pod"),
        _ => panic!("expected an invalid configuration"),
    }
}

#[test]
fn container_and_sandbox_requests() {
    let pod = Pod::new(&app(Some("nginx"))).unwrap();
    let rt = runtime();
    let cfg = ContainerConfig::new(&pod.spec.containers[0], &rt);
    assert_eq!(cfg.command, vec!["nginx".to_string()]);
    assert_eq!(cfg.log_path, format!("/var/log/flame/{}.log", pod.metadata.name));
    assert_eq!(cfg.runtime_handler, "runc");
    assert_eq!(cfg.envs, vec![("MODE".to_string(), "test".to_string())]);
    assert_eq!(cfg.attempt, 0);
    assert_eq!(cfg.stop_signal, StopSignal::Sigterm);
    assert!(!cfg.stdin && !cfg.stdin_once && !cfg.tty);

    let sb = PodSandboxConfig::new(&pod, &rt);
    assert_eq!(sb.hostname, pod.metadata.name);
    assert_eq!(sb.namespace, "test-pod");
    assert_eq!(sb.dns_servers, vec!["8.8.8.8".to_string()]);
    assert!(sb.privileged);
    assert_eq!(sb.attempt, 0);
}

#[test]
fn sandbox_states() {
    assert_eq!(PodState::from_sandbox_state(0).unwrap(), PodState::Ready);
    assert_eq!(PodState::from_sandbox_state(1).unwrap(), PodState::NotReady);
    assert!(matches!(PodState::from_sandbox_state(5), Err(FlameError::InvalidState(_))));
}

#[test]
fn listed_containers() {
    let c = Container::from_runtime(&listed("c1", "p1", Some("web"), Some("nginx"))).unwrap();
    assert_eq!(c.working_directory, "/tmp");
    assert!(c.command.is_none() && c.args.is_empty() && c.envs.is_empty());
    match Container::from_runtime(&listed("c1", "p1", None, Some("nginx"))) {
        Err(FlameError::InvalidState(m)) => assert_eq!(m, "container metadata is empty"),
        _ => panic!("expected an invalid state"),
    }
    match Container::from_runtime(&listed("c1", "p1", Some("web"), None)) {
        Err(FlameError::InvalidState(m)) => assert_eq!(m, "container image is empty"),
        _ => panic!("expected an invalid state"),
    }

    let all = vec![
        listed("c1", "p1", Some("a"), Some("i1")),
        listed("c2", "p2", None, None),
        listed("c3", "p1", Some("b"), Some("i2")),
    ];
    let cs = containers_of_sandbox("p1", &all).unwrap();
    assert_eq!(cs.iter().map(|c| c.name.as_str()).collect::<Vec<_>>(), vec!["a", "b"]);
    assert!(containers_of_sandbox("p2", &all).is_err());
}

#[test]
fn listed_pods_get_their_containers() {
    let sandboxes = vec![
        RuntimeSandbox {
            id: "p1".to_string(),
            state: 0,
            metadata: Some(("one".to_string(), "ns".to_string(), "u1".to_string())),
        },
        RuntimeSandbox {
            id: "p2".to_string(),
            state: 1,
            metadata: Some(("two".to_string(), "ns".to_string(), "u2".to_string())),
        },
    ];
    let all = vec![
        listed("c1", "p2", Some("x"), Some("i")),
        listed("c2", "p1", Some("y"), Some("i")),
        listed("c3", "p2", Some("z"), Some("i")),
    ];
    let pods = pods_with_containers(&sandboxes, &all).unwrap();
    assert_eq!(pods.len(), 1);
    assert_eq!(pods[0].metadata.name, "one");
    assert_eq!(pods[0].status.as_ref().unwrap().state, PodState::Ready);
    assert_eq!(pods[0].spec.containers.len(), 1);

    let mut running = sandboxes;
    running[1].state = 0;
    let pods = pods_with_containers(&running, &all).unwrap();
    assert_eq!(pods.len(), 2);
    assert_eq!(pods[1].status.as_ref().unwrap().id, "p2");
    assert_eq!(
        pods[1].spec.containers.iter().map(|c| c.name.as_str()).collect::<Vec<_>>(),
        vec!["x", "z"]
    );
    let sandboxes = running;

    let bad = vec![listed("c9", "p9", None, Some("i"))];
    match pods_with_containers(&sandboxes, &bad) {
        Err(FlameError::InvalidState(m)) => assert_eq!(m, "container metadata is empty"),
        _ => panic!("expected an invalid state"),
    }
    let no_meta = vec![RuntimeSandbox {
        id: "p3".to_string(),
        state: 0,
        metadata: None,
    }];
    match pods_with_containers(&no_meta, &all) {
        Err(FlameError::InvalidState(m)) => assert_eq!(m, "pod metadata is empty"),
        _ => panic!("expected an invalid state"),
    }
}

#[test]
fn stopped_pods_are_not_listed() {
    let stopped = vec![
        RuntimeSandbox {
            id: "p1".to_string(),
            state: 1,
            metadata: Some(("one".to_string(), "ns".to_string(), "u1".to_string())),
        },
        RuntimeSandbox {
            id: "p2".to_string(),
            state: 1,
            metadata: Some(("two".to_string(), "ns".to_string(), "u2".to_string())),
        },
    ];
    let all = vec![listed("c1", "p1", Some("x"), Some("i"))];
    assert!(pods_with_containers(&stopped, &all).unwrap().is_empty());
}

#[test]
fn end_to_end_runtime_settings() {
    let rt = default_test_runtime();
    assert_eq!(rt.runtime_handler, "runc");
    assert_eq!(rt.log_directory, "/var/log/flame");
    assert_eq!(rt.cgroup_parent, "/system.slice");
    assert!(!rt.security_context.privileged);
    assert!(rt.dns_config.servers.is_empty());
}

#[test]
fn created_sandbox_gives_the_pod_its_id() {
    let pod = Pod::new(&app(Some("nginx"))).unwrap();
    let name = pod.metadata.name.clone();
    let created = pod.metadata.creation_time;
    let pod = with_sandbox_id(pod, "sandbox-42");
    assert_eq!(pod.metadata.uid, "sandbox-42");
    assert_eq!(pod.metadata.name, name);
    assert_eq!(pod.metadata.namespace, "test-pod");
    assert_eq!(pod.metadata.creation_time, created);
    assert_eq!(pod.spec.containers.len(), 1);
    assert!(pod.status.is_none());
}
