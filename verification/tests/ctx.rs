use flame::ctx::{
    FlameClusterYaml, FlameContext, FlameContextYaml, FlameExecutorLimitsYaml, FlameExecutorsYaml,
    Shim, DEFAULT_MAX_EXECUTORS_PER_NODE,
};
use flame::error::FlameError;

fn yaml(shim: Option<&str>, max: Option<u32>) -> FlameContextYaml {
    FlameContextYaml {
        cluster: FlameClusterYaml {
            name: "flame".to_string(),
            endpoint: "http://flame-session-manager:8080".to_string(),
            slot: Some("cpu=1,mem=1g".to_string()),
            policy: Some("priority".to_string()),
            storage: None,
        },
        executors: FlameExecutorsYaml {
            shim: shim.map(|s| s.to_string()),
            limits: Some(FlameExecutorLimitsYaml { max_executors: max }),
        },
        cache: None,
    }
}

#[test]
fn context_from_file_settings() {
    let ctx = FlameContext::from_yaml(yaml(None, Some(10))).unwrap();
    assert_eq!(ctx.cluster.name, "flame");
    assert_eq!(ctx.cluster.endpoint, "http://flame-session-manager:8080");
    assert_eq!(ctx.cluster.slot, "cpu=1,mem=1g");
    assert_eq!(ctx.cluster.policy, "priority");
    assert_eq!(ctx.cluster.storage, "sqlite://flame.db");
    assert_eq!(ctx.executors.shim, Shim::Host);
    assert_eq!(ctx.executors.limits.max_executors, 10);
    assert!(ctx.cache.is_none());
    assert_eq!(ctx.describe(), "name: flame, endpoint: http://flame-session-manager:8080");

    let ctx = FlameContext::from_yaml(yaml(Some("wasm"), None)).unwrap();
    assert_eq!(ctx.executors.shim, Shim::Wasm);
    assert_eq!(ctx.executors.limits.max_executors, DEFAULT_MAX_EXECUTORS_PER_NODE);
    assert!(matches!(FlameContext::from_yaml(yaml(Some("docker"), None)), Err(FlameError::InvalidConfig(_))));
}

#[test]
fn default_context() {
    let ctx = FlameContext::default();
    assert_eq!(ctx.cluster.endpoint, "http://127.0.0.1:8080");
    assert_eq!(ctx.cluster.slot, "cpu=1,mem=2g");
    assert_eq!(ctx.executors.limits.max_executors, 128);
}
