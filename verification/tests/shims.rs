use flame::error::FlameError;
use flame::sdk::service::{ApplicationContext, SessionContext, TaskContext};
use flame::shims::{
    check_reply, instance_dir, instance_directories, instance_envs, instance_log_files, join_path,
    ExecutorWorkDir, GrpcShim, LogShim, Shim, WaitForSvcSocketFuture,
};

#[test]
fn paths_join_like_path_join() {
    assert_eq!(join_path("/a", "b"), "/a/b");
    assert_eq!(join_path("/a/", "b"), "/a/b");
    assert_eq!(join_path("/a", "/b"), "/b");
    assert_eq!(join_path("", "b"), "b");
    assert_eq!(join_path("a", ""), "a/");
}

#[test]
fn work_dir_made_for_the_executor() {
    let wd = ExecutorWorkDir::new("pi", &None, "/var/flame", "exec-1");
    assert_eq!(wd.process_dir(), "/var/flame/exec-1");
    assert_eq!(wd.app_dir(), "/var/flame/exec-1/work/pi");
    assert_eq!(wd.socket(), "/var/flame/exec-1/work/exec-1.sock");
    assert_eq!(
        wd.directories(),
        vec!["/var/flame/exec-1", "/var/flame/exec-1/work", "/var/flame/exec-1/work/pi"]
    );
    assert_eq!(
        wd.cleanup_paths(),
        vec!["/var/flame/exec-1/work/exec-1.sock", "/var/flame/exec-1/work/pi", "/var/flame/exec-1"]
    );
}

#[test]
fn work_dir_named_by_the_application() {
    let wd = ExecutorWorkDir::new("pi", &Some("/srv/pi".to_string()), "/var/flame", "exec-1");
    assert_eq!(wd.process_dir(), "/srv/pi");
    assert_eq!(wd.directories(), vec!["/srv/pi/work", "/srv/pi/work/pi"]);
    assert_eq!(wd.cleanup_paths(), vec!["/srv/pi/work/exec-1.sock", "/srv/pi/work/pi"]);
    let empty = ExecutorWorkDir::new("pi", &Some(String::new()), "/var/flame", "exec-1");
    assert_eq!(empty.process_dir(), "/var/flame/exec-1");
}

#[test]
fn host_instance_layout() {
    assert_eq!(instance_dir(&None, "/var/flame", "e1", "pi"), "/var/flame/e1/work/pi");
    assert_eq!(instance_dir(&Some("/srv".to_string()), "/var/flame", "e1", "pi"), "/srv");
    assert_eq!(
        instance_directories("/w"),
        vec!["/w", "/w/tmp", "/w/.uv", "/w/.pip"]
    );
    assert_eq!(
        instance_log_files("/w", "e1"),
        ("/w/e1.out".to_string(), "/w/e1.err".to_string())
    );
}

fn lookup<'a>(envs: &'a [(String, String)], name: &str) -> Option<&'a str> {
    let found: Vec<&(String, String)> = envs.iter().filter(|(k, _)| k == name).collect();
    assert!(found.len() <= 1);
    found.first().map(|(_, v)| v.as_str())
}

#[test]
fn host_instance_environment() {
    let app_envs = vec![
        ("TMP".to_string(), "/elsewhere".to_string()),
        ("HOME".to_string(), "/home/app".to_string()),
        ("A".to_string(), "1".to_string()),
        ("A".to_string(), "2".to_string()),
    ];
    let envs = instance_envs(
        &app_envs,
        "debug",
        "/w/e1.sock",
        &Some("grpc://cache:9090".to_string()),
        &Some("/root".to_string()),
        "/w",
    );
    assert_eq!(lookup(&envs, "A"), Some("2"));
    assert_eq!(lookup(&envs, "RUST_LOG"), Some("debug"));
    assert_eq!(lookup(&envs, "FLAME_INSTANCE_ENDPOINT"), Some("/w/e1.sock"));
    assert_eq!(lookup(&envs, "FLAME_CACHE_ENDPOINT"), Some("grpc://cache:9090"));
    assert_eq!(lookup(&envs, "HOME"), Some("/home/app"));
    assert_eq!(lookup(&envs, "TMP"), Some("/w/tmp"));
    assert_eq!(lookup(&envs, "TMPDIR"), Some("/w/tmp"));
    assert_eq!(lookup(&envs, "UV_CACHE_DIR"), Some("/w/.uv"));
    assert_eq!(lookup(&envs, "PIP_CACHE_DIR"), Some("/w/.pip"));

    let envs = instance_envs(&vec![], "info", "/s", &None, &Some("/root".to_string()), "/w");
    assert_eq!(lookup(&envs, "HOME"), Some("/root"));
    assert_eq!(lookup(&envs, "FLAME_CACHE_ENDPOINT"), None);
}

#[test]
fn log_shim_records_the_session() {
    let mut shim = LogShim::new();
    let ctx = SessionContext {
        session_id: "s1".to_string(),
        application: ApplicationContext {
            name: "app".to_string(),
            image: None,
            command: None,
        },
        common_data: None,
    };
    assert!(shim.on_session_enter(&ctx).is_ok());
    let t = TaskContext {
        task_id: "t".to_string(),
        session_id: "s1".to_string(),
        input: Some(vec![1]),
    };
    assert_eq!(shim.on_task_invoke(&t).unwrap(), None);
    assert!(shim.on_session_leave().is_ok());
}

#[test]
fn grpc_shim_without_connection() {
    let wd = ExecutorWorkDir::new("pi", &None, "/var/flame", "e1");
    let mut shim = GrpcShim::new(&wd).unwrap();
    assert_eq!(shim.endpoint(), "/var/flame/e1/work/e1.sock");
    match shim.no_connection() {
        FlameError::Internal(m) => assert_eq!(m, "no connection to service at </var/flame/e1/work/e1.sock>"),
        _ => panic!("expected an internal error"),
    }
    shim.connected();
    shim.close();
    assert!(check_reply(0, None).is_ok());
    match check_reply(-1, Some("bad".to_string())) {
        Err(FlameError::Internal(m)) => assert_eq!(m, "bad"),
        _ => panic!("expected an internal error"),
    }
    match check_reply(1, None) {
        Err(FlameError::Internal(m)) => assert_eq!(m, ""),
        _ => panic!("expected an internal error"),
    }
    let w = WaitForSvcSocketFuture::new("/s".to_string());
    assert!(w.poll(true) && !w.poll(false));
}
