use flame::error::FlameError;
use flame::executor::ExecutorState;
use flame::flmexec::{FlmexecService, ScriptEngine};
use flame::sdk::client::{Executor, NodeState, Task, TaskState};
use flame::sdk::ctx::{
    tls_plan, FlameClientTls, FlameClusterConfig, FlameContext, FlameContextEntry, TlsPlan,
};
use flame::sdk::queue::{AsyncQueue, AsyncQueueImpl, ItemPoll};
use flame::sdk::service::{
    call_result, enter_session, invoke_task, leave_session, task_result, ApplicationContext,
    FlameService, SessionContext, TaskContext, WatchEventResponse,
};

fn entry(name: &str, endpoint: &str) -> FlameContextEntry {
    FlameContextEntry {
        name: name.to_string(),
        cluster: FlameClusterConfig {
            endpoint: endpoint.to_string(),
            tls: None,
        },
        cache: None,
        package: None,
        runner: None,
    }
}

#[test]
fn tls_is_required_for_https() {
    let c = FlameClusterConfig {
        endpoint: "https://flame-session-manager:8080".to_string(),
        tls: None,
    };
    assert!(c.requires_tls());
    let c = FlameClusterConfig {
        endpoint: "http://flame-session-manager:8080".to_string(),
        tls: None,
    };
    assert!(!c.requires_tls());
}

#[test]
fn current_context_is_found_by_name() {
    let ctx = FlameContext {
        current_context: "prod".to_string(),
        contexts: vec![
            entry("dev", "http://dev:8080"),
            entry("prod", "https://prod:8080"),
            entry("prod", "https://other:8080"),
        ],
    };
    let e = ctx.get_current_context().unwrap();
    assert_eq!(e.cluster.endpoint, "https://prod:8080");

    let ctx = FlameContext {
        current_context: "missing".to_string(),
        contexts: vec![entry("dev", "http://dev:8080")],
    };
    match ctx.get_current_context() {
        Err(FlameError::InvalidConfig(m)) => assert_eq!(m, "Context <missing> not found"),
        _ => panic!("expected an invalid configuration"),
    }
}

#[test]
fn tls_plans() {
    assert!(matches!(tls_plan("http://host:8080", None), Ok(TlsPlan::Plain)));
    match tls_plan("https://flame.example.com:8080", None) {
        Ok(TlsPlan::Tls { domain, ca_file }) => {
            assert_eq!(domain, "flame.example.com");
            assert_eq!(ca_file, None);
        }
        _ => panic!("expected a TLS plan"),
    }
    let tls = FlameClientTls {
        ca_file: Some("/etc/flame/ca.crt".to_string()),
        insecure_skip_verify: false,
    };
    match tls_plan("https://flame:8080", Some(&tls)) {
        Ok(TlsPlan::Tls { domain, ca_file }) => {
            assert_eq!(domain, "flame");
            assert_eq!(ca_file, Some("/etc/flame/ca.crt".to_string()));
        }
        _ => panic!("expected a TLS plan"),
    }
    let insecure = FlameClientTls {
        ca_file: Some("/etc/flame/ca.crt".to_string()),
        insecure_skip_verify: true,
    };
    assert!(matches!(
        tls_plan("https://flame:8080", Some(&insecure)),
        Ok(TlsPlan::Tls { ca_file: None, .. })
    ));
    match tls_plan("https://", None) {
        Err(FlameError::InvalidConfig(m)) => assert_eq!(m, "invalid URL <https://>: empty host"),
        _ => panic!("expected an invalid configuration"),
    }
    let d = FlameClientTls::default();
    assert!(d.ca_file.is_none() && !d.insecure_skip_verify);
}

#[test]
fn task_states() {
    let mut t = Task {
        id: "t1".to_string(),
        ssn_id: "s1".to_string(),
        state: TaskState::default(),
        input: None,
        output: None,
        events: vec![],
    };
    assert!(!t.is_completed());
    t.state = TaskState::Succeed;
    assert!(t.is_completed() && t.is_succeed() && !t.is_failed() && !t.is_cancelled());
    t.state = TaskState::Failed;
    assert!(t.is_completed() && t.is_failed());
    t.state = TaskState::Cancelled;
    assert!(t.is_completed() && t.is_cancelled());
    t.state = TaskState::Running;
    assert!(!t.is_completed());
}

#[test]
fn node_state_codes() {
    assert_eq!(NodeState::from_code(1), NodeState::Ready);
    assert_eq!(NodeState::from_code(2), NodeState::NotReady);
    assert_eq!(NodeState::from_code(7), NodeState::Unknown);
    assert_eq!(NodeState::default(), NodeState::Unknown);
    assert_eq!(NodeState::Ready.code(), 1);
    let e = Executor {
        id: "e".to_string(),
        state: ExecutorState::Bound,
        session_id: Some("s".to_string()),
        slots: 2,
        node: "n".to_string(),
    };
    assert_eq!(e.slots, 2);
}

#[test]
fn queue_is_first_in_first_out() {
    let mut q = AsyncQueueImpl::new();
    q.push_back(1);
    q.push_back(2);
    q.push_back(3);
    assert_eq!(q.pop_front(), Some(1));
    q.push_back(4);
    assert_eq!(q.pop_front(), Some(2));
    assert_eq!(q.pop_front(), Some(3));
    assert_eq!(q.pop_front(), Some(4));
    assert_eq!(q.pop_front(), None);
    assert!(!q.is_closed());
    q.close();
    assert!(q.is_closed());
}

#[test]
fn closed_queue_drains_then_ends() {
    let mut q = AsyncQueue::new();
    assert!(matches!(q.poll_pop(), ItemPoll::Pending));
    q.push_back("a").unwrap();
    q.push_back("b").unwrap();
    q.close();
    assert!(q.is_closed());
    assert!(!q.poll_close());
    assert!(matches!(q.poll_pop(), ItemPoll::Ready(Some("a"))));
    assert!(matches!(q.poll_pop(), ItemPoll::Ready(Some("b"))));
    assert!(q.poll_close());
    assert!(matches!(q.poll_pop(), ItemPoll::Ready(None)));
}

fn session() -> SessionContext {
    SessionContext {
        session_id: "s1".to_string(),
        application: ApplicationContext {
            name: "app".to_string(),
            image: None,
            command: None,
        },
        common_data: None,
    }
}

fn task(input: Option<Vec<u8>>) -> TaskContext {
    TaskContext {
        task_id: "t1".to_string(),
        session_id: "s1".to_string(),
        input,
    }
}

#[test]
fn events_are_queued_for_watchers() {
    let mut q: AsyncQueue<WatchEventResponse> = AsyncQueue::new();
    session().record_event(&mut q, 3, Some("started".to_string())).unwrap();
    task(None).record_event(&mut q, 4, None).unwrap();
    let first = match q.poll_pop() {
        ItemPoll::Ready(Some(e)) => e,
        _ => panic!("expected an event"),
    };
    let owner = first.owner.unwrap();
    assert_eq!(owner.session_id, "s1");
    assert!(owner.task_id.is_none());
    let ev = first.event.unwrap();
    assert_eq!(ev.code, 3);
    assert_eq!(ev.message, Some("started".to_string()));
    let second = match q.poll_pop() {
        ItemPoll::Ready(Some(e)) => e,
        _ => panic!("expected an event"),
    };
    assert_eq!(second.owner.unwrap().task_id, Some("t1".to_string()));
    assert_eq!(second.event.unwrap().code, 4);
}

#[test]
fn service_answers() {
    let ok = call_result(Ok(()));
    assert_eq!((ok.return_code, ok.message), (0, None));
    let err = call_result(Err(FlameError::Internal("boom".to_string())));
    assert_eq!((err.return_code, err.message), (-1, Some("boom".to_string())));
    let out = task_result(Ok(Some(vec![1])));
    assert_eq!((out.return_code, out.output), (0, Some(vec![1])));
    let out = task_result(Err(FlameError::NotFound("gone".to_string())));
    assert_eq!((out.return_code, out.output, out.message), (-1, None, Some("gone".to_string())));
}

struct Echo;

impl ScriptEngine for Echo {
    fn run(&self, script: &Vec<u8>) -> Result<Option<Vec<u8>>, FlameError> {
        Ok(Some(script.clone()))
    }
}

#[test]
fn flmexec_runs_the_task_script() {
    let svc = FlmexecService { engine: Echo };
    assert!(svc.on_session_enter(session()).is_ok());
    assert_eq!(svc.on_task_invoke(task(Some(b"print(1)".to_vec()))).unwrap(), Some(b"print(1)".to_vec()));
    match svc.on_task_invoke(task(None)) {
        Err(FlameError::Internal(m)) => assert_eq!(m, "No task input"),
        _ => panic!("expected an internal error"),
    }
    assert_eq!(enter_session(&svc, session()).return_code, 0);
    assert_eq!(invoke_task(&svc, task(None)).return_code, -1);
    let mut q: AsyncQueue<WatchEventResponse> = AsyncQueue::new();
    assert_eq!(leave_session(&svc, &mut q).return_code, 0);
    assert!(q.is_closed());
}
