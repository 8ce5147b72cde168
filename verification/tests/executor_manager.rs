use std::time::Duration;

use flame::ctx::{FlameContext, Shim};
use flame::error::FlameError;
use flame::executor::{
    handle_read, idle_step, thread_plan, retry_delay_secs, shim_mismatch, stream_timeout_secs, Executor,
    ExecutorAction, ExecutorManager, ExecutorMessage, ExecutorState, IdleAction, IdleEvent,
    IdlePhase, IdleState, Node, NodeInfo, NodeState, OfferedSession, ResourceRequirement,
    StreamHandler, StreamRead, StreamStep, WatchNodeResponse, DEFAULT_HEARTBEAT_INTERVAL_SECS,
    DEFAULT_RECONNECT_INTERVAL_SECS, MAX_RECONNECT_INTERVAL_SECS,
};

fn test_node() -> Node {
    Node {
        name: "test-node".to_string(),
        state: NodeState::Ready,
        capacity: ResourceRequirement {
            cpu: 4,
            memory: 8192,
        },
        allocatable: ResourceRequirement {
            cpu: 3,
            memory: 6144,
        },
        info: NodeInfo {
            arch: "x86_64".to_string(),
            os: "linux".to_string(),
        },
    }
}

fn executor(id: &str, state: ExecutorState, shim: Option<Shim>) -> Executor {
    Executor {
        id: id.to_string(),
        node: "test-node".to_string(),
        resreq: ResourceRequirement::default(),
        slots: 1,
        session: None,
        task: None,
        context: None,
        shim,
        state,
    }
}

/// This test documents the slot mismatch behavior: an executor whose slots
/// match no waiting session is offered none, and is released.
#[test]
fn test_slot_mismatch_documentation() {
    let mut idle = IdleState::new(executor("e1", ExecutorState::Idle, Some(Shim::Host)));
    let action = idle.on_event(&IdleEvent::BindAnswered(None));
    assert_eq!(action, IdleAction::Release);
    assert_eq!(idle.executor.state, ExecutorState::Releasing);
    assert!(idle.executor.session.is_none());
}

/// This test documents the shim mismatch validation: an executor offered a
/// session whose application needs another shim refuses it with an invalid
/// configuration error.
#[test]
fn test_shim_mismatch_validation_documentation() {
    let offer = OfferedSession {
        session_id: "s1".to_string(),
        application: "app".to_string(),
        shim: Some(Shim::Wasm),
    };
    let (phase, action) = idle_step(Some(Shim::Host), IdlePhase::Binding, &IdleEvent::BindAnswered(Some(offer)));
    assert_eq!(phase, IdlePhase::Done);
    assert_eq!(action, IdleAction::RejectShim);
    match shim_mismatch(Some(Shim::Host), Some(Shim::Wasm)) {
        FlameError::InvalidConfig(m) => {
            assert_eq!(m, "Shim mismatch: executor supports Some(Host), application requires Some(Wasm)")
        }
        _ => panic!("expected an invalid configuration"),
    }
}

#[test]
fn test_stream_handler_creation() {
    let node = test_node();
    let handler = StreamHandler::new(node);

    assert_eq!(
        Duration::from_secs(DEFAULT_HEARTBEAT_INTERVAL_SECS),
        Duration::from_secs(5)
    );
    assert_eq!(
        Duration::from_secs(DEFAULT_RECONNECT_INTERVAL_SECS),
        Duration::from_secs(1)
    );
    assert_eq!(
        Duration::from_secs(MAX_RECONNECT_INTERVAL_SECS),
        Duration::from_secs(30)
    );
    assert_eq!(handler.heartbeat_interval_secs, 5);
    assert_eq!(handler.reconnect_interval_secs, 1);
}

#[test]
fn test_executor_conversion() {
    let executor = Executor {
        id: "test-exec".to_string(),
        node: "test-node".to_string(),
        resreq: ResourceRequirement::default(),
        slots: 1,
        session: None,
        task: None,
        context: None,
        shim: None,
        state: ExecutorState::Idle,
    };

    assert_eq!(executor.id, "test-exec");
    assert_eq!(executor.node, "test-node");
    assert_eq!(executor.state, ExecutorState::Idle);
}

#[test]
fn test_node_status_collection() {
    let node = test_node();
    let status = node.status();

    assert_eq!(status.state, NodeState::Ready.code());
    assert_eq!(status.capacity.cpu, 4);
    assert_eq!(status.capacity.memory, 8192);
    assert_eq!(status.allocatable.cpu, 3);
    assert_eq!(status.allocatable.memory, 6144);
    assert_eq!(status.info.arch, "x86_64");
    assert_eq!(status.info.os, "linux");
}

#[test]
fn reconnect_backs_off_to_the_maximum() {
    let handler = StreamHandler::new(test_node());
    let (wait, next) = handler.reconnect_plan(1, false);
    assert_eq!((wait, next), (1, 2));
    let (wait, next) = handler.reconnect_plan(16, false);
    assert_eq!((wait, next), (16, 30));
    let (wait, next) = handler.reconnect_plan(30, false);
    assert_eq!((wait, next), (30, 30));
    let (wait, next) = handler.reconnect_plan(30, true);
    assert_eq!((wait, next), (1, 2));
}

#[test]
fn entering_is_retried_with_growing_waits() {
    assert_eq!(retry_delay_secs(1), 5);
    assert_eq!(retry_delay_secs(2), 20);
    assert_eq!(retry_delay_secs(4), 80);
    let mut phase = IdlePhase::Entering(1);
    let mut waits = Vec::new();
    loop {
        let (next, action) = idle_step(Some(Shim::Host), phase, &IdleEvent::EnterAnswered(false));
        phase = next;
        match action {
            IdleAction::RetryAfter(s) => waits.push(s),
            IdleAction::GiveUp => break,
            _ => panic!("unexpected action"),
        }
    }
    assert_eq!(waits, vec![5, 20, 45, 80]);
    assert_eq!(phase, IdlePhase::Done);
}

#[test]
fn idle_executor_binds_to_an_offered_session() {
    let mut idle = IdleState::new(executor("e1", ExecutorState::Idle, Some(Shim::Host)));
    let offer = OfferedSession {
        session_id: "s1".to_string(),
        application: "app".to_string(),
        shim: Some(Shim::Host),
    };
    assert_eq!(idle.on_event(&IdleEvent::BindAnswered(Some(offer))), IdleAction::CreateShim);
    assert_eq!(idle.on_event(&IdleEvent::ShimReady), IdleAction::EnterSession);
    assert_eq!(idle.on_event(&IdleEvent::EnterAnswered(false)), IdleAction::RetryAfter(5));
    assert_eq!(idle.on_event(&IdleEvent::EnterAnswered(true)), IdleAction::CompleteBinding);
    assert_eq!(idle.on_event(&IdleEvent::Completed), IdleAction::MarkBound);
    assert_eq!(idle.executor.state, ExecutorState::Bound);
    assert_eq!(idle.executor.session, Some("s1".to_string()));
    assert_eq!(idle.on_event(&IdleEvent::ShimReady), IdleAction::Ignore);
}

#[test]
fn manager_starts_new_executors_and_forgets_released_ones() {
    let mut m = ExecutorManager::new(FlameContext::default());
    match m.handle_executor_update(executor("e1", ExecutorState::Idle, None)) {
        ExecutorAction::Start(e) => {
            assert_eq!(e.id, "e1");
            assert_eq!(e.shim, Some(Shim::Host));
            assert!(e.context.is_some());
        }
        _ => panic!("expected a start"),
    }
    assert!(matches!(
        m.handle_executor_update(executor("e1", ExecutorState::Bound, None)),
        ExecutorAction::Keep
    ));
    assert!(matches!(
        m.handle_message(ExecutorMessage::Update(executor("e1", ExecutorState::Released, None))),
        ExecutorAction::Remove
    ));
    assert!(matches!(
        m.handle_executor_update(executor("e1", ExecutorState::Idle, None)),
        ExecutorAction::Start(_)
    ));
}

#[test]
fn stream_reads() {
    assert_eq!(stream_timeout_secs(), 30);
    match handle_read(StreamRead::Message(Some(WatchNodeResponse::Executor(executor(
        "e2",
        ExecutorState::Idle,
        None,
    ))))) {
        StreamStep::Forward(e) => assert_eq!(e.id, "e2"),
        _ => panic!("expected a forward"),
    }
    assert!(matches!(handle_read(StreamRead::Message(Some(WatchNodeResponse::Ack(7)))), StreamStep::Continue));
    assert!(matches!(handle_read(StreamRead::Message(None)), StreamStep::Continue));
    assert!(matches!(handle_read(StreamRead::Closed), StreamStep::Finished(Ok(()))));
    match handle_read(StreamRead::Failed("broken pipe".to_string())) {
        StreamStep::Finished(Err(FlameError::Network(m))) => assert_eq!(m, "Stream error: broken pipe"),
        _ => panic!("expected a network error"),
    }
    match handle_read(StreamRead::TimedOut) {
        StreamStep::Finished(Err(FlameError::Network(m))) => assert_eq!(m, "Response timeout"),
        _ => panic!("expected a network error"),
    }
}

#[test]
fn runtime_threads() {
    let p = thread_plan(8, true, 10);
    assert_eq!((p.cache, p.manager), (2, 11));
    let p = thread_plan(1, true, 0);
    assert_eq!((p.cache, p.manager), (1, 1));
    let p = thread_plan(8, false, 128);
    assert_eq!((p.cache, p.manager), (0, 129));
}

#[test]
fn release_keeps_everything_but_state_and_session() {
    let mut e = executor("e7", ExecutorState::Idle, Some(Shim::Host));
    e.slots = 3;
    e.task = Some("t1".to_string());
    let mut idle = IdleState::new(e);
    assert_eq!(idle.on_event(&IdleEvent::BindAnswered(None)), IdleAction::Release);
    assert_eq!(idle.executor.id, "e7");
    assert_eq!(idle.executor.node, "test-node");
    assert_eq!(idle.executor.slots, 3);
    assert_eq!(idle.executor.task, Some("t1".to_string()));
    assert_eq!(idle.executor.shim, Some(Shim::Host));
    assert_eq!(idle.executor.state, ExecutorState::Releasing);
    assert!(idle.executor.session.is_none());
}

#[test]
fn refused_or_abandoned_binding_leaves_the_executor_alone() {
    let mut idle = IdleState::new(executor("e8", ExecutorState::Idle, Some(Shim::Host)));
    let offer = OfferedSession {
        session_id: "s9".to_string(),
        application: "app".to_string(),
        shim: Some(Shim::Wasm),
    };
    assert_eq!(idle.on_event(&IdleEvent::BindAnswered(Some(offer))), IdleAction::RejectShim);
    assert_eq!(idle.executor.state, ExecutorState::Idle);
    assert!(idle.executor.session.is_none());

    let mut idle = IdleState::new(executor("e9", ExecutorState::Idle, Some(Shim::Host)));
    let offer = OfferedSession {
        session_id: "s1".to_string(),
        application: "app".to_string(),
        shim: Some(Shim::Host),
    };
    assert_eq!(idle.on_event(&IdleEvent::BindAnswered(Some(offer))), IdleAction::CreateShim);
    assert_eq!(idle.on_event(&IdleEvent::ShimReady), IdleAction::EnterSession);
    let mut last = IdleAction::Ignore;
    for _ in 0..5 {
        last = idle.on_event(&IdleEvent::EnterAnswered(false));
    }
    assert_eq!(last, IdleAction::GiveUp);
    assert_eq!(idle.executor.state, ExecutorState::Idle);
    assert!(idle.executor.session.is_none());
}

#[test]
fn started_executors_carry_the_managers_context() {
    let mut ctx = FlameContext::default();
    ctx.cluster.name = "lab".to_string();
    let mut m = ExecutorManager::new(ctx);
    match m.handle_executor_update(executor("e2", ExecutorState::Idle, None)) {
        ExecutorAction::Start(e) => {
            let c = e.context.expect("a context");
            assert_eq!(c.cluster.name, "lab");
            assert_eq!(e.node, "test-node");
        }
        _ => panic!("expected a start"),
    }
}

#[test]
fn reconnect_plan_caps_any_interval() {
    let handler = StreamHandler::new(test_node());
    assert_eq!(handler.reconnect_plan(u64::MAX, false), (u64::MAX, 30));
    assert_eq!(handler.reconnect_plan(14, false), (14, 28));
}

#[test]
fn update_messages_start_only_new_executors() {
    let mut ctx = FlameContext::default();
    ctx.cluster.name = "lab".to_string();
    let mut m = ExecutorManager::new(ctx);
    match m.handle_message(ExecutorMessage::Update(executor("e5", ExecutorState::Idle, None))) {
        ExecutorAction::Start(e) => {
            assert_eq!(e.id, "e5");
            assert_eq!(e.shim, Some(Shim::Host));
            assert_eq!(e.context.expect("a context").cluster.name, "lab");
        }
        _ => panic!("expected a start"),
    }
    assert!(matches!(
        m.handle_message(ExecutorMessage::Update(executor("e5", ExecutorState::Bound, None))),
        ExecutorAction::Keep
    ));
}

#[test]
fn the_offered_session_stays_until_bound() {
    let mut idle = IdleState::new(executor("e3", ExecutorState::Idle, Some(Shim::Host)));
    let offer = OfferedSession {
        session_id: "s7".to_string(),
        application: "app".to_string(),
        shim: Some(Shim::Host),
    };
    assert_eq!(idle.on_event(&IdleEvent::BindAnswered(Some(offer))), IdleAction::CreateShim);
    assert_eq!(idle.on_event(&IdleEvent::ShimReady), IdleAction::EnterSession);
    assert_eq!(idle.on_event(&IdleEvent::EnterAnswered(false)), IdleAction::RetryAfter(5));
    assert_eq!(idle.offered.as_ref().unwrap().session_id, "s7");
    assert_eq!(idle.on_event(&IdleEvent::EnterAnswered(true)), IdleAction::CompleteBinding);
    assert_eq!(idle.on_event(&IdleEvent::Completed), IdleAction::MarkBound);
    assert_eq!(idle.executor.session, Some("s7".to_string()));
}
