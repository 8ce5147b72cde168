use vstd::prelude::*;

use crate::deps::now_timestamp;
use crate::error::{spec_message, FlameError};
use crate::sdk::client::Event;
use crate::sdk::queue::AsyncQueue;

verus! {

/// The application a service instance runs for.
pub struct ApplicationContext {
    pub name: String,
    pub image: Option<String>,
    pub command: Option<String>,
}

/// The session a service instance serves.
pub struct SessionContext {
    pub session_id: String,
    pub application: ApplicationContext,
    pub common_data: Option<Vec<u8>>,
}

/// A task handed to a service instance.
pub struct TaskContext {
    pub task_id: String,
    pub session_id: String,
    pub input: Option<Vec<u8>>,
}

/// Whom an event is about: a session, and a task of it if any.
pub struct EventOwner {
    pub session_id: String,
    pub task_id: Option<String>,
}

/// An event as it is sent to the watchers of a service instance.
pub struct WatchEventResponse {
    pub owner: Option<EventOwner>,
    pub event: Option<Event>,
}

/// The queued event carries this owner, code and message.
pub open spec fn is_event(
    e: WatchEventResponse,
    session_id: Seq<char>,
    task_id: Option<Seq<char>>,
    code: i32,
    message: Option<Seq<char>>,
) -> bool {
    &&& e.owner matches Some(o) && o.session_id@ == session_id && match (o.task_id, task_id) {
        (Some(a), Some(b)) => a@ == b,
        (None, None) => true,
        _ => false,
    }
    &&& e.event matches Some(ev) && ev.code == code && match (ev.message, message) {
        (Some(a), Some(b)) => a@ == b,
        (None, None) => true,
        _ => false,
    }
}

pub open spec fn opt_view(s: Option<String>) -> Option<Seq<char>> {
    match s {
        Some(s) => Some(s@),
        None => None,
    }
}

fn copy_opt(s: &Option<String>) -> (r: Option<String>)
    ensures
        opt_view(r) == opt_view(*s),
{
    match s {
        Some(s) => Some(s.clone()),
        None => None,
    }
}

/// The event's time is the clock's, in seconds; nothing is claimed of it.
fn new_event(code: i32, message: Option<String>) -> (r: Event)
    ensures
        r.code == code,
        opt_view(r.message) == opt_view(message),
{
    Event { code, message, creation_time: now_timestamp() }
}

impl SessionContext {
    /// Queues an event of the session for its watchers.
    pub fn record_event(
        &self,
        queue: &mut AsyncQueue<WatchEventResponse>,
        code: i32,
        message: Option<String>,
    ) -> (r: Result<(), FlameError>)
        ensures
            r is Ok,
            final(queue)@.0.len() == old(queue)@.0.len() + 1,
            final(queue)@.0.subrange(0, old(queue)@.0.len() as int) == old(queue)@.0,
            is_event(
                final(queue)@.0.last(),
                self.session_id@,
                None,
                code,
                opt_view(message),
            ),
            final(queue)@.1 == old(queue)@.1,
    {
        let owner = EventOwner { session_id: self.session_id.clone(), task_id: None };
        let e = WatchEventResponse { owner: Some(owner), event: Some(new_event(code, message)) };
        queue.push_back(e)?;
        proof {
            assert(queue@.0.subrange(0, old(queue)@.0.len() as int) =~= old(queue)@.0);
        }
        Ok(())
    }
}

impl TaskContext {
    /// Queues an event of the task for its watchers.
    pub fn record_event(
        &self,
        queue: &mut AsyncQueue<WatchEventResponse>,
        code: i32,
        message: Option<String>,
    ) -> (r: Result<(), FlameError>)
        ensures
            r is Ok,
            final(queue)@.0.len() == old(queue)@.0.len() + 1,
            final(queue)@.0.subrange(0, old(queue)@.0.len() as int) == old(queue)@.0,
            is_event(
                final(queue)@.0.last(),
                self.session_id@,
                Some(self.task_id@),
                code,
                opt_view(message),
            ),
            final(queue)@.1 == old(queue)@.1,
    {
        let owner = EventOwner {
            session_id: self.session_id.clone(),
            task_id: Some(self.task_id.clone()),
        };
        let e = WatchEventResponse { owner: Some(owner), event: Some(new_event(code, message)) };
        queue.push_back(e)?;
        proof {
            assert(queue@.0.subrange(0, old(queue)@.0.len() as int) =~= old(queue)@.0);
        }
        Ok(())
    }
}

/// A service that runs the tasks of a session, written by the users of the
/// library.
pub trait FlameService {
    fn on_session_enter(&self, ctx: SessionContext) -> Result<(), FlameError>;

    fn on_task_invoke(&self, ctx: TaskContext) -> Result<Option<Vec<u8>>, FlameError>;

    fn on_session_leave(&self) -> Result<(), FlameError>;
}

/// The answer sent back for a session call: 0 and no message on success,
/// -1 and the error's text on failure.
pub struct CallResult {
    pub return_code: i32,
    pub message: Option<String>,
}

/// The answer sent back for a task: its output on success.
pub struct TaskResult {
    pub return_code: i32,
    pub output: Option<Vec<u8>>,
    pub message: Option<String>,
}

/// `out` answers a session call that came back as `r`.
pub open spec fn is_call_answer(r: Result<(), FlameError>, out: CallResult) -> bool {
    match r {
        Ok(_) => out.return_code == 0 && out.message is None,
        Err(e) => {
            &&& out.return_code == -1
            &&& out.message matches Some(m) && m@ == spec_message(e)
        },
    }
}

/// `out` answers a task call that came back as `r`.
pub open spec fn is_task_answer(r: Result<Option<Vec<u8>>, FlameError>, out: TaskResult) -> bool {
    match r {
        Ok(d) => out.return_code == 0 && out.message is None && match (out.output, d) {
            (Some(a), Some(b)) => a@ == b@,
            (None, None) => true,
            _ => false,
        },
        Err(e) => {
            &&& out.return_code == -1
            &&& out.output is None
            &&& out.message matches Some(m) && m@ == spec_message(e)
        },
    }
}

/// The answer to a session call that came back as `r`.
pub fn call_result(r: Result<(), FlameError>) -> (out: CallResult)
    ensures
        is_call_answer(r, out),
{
    match r {
        Ok(_) => CallResult { return_code: 0, message: None },
        Err(e) => CallResult { return_code: -1, message: Some(e.message()) },
    }
}

/// The answer to a task call that came back as `r`.
pub fn task_result(r: Result<Option<Vec<u8>>, FlameError>) -> (out: TaskResult)
    ensures
        is_task_answer(r, out),
{
    match r {
        Ok(d) => TaskResult { return_code: 0, output: d, message: None },
        Err(e) => TaskResult { return_code: -1, output: None, message: Some(e.message()) },
    }
}

/// Runs `service` on a session's start and answers as the instance does:
/// 0 and no message when the service entered the session, -1 and the
/// service's error text when it failed.
pub fn enter_session<S: FlameService>(service: &S, ctx: SessionContext) -> (out: CallResult)
    ensures
        exists|r: Result<(), FlameError>|
            call_ensures(S::on_session_enter, (service, ctx), r) && is_call_answer(r, out),
{
    let r = service.on_session_enter(ctx);
    let ghost g = r;
    let out = call_result(r);
    assert(is_call_answer(g, out));
    out
}

/// Runs `service` on a task and answers as the instance does: 0 and the
/// service's output when it ran the task, -1, no output and the service's
/// error text when it failed.
pub fn invoke_task<S: FlameService>(service: &S, ctx: TaskContext) -> (out: TaskResult)
    ensures
        exists|r: Result<Option<Vec<u8>>, FlameError>|
            call_ensures(S::on_task_invoke, (service, ctx), r) && is_task_answer(r, out),
{
    let r = service.on_task_invoke(ctx);
    let ghost g = r;
    let out = task_result(r);
    assert(is_task_answer(g, out));
    out
}

/// Runs `service` on a session's end, closes the event queue so that its
/// watchers stop once it drains, and answers as the instance does.
pub fn leave_session<S: FlameService>(
    service: &S,
    queue: &mut AsyncQueue<WatchEventResponse>,
) -> (out: CallResult)
    ensures
        final(queue)@.1,
        final(queue)@.0 == old(queue)@.0,
        exists|r: Result<(), FlameError>|
            call_ensures(S::on_session_leave, (service,), r) && is_call_answer(r, out),
{
    let r = service.on_session_leave();
    let ghost g = r;
    queue.close();
    let out = call_result(r);
    assert(is_call_answer(g, out));
    out
}

} // verus!
