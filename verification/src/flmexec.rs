use vstd::prelude::*;

use crate::error::{text, FlameError};
use crate::sdk::service::{FlameService, SessionContext, TaskContext};

verus! {

/// Runs the script a task carries, given as the task's input bytes.
pub trait ScriptEngine {
    fn run(&self, script: &Vec<u8>) -> Result<Option<Vec<u8>>, FlameError>;
}

/// A service that runs the script each task carries.
pub struct FlmexecService<E> {
    pub engine: E,
}

/// The error of a task that carries no script.
pub open spec fn no_input_message() -> Seq<char> {
    "No task input"@
}

impl<E: ScriptEngine> FlmexecService<E> {
    /// Runs the task's script: `Internal` when the task has no input, else
    /// what the engine answers for that input.
    pub fn invoke(&self, ctx: &TaskContext) -> (r: Result<Option<Vec<u8>>, FlameError>)
        ensures
            ctx.input is None ==> (r matches Err(FlameError::Internal(m)) && m@
                == no_input_message()),
            ctx.input matches Some(i) ==> call_ensures(E::run, (&self.engine, &i), r),
    {
        match &ctx.input {
            Some(input) => self.engine.run(input),
            None => {
                let m = text("No task input");
                proof {
                    reveal_strlit("No task input");
                }
                Err(FlameError::Internal(m))
            },
        }
    }
}

impl<E: ScriptEngine> FlameService for FlmexecService<E> {
    fn on_session_enter(&self, ctx: SessionContext) -> (r: Result<(), FlameError>)
        ensures
            r is Ok,
    {
        Ok(())
    }

    fn on_task_invoke(&self, ctx: TaskContext) -> (r: Result<Option<Vec<u8>>, FlameError>)
        ensures
            ctx.input is None ==> (r matches Err(FlameError::Internal(m)) && m@
                == no_input_message()),
            ctx.input matches Some(i) ==> call_ensures(E::run, (&self.engine, &i), r),
    {
        self.invoke(&ctx)
    }

    fn on_session_leave(&self) -> (r: Result<(), FlameError>)
        ensures
            r is Ok,
    {
        Ok(())
    }
}

} // verus!
