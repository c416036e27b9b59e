//! Errors as they are reported on the wire.
//!
//! Every error that a caller sees is a triple of module name, code and
//! message. An error type of a module says for each of its variants what
//! the triple is; a variant may take module and code from an error it
//! wraps, and one variant may stand for an abort of the whole batch.

use vstd::prelude::*;
use crate::dispatcher;
use crate::module::CallResult;
use crate::text::owned;

verus! {

/// An error on the wire.
#[derive(Debug)]
pub struct RuntimeError {
    pub module: String,
    pub code: u32,
    pub message: String,
}

impl RuntimeError {
    /// An error of the given module with the given code and message.
    pub fn new(module: &str, code: u32, message: &str) -> (e: RuntimeError)
        ensures
            e.module@ == module@,
            e.code == code,
            e.message@ == message@,
    {
        RuntimeError { module: owned(module), code, message: owned(message) }
    }
}

/// An error of a runtime module.
pub trait Error: Sized {
    /// The name of the module that the error belongs to.
    spec fn module_name_spec(&self) -> Seq<char>;

    /// The code of the error, unique within its module.
    spec fn code_spec(&self) -> u32;

    /// The error in words.
    spec fn message_spec(&self) -> Seq<char>;

    /// The dispatcher error that the error re-raises, if it stands for an
    /// abort of the batch.
    spec fn abort_spec(&self) -> Option<dispatcher::Error>;

    fn module_name(&self) -> (name: &str)
        ensures
            name@ == self.module_name_spec(),
    ;

    fn code(&self) -> (code: u32)
        ensures
            code == self.code_spec(),
    ;

    fn message(&self) -> (message: String)
        ensures
            message@ == self.message_spec(),
    ;

    /// Takes the dispatcher error out of an abort; hands any other error
    /// back.
    fn into_abort(self) -> (r: Result<dispatcher::Error, Self>)
        ensures
            match r {
                Ok(e) => self.abort_spec() == Some(e),
                Err(same) => self.abort_spec() is None && same == self,
            },
    ;

    /// The error as the result of a call: an abort stays an abort, and
    /// any other error fails the call with its module, code and message.
    fn into_call_result(self) -> (r: CallResult)
        ensures
            match self.abort_spec() {
                Some(abort) => r == CallResult::Aborted(abort),
                None => r matches CallResult::Failed { module, code, message } && module@
                    == self.module_name_spec() && code == self.code_spec() && message@
                    == self.message_spec(),
            },
    {
        match self.into_abort() {
            Ok(err) => CallResult::Aborted(err),
            Err(failed) => {
                let module = owned(failed.module_name());
                let code = failed.code();
                let message = failed.message();
                CallResult::Failed { module, code, message }
            },
        }
    }

    /// The error as it goes on the wire.
    fn into_runtime_error(self) -> (r: RuntimeError)
        ensures
            r.module@ == self.module_name_spec(),
            r.code == self.code_spec(),
            r.message@ == self.message_spec(),
    {
        let module = owned(self.module_name());
        let code = self.code();
        let message = self.message();
        RuntimeError { module, code, message }
    }
}

/// `r` is the call result that the error turns into.
pub open spec fn is_call_result_of<E: Error>(e: E, r: CallResult) -> bool {
    match e.abort_spec() {
        Some(abort) => r == CallResult::Aborted(abort),
        None => r matches CallResult::Failed { module, code, message } && module@
            == e.module_name_spec() && code == e.code_spec() && message@ == e.message_spec(),
    }
}

} // verus!
