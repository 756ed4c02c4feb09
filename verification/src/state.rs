//! The web server's shared state, and the answer to a request to check a
//! prompt file.
use vstd::prelude::*;
use vstd::string::StringExecFns;
use std::sync::Arc;

verus! {

#[verifier::external_type_specification]
#[verifier::external_body]
#[verifier::reject_recursive_types(T)]
pub struct ExMutex<T: ?Sized>(std::sync::Mutex<T>);

/// The text that a lock around a `String` holds when it is made; what is
/// later written through the lock is not followed here.
pub uninterp spec fn lock_text(m: std::sync::Mutex<String>) -> Seq<char>;

/// `Mutex::new` around `text`: the new lock holds `text`, as std
/// documents it.
#[verifier::external_body]
fn text_lock(text: String) -> (r: std::sync::Mutex<String>)
    ensures
        lock_text(r) == text@,
{
    std::sync::Mutex::new(text)
}

/// The web server's in-memory stores.
pub struct AppState {
    /// The graph being edited, as text.
    pub graph_data: Arc<std::sync::Mutex<String>>,
    /// The prompt file being edited, as text.
    pub poml_data: Arc<std::sync::Mutex<String>>,
}

impl AppState {
    /// Two fresh stores, each holding empty text.
    pub fn new() -> (r: AppState)
        ensures
            lock_text(*r.graph_data) == Seq::<char>::empty(),
            lock_text(*r.poml_data) == Seq::<char>::empty(),
    {
        AppState {
            graph_data: Arc::new(text_lock(String::new())),
            poml_data: Arc::new(text_lock(String::new())),
        }
    }
}

/// A request to check a prompt file.
pub struct ValidateRequest {
    pub poml: String,
}

/// The answer to a request to check a prompt file.
pub struct ValidateResponse {
    pub status: String,
    pub message: String,
}

/// How an external program ended.
pub enum ProcessOutcome {
    /// It ran; `success` says whether it exited with success.
    Finished { success: bool, stdout: String, stderr: String },
    /// It could not be run.
    Failed { error: String },
}

/// The answer to a check: `ok` with the checker's output when it
/// succeeded, else `error` with its error output or why it could not run.
pub fn validation_response(outcome: ProcessOutcome) -> (r: ValidateResponse)
    ensures
        match outcome {
            ProcessOutcome::Finished { success, stdout, stderr } => if success {
                r.status@ == "ok"@ && r.message@ == stdout@
            } else {
                r.status@ == "error"@ && r.message@ == stderr@
            },
            ProcessOutcome::Failed { error } => r.status@ == "error"@ && r.message@ == error@,
        },
{
    match outcome {
        ProcessOutcome::Finished { success, stdout, stderr } => if success {
            ValidateResponse { status: String::from_str("ok"), message: stdout }
        } else {
            ValidateResponse { status: String::from_str("error"), message: stderr }
        },
        ProcessOutcome::Failed { error } => ValidateResponse {
            status: String::from_str("error"),
            message: error,
        },
    }
}

} // verus!
