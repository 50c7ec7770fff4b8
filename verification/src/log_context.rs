//! Where a log line comes from: the thread and the request it serves.

use vstd::prelude::*;

verus! {

/// Log context handed to the C++ logger.
#[derive(Debug, Clone)]
pub struct CxxLogContext {
    pub thread_name: String,
    pub correlation_id: String,
    pub thread_id: u64,
}

/// Log context of a worker thread.
#[derive(Debug, Clone, Default)]
pub struct LogCtx {
    pub thread_name: String,
    pub correlation_id: String,
    pub thread_id: i32,
}

impl LogCtx {
    /// The context of the same thread, serving the request `correlation_id`.
    pub fn for_request(&self, correlation_id: String) -> (r: LogCtx)
        ensures
            r.thread_name@ == self.thread_name@,
            r.thread_id == self.thread_id,
            r.correlation_id@ == correlation_id@,
    {
        LogCtx { thread_name: self.thread_name.clone(), correlation_id, thread_id: self.thread_id }
    }
}

} // verus!
