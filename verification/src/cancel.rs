//! Cooperative cancellation flag shared between a job's owner and the
//! backend that runs it.

use std::sync::atomic::{AtomicBool, Ordering};
use std::sync::Arc;
use vstd::prelude::*;

verus! {

/// Cooperative cancellation flag shared with backend stage execution.
///
/// Clones share one flag. Another clone may raise it at any moment, so what
/// `is_cancelled` returns is not determined by this value alone.
#[derive(Clone)]
pub struct CancelFlag {
    inner: Arc<AtomicBool>,
}

impl Default for CancelFlag {
    fn default() -> (flag: Self) {
        CancelFlag { inner: Arc::new(AtomicBool::new(false)) }
    }
}

impl CancelFlag {
    /// Request cancellation.
    pub fn cancel(&self) {
        self.inner.store(true, Ordering::Release);
    }

    /// Return whether cancellation has been requested.
    pub fn is_cancelled(&self) -> (cancelled: bool) {
        self.inner.load(Ordering::Acquire)
    }
}

} // verus!
