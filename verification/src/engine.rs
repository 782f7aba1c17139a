//! Decision logic of the fetch sequence.
//!
//! The rendering engine is launched lazily and exactly once per
//! process: `EngineGuard` records the one launch outcome, and once an
//! outcome is recorded every later acquire observes that same outcome
//! and never asks for another launch. The per-step failures of a fetch
//! map into the closed error taxonomy here; the engine calls themselves
//! are driven by the unverified shell around the library.

use vstd::prelude::*;
use vstd::string::StringExecFns;

use crate::error::AppError;

verus! {

/// The launch state of the shared rendering engine.
#[derive(Debug, Clone)]
pub enum EngineStatus {
    /// No launch was attempted yet.
    Unstarted,
    /// The one launch succeeded; the engine serves every fetch.
    Ready,
    /// The one launch failed with this cause; the process can no longer
    /// serve requests until restarted.
    Failed(String),
}

/// Records the outcome of the one engine launch. The shell holds it
/// behind its exactly-once initialization primitive and consults it on
/// every acquire.
pub struct EngineGuard {
    status: EngineStatus,
}

impl EngineGuard {
    /// The recorded launch state.
    pub closed spec fn status(&self) -> EngineStatus {
        self.status
    }

    /// A fresh guard: nothing launched yet.
    pub fn new() -> (r: Self)
        ensures
            r.status() is Unstarted,
    {
        EngineGuard { status: EngineStatus::Unstarted }
    }

    /// Whether an acquire must perform the launch sequence: only before
    /// any outcome was recorded.
    pub fn must_launch(&self) -> (b: bool)
        ensures
            b <==> self.status() is Unstarted,
    {
        match self.status {
            EngineStatus::Unstarted => true,
            _ => false,
        }
    }

    /// Records that the one launch succeeded.
    pub fn record_success(&mut self)
        requires
            old(self).status() is Unstarted,
        ensures
            final(self).status() is Ready,
    {
        self.status = EngineStatus::Ready;
    }

    /// Records that the one launch failed; the failure is final for the
    /// process.
    pub fn record_failure(&mut self, cause: String)
        requires
            old(self).status() is Unstarted,
        ensures
            final(self).status() matches EngineStatus::Failed(m) && m@ == cause@,
    {
        self.status = EngineStatus::Failed(cause);
    }

    /// The error every acquire observes after a failed launch.
    pub fn failure(&self) -> (r: Option<AppError>)
        ensures
            r is Some <==> self.status() is Failed,
            self.status() matches EngineStatus::Failed(m) ==> r matches Some(e) && e
                matches AppError::BrowserError(b) && b@ == m@,
    {
        match &self.status {
            EngineStatus::Failed(m) => Some(AppError::BrowserError(m.clone())),
            _ => None,
        }
    }
}

/// How one acquire may move the guard: it either only reads the state,
/// or it is the first acquire and records the one launch outcome.
pub open spec fn guard_step(pre: EngineStatus, post: EngineStatus) -> bool {
    ||| post == pre
    ||| (pre is Unstarted && (post is Ready || post is Failed))
}

/// Once a launch outcome is recorded, the guard never changes again:
/// every later acquire observes the identical outcome, whether success
/// or failure, and none performs another launch.
pub proof fn lemma_outcome_stable(pre: EngineStatus, post: EngineStatus)
    requires
        guard_step(pre, post),
        !(pre is Unstarted),
    ensures
        post == pre,
{
}

/// The engine-facing steps of one fetch, in order; each can fail with a
/// cause reported by the engine.
#[derive(Debug, Clone, Copy, PartialEq, Eq)]
pub enum FetchStep {
    /// Opening a new page context navigated to the URL.
    OpenPage,
    /// Waiting for the content container to appear in the rendered
    /// document.
    WaitContent,
    /// Retrieving the fully rendered markup.
    GetMarkup,
    /// Closing the page context to release engine-side resources.
    ClosePage,
}

/// The message carried by the error of each failed step.
pub open spec fn step_error_text(step: FetchStep, cause: Seq<char>) -> Seq<char> {
    match step {
        FetchStep::OpenPage => "New page error: "@ + cause,
        FetchStep::WaitContent => "Waiting for #js_content failed: "@ + cause
            + ". The page may not be a valid WeChat article."@,
        FetchStep::GetMarkup => "Get content error: "@ + cause,
        FetchStep::ClosePage => "Close page error: "@ + cause,
    }
}

/// Maps a failed fetch step to its place in the error taxonomy: a
/// missing content container is a timeout that hints the page may not
/// be a valid article; every other step failure is a browser error.
pub fn step_error(step: FetchStep, cause: &str) -> (e: AppError)
    ensures
        match e {
            AppError::Timeout(m) => step is WaitContent && m@ == step_error_text(step, cause@),
            AppError::BrowserError(m) => !(step is WaitContent) && m@ == step_error_text(
                step,
                cause@,
            ),
            _ => false,
        },
{
    match step {
        FetchStep::OpenPage => {
            let mut m = String::from_str("New page error: ");
            m.append(cause);
            AppError::BrowserError(m)
        },
        FetchStep::WaitContent => {
            let mut m = String::from_str("Waiting for #js_content failed: ");
            m.append(cause);
            m.append(". The page may not be a valid WeChat article.");
            AppError::Timeout(m)
        },
        FetchStep::GetMarkup => {
            let mut m = String::from_str("Get content error: ");
            m.append(cause);
            AppError::BrowserError(m)
        },
        FetchStep::ClosePage => {
            let mut m = String::from_str("Close page error: ");
            m.append(cause);
            AppError::BrowserError(m)
        },
    }
}

} // verus!
