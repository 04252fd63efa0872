use std::sync::Arc;
use vstd::prelude::*;

pub mod flow;
pub mod state;
pub mod driver;
pub mod iter;

pub use flow::{lemma_flow_depth, Recuns, RecunsEx, RecunsFlow};
pub use driver::{
    all_again, do_loop, do_loop_cancel, do_loop_cancel_on_loop, do_loop_on_loop, hook_turned,
    is_hooked_run, is_hooked_session, is_run, is_session, lemma_hooked_session_done, lemma_no_early_end_flag, lemma_run_probe_once, lemma_session_done,
    lemma_session_errors, no_end_flag, polled, run_hook, run_over, session_end, start, TURN_LIMIT,
};
pub use iter::{
    ask, asked_nothing, do_iter, do_iter_cancel, do_iter_cancel_on_loop, do_iter_on_loop, iter_step, ran,
    DoLoopIter,
};
pub use state::{
    advanced, check_at, checked, delivered, pull, lemma_end_probe_once, lemma_errors_in_order, lemma_stop_when_done,
    lemma_turn_keeps_errors, turned, Advance, State, StateView, Turn,
};

verus! {

/// Relies on `anyhow::Error` only as an opaque value that errors are carried in.
#[verifier::external_type_specification]
#[verifier::external_body]
pub struct ExError(anyhow::Error);

/// A unit from the input source, or the error the source reported.
pub type RecunsResult<T> = Result<T, Arc<anyhow::Error>>;

/// A session's result, or every error it recorded, in order.
pub type RecunsResultErrs<T> = Result<T, Vec<Arc<anyhow::Error>>>;


} // verus!
