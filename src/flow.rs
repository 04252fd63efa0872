use std::sync::Arc;
use vstd::prelude::*;

verus! {

/// A unit of parsing logic: it looks at one input unit (or, with `eof` set,
/// at the end-of-input probe), may update the shared data, and tells the
/// runtime how to change its handler stack.
///
/// The decision it returns carries handlers of its own type, so a grammar
/// with many kinds of handler uses one type for all of them (an enum, or a
/// boxed closure behind a newtype).
pub trait Recuns<I, D>: Sized {
    fn check(&mut self, input: I, data: &mut D, eof: bool) -> RecunsFlow<Self>;
}

/// The decision a handler returns for one input unit.
///
/// `Stay` keeps the handler and moves on to the next unit; `Error` records a
/// parse error and leaves the stack as it is. The `&'static str` of the
/// variants that push is the name of the pushed handler.
pub enum RecunsFlow<H> {
    Stay,
    End,
    EndReDo,
    Call(H, &'static str),
    CallNext(H, &'static str),
    Mov(H, &'static str),
    MovNext(H, &'static str),
    Error(Arc<anyhow::Error>),
}

impl<H> RecunsFlow<H> {
    /// The handler stack after this decision, taken by the handler on top of `stack`.
    pub open spec fn on_stack(self, stack: Seq<H>) -> Seq<H> {
        match self {
            RecunsFlow::End => stack.drop_last(),
            RecunsFlow::EndReDo => stack.drop_last(),
            RecunsFlow::Call(h, _) => stack.push(h),
            RecunsFlow::CallNext(h, _) => stack.push(h),
            RecunsFlow::Mov(h, _) => stack.drop_last().push(h),
            RecunsFlow::MovNext(h, _) => stack.drop_last().push(h),
            _ => stack,
        }
    }

    /// How many handlers this decision adds to the stack (a negative count removes).
    pub open spec fn depth_change(self) -> int {
        match self {
            RecunsFlow::End => -1,
            RecunsFlow::EndReDo => -1,
            RecunsFlow::Call(_, _) => 1,
            RecunsFlow::CallNext(_, _) => 1,
            _ => 0,
        }
    }

    /// Whether the current unit is delivered once more, to whichever handler is on top later.
    pub open spec fn redelivers(self) -> bool {
        match self {
            RecunsFlow::EndReDo => true,
            RecunsFlow::Call(_, _) => true,
            RecunsFlow::Mov(_, _) => true,
            _ => false,
        }
    }

    /// The pending re-deliveries after this decision on `(input, eof)`.
    pub open spec fn queued<I>(self, queue: Seq<(I, bool)>, input: I, eof: bool) -> Seq<(I, bool)> {
        if self.redelivers() {
            queue.push((input, eof))
        } else {
            queue
        }
    }

    /// The error list after this decision.
    pub open spec fn logged(self, errors: Seq<Arc<anyhow::Error>>) -> Seq<Arc<anyhow::Error>> {
        match self {
            RecunsFlow::Error(e) => errors.push(e),
            _ => errors,
        }
    }

    /// A decision that pushes `r` and delivers the current unit to it next.
    pub fn call(name: &'static str, r: H) -> (f: Self)
        ensures
            f == RecunsFlow::Call(r, name),
    {
        RecunsFlow::Call(r, name)
    }

    /// A decision that pushes `r` and moves on to the next unit.
    pub fn call_next(name: &'static str, r: H) -> (f: Self)
        ensures
            f == RecunsFlow::CallNext(r, name),
    {
        RecunsFlow::CallNext(r, name)
    }

    /// A decision that replaces the current handler by `r` and delivers the current unit to it.
    pub fn mov(name: &'static str, r: H) -> (f: Self)
        ensures
            f == RecunsFlow::Mov(r, name),
    {
        RecunsFlow::Mov(r, name)
    }

    /// A decision that replaces the current handler by `r` and moves on to the next unit.
    pub fn mov_next(name: &'static str, r: H) -> (f: Self)
        ensures
            f == RecunsFlow::MovNext(r, name),
    {
        RecunsFlow::MovNext(r, name)
    }
}

impl<H> From<Arc<anyhow::Error>> for RecunsFlow<H> {
    /// A handler error as a decision.
    fn from(e: Arc<anyhow::Error>) -> (f: Self)
        ensures
            f == RecunsFlow::<H>::Error(e),
    {
        RecunsFlow::Error(e)
    }
}

impl<H> vstd::std_specs::convert::FromSpecImpl<Arc<anyhow::Error>> for RecunsFlow<H> {
    open spec fn obeys_from_spec() -> bool {
        true
    }

    open spec fn from_spec(v: Arc<anyhow::Error>) -> Self {
        RecunsFlow::Error(v)
    }
}

/// The decision that records the error `e`.
pub open spec fn error_flow<H>(e: anyhow::Error) -> RecunsFlow<H> {
    choose|f: RecunsFlow<H>| f is Error && *f->Error_0 == e
}

impl<H> From<anyhow::Error> for RecunsFlow<H> {
    /// A handler error as a decision, shared behind an `Arc`.
    fn from(e: anyhow::Error) -> (f: Self)
        ensures
            f is Error && *f->Error_0 == e,
    {
        let f = RecunsFlow::Error(Arc::new(e));
        proof {
            let g = error_flow::<H>(e);
            assert(f is Error && *f->Error_0 == e);
            assert(g is Error && *g->Error_0 == e);
            assert(f->Error_0 == g->Error_0);
        }
        f
    }
}

impl<H> vstd::std_specs::convert::FromSpecImpl<anyhow::Error> for RecunsFlow<H> {
    open spec fn obeys_from_spec() -> bool {
        true
    }

    open spec fn from_spec(v: anyhow::Error) -> Self {
        error_flow(v)
    }
}

/// Builds a decision from the handler that it pushes.
pub trait RecunsEx<I, D>: Sized {
    fn rfcall(self, name: &'static str) -> (f: RecunsFlow<Self>)
        ensures
            f == RecunsFlow::Call(self, name),
    ;

    fn rfcall_next(self, name: &'static str) -> (f: RecunsFlow<Self>)
        ensures
            f == RecunsFlow::CallNext(self, name),
    ;

    fn rfmov(self, name: &'static str) -> (f: RecunsFlow<Self>)
        ensures
            f == RecunsFlow::Mov(self, name),
    ;

    fn rfmov_next(self, name: &'static str) -> (f: RecunsFlow<Self>)
        ensures
            f == RecunsFlow::MovNext(self, name),
    ;
}

impl<I, D, R: Recuns<I, D>> RecunsEx<I, D> for R {
    fn rfcall(self, name: &'static str) -> (f: RecunsFlow<Self>) {
        RecunsFlow::call(name, self)
    }

    fn rfcall_next(self, name: &'static str) -> (f: RecunsFlow<Self>) {
        RecunsFlow::call_next(name, self)
    }

    fn rfmov(self, name: &'static str) -> (f: RecunsFlow<Self>) {
        RecunsFlow::mov(name, self)
    }

    fn rfmov_next(self, name: &'static str) -> (f: RecunsFlow<Self>) {
        RecunsFlow::mov_next(name, self)
    }
}

/// The stack-depth law of decisions: `End` and `EndReDo` remove exactly one
/// handler, `Call` and `CallNext` add one, `Mov` and `MovNext` (and decisions
/// that push nothing) keep the depth; a re-delivery is scheduled for `EndReDo`,
/// `Call` and `Mov`, and never for the `*Next` variants.
pub proof fn lemma_flow_depth<H>(flow: RecunsFlow<H>, stack: Seq<H>)
    requires
        stack.len() > 0,
    ensures
        flow.on_stack(stack).len() == stack.len() + flow.depth_change(),
        (flow is End || flow is EndReDo) ==> flow.on_stack(stack).len() == stack.len() - 1,
        (flow is Call || flow is CallNext) ==> flow.on_stack(stack).len() == stack.len() + 1,
        (flow is Mov || flow is MovNext) ==> flow.on_stack(stack).len() == stack.len(),
        flow.redelivers() <==> (flow is EndReDo || flow is Call || flow is Mov),
        (flow is CallNext || flow is MovNext) ==> !flow.redelivers(),
        (flow is Call || flow is CallNext || flow is Mov || flow is MovNext) ==> flow.on_stack(
            stack,
        ).last() == match flow {
            RecunsFlow::Call(h, _) => h,
            RecunsFlow::CallNext(h, _) => h,
            RecunsFlow::Mov(h, _) => h,
            RecunsFlow::MovNext(h, _) => h,
            _ => stack.last(),
        },
{
}

} // verus!
