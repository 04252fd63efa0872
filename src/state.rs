use crate::flow::{Recuns, RecunsFlow};
use crate::{RecunsResult, RecunsResultErrs};
use std::sync::Arc;
use vstd::prelude::*;

verus! {

/// What one delivery of a unit tells the driver loop.
#[derive(PartialEq, Eq, Structural, Clone, Copy, Debug)]
pub enum Advance {
    /// Keep going.
    Continue,
    /// A handler reported an error and the runtime stops on errors.
    Halt,
    /// No handler was left to take the unit: the session is complete.
    Complete,
}

/// What one iteration of a driver loop tells the loop.
#[derive(PartialEq, Eq, Structural, Clone, Copy, Debug)]
pub enum Turn {
    /// Run another iteration.
    Again,
    /// The loop ends: the source and the re-deliveries are used up, a handler
    /// halted the session, or no handler is left.
    Stop,
    /// The source failed; its error is the last one recorded.
    Fatal,
    /// The cancellation predicate fired; nothing else was done.
    Cancelled,
}

/// The handler-stack runtime of one driving session.
///
/// `states` is the handler stack (top = last), `queue` the pending
/// re-deliveries of a unit with its end-of-input flag (last-in-first-out),
/// `errors` the errors in the order they were detected.
pub struct State<H, I, D> {
    pub stop_when_err: bool,
    pub data: D,
    pub states: Vec<H>,
    pub queue: Vec<(I, bool)>,
    pub errors: Vec<Arc<anyhow::Error>>,
}

/// The runtime as the contracts see it.
pub struct StateView<H, I, D> {
    pub states: Seq<H>,
    pub queue: Seq<(I, bool)>,
    pub errors: Seq<Arc<anyhow::Error>>,
    pub stop_when_err: bool,
    pub data: D,
}

impl<H, I, D> View for State<H, I, D> {
    type V = StateView<H, I, D>;

    open spec fn view(&self) -> StateView<H, I, D> {
        StateView {
            states: self.states@,
            queue: self.queue@,
            errors: self.errors@,
            stop_when_err: self.stop_when_err,
            data: self.data,
        }
    }
}

impl<H> RecunsFlow<H> {
    /// The signal that applying this decision gives.
    pub open spec fn signal(self, stop_when_err: bool) -> Advance {
        if self is Error && stop_when_err {
            Advance::Halt
        } else {
            Advance::Continue
        }
    }
}

impl<H, I, D> StateView<H, I, D> {
    /// The runtime with `data` as its shared data.
    pub open spec fn with_data(self, data: D) -> Self {
        StateView { data: data, ..self }
    }

    /// The runtime with `errors` as its error list.
    pub open spec fn with_errors(self, errors: Seq<Arc<anyhow::Error>>) -> Self {
        StateView { errors: errors, ..self }
    }

    /// The runtime after the handler on top, left as `top` and the shared
    /// data as `data` by its own call, decided `flow` on `(input, eof)`.
    pub open spec fn took(self, top: H, flow: RecunsFlow<H>, input: I, eof: bool, data: D) -> Self {
        StateView {
            states: flow.on_stack(self.states.drop_last().push(top)),
            queue: flow.queued(self.queue, input, eof),
            errors: flow.logged(self.errors),
            stop_when_err: self.stop_when_err,
            data: data,
        }
    }

    /// The runtime with its last pending re-delivery taken out.
    pub open spec fn without_last_redo(self) -> Self {
        StateView { queue: self.queue.drop_last(), ..self }
    }

    /// The errors of `self` stand first, unchanged, in `post`, which holds at most one more.
    pub open spec fn errors_kept(self, post: Self) -> bool {
        &&& self.errors.len() <= post.errors.len() <= self.errors.len() + 1
        &&& post.errors.subrange(0, self.errors.len() as int) == self.errors
    }
}

/// Calls the handler `top` on `(unit, eof)` with the shared data `data`, and
/// gives its decision together with (as ghost values) the handler and the
/// data as that call left them.
pub fn check_at<H: Recuns<I, D>, I, D>(top: &mut H, unit: I, data: &mut D, eof: bool) -> (r: (
    RecunsFlow<H>,
    Ghost<H>,
    Ghost<D>,
))
    ensures
        r.1@ == *final(top),
        r.2@ == *final(data),
        exists|hm: &mut H, dm: &mut D|
            mut_ref_current(hm) == *old(top) && mut_ref_future(hm) == *final(top)
                && mut_ref_current(dm) == *old(data) && mut_ref_future(dm) == *final(data)
                && call_ensures(H::check, (hm, unit, dm, eof), r.0),
{
    let check = H::check;
    let ghost u = unit;
    let flow = check(top, unit, data, eof);
    assert(exists|hm: &mut H, dm: &mut D|
        call_ensures(H::check, (hm, u, dm, eof), flow) && mut_ref_current(hm) == *old(top)
            && mut_ref_future(hm) == *top && mut_ref_current(dm) == *old(data) && mut_ref_future(
            dm,
        ) == *data);
    let r = (flow, Ghost(*top), Ghost(*data));
    proof {
        let (hm, dm) = choose|hm: &mut H, dm: &mut D|
            call_ensures(H::check, (hm, u, dm, eof), flow) && mut_ref_current(hm) == *old(top)
                && mut_ref_future(hm) == *top && mut_ref_current(dm) == *old(data)
                && mut_ref_future(dm) == *data;
        assert(u == unit && r.0 == flow);
        assert(call_ensures(H::check, (hm, unit, dm, eof), r.0));
    }
    r
}

/// Pulls one answer from the source `next` with the shared data `data`, and
/// gives it together with (as a ghost value) the data as that call left it.
pub fn pull<I, D, N: FnMut(&mut D) -> Option<RecunsResult<I>>>(next: &mut N, data: &mut D) -> (r: (
    Option<RecunsResult<I>>,
    Ghost<D>,
))
    requires
        forall|d: &mut D| call_requires(*old(next), (d,)),
    ensures
        *final(next) == *old(next),
        r.1@ == *final(data),
        exists|dm: &mut D|
            mut_ref_current(dm) == *old(data) && mut_ref_future(dm) == *final(data)
                && call_ensures(*old(next), (dm,), r.0),
{
    let v = next(data);
    (v, Ghost(*data))
}

/// `post` is `pre` after its top handler was called on a clone of `input`
/// with the end-of-input flag `eof` and the shared data of `pre`, and its
/// decision `flow` was applied.
pub open spec fn checked<H: Recuns<I, D>, I: Clone, D>(
    pre: StateView<H, I, D>,
    post: StateView<H, I, D>,
    input: I,
    eof: bool,
    flow: RecunsFlow<H>,
) -> bool {
    exists|c: I, hm: &mut H, dm: &mut D, top: H, data: D|
        #![trigger call_ensures(check_at::<H, I, D>, (hm, c, dm, eof), (flow, Ghost(top), Ghost(data)))]
        call_ensures(check_at::<H, I, D>, (hm, c, dm, eof), (flow, Ghost(top), Ghost(data))) && call_ensures(
            I::clone,
            (&input,),
            c,
        ) && mut_ref_current(hm) == pre.states.last() && mut_ref_current(dm) == pre.data && post
            == pre.took(top, flow, input, eof, data)
}

/// `post` is `pre` after delivering `(input, eof)` to the top handler, with
/// signal `r`; with no handler left nothing happens.
pub open spec fn advanced<H: Recuns<I, D>, I: Clone, D>(
    pre: StateView<H, I, D>,
    post: StateView<H, I, D>,
    input: I,
    eof: bool,
    r: Advance,
) -> bool {
    if pre.states.len() == 0 {
        post == pre && r == Advance::Complete
    } else {
        exists|flow: RecunsFlow<H>|
            #[trigger] checked(pre, post, input, eof, flow) && r == flow.signal(pre.stop_when_err)
    }
}

/// The loop's answer to a delivery taken from the pending re-deliveries.
pub open spec fn turn_of_redo(a: Advance) -> Turn {
    if a == Advance::Halt {
        Turn::Stop
    } else {
        Turn::Again
    }
}

/// The loop's answer to a delivery of a unit pulled from the source.
pub open spec fn turn_of_pull(a: Advance) -> Turn {
    if a == Advance::Continue {
        Turn::Again
    } else {
        Turn::Stop
    }
}

/// What becomes of `pulled`, the source's answer: exhaustion sets the flag
/// and sends the default unit to the top handler as the end-of-input probe; a
/// unit goes to the top handler; a source error is recorded and is fatal.
pub open spec fn delivered<H: Recuns<I, D>, I: Clone + Default, D>(
    pre: StateView<H, I, D>,
    post: StateView<H, I, D>,
    pulled: Option<RecunsResult<I>>,
    fin1: bool,
    r: Turn,
) -> bool {
    match pulled {
        None => fin1 && exists|u: I, a: Advance|
            call_ensures(I::default, (), u) && #[trigger] advanced(pre, post, u, true, a) && r
                == turn_of_pull(a),
        Some(Ok(u)) => !fin1 && exists|a: Advance|
            #[trigger] advanced(pre, post, u, false, a) && r == turn_of_pull(a),
        Some(Err(e)) => !fin1 && r == Turn::Fatal && post == pre.with_errors(pre.errors.push(e)),
    }
}

/// One turn of a driver loop from `pre` to `post`, the source-exhausted flag
/// going from `fin0` to `fin1`: the last scheduled re-delivery runs if there
/// is one; else, with the source used up, nothing happens and the loop ends;
/// else `next` is called once on the shared data and what it returned is
/// delivered.
pub open spec fn turned<
    H: Recuns<I, D>,
    I: Clone + Default,
    D,
    N: FnMut(&mut D) -> Option<RecunsResult<I>>,
>(
    pre: StateView<H, I, D>,
    post: StateView<H, I, D>,
    fin0: bool,
    fin1: bool,
    r: Turn,
    next: N,
) -> bool {
    if pre.queue.len() > 0 {
        &&& fin1 == fin0
        &&& exists|a: Advance|
            #[trigger] advanced(
                pre.without_last_redo(),
                post,
                pre.queue.last().0,
                pre.queue.last().1,
                a,
            ) && r == turn_of_redo(a)
    } else if fin0 {
        post == pre && fin1 && r == Turn::Stop
    } else {
        exists|nr: &mut N, dm: &mut D, v: Option<RecunsResult<I>>, data: D|
            #![trigger call_ensures(pull::<I, D, N>, (nr, dm), (v, Ghost(data)))]
            call_ensures(pull::<I, D, N>, (nr, dm), (v, Ghost(data))) && mut_ref_current(nr) == next
                && mut_ref_current(dm) == pre.data
                && delivered(pre.with_data(data), post, v, fin1, r)
    }
}

/// Error law of one delivery: the errors detected before it stay first, in
/// their order, at most one error is added, and the delivery halts the session
/// exactly when it adds one to a runtime that stops on errors.
pub proof fn lemma_errors_in_order<H: Recuns<I, D>, I: Clone, D>(
    pre: StateView<H, I, D>,
    post: StateView<H, I, D>,
    input: I,
    eof: bool,
    r: Advance,
)
    requires
        advanced(pre, post, input, eof, r),
    ensures
        pre.errors_kept(post),
        post.stop_when_err == pre.stop_when_err,
        r == Advance::Halt <==> (pre.stop_when_err && post.errors.len() == pre.errors.len() + 1),
{
    if pre.states.len() == 0 {
        assert(post.errors.subrange(0, pre.errors.len() as int) =~= pre.errors);
    } else {
        let flow = choose|flow: RecunsFlow<H>|
            #[trigger] checked(pre, post, input, eof, flow) && r == flow.signal(pre.stop_when_err);
        let (c, hm, dm, top, data) = choose|c: I, hm: &mut H, dm: &mut D, top: H, data: D|
            #![trigger call_ensures(check_at::<H, I, D>, (hm, c, dm, eof), (flow, Ghost(top), Ghost(data)))]
            call_ensures(check_at::<H, I, D>, (hm, c, dm, eof), (flow, Ghost(top), Ghost(data))) && call_ensures(
                I::clone,
                (&input,),
                c,
            ) && mut_ref_current(hm) == pre.states.last() && mut_ref_current(dm) == pre.data
                && post == pre.took(top, flow, input, eof, data);
        assert(post.errors.subrange(0, pre.errors.len() as int) =~= pre.errors);
    }
}

/// Error law of one driver turn: the errors detected before it stay first,
/// in their order, and at most one is added.
pub proof fn lemma_turn_keeps_errors<
    H: Recuns<I, D>,
    I: Clone + Default,
    D,
    N: FnMut(&mut D) -> Option<RecunsResult<I>>,
>(
    pre: StateView<H, I, D>,
    post: StateView<H, I, D>,
    fin0: bool,
    fin1: bool,
    r: Turn,
    next: N,
)
    requires
        turned(pre, post, fin0, fin1, r, next),
    ensures
        pre.errors_kept(post),
        post.stop_when_err == pre.stop_when_err,
{
    if pre.queue.len() > 0 {
        let a = choose|a: Advance|
            #[trigger] advanced(
                pre.without_last_redo(),
                post,
                pre.queue.last().0,
                pre.queue.last().1,
                a,
            ) && r == turn_of_redo(a);
        lemma_errors_in_order(pre.without_last_redo(), post, pre.queue.last().0, pre.queue.last().1, a);
    } else if fin0 {
        assert(post.errors.subrange(0, pre.errors.len() as int) =~= pre.errors);
    } else {
        let (nr, dm, v, data) = choose|nr: &mut N, dm: &mut D, v: Option<RecunsResult<I>>, data: D|
            #![trigger call_ensures(pull::<I, D, N>, (nr, dm), (v, Ghost(data)))]
            call_ensures(pull::<I, D, N>, (nr, dm), (v, Ghost(data))) && mut_ref_current(nr) == next
                && mut_ref_current(dm) == pre.data
                && delivered(pre.with_data(data), post, v, fin1, r);
        let mid = pre.with_data(data);
        match v {
            None => {
                let (u, a) = choose|u: I, a: Advance|
                    call_ensures(I::default, (), u) && #[trigger] advanced(mid, post, u, true, a)
                        && r == turn_of_pull(a);
                lemma_errors_in_order(mid, post, u, true, a);
            },
            Some(Ok(u)) => {
                let a = choose|a: Advance|
                    #[trigger] advanced(mid, post, u, false, a) && r == turn_of_pull(a);
                lemma_errors_in_order(mid, post, u, false, a);
            },
            Some(Err(e)) => {
                assert(post.errors.subrange(0, pre.errors.len() as int) =~= pre.errors);
            },
        }
    }
}

/// End-of-input law of one driver turn: the source-exhausted flag, once set,
/// stays set; it is set only on a turn that started with no re-delivery
/// pending and on which `next` reported exhaustion, and that turn sends the
/// end-of-input probe; a turn that starts with the source exhausted and
/// nothing pending changes nothing, calls nothing and ends the loop.
pub proof fn lemma_end_probe_once<
    H: Recuns<I, D>,
    I: Clone + Default,
    D,
    N: FnMut(&mut D) -> Option<RecunsResult<I>>,
>(
    pre: StateView<H, I, D>,
    post: StateView<H, I, D>,
    fin0: bool,
    fin1: bool,
    r: Turn,
    next: N,
)
    requires
        turned(pre, post, fin0, fin1, r, next),
    ensures
        fin0 ==> fin1,
        !fin0 && fin1 ==> pre.queue.len() == 0 && exists|nr: &mut N, dm: &mut D, data: D|
            #![trigger call_ensures(pull::<I, D, N>, (nr, dm), (None, Ghost(data)))]
            call_ensures(pull::<I, D, N>, (nr, dm), (None, Ghost(data))) && mut_ref_current(nr) == next
                && mut_ref_current(dm) == pre.data
                && exists|u: I, a: Advance|
                call_ensures(I::default, (), u) && #[trigger] advanced(
                    pre.with_data(data),
                    post,
                    u,
                    true,
                    a,
                ),
        fin0 && pre.queue.len() == 0 ==> post == pre && r == Turn::Stop,
{
    if !fin0 && fin1 && pre.queue.len() == 0 {
        let (nr, dm, v, data) = choose|nr: &mut N, dm: &mut D, v: Option<RecunsResult<I>>, data: D|
            #![trigger call_ensures(pull::<I, D, N>, (nr, dm), (v, Ghost(data)))]
            call_ensures(pull::<I, D, N>, (nr, dm), (v, Ghost(data))) && mut_ref_current(nr) == next
                && mut_ref_current(dm) == pre.data
                && delivered(pre.with_data(data), post, v, fin1, r);
        assert(v is None);
    }
}

/// Session-end law of a driver turn: a turn that ends the loop without
/// recording an error leaves either the source used up with no re-delivery
/// pending, or an empty handler stack.
pub proof fn lemma_stop_when_done<
    H: Recuns<I, D>,
    I: Clone + Default,
    D,
    N: FnMut(&mut D) -> Option<RecunsResult<I>>,
>(pre: StateView<H, I, D>, post: StateView<H, I, D>, fin0: bool, fin1: bool, next: N)
    requires
        turned(pre, post, fin0, fin1, Turn::Stop, next),
        post.errors.len() == pre.errors.len(),
    ensures
        (fin1 && post.queue.len() == 0) || post.states.len() == 0,
{
    let r = Turn::Stop;
    if pre.queue.len() > 0 {
        let a = choose|a: Advance|
            #[trigger] advanced(
                pre.without_last_redo(),
                post,
                pre.queue.last().0,
                pre.queue.last().1,
                a,
            ) && r == turn_of_redo(a);
        lemma_errors_in_order(pre.without_last_redo(), post, pre.queue.last().0, pre.queue.last().1, a);
    } else if !fin0 {
        let (nr, dm, v, data) = choose|nr: &mut N, dm: &mut D, v: Option<RecunsResult<I>>, data: D|
            #![trigger call_ensures(pull::<I, D, N>, (nr, dm), (v, Ghost(data)))]
            call_ensures(pull::<I, D, N>, (nr, dm), (v, Ghost(data))) && mut_ref_current(nr) == next
                && mut_ref_current(dm) == pre.data
                && delivered(pre.with_data(data), post, v, fin1, r);
        let mid = pre.with_data(data);
        match v {
            None => {
                let (u, a) = choose|u: I, a: Advance|
                    call_ensures(I::default, (), u) && #[trigger] advanced(mid, post, u, true, a)
                        && r == turn_of_pull(a);
                lemma_errors_in_order(mid, post, u, true, a);
            },
            Some(Ok(u)) => {
                let a = choose|a: Advance|
                    #[trigger] advanced(mid, post, u, false, a) && r == turn_of_pull(a);
                lemma_errors_in_order(mid, post, u, false, a);
            },
            Some(Err(e)) => {},
        }
    }
}

impl<H, I> State<H, I, ()> {
    /// A runtime with no shared data and an empty stack.
    pub fn new_no_data(stop_when_err: bool) -> (s: Self)
        ensures
            s@.states == Seq::<H>::empty(),
            s@.queue == Seq::<(I, bool)>::empty(),
            s@.errors == Seq::<Arc<anyhow::Error>>::empty(),
            s@.stop_when_err == stop_when_err,
    {
        State { stop_when_err, data: (), states: Vec::new(), queue: Vec::new(), errors: Vec::new() }
    }
}

impl<H, I, D> State<H, I, D> {
    /// A runtime holding `data`, with an empty stack.
    pub fn new(stop_when_err: bool, data: D) -> (s: Self)
        ensures
            s@.states == Seq::<H>::empty(),
            s@.queue == Seq::<(I, bool)>::empty(),
            s@.errors == Seq::<Arc<anyhow::Error>>::empty(),
            s@.stop_when_err == stop_when_err,
            s.data == data,
    {
        State { stop_when_err, data, states: Vec::new(), queue: Vec::new(), errors: Vec::new() }
    }

    /// Puts `rec` on top of the stack.
    pub fn push(&mut self, rec: H)
        ensures
            final(self)@.states == old(self)@.states.push(rec),
            final(self)@.queue == old(self)@.queue,
            final(self)@.errors == old(self)@.errors,
            final(self)@.stop_when_err == old(self)@.stop_when_err,
            final(self).data == old(self).data,
    {
        self.states.push(rec)
    }

    /// Takes the handler on top off the stack; `None` when the stack is empty.
    pub fn pop(&mut self) -> (r: Option<H>)
        ensures
            old(self)@.states.len() == 0 ==> r is None && final(self)@.states == old(
                self,
            )@.states,
            old(self)@.states.len() > 0 ==> r == Some(old(self)@.states.last())
                && final(self)@.states == old(self)@.states.drop_last(),
            final(self)@.queue == old(self)@.queue,
            final(self)@.errors == old(self)@.errors,
            final(self)@.stop_when_err == old(self)@.stop_when_err,
            final(self).data == old(self).data,
    {
        self.states.pop()
    }

    /// Applies the decision `flow` that the handler on top took on `(input, eof)`.
    pub fn apply(&mut self, flow: RecunsFlow<H>, input: I, eof: bool) -> (r: Advance)
        requires
            old(self)@.states.len() > 0,
        ensures
            final(self)@.states == flow.on_stack(old(self)@.states),
            final(self)@.queue == flow.queued(old(self)@.queue, input, eof),
            final(self)@.errors == flow.logged(old(self)@.errors),
            final(self)@.stop_when_err == old(self)@.stop_when_err,
            final(self).data == old(self).data,
            r == flow.signal(old(self).stop_when_err),
    {
        match flow {
            RecunsFlow::Stay => Advance::Continue,
            RecunsFlow::End => {
                self.states.pop();
                Advance::Continue
            },
            RecunsFlow::EndReDo => {
                self.states.pop();
                self.queue.push((input, eof));
                Advance::Continue
            },
            RecunsFlow::Call(h, _) => {
                self.states.push(h);
                self.queue.push((input, eof));
                Advance::Continue
            },
            RecunsFlow::CallNext(h, _) => {
                self.states.push(h);
                Advance::Continue
            },
            RecunsFlow::Mov(h, _) => {
                self.states.pop();
                self.states.push(h);
                self.queue.push((input, eof));
                Advance::Continue
            },
            RecunsFlow::MovNext(h, _) => {
                self.states.pop();
                self.states.push(h);
                Advance::Continue
            },
            RecunsFlow::Error(e) => {
                self.errors.push(e);
                if self.stop_when_err {
                    Advance::Halt
                } else {
                    Advance::Continue
                }
            },
        }
    }

    /// The session's result: the shared data when no error was recorded, else all errors.
    pub fn into_result(self) -> (r: RecunsResultErrs<Option<D>>)
        ensures
            self@.errors.len() == 0 ==> r == Ok::<Option<D>, Vec<Arc<anyhow::Error>>>(
                Some(self.data),
            ),
            self@.errors.len() > 0 ==> r is Err && r->Err_0@ == self@.errors,
    {
        if self.errors.len() == 0 {
            Ok(Some(self.data))
        } else {
            Err(self.errors)
        }
    }
}

impl<H: Recuns<I, D>, I: Clone, D> State<H, I, D> {
    /// Delivers `(input, eof)` to the handler on top (a clone of `input`,
    /// with the shared data) and applies its decision.
    pub fn advance(&mut self, input: I, eof: bool) -> (r: Advance)
        ensures
            advanced(old(self)@, final(self)@, input, eof, r),
            old(self)@.errors_kept(final(self)@),
            final(self)@.stop_when_err == old(self)@.stop_when_err,
    {
        let ghost errors0 = self@.errors;
        match self.states.pop() {
            Option::None => {
                assert(errors0.subrange(0, errors0.len() as int) =~= errors0);
                Advance::Complete
            },
            Option::Some(mut top) => {
                let copy = I::clone;
                let unit = copy(&input);
                let call = check_at::<H, I, D>;
                let (flow, left, data1) = call(&mut top, unit, &mut self.data, eof);
                assert(left@ == top && data1@ == self.data);
                self.states.push(top);
                let r = self.apply(flow, input, eof);
                assert(self@ == old(self)@.took(left@, flow, input, eof, data1@));
                assert(checked(old(self)@, self@, input, eof, flow));
                assert(self@.errors.subrange(0, errors0.len() as int) =~= errors0);
                r
            },
        }
    }
}

impl<H: Recuns<I, D>, I: Clone, D> State<H, I, D> {
    /// [`State::advance`] with its signal as an option: `Some(())` to keep
    /// going, `None` when the session halts on an error or no handler is left.
    pub fn call(&mut self, input: I, eof: bool) -> (r: Option<()>)
        ensures
            exists|a: Advance|
                #[trigger] advanced(old(self)@, final(self)@, input, eof, a) && (r is Some <==> a
                    == Advance::Continue),
            old(self)@.errors_kept(final(self)@),
    {
        let a = self.advance(input, eof);
        if a == Advance::Continue {
            Some(())
        } else {
            None
        }
    }
}

impl<H: Recuns<I, D>, I: Clone + Default, D> State<H, I, D> {
    /// Delivers `pulled`, what the source answered to a pull: on exhaustion
    /// `finish` is set and the default unit goes to the top handler with the
    /// end-of-input flag; a unit goes to the top handler; a source error is
    /// recorded and the answer is [`Turn::Fatal`].
    pub fn deliver(&mut self, pulled: Option<RecunsResult<I>>, finish: &mut bool) -> (r: Turn)
        requires
            !*old(finish),
        ensures
            delivered(old(self)@, final(self)@, pulled, *final(finish), r),
            old(self)@.errors_kept(final(self)@),
            final(self)@.stop_when_err == old(self)@.stop_when_err,
    {
        let ghost pre = self@;
        match pulled {
            Option::None => {
                *finish = true;
                let make = I::default;
                let u = make();
                let a = self.advance(u, true);
                assert(advanced(pre, self@, u, true, a));
                if a == Advance::Continue {
                    Turn::Again
                } else {
                    Turn::Stop
                }
            },
            Option::Some(Err(e)) => {
                self.errors.push(e);
                assert(self@ =~= pre.with_errors(pre.errors.push(e)));
                assert(self@.errors.subrange(0, pre.errors.len() as int) =~= pre.errors);
                Turn::Fatal
            },
            Option::Some(Ok(u)) => {
                let a = self.advance(u, false);
                assert(advanced(pre, self@, u, false, a));
                if a == Advance::Continue {
                    Turn::Again
                } else {
                    Turn::Stop
                }
            },
        }
    }

    /// One turn of a driver loop: the last scheduled re-delivery runs if there
    /// is one; otherwise, unless the source is exhausted (`finish`), `next` is
    /// called once and what it returned is delivered (see [`State::deliver`]).
    /// The end-of-input probe thus comes only with no re-delivery pending,
    /// and only once, as `finish` stays set.
    pub fn turn<N: FnMut(&mut D) -> Option<RecunsResult<I>>>(
        &mut self,
        finish: &mut bool,
        next: &mut N,
    ) -> (r: Turn)
        requires
            forall|d: &mut D| call_requires(*old(next), (d,)),
        ensures
            turned(old(self)@, final(self)@, *old(finish), *final(finish), r, *old(next)),
            old(self)@.errors_kept(final(self)@),
            final(self)@.stop_when_err == old(self)@.stop_when_err,
            *final(next) == *old(next),
            *old(finish) ==> *final(finish),
            r != Turn::Cancelled,
    {
        let ghost pre = self@;
        match self.queue.pop() {
            Option::Some((input, eof)) => {
                assert(self@ == pre.without_last_redo());
                let a = self.advance(input, eof);
                assert((input, eof) == pre.queue.last());
                assert(advanced(pre.without_last_redo(), self@, input, eof, a));
                if a == Advance::Halt {
                    Turn::Stop
                } else {
                    Turn::Again
                }
            },
            Option::None => {
                if *finish {
                    assert(pre.errors.subrange(0, pre.errors.len() as int) =~= pre.errors);
                    return Turn::Stop;
                }
                let take = pull::<I, D, N>;
                let (pulled, after) = take(next, &mut self.data);
                let ghost mid = self@;
                assert(after@ == self.data);
                assert(mid == pre.with_data(after@));
                let r = self.deliver(pulled, finish);
                assert(delivered(mid, self@, pulled, *finish, r));
                assert(mid.errors == pre.errors);
                r
            },
        }
    }
}

} // verus!
