use crate::driver::{all_again, hook_turned, run_over, TURN_LIMIT};
use crate::flow::Recuns;
use crate::state::{turned, State, StateView, Turn};
use crate::RecunsResult;
use std::collections::VecDeque;
use std::sync::Arc;
use vstd::prelude::*;

verus! {

/// Asks `yields` for finished output with the shared data `data`, and gives
/// its answer together with (as a ghost value) the data as that call left it.
pub fn ask<D, U, Y: FnMut(&mut D) -> Option<VecDeque<U>>>(yields: &mut Y, data: &mut D) -> (r: (
    Option<VecDeque<U>>,
    Ghost<D>,
))
    requires
        forall|d: &mut D| call_requires(*old(yields), (d,)),
    ensures
        *final(yields) == *old(yields),
        r.1@ == *final(data),
        exists|dm: &mut D|
            mut_ref_current(dm) == *old(data) && mut_ref_future(dm) == *final(data)
                && call_ensures(*old(yields), (dm,), r.0),
{
    let v = yields(data);
    (v, Ghost(*data))
}

/// What asking for output did when it handed nothing out: `mid` is `pre`
/// when `yields` was not called, or `pre` with the shared data that `yields`,
/// called on the data of `pre`, left when it returned no batch or an empty one.
pub open spec fn asked_nothing<H, I, D, U, Y: FnMut(&mut D) -> Option<VecDeque<U>>>(
    pre: StateView<H, I, D>,
    mid: StateView<H, I, D>,
    yields: Y,
) -> bool {
    mid == pre || exists|yr: &mut Y, dm: &mut D, v: Option<VecDeque<U>>, data: D|
        #![trigger call_ensures(ask::<D, U, Y>, (yr, dm), (v, Ghost(data)))]
        call_ensures(ask::<D, U, Y>, (yr, dm), (v, Ghost(data))) && mut_ref_current(yr) == yields
            && mut_ref_current(dm) == pre.data && (v is None
            || v->Some_0@.len() == 0) && mid == pre.with_data(data)
}

/// One iteration of a session run on demand that handed out nothing: output
/// was asked for without result, then a turn ran (after the hook, when
/// `hooked`).
pub open spec fn iter_step<
    H: Recuns<I, D>,
    I: Clone + Default,
    D,
    U,
    N: FnMut(&mut D) -> Option<RecunsResult<I>>,
    Y: FnMut(&mut D) -> Option<VecDeque<U>>,
    O: FnMut(&mut State<H, I, D>),
>(
    pre: StateView<H, I, D>,
    post: StateView<H, I, D>,
    fin0: bool,
    fin1: bool,
    r: Turn,
    next: N,
    yields: Y,
    on_loop: O,
    hooked: bool,
) -> bool {
    exists|mid: StateView<H, I, D>|
        #[trigger] asked_nothing(pre, mid, yields) && if hooked {
            hook_turned(mid, post, fin0, fin1, r, next, on_loop)
        } else {
            turned(mid, post, fin0, fin1, r, next)
        }
}

/// `views`, `fins`, `turns` is a run of a session run on demand, from
/// runtime `pre` with source-exhausted flag `fin0`; every turn but the last
/// said to go on.
pub open spec fn ran<
    H: Recuns<I, D>,
    I: Clone + Default,
    D,
    U,
    N: FnMut(&mut D) -> Option<RecunsResult<I>>,
    Y: FnMut(&mut D) -> Option<VecDeque<U>>,
    O: FnMut(&mut State<H, I, D>),
>(
    views: Seq<StateView<H, I, D>>,
    fins: Seq<bool>,
    turns: Seq<Turn>,
    pre: StateView<H, I, D>,
    fin0: bool,
    next: N,
    yields: Y,
    on_loop: O,
    hooked: bool,
) -> bool {
    &&& views.len() == turns.len() + 1
    &&& fins.len() == views.len()
    &&& views[0] == pre
    &&& fins[0] == fin0
    &&& forall|k: int|
        0 <= k < turns.len() ==> #[trigger] iter_step(
            views[k],
            views[k + 1],
            fins[k],
            fins[k + 1],
            turns[k],
            next,
            yields,
            on_loop,
            hooked,
        )
    &&& forall|k: int| 0 <= k < turns.len() - 1 ==> #[trigger] turns[k] == Turn::Again
}

/// A driving session run on demand: each call of [`DoLoopIter::next`] runs the
/// session only until the shared data holds a finished output item, and hands
/// the items out one at a time, in the order `yields` gave them.
///
/// `finish` is set once the source is used up, `is_yield` when `yields` was
/// asked since the last iteration, `buffer` holds the items of a batch not yet
/// handed out, `ended` is set when the sequence is over (and `cancelled` too
/// when the cancellation predicate ended it).
pub struct DoLoopIter<H, I, D, U, N, Y, C, O> {
    pub state: State<H, I, D>,
    pub finish: bool,
    pub is_yield: bool,
    pub buffer: VecDeque<U>,
    pub ended: bool,
    pub cancelled: bool,
    pub hooked: bool,
    pub next: N,
    pub yields: Y,
    pub cancel: C,
    pub on_loop: O,
}

impl<
    H: Recuns<I, D>,
    I: Clone + Default,
    D,
    U,
    N: FnMut(&mut D) -> Option<RecunsResult<I>>,
    Y: FnMut(&mut D) -> Option<VecDeque<U>>,
    C: FnMut() -> bool,
    O: FnMut(&mut State<H, I, D>),
> DoLoopIter<H, I, D, U, N, Y, C, O> {
    /// Every callback accepts every argument.
    pub open spec fn callable(&self) -> bool {
        &&& forall|d: &mut D| call_requires(self.next, (d,))
        &&& forall|d: &mut D| call_requires(self.yields, (d,))
        &&& call_requires(self.cancel, ())
        &&& forall|s: &mut State<H, I, D>| call_requires(self.on_loop, (s,))
    }

    /// A session over `state`, which holds its root handler; `on_loop` is called
    /// only when `hooked`.
    pub fn new(state: State<H, I, D>, next: N, yields: Y, cancel: C, on_loop: O, hooked: bool) -> (it:
        Self)
        ensures
            it.state == state,
            !it.finish,
            !it.is_yield,
            it.buffer@.len() == 0,
            !it.ended,
            !it.cancelled,
            it.hooked == hooked,
            it.next == next,
            it.yields == yields,
            it.cancel == cancel,
            it.on_loop == on_loop,
    {
        DoLoopIter {
            state,
            finish: false,
            is_yield: false,
            buffer: VecDeque::new(),
            ended: false,
            cancelled: false,
            hooked,
            next,
            yields,
            cancel,
            on_loop,
        }
    }

    /// The errors recorded so far, in the order they were detected.
    pub fn errors(&self) -> (r: &Vec<Arc<anyhow::Error>>)
        ensures
            r@ == self.state@.errors,
    {
        &self.state.errors
    }

    /// The next output item, or `None` once the session is over.
    ///
    /// A buffered item goes first; else `yields` is asked (once between two
    /// iterations of the session) and the first item of a non-empty batch is
    /// handed out, the rest buffered; else the session runs one more iteration
    /// (cancellation poll, hook, re-delivery or pull) and looks again. The
    /// sequence ends when the session stops, fails, is cancelled or reaches
    /// [`TURN_LIMIT`], and stays ended.
    pub fn next(&mut self) -> (r: Option<U>)
        requires
            old(self).callable(),
        ensures
            final(self).callable(),
            final(self).next == old(self).next,
            final(self).yields == old(self).yields,
            final(self).cancel == old(self).cancel,
            final(self).on_loop == old(self).on_loop,
            final(self).hooked == old(self).hooked,
            old(self).ended ==> r is None && *final(self) == *old(self),
            !old(self).ended && old(self).buffer@.len() > 0 ==> {
                &&& r == Some(old(self).buffer@[0])
                &&& final(self).buffer@ == old(self).buffer@.drop_first()
                &&& final(self).state == old(self).state
                &&& final(self).finish == old(self).finish
                &&& !final(self).ended
            },
            r is None ==> final(self).ended,
            old(self).cancelled ==> final(self).cancelled,
            !old(self).ended && old(self).buffer@.len() == 0 ==> exists|
                views: Seq<StateView<H, I, D>>,
                fins: Seq<bool>,
                turns: Seq<Turn>,
            |
                #[trigger] ran(
                    views,
                    fins,
                    turns,
                    old(self).state@,
                    old(self).finish,
                    old(self).next,
                    old(self).yields,
                    old(self).on_loop,
                    old(self).hooked,
                ) && fins.last() == final(self).finish && (turns.len() > 0 ==> call_ensures(
                    old(self).cancel,
                    (),
                    false,
                )) && match r {
                    Some(x) => all_again(turns) && final(self).is_yield && !final(self).ended
                        && exists|yr: &mut Y, dm: &mut D, batch: VecDeque<U>, data: D|
                        #![trigger call_ensures(ask::<D, U, Y>, (yr, dm), (Some(batch), Ghost(data)))]
                        call_ensures(ask::<D, U, Y>, (yr, dm), (Some(batch), Ghost(data)))
                            && mut_ref_current(yr) == old(self).yields && mut_ref_current(dm)
                            == views.last().data && final(self).state@ == views.last().with_data(
                            data,
                        ) && batch@.len() > 0 && x == batch@[0] && final(self).buffer@
                            == batch@.drop_first(),
                    None => {
                        ||| all_again(turns) && final(self).cancelled && call_ensures(
                            old(self).cancel,
                            (),
                            true,
                        ) && asked_nothing(views.last(), final(self).state@, old(self).yields)
                        ||| all_again(turns) && turns.len() == TURN_LIMIT && final(self).state@
                            == views.last()
                        ||| final(self).state@ == views.last() && (run_over(turns) || (turns.len()
                            > 0 && turns.last() == Turn::Fatal))
                    },
                },
    {
        if self.ended {
            return None;
        }
        if self.buffer.len() > 0 {
            return self.buffer.pop_front();
        }
        let mut budget: u64 = TURN_LIMIT;
        let ghost mut views: Seq<StateView<H, I, D>> = seq![self.state@];
        let ghost mut fins: Seq<bool> = seq![self.finish];
        let ghost mut turns: Seq<Turn> = Seq::empty();
        loop
            invariant
                ran(
                    views,
                    fins,
                    turns,
                    old(self).state@,
                    old(self).finish,
                    old(self).next,
                    old(self).yields,
                    old(self).on_loop,
                    old(self).hooked,
                ),
                views.last() == self.state@,
                fins.last() == self.finish,
                all_again(turns),
                turns.len() > 0 ==> call_ensures(old(self).cancel, (), false),
                turns.len() == TURN_LIMIT - budget,
                self.callable(),
                self.next == old(self).next,
                self.yields == old(self).yields,
                self.cancel == old(self).cancel,
                self.on_loop == old(self).on_loop,
                self.hooked == old(self).hooked,
                !self.ended,
                self.cancelled == old(self).cancelled,
                self.buffer@.len() == 0,
                !old(self).ended,
                old(self).buffer@.len() == 0,
            decreases budget,
        {
            if budget == 0 {
                self.ended = true;
                return None;
            }
            budget = budget - 1;
            let ghost pre = self.state@;
            if !self.is_yield {
                let asking = ask::<D, U, Y>;
                let (batch, after) = asking(&mut self.yields, &mut self.state.data);
                assert(after@ == self.state.data);
                assert(self.state@ == pre.with_data(after@));
                if let Some(mut items) = batch {
                    let ghost given = items;
                    self.is_yield = true;
                    if let Some(item) = items.pop_front() {
                        self.buffer = items;
                        assert(given@.len() > 0 && item == given@[0] && self.buffer@
                            == given@.drop_first());
                        return Some(item);
                    }
                }
            }
            self.is_yield = false;
            let ghost mid = self.state@;
            assert(asked_nothing(pre, mid, self.yields));
            let ghost fin0 = self.finish;
            let t = self.state.iterate(
                &mut self.finish,
                &mut self.next,
                &mut self.cancel,
                &mut self.on_loop,
                self.hooked,
            );
            if t == Turn::Cancelled {
                self.cancelled = true;
                self.ended = true;
                return None;
            }
            proof {
                let k = turns.len() as int;
                views = views.push(self.state@);
                fins = fins.push(self.finish);
                turns = turns.push(t);
                assert(iter_step(
                    views[k],
                    views[k + 1],
                    fins[k],
                    fins[k + 1],
                    turns[k],
                    self.next,
                    self.yields,
                    self.on_loop,
                    self.hooked,
                ));
            }
            if t != Turn::Again {
                self.ended = true;
                assert(ran(views, fins, turns, old(self).state@, old(self).finish, old(self).next, old(self).yields, old(self).on_loop, old(self).hooked));
                assert(call_ensures(old(self).cancel, (), false));
                assert(run_over(turns) || turns.last() == Turn::Fatal);
                return None;
            }
        }
    }
}

/// Starts a session run on demand: `root` on an empty stack, units pulled
/// from `next`, and finished output items taken from the shared data by
/// `yields`. The errors are read from the iterator with
/// [`DoLoopIter::errors`].
pub fn do_iter<
    H: Recuns<I, D>,
    I: Clone + Default,
    D,
    U,
    N: FnMut(&mut D) -> Option<RecunsResult<I>>,
    Y: FnMut(&mut D) -> Option<VecDeque<U>>,
>(data: D, root: H, stop_when_err: bool, next: N, yields: Y) -> (it: DoLoopIter<
    H,
    I,
    D,
    U,
    N,
    Y,
    impl FnMut() -> bool,
    impl FnMut(&mut State<H, I, D>),
>)
    requires
        forall|d: &mut D| call_requires(next, (d,)),
        forall|d: &mut D| call_requires(yields, (d,)),
    ensures
        it.callable(),
        it.state@.states == seq![root],
        it.state@.queue.len() == 0,
        it.state@.errors.len() == 0,
        it.state@.stop_when_err == stop_when_err,
        it.state.data == data,
        !it.finish,
        !it.is_yield,
        it.buffer@.len() == 0,
        !it.ended,
        !it.cancelled,
        it.next == next,
        it.yields == yields,
        !it.hooked,
        forall|b: bool| call_ensures(it.cancel, (), b) ==> !b,
{
    let never = || -> (b: bool)
        ensures
            !b,
        { false };
    let idle = |_s: &mut State<H, I, D>| {};
    let mut s = State::new(stop_when_err, data);
    s.push(root);
    DoLoopIter::new(s, next, yields, never, idle, false)
}

/// [`do_iter`] that polls `cancel` before each iteration; the sequence ends when it fires.
pub fn do_iter_cancel<
    H: Recuns<I, D>,
    I: Clone + Default,
    D,
    U,
    N: FnMut(&mut D) -> Option<RecunsResult<I>>,
    Y: FnMut(&mut D) -> Option<VecDeque<U>>,
    C: FnMut() -> bool,
>(data: D, root: H, stop_when_err: bool, next: N, yields: Y, cancel: C) -> (it: DoLoopIter<
    H,
    I,
    D,
    U,
    N,
    Y,
    C,
    impl FnMut(&mut State<H, I, D>),
>)
    requires
        forall|d: &mut D| call_requires(next, (d,)),
        forall|d: &mut D| call_requires(yields, (d,)),
        call_requires(cancel, ()),
    ensures
        it.callable(),
        it.state@.states == seq![root],
        it.state@.queue.len() == 0,
        it.state@.errors.len() == 0,
        it.state@.stop_when_err == stop_when_err,
        it.state.data == data,
        !it.finish,
        !it.is_yield,
        it.buffer@.len() == 0,
        !it.ended,
        !it.cancelled,
        it.next == next,
        it.yields == yields,
        !it.hooked,
        it.cancel == cancel,
{
    let idle = |_s: &mut State<H, I, D>| {};
    let mut s = State::new(stop_when_err, data);
    s.push(root);
    DoLoopIter::new(s, next, yields, cancel, idle, false)
}

/// [`do_iter`] that hands the runtime to `on_loop` at each iteration.
pub fn do_iter_on_loop<
    H: Recuns<I, D>,
    I: Clone + Default,
    D,
    U,
    N: FnMut(&mut D) -> Option<RecunsResult<I>>,
    Y: FnMut(&mut D) -> Option<VecDeque<U>>,
    O: FnMut(&mut State<H, I, D>),
>(data: D, root: H, stop_when_err: bool, next: N, yields: Y, on_loop: O) -> (it: DoLoopIter<
    H,
    I,
    D,
    U,
    N,
    Y,
    impl FnMut() -> bool,
    O,
>)
    requires
        forall|d: &mut D| call_requires(next, (d,)),
        forall|d: &mut D| call_requires(yields, (d,)),
        forall|s: &mut State<H, I, D>| call_requires(on_loop, (s,)),
    ensures
        it.callable(),
        it.state@.states == seq![root],
        it.state@.queue.len() == 0,
        it.state@.errors.len() == 0,
        it.state@.stop_when_err == stop_when_err,
        it.state.data == data,
        !it.finish,
        !it.is_yield,
        it.buffer@.len() == 0,
        !it.ended,
        !it.cancelled,
        it.next == next,
        it.yields == yields,
        it.hooked,
        it.on_loop == on_loop,
        forall|b: bool| call_ensures(it.cancel, (), b) ==> !b,
{
    let never = || -> (b: bool)
        ensures
            !b,
        { false };
    let mut s = State::new(stop_when_err, data);
    s.push(root);
    DoLoopIter::new(s, next, yields, never, on_loop, true)
}

/// [`do_iter`] with both the cancellation predicate and the per-iteration hook.
pub fn do_iter_cancel_on_loop<
    H: Recuns<I, D>,
    I: Clone + Default,
    D,
    U,
    N: FnMut(&mut D) -> Option<RecunsResult<I>>,
    Y: FnMut(&mut D) -> Option<VecDeque<U>>,
    C: FnMut() -> bool,
    O: FnMut(&mut State<H, I, D>),
>(data: D, root: H, stop_when_err: bool, next: N, yields: Y, cancel: C, on_loop: O) -> (it:
    DoLoopIter<H, I, D, U, N, Y, C, O>)
    requires
        forall|d: &mut D| call_requires(next, (d,)),
        forall|d: &mut D| call_requires(yields, (d,)),
        call_requires(cancel, ()),
        forall|s: &mut State<H, I, D>| call_requires(on_loop, (s,)),
    ensures
        it.callable(),
        it.state@.states == seq![root],
        it.state@.queue.len() == 0,
        it.state@.errors.len() == 0,
        it.state@.stop_when_err == stop_when_err,
        it.state.data == data,
        !it.finish,
        !it.is_yield,
        it.buffer@.len() == 0,
        !it.ended,
        !it.cancelled,
        it.next == next,
        it.yields == yields,
        it.hooked,
        it.cancel == cancel,
        it.on_loop == on_loop,
{
    let mut s = State::new(stop_when_err, data);
    s.push(root);
    DoLoopIter::new(s, next, yields, cancel, on_loop, true)
}

} // verus!
