use crate::flow::{Recuns, RecunsFlow};
use crate::state::{
    advanced, check_at, checked, delivered, pull, turn_of_pull, turn_of_redo, Advance, lemma_end_probe_once, lemma_stop_when_done, lemma_turn_keeps_errors, turned, State, StateView,
    Turn,
};
use crate::{RecunsResult, RecunsResultErrs};
use std::sync::Arc;
use vstd::prelude::*;

verus! {

/// The most iterations one driving session (or one request to a
/// demand-driven iterator) runs; a session that reaches it gives `Ok(None)`,
/// as a cancelled one does.
pub const TURN_LIMIT: u64 = u64::MAX;

/// Calls the hook `on_loop` on the runtime `s`, and gives (as a ghost value)
/// the runtime as that call left it.
pub fn run_hook<H, I, D, O: FnMut(&mut State<H, I, D>)>(on_loop: &mut O, s: &mut State<H, I, D>) -> (r:
    Ghost<StateView<H, I, D>>)
    requires
        forall|x: &mut State<H, I, D>| call_requires(*old(on_loop), (x,)),
    ensures
        *final(on_loop) == *old(on_loop),
        r@ == final(s)@,
        exists|sm: &mut State<H, I, D>|
            mut_ref_current(sm) == *old(s) && mut_ref_future(sm) == *final(s) && call_ensures(
                *old(on_loop),
                (sm,),
                (),
            ),
{
    on_loop(s);
    Ghost(s@)
}

/// One iteration of a driver loop with a hook: `on_loop` was called on the
/// runtime `pre`, and a turn (see [`turned`]) took what it left to `post`.
pub open spec fn hook_turned<
    H: Recuns<I, D>,
    I: Clone + Default,
    D,
    N: FnMut(&mut D) -> Option<RecunsResult<I>>,
    O: FnMut(&mut State<H, I, D>),
>(
    pre: StateView<H, I, D>,
    post: StateView<H, I, D>,
    fin0: bool,
    fin1: bool,
    r: Turn,
    next: N,
    on_loop: O,
) -> bool {
    exists|hr: &mut O, sm: &mut State<H, I, D>, mid: Ghost<StateView<H, I, D>>|
        #![trigger call_ensures(run_hook::<H, I, D, O>, (hr, sm), mid)]
        call_ensures(run_hook::<H, I, D, O>, (hr, sm), mid) && mut_ref_current(hr) == on_loop
            && mut_ref_current(sm)@ == pre && turned(
            mid@,
            post,
            fin0,
            fin1,
            r,
            next,
        )
}

/// A run of a driver loop without hook: before turn `k` the runtime is
/// `views[k]` and the source-exhausted flag `fins[k]`; `turns[k]` is the
/// turn's answer, and every turn but the last said to go on.
pub open spec fn is_run<
    H: Recuns<I, D>,
    I: Clone + Default,
    D,
    N: FnMut(&mut D) -> Option<RecunsResult<I>>,
>(views: Seq<StateView<H, I, D>>, fins: Seq<bool>, turns: Seq<Turn>, next: N) -> bool {
    &&& views.len() == turns.len() + 1
    &&& fins.len() == views.len()
    &&& forall|k: int|
        0 <= k < turns.len() ==> #[trigger] turned(
            views[k],
            views[k + 1],
            fins[k],
            fins[k + 1],
            turns[k],
            next,
        )
    &&& forall|k: int| 0 <= k < turns.len() - 1 ==> #[trigger] turns[k] == Turn::Again
}

/// A run of a driver loop whose iterations each call the hook `on_loop` first.
pub open spec fn is_hooked_run<
    H: Recuns<I, D>,
    I: Clone + Default,
    D,
    N: FnMut(&mut D) -> Option<RecunsResult<I>>,
    O: FnMut(&mut State<H, I, D>),
>(views: Seq<StateView<H, I, D>>, fins: Seq<bool>, turns: Seq<Turn>, next: N, on_loop: O) -> bool {
    &&& views.len() == turns.len() + 1
    &&& fins.len() == views.len()
    &&& forall|k: int|
        0 <= k < turns.len() ==> #[trigger] hook_turned(
            views[k],
            views[k + 1],
            fins[k],
            fins[k + 1],
            turns[k],
            next,
            on_loop,
        )
    &&& forall|k: int| 0 <= k < turns.len() - 1 ==> #[trigger] turns[k] == Turn::Again
}

/// The run's last turn ended the loop.
pub open spec fn run_over(turns: Seq<Turn>) -> bool {
    turns.len() > 0 && turns.last() == Turn::Stop
}

/// Every turn of the run said to go on.
pub open spec fn all_again(turns: Seq<Turn>) -> bool {
    turns.len() == 0 || turns.last() == Turn::Again
}

/// The runtime at the start of a session: `root` alone on the stack, `data` shared.
pub open spec fn start<H, I, D>(root: H, stop_when_err: bool, data: D) -> StateView<H, I, D> {
    StateView {
        states: seq![root],
        queue: Seq::empty(),
        errors: Seq::empty(),
        stop_when_err: stop_when_err,
        data: data,
    }
}

/// `r` is what a session gives whose run ended in `views.last()`: the final
/// shared data when the loop ended with no error recorded; every recorded
/// error, in order, when it ended with some or the source failed; `None` when
/// it stopped before a turn ended the loop (cancelled, or at [`TURN_LIMIT`]).
pub open spec fn session_end<H, I, D>(
    views: Seq<StateView<H, I, D>>,
    turns: Seq<Turn>,
    r: RecunsResultErrs<Option<D>>,
) -> bool {
    match r {
        Ok(Some(d)) => run_over(turns) && views.last().errors.len() == 0 && d == views.last().data,
        Ok(None) => all_again(turns),
        Err(es) => es@ == views.last().errors && es@.len() > 0 && (run_over(turns) || (turns.len()
            > 0 && turns.last() == Turn::Fatal)),
    }
}

/// A session without hook from `root` and `data`, pulling from `next`, that
/// made the run `views`, `fins`, `turns` and gave `r`.
pub open spec fn is_session<
    H: Recuns<I, D>,
    I: Clone + Default,
    D,
    N: FnMut(&mut D) -> Option<RecunsResult<I>>,
>(
    views: Seq<StateView<H, I, D>>,
    fins: Seq<bool>,
    turns: Seq<Turn>,
    root: H,
    stop_when_err: bool,
    data: D,
    next: N,
    r: RecunsResultErrs<Option<D>>,
) -> bool {
    &&& is_run(views, fins, turns, next)
    &&& views[0] == start::<H, I, D>(root, stop_when_err, data)
    &&& !fins[0]
    &&& session_end(views, turns, r)
}

/// A session whose iterations each call the hook `on_loop` first.
pub open spec fn is_hooked_session<
    H: Recuns<I, D>,
    I: Clone + Default,
    D,
    N: FnMut(&mut D) -> Option<RecunsResult<I>>,
    O: FnMut(&mut State<H, I, D>),
>(
    views: Seq<StateView<H, I, D>>,
    fins: Seq<bool>,
    turns: Seq<Turn>,
    root: H,
    stop_when_err: bool,
    data: D,
    next: N,
    on_loop: O,
    r: RecunsResultErrs<Option<D>>,
) -> bool {
    &&& is_hooked_run(views, fins, turns, next, on_loop)
    &&& views[0] == start::<H, I, D>(root, stop_when_err, data)
    &&& !fins[0]
    &&& session_end(views, turns, r)
}

/// What the cancellation predicate answered in a session: `false` to every
/// poll that let a turn run, and `true` to the last one if the session gave
/// `Ok(None)` before the turn limit.
pub open spec fn polled<C: FnMut() -> bool, D>(
    cancel: C,
    turns: Seq<Turn>,
    r: RecunsResultErrs<Option<D>>,
) -> bool {
    &&& turns.len() > 0 ==> call_ensures(cancel, (), false)
    &&& r matches Ok(None) ==> turns.len() == TURN_LIMIT || call_ensures(cancel, (), true)
}

/// Session-end law: a session without hook that gives back its shared data
/// ended with its source used up and no re-delivery pending, or with no
/// handler left.
pub proof fn lemma_session_done<
    H: Recuns<I, D>,
    I: Clone + Default,
    D,
    N: FnMut(&mut D) -> Option<RecunsResult<I>>,
>(
    views: Seq<StateView<H, I, D>>,
    fins: Seq<bool>,
    turns: Seq<Turn>,
    root: H,
    stop_when_err: bool,
    data: D,
    next: N,
    d: D,
)
    requires
        is_session(
            views,
            fins,
            turns,
            root,
            stop_when_err,
            data,
            next,
            Ok::<Option<D>, Vec<Arc<anyhow::Error>>>(Some(d)),
        ),
    ensures
        (fins.last() && views.last().queue.len() == 0) || views.last().states.len() == 0,
        d == views.last().data,
{
    let n = turns.len() - 1;
    assert(turned(views[n], views[n + 1], fins[n], fins[n + 1], turns[n], next));
    lemma_turn_keeps_errors(views[n], views[n + 1], fins[n], fins[n + 1], turns[n], next);
    lemma_stop_when_done(views[n], views[n + 1], fins[n], fins[n + 1], next);
}

/// Session-end law of a session with hook: one that gives back its shared
/// data ended, after its last hook call, with its source used up and no
/// re-delivery pending, or with no handler left; the data is that of its end.
pub proof fn lemma_hooked_session_done<
    H: Recuns<I, D>,
    I: Clone + Default,
    D,
    N: FnMut(&mut D) -> Option<RecunsResult<I>>,
    O: FnMut(&mut State<H, I, D>),
>(
    views: Seq<StateView<H, I, D>>,
    fins: Seq<bool>,
    turns: Seq<Turn>,
    root: H,
    stop_when_err: bool,
    data: D,
    next: N,
    on_loop: O,
    d: D,
)
    requires
        is_hooked_session(
            views,
            fins,
            turns,
            root,
            stop_when_err,
            data,
            next,
            on_loop,
            Ok::<Option<D>, Vec<Arc<anyhow::Error>>>(Some(d)),
        ),
    ensures
        (fins.last() && views.last().queue.len() == 0) || views.last().states.len() == 0,
        d == views.last().data,
{
    let n = turns.len() - 1;
    assert(hook_turned(views[n], views[n + 1], fins[n], fins[n + 1], turns[n], next, on_loop));
    let (hr, sm, mid) = choose|hr: &mut O, sm: &mut State<H, I, D>, mid: Ghost<StateView<H, I, D>>|
        #![trigger call_ensures(run_hook::<H, I, D, O>, (hr, sm), mid)]
        call_ensures(run_hook::<H, I, D, O>, (hr, sm), mid) && mut_ref_current(hr) == on_loop
            && mut_ref_current(sm)@ == views[n] && turned(
            mid@,
            views[n + 1],
            fins[n],
            fins[n + 1],
            turns[n],
            next,
        );
    lemma_turn_keeps_errors(mid@, views[n + 1], fins[n], fins[n + 1], turns[n], next);
    lemma_stop_when_done(mid@, views[n + 1], fins[n], fins[n + 1], next);
}

/// One delivery leaves the pending re-deliveries as they were, or adds `(input, eof)`.
proof fn lemma_advanced_queue<H: Recuns<I, D>, I: Clone, D>(
    pre: StateView<H, I, D>,
    post: StateView<H, I, D>,
    input: I,
    eof: bool,
    a: Advance,
)
    requires
        advanced(pre, post, input, eof, a),
    ensures
        post.queue == pre.queue || post.queue == pre.queue.push((input, eof)),
{
    if pre.states.len() > 0 {
        let flow = choose|flow: RecunsFlow<H>|
            #[trigger] checked(pre, post, input, eof, flow) && a == flow.signal(pre.stop_when_err);
        let (c, hm, dm, top, data) = choose|c: I, hm: &mut H, dm: &mut D, top: H, data: D|
            #![trigger call_ensures(check_at::<H, I, D>, (hm, c, dm, eof), (flow, Ghost(top), Ghost(data)))]
            call_ensures(check_at::<H, I, D>, (hm, c, dm, eof), (flow, Ghost(top), Ghost(data)))
                && call_ensures(I::clone, (&input,), c) && mut_ref_current(hm) == pre.states.last()
                && mut_ref_current(dm) == pre.data && post == pre.took(top, flow, input, eof, data);
    }
}

/// No pending re-delivery of `s` carries the end-of-input flag.
pub open spec fn no_end_flag<H, I, D>(s: StateView<H, I, D>) -> bool {
    forall|j: int| 0 <= j < s.queue.len() ==> !(#[trigger] s.queue[j]).1
}

/// End-flag law of a run without hook: until the source is found used up,
/// every pending re-delivery carries a unit pulled from the source without
/// the end-of-input flag, so no delivery before the end-of-input probe has
/// that flag set.
pub proof fn lemma_no_early_end_flag<
    H: Recuns<I, D>,
    I: Clone + Default,
    D,
    N: FnMut(&mut D) -> Option<RecunsResult<I>>,
>(views: Seq<StateView<H, I, D>>, fins: Seq<bool>, turns: Seq<Turn>, next: N, k: int)
    requires
        is_run(views, fins, turns, next),
        views[0].queue.len() == 0,
        0 <= k < views.len(),
        !fins[k],
    ensures
        no_end_flag(views[k]),
    decreases k,
{
    if k > 0 {
        let i = k - 1;
        assert(turned(views[i], views[i + 1], fins[i], fins[i + 1], turns[i], next));
        lemma_end_probe_once(views[i], views[i + 1], fins[i], fins[i + 1], turns[i], next);
        lemma_no_early_end_flag(views, fins, turns, next, i);
        let pre = views[i];
        let post = views[i + 1];
        if pre.queue.len() > 0 {
            let a = choose|a: Advance|
                #[trigger] advanced(
                    pre.without_last_redo(),
                    post,
                    pre.queue.last().0,
                    pre.queue.last().1,
                    a,
                ) && turns[i] == turn_of_redo(a);
            assert(!pre.queue.last().1);
            lemma_advanced_queue(pre.without_last_redo(), post, pre.queue.last().0, pre.queue.last().1, a);
        } else {
            let (nr, dm, v, data) = choose|nr: &mut N, dm: &mut D, v: Option<RecunsResult<I>>, data: D|
                #![trigger call_ensures(pull::<I, D, N>, (nr, dm), (v, Ghost(data)))]
                call_ensures(pull::<I, D, N>, (nr, dm), (v, Ghost(data))) && mut_ref_current(nr) == next
                    && mut_ref_current(dm) == pre.data && delivered(pre.with_data(data), post, v, fins[i + 1], turns[i]);
            let mid = pre.with_data(data);
            match v {
                Some(Ok(u)) => {
                    let a = choose|a: Advance|
                        #[trigger] advanced(mid, post, u, false, a) && turns[i] == turn_of_pull(a);
                    lemma_advanced_queue(mid, post, u, false, a);
                },
                _ => {},
            }
        }
    }
}

/// Along a run without hook, the errors recorded before turn `k` stay first,
/// in their order, in those recorded at its end.
proof fn lemma_run_keeps_errors<
    H: Recuns<I, D>,
    I: Clone + Default,
    D,
    N: FnMut(&mut D) -> Option<RecunsResult<I>>,
>(views: Seq<StateView<H, I, D>>, fins: Seq<bool>, turns: Seq<Turn>, next: N, k: int)
    requires
        is_run(views, fins, turns, next),
        0 <= k < views.len(),
    ensures
        views[k].errors.len() <= views.last().errors.len(),
        views.last().errors.subrange(0, views[k].errors.len() as int) == views[k].errors,
    decreases views.len() - k,
{
    let last = views.last().errors;
    if k == views.len() - 1 {
        assert(last.subrange(0, last.len() as int) =~= last);
    } else {
        assert(turned(views[k], views[k + 1], fins[k], fins[k + 1], turns[k], next));
        lemma_turn_keeps_errors(views[k], views[k + 1], fins[k], fins[k + 1], turns[k], next);
        lemma_run_keeps_errors(views, fins, turns, next, k + 1);
        let n1 = views[k + 1].errors.len() as int;
        let n0 = views[k].errors.len() as int;
        assert(last.subrange(0, n0) =~= last.subrange(0, n1).subrange(0, n0));
    }
}

/// Error law of a session without hook that fails: every error recorded at
/// any point of its run is among the errors it returns, at the same place, so
/// they all come back in the order they were detected.
pub proof fn lemma_session_errors<
    H: Recuns<I, D>,
    I: Clone + Default,
    D,
    N: FnMut(&mut D) -> Option<RecunsResult<I>>,
>(
    views: Seq<StateView<H, I, D>>,
    fins: Seq<bool>,
    turns: Seq<Turn>,
    root: H,
    stop_when_err: bool,
    data: D,
    next: N,
    es: Vec<Arc<anyhow::Error>>,
)
    requires
        is_session(views, fins, turns, root, stop_when_err, data, next, Err::<Option<D>, _>(es)),
    ensures
        forall|k: int|
            0 <= k < views.len() ==> #[trigger] views[k].errors.len() <= es@.len()
                && es@.subrange(0, views[k].errors.len() as int) == views[k].errors,
{
    assert forall|k: int| 0 <= k < views.len() implies #[trigger] views[k].errors.len() <= es@.len()
        && es@.subrange(0, views[k].errors.len() as int) == views[k].errors by {
        lemma_run_keeps_errors(views, fins, turns, next, k);
    }
}

/// Along a run without hook, the source-exhausted flag stays set once it is set.
proof fn lemma_finish_stays<
    H: Recuns<I, D>,
    I: Clone + Default,
    D,
    N: FnMut(&mut D) -> Option<RecunsResult<I>>,
>(views: Seq<StateView<H, I, D>>, fins: Seq<bool>, turns: Seq<Turn>, next: N, j: int, k: int)
    requires
        is_run(views, fins, turns, next),
        0 <= j <= k < views.len(),
        fins[j],
    ensures
        fins[k],
    decreases k - j,
{
    if j < k {
        let i = k - 1;
        lemma_finish_stays(views, fins, turns, next, j, i);
        assert(turned(views[i], views[i + 1], fins[i], fins[i + 1], turns[i], next));
        lemma_end_probe_once(views[i], views[i + 1], fins[i], fins[i + 1], turns[i], next);
    }
}

/// End-of-input law of a run without hook: the source is found used up on
/// one turn at most, so the end-of-input probe goes out at most once, on the
/// turn where `next` reported exhaustion, with no re-delivery pending; after
/// it `next` is never called again.
pub proof fn lemma_run_probe_once<
    H: Recuns<I, D>,
    I: Clone + Default,
    D,
    N: FnMut(&mut D) -> Option<RecunsResult<I>>,
>(views: Seq<StateView<H, I, D>>, fins: Seq<bool>, turns: Seq<Turn>, next: N)
    requires
        is_run(views, fins, turns, next),
    ensures
        forall|j: int, k: int|
            0 <= j < turns.len() && 0 <= k < turns.len() && !fins[j] && #[trigger] fins[j + 1]
                && !fins[k] && #[trigger] fins[k + 1] ==> j == k,
        forall|k: int|
            0 <= k < turns.len() && !fins[k] && #[trigger] fins[k + 1] ==> views[k].queue.len()
                == 0,
        forall|j: int, k: int| 0 <= j <= k < views.len() && #[trigger] fins[j] ==> #[trigger] fins[k],
{
    assert forall|j: int, k: int|
        0 <= j < turns.len() && 0 <= k < turns.len() && !fins[j] && #[trigger] fins[j + 1]
            && !fins[k] && #[trigger] fins[k + 1] implies j == k by {
        if j < k {
            lemma_finish_stays(views, fins, turns, next, j + 1, k);
        } else if k < j {
            lemma_finish_stays(views, fins, turns, next, k + 1, j);
        }
    }
    assert forall|k: int| 0 <= k < turns.len() && !fins[k] && #[trigger] fins[k + 1] implies views[
        k].queue.len() == 0 by {
        assert(turned(views[k], views[k + 1], fins[k], fins[k + 1], turns[k], next));
        lemma_end_probe_once(views[k], views[k + 1], fins[k], fins[k + 1], turns[k], next);
    }
    assert forall|j: int, k: int| 0 <= j <= k < views.len() && #[trigger] fins[j] implies #[trigger] fins[k] by {
        lemma_finish_stays(views, fins, turns, next, j, k);
    }
}

impl<H: Recuns<I, D>, I: Clone + Default, D> State<H, I, D> {
    /// One iteration of a driver loop: the cancellation predicate is polled
    /// first, and when it fires nothing else happens: no unit is pulled, no
    /// re-delivery runs, no handler is called. Otherwise the hook (when
    /// `hooked`) is called on the runtime, and one [`State::turn`] follows.
    pub fn iterate<
        N: FnMut(&mut D) -> Option<RecunsResult<I>>,
        C: FnMut() -> bool,
        O: FnMut(&mut State<H, I, D>),
    >(
        &mut self,
        finish: &mut bool,
        next: &mut N,
        cancel: &mut C,
        on_loop: &mut O,
        hooked: bool,
    ) -> (r: Turn)
        requires
            forall|d: &mut D| call_requires(*old(next), (d,)),
            call_requires(*old(cancel), ()),
            forall|s: &mut State<H, I, D>| call_requires(*old(on_loop), (s,)),
        ensures
            *final(next) == *old(next),
            *final(cancel) == *old(cancel),
            *final(on_loop) == *old(on_loop),
            r == Turn::Cancelled ==> {
                &&& call_ensures(*old(cancel), (), true)
                &&& final(self)@ == old(self)@
                &&& *final(finish) == *old(finish)
            },
            r != Turn::Cancelled ==> call_ensures(*old(cancel), (), false),
            r != Turn::Cancelled && !hooked ==> turned(
                old(self)@,
                final(self)@,
                *old(finish),
                *final(finish),
                r,
                *old(next),
            ),
            r != Turn::Cancelled && hooked ==> hook_turned(
                old(self)@,
                final(self)@,
                *old(finish),
                *final(finish),
                r,
                *old(next),
                *old(on_loop),
            ),
            !hooked ==> old(self)@.errors_kept(final(self)@),
            !hooked ==> final(self)@.stop_when_err == old(self)@.stop_when_err,
            *old(finish) && !hooked ==> *final(finish),
            r == Turn::Fatal ==> final(self)@.errors.len() > 0,
    {
        if cancel() {
            assert(self@.errors.subrange(0, self@.errors.len() as int) =~= self@.errors);
            return Turn::Cancelled;
        }
        if hooked {
            let hook = run_hook::<H, I, D, O>;
            let left = hook(on_loop, self);
            assert(left@ == self@);
        }
        let ghost mid = self@;
        let r = self.turn(finish, next);
        assert(turned(mid, self@, *old(finish), *finish, r, *old(next)));
        r
    }
}

/// The session that [`drive`] ran: with or without its hook.
spec fn driven<
    H: Recuns<I, D>,
    I: Clone + Default,
    D,
    N: FnMut(&mut D) -> Option<RecunsResult<I>>,
    O: FnMut(&mut State<H, I, D>),
>(
    views: Seq<StateView<H, I, D>>,
    fins: Seq<bool>,
    turns: Seq<Turn>,
    root: H,
    stop_when_err: bool,
    data: D,
    next: N,
    on_loop: O,
    hooked: bool,
    r: RecunsResultErrs<Option<D>>,
) -> bool {
    if hooked {
        is_hooked_session(views, fins, turns, root, stop_when_err, data, next, on_loop, r)
    } else {
        is_session(views, fins, turns, root, stop_when_err, data, next, r)
    }
}

/// The loop that every `do_loop` variant runs; the hook is called only when `hooked`.
fn drive<
    H: Recuns<I, D>,
    I: Clone + Default,
    D,
    N: FnMut(&mut D) -> Option<RecunsResult<I>>,
    C: FnMut() -> bool,
    O: FnMut(&mut State<H, I, D>),
>(
    data: D,
    root: H,
    stop_when_err: bool,
    next: N,
    cancel: C,
    on_loop: O,
    hooked: bool,
) -> (r: RecunsResultErrs<Option<D>>)
    requires
        forall|d: &mut D| call_requires(next, (d,)),
        call_requires(cancel, ()),
        forall|s: &mut State<H, I, D>| call_requires(on_loop, (s,)),
    ensures
        !hooked ==> exists|views: Seq<StateView<H, I, D>>, fins: Seq<bool>, turns: Seq<Turn>|
            #[trigger] is_session(views, fins, turns, root, stop_when_err, data, next, r)
                && polled(cancel, turns, r),
        hooked ==> exists|views: Seq<StateView<H, I, D>>, fins: Seq<bool>, turns: Seq<Turn>|
            #[trigger] is_hooked_session(
                views,
                fins,
                turns,
                root,
                stop_when_err,
                data,
                next,
                on_loop,
                r,
            ) && polled(cancel, turns, r),
        !hooked && stop_when_err && r is Err ==> r->Err_0@.len() == 1,
{
    let mut pull = next;
    let mut poll = cancel;
    let mut hook = on_loop;
    let mut s = State::new(stop_when_err, data);
    s.push(root);
    assert(s@ =~= start::<H, I, D>(root, stop_when_err, data));
    let mut finish = false;
    let mut budget: u64 = TURN_LIMIT;
    let ghost mut views: Seq<StateView<H, I, D>> = seq![s@];
    let ghost mut fins: Seq<bool> = seq![false];
    let ghost mut turns: Seq<Turn> = Seq::empty();
    loop
        invariant_except_break
            !hooked && stop_when_err ==> s@.errors.len() == 0,
            all_again(turns),
        invariant
            !hooked ==> is_run(views, fins, turns, next),
            hooked ==> is_hooked_run(views, fins, turns, next, on_loop),
            views[0] == start::<H, I, D>(root, stop_when_err, data),
            !fins[0],
            views.last() == s@,
            fins.last() == finish,
            turns.len() == TURN_LIMIT - budget,
            turns.len() > 0 ==> call_ensures(cancel, (), false),
            forall|d: &mut D| call_requires(pull, (d,)),
            call_requires(poll, ()),
            forall|s: &mut State<H, I, D>| call_requires(hook, (s,)),
            pull == next,
            poll == cancel,
            hook == on_loop,
            !hooked ==> s@.stop_when_err == stop_when_err,
        ensures
            !hooked && stop_when_err ==> s@.errors.len() <= 1,
            run_over(turns),
        decreases budget,
    {
        if budget == 0 {
            let r = Ok(None);
            assert(polled(cancel, turns, r));
assert(driven(views, fins, turns, root, stop_when_err, data, next, on_loop, hooked, r));
                return r;
        }
        budget = budget - 1;
        let ghost pre = s@;
        let ghost fin0 = finish;
        let t = s.iterate(&mut finish, &mut pull, &mut poll, &mut hook, hooked);
        if t == Turn::Cancelled {
            let r = Ok(None);
            assert(polled(cancel, turns, r));
assert(driven(views, fins, turns, root, stop_when_err, data, next, on_loop, hooked, r));
                return r;
        }
        proof {
            let k = turns.len() as int;
            views = views.push(s@);
            fins = fins.push(finish);
            turns = turns.push(t);
            if hooked {
                assert(hook_turned(views[k], views[k + 1], fins[k], fins[k + 1], turns[k], next, on_loop));
            } else {
                assert(turned(views[k], views[k + 1], fins[k], fins[k + 1], turns[k], next));
            }
        }
        match t {
            Turn::Again => {},
            Turn::Fatal => {
                let r = Err(s.errors);
                assert(polled(cancel, turns, r));
assert(driven(views, fins, turns, root, stop_when_err, data, next, on_loop, hooked, r));
                    return r;
            },
            _ => {
                break ;
            },
        }
    }
    let r = s.into_result();
    assert(polled(cancel, turns, r));
assert(driven(views, fins, turns, root, stop_when_err, data, next, on_loop, hooked, r));
        r
}

/// Runs a session: `root` on an empty stack over `data`, units pulled from
/// `next` and delivered until it is used up, then the end-of-input probe.
/// Gives the final shared data, or every error recorded, in order; with
/// `stop_when_err` the session stops at the first error, which is then the
/// only one.
pub fn do_loop<
    H: Recuns<I, D>,
    I: Clone + Default,
    D,
    N: FnMut(&mut D) -> Option<RecunsResult<I>>,
>(data: D, root: H, stop_when_err: bool, next: N) -> (r: RecunsResultErrs<Option<D>>)
    requires
        forall|d: &mut D| call_requires(next, (d,)),
    ensures
        exists|views: Seq<StateView<H, I, D>>, fins: Seq<bool>, turns: Seq<Turn>|
            #[trigger] is_session(views, fins, turns, root, stop_when_err, data, next, r) && (r
                matches Ok(None) ==> turns.len() == TURN_LIMIT),
        stop_when_err && r is Err ==> r->Err_0@.len() == 1,
{
    let never = || -> (b: bool)
        ensures
            !b,
        { false };
    let idle = |_s: &mut State<H, I, D>| {};
    drive(data, root, stop_when_err, next, never, idle, false)
}

/// [`do_loop`] that polls `cancel` before each iteration and gives `Ok(None)` when it fires.
pub fn do_loop_cancel<
    H: Recuns<I, D>,
    I: Clone + Default,
    D,
    N: FnMut(&mut D) -> Option<RecunsResult<I>>,
    C: FnMut() -> bool,
>(data: D, root: H, stop_when_err: bool, next: N, cancel: C) -> (r: RecunsResultErrs<
    Option<D>,
>)
    requires
        forall|d: &mut D| call_requires(next, (d,)),
        call_requires(cancel, ()),
    ensures
        exists|views: Seq<StateView<H, I, D>>, fins: Seq<bool>, turns: Seq<Turn>|
            #[trigger] is_session(views, fins, turns, root, stop_when_err, data, next, r)
                && polled(cancel, turns, r),
        stop_when_err && r is Err ==> r->Err_0@.len() == 1,
{
    let idle = |_s: &mut State<H, I, D>| {};
    drive(data, root, stop_when_err, next, cancel, idle, false)
}

/// [`do_loop`] that calls `on_loop` on the runtime at the start of each iteration.
pub fn do_loop_on_loop<
    H: Recuns<I, D>,
    I: Clone + Default,
    D,
    N: FnMut(&mut D) -> Option<RecunsResult<I>>,
    O: FnMut(&mut State<H, I, D>),
>(data: D, root: H, stop_when_err: bool, next: N, on_loop: O) -> (r: RecunsResultErrs<
    Option<D>,
>)
    requires
        forall|d: &mut D| call_requires(next, (d,)),
        forall|s: &mut State<H, I, D>| call_requires(on_loop, (s,)),
    ensures
        exists|views: Seq<StateView<H, I, D>>, fins: Seq<bool>, turns: Seq<Turn>|
            #[trigger] is_hooked_session(
                views,
                fins,
                turns,
                root,
                stop_when_err,
                data,
                next,
                on_loop,
                r,
            ) && (r matches Ok(None) ==> turns.len() == TURN_LIMIT),
{
    let never = || -> (b: bool)
        ensures
            !b,
        { false };
    drive(data, root, stop_when_err, next, never, on_loop, true)
}

/// [`do_loop`] with both the cancellation predicate and the per-iteration hook.
pub fn do_loop_cancel_on_loop<
    H: Recuns<I, D>,
    I: Clone + Default,
    D,
    N: FnMut(&mut D) -> Option<RecunsResult<I>>,
    C: FnMut() -> bool,
    O: FnMut(&mut State<H, I, D>),
>(data: D, root: H, stop_when_err: bool, next: N, cancel: C, on_loop: O) -> (r:
    RecunsResultErrs<Option<D>>)
    requires
        forall|d: &mut D| call_requires(next, (d,)),
        call_requires(cancel, ()),
        forall|s: &mut State<H, I, D>| call_requires(on_loop, (s,)),
    ensures
        exists|views: Seq<StateView<H, I, D>>, fins: Seq<bool>, turns: Seq<Turn>|
            #[trigger] is_hooked_session(
                views,
                fins,
                turns,
                root,
                stop_when_err,
                data,
                next,
                on_loop,
                r,
            ) && polled(cancel, turns, r),
{
    drive(data, root, stop_when_err, next, cancel, on_loop, true)
}

} // verus!
