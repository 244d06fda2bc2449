//! Whole requests: what the fetch engine's steps add up to when each call is
//! answered, and the laws of retry and fallback that follow.

use vstd::prelude::*;
use crate::network::{first_step, next_skip, next_step, Outcome, Reply};

verus! {

/// How the sources answer during one request: the reply of a source to the
/// attempt with a given number.
pub type Answers<T> = spec_fn(nat, nat) -> Reply<T>;

/// A request that has run to its end.
pub struct Run<T> {
    /// The cursor at the end.
    pub skip: nat,
    /// How the request ended: never a call.
    pub outcome: Outcome<T>,
    /// The calls that were made, in order, each as the source's position and
    /// the attempt's number.
    pub calls: Seq<(nat, nat)>,
}

/// Whether `step` is a call to the source at the cursor.
pub open spec fn on_course<T>(len: nat, skip: nat, step: Outcome<T>) -> bool {
    step is Call && step->source == skip && skip < len
}

/// The rest of a request from `step` on: each call is made and answered, and
/// the reply decides the next step.
pub open spec fn run_from<T>(
    len: nat,
    retries: nat,
    skip: nat,
    step: Outcome<T>,
    answers: Answers<T>,
) -> Run<T>
    decreases
            (if step is Call { 1nat } else { 0nat }),
            (if step is Call && !on_course(len, skip, step) { 1nat } else { 0nat }),
            (if skip < len { len - skip } else { 0 }),
            (if step is Call && step->number < retries { retries - step->number } else { 0 }),
{
    match step {
        Outcome::Call { source, number } => {
            let reply = answers(source, number);
            let rest = run_from(
                len,
                retries,
                next_skip(len, retries, skip, source, number, reply),
                next_step(len, retries, skip, source, number, reply),
                answers,
            );
            Run { skip: rest.skip, outcome: rest.outcome, calls: seq![(source, number)] + rest.calls }
        },
        _ => Run { skip, outcome: step, calls: Seq::empty() },
    }
}

/// The rest of a request from the attempt `number` on the source at the
/// cursor.
pub open spec fn run_at<T>(len: nat, retries: nat, skip: nat, number: nat, answers: Answers<T>) -> Run<
    T,
> {
    run_from(len, retries, skip, Outcome::Call { source: skip, number }, answers)
}

/// A whole request that starts with the cursor at `skip`.
pub open spec fn request<T>(len: nat, retries: nat, skip: nat, answers: Answers<T>) -> Run<T> {
    run_from(len, retries, skip, first_step(len, skip), answers)
}

/// Whether the source `s` used up its attempts in a run with these calls.
pub open spec fn exhausted<T>(
    calls: Seq<(nat, nat)>,
    answers: Answers<T>,
    retries: nat,
    s: nat,
) -> bool {
    calls.contains((s, retries)) && answers(s, retries) is Transport
}

/// Unfolds one call of a run.
proof fn lemma_run_unfold<T>(len: nat, retries: nat, skip: nat, number: nat, answers: Answers<T>)
    ensures
        run_at(len, retries, skip, number, answers).calls == seq![(skip, number)] + run_from(
            len,
            retries,
            next_skip(len, retries, skip, skip, number, answers(skip, number)),
            next_step(len, retries, skip, skip, number, answers(skip, number)),
            answers,
        ).calls,
{
}

/// A run ends, never moves the cursor back or past the end of the list, and
/// calls no source before the cursor it started with.
pub proof fn lemma_run_bounds<T>(
    len: nat,
    retries: nat,
    skip: nat,
    number: nat,
    answers: Answers<T>,
)
    requires
        skip < len,
    ensures
        !(run_at(len, retries, skip, number, answers).outcome is Call),
        skip <= run_at(len, retries, skip, number, answers).skip <= len,
        forall|k: int|
            0 <= k < run_at(len, retries, skip, number, answers).calls.len() ==> skip <= (
            #[trigger] run_at(len, retries, skip, number, answers).calls[k]).0 < len,
    decreases len - skip, (if number < retries { retries - number } else { 0 }),
{
    let reply = answers(skip, number);
    let then = next_step(len, retries, skip, skip, number, reply);
    let cursor = next_skip(len, retries, skip, skip, number, reply);
    let rest = run_from(len, retries, cursor, then, answers);
    let run = run_at(len, retries, skip, number, answers);
    lemma_run_unfold(len, retries, skip, number, answers);
    if then is Call {
        lemma_run_bounds(len, retries, cursor, then->number, answers);
    }
    assert forall|k: int| 0 <= k < run.calls.len() implies skip <= (#[trigger] run.calls[k]).0
        < len by {
        if k > 0 {
            assert(run.calls[k] == rest.calls[k - 1]);
        }
    }
}

/// A request never moves the cursor back, and calls no source that the
/// cursor had passed when the request began.
pub proof fn lemma_request_bounds<T>(len: nat, retries: nat, skip: nat, answers: Answers<T>)
    ensures
        !(request(len, retries, skip, answers).outcome is Call),
        skip <= request(len, retries, skip, answers).skip,
        forall|k: int|
            0 <= k < request(len, retries, skip, answers).calls.len() ==> skip <= (
            #[trigger] request(len, retries, skip, answers).calls[k]).0 < len,
{
    if skip < len {
        lemma_run_bounds(len, retries, skip, 0, answers);
    }
}

/// Fallback ordering, from any attempt on: where every source from the
/// cursor up to `good` fails in transport on every attempt, and `good`
/// succeeds on its attempt `tries` after failing in transport before, the
/// run ends with that success and with the cursor on `good`.
pub proof fn lemma_run_reaches<T>(
    len: nat,
    retries: nat,
    skip: nat,
    number: nat,
    good: nat,
    tries: nat,
    payload: T,
    answers: Answers<T>,
)
    requires
        skip <= good < len,
        tries <= retries,
        skip == good ==> number <= tries,
        forall|s: nat, n: nat| skip <= s < good ==> #[trigger] answers(s, n) is Transport,
        forall|n: nat| n < tries ==> #[trigger] answers(good, n) is Transport,
        answers(good, tries) == Reply::Success(payload),
    ensures
        run_at(len, retries, skip, number, answers).outcome == Outcome::Success(payload),
        run_at(len, retries, skip, number, answers).skip == good,
    decreases good - skip, (if number < retries { retries - number } else { 0 }),
{
    let reply = answers(skip, number);
    let then = next_step(len, retries, skip, skip, number, reply);
    let cursor = next_skip(len, retries, skip, skip, number, reply);
    if skip == good && number == tries {
    } else {
        assert(reply is Transport);
        lemma_run_reaches(len, retries, cursor, then->number, good, tries, payload, answers);
    }
}

/// Fallback ordering: where every source from the cursor up to `good` fails
/// in transport on every attempt, and `good` succeeds within its attempts,
/// the request returns that success and leaves the cursor on `good`.
pub proof fn lemma_fallback_ordering<T>(
    len: nat,
    retries: nat,
    skip: nat,
    good: nat,
    tries: nat,
    payload: T,
    answers: Answers<T>,
)
    requires
        skip <= good < len,
        tries <= retries,
        forall|s: nat, n: nat| skip <= s < good ==> #[trigger] answers(s, n) is Transport,
        forall|n: nat| n < tries ==> #[trigger] answers(good, n) is Transport,
        answers(good, tries) == Reply::Success(payload),
    ensures
        request(len, retries, skip, answers).outcome == Outcome::Success(payload),
        request(len, retries, skip, answers).skip == good,
{
    lemma_run_reaches(len, retries, skip, 0, good, tries, payload, answers);
}

/// Retry budget, from any attempt on: a source that fails in transport on
/// every attempt gets each of its remaining attempts in turn, and every
/// call after them goes to a later source.
pub proof fn lemma_run_budget<T>(len: nat, retries: nat, s: nat, number: nat, answers: Answers<T>)
    requires
        s < len,
        number <= retries,
        forall|n: nat| #[trigger] answers(s, n) is Transport,
    ensures
        run_at(len, retries, s, number, answers).calls.len() >= retries - number + 1,
        run_at(len, retries, s, number, answers).skip > s,
        forall|k: int|
            0 <= k <= retries - number ==> (#[trigger] run_at(
                len,
                retries,
                s,
                number,
                answers,
            ).calls[k]) == (s, (number + k) as nat),
        forall|k: int|
            retries - number < k < run_at(len, retries, s, number, answers).calls.len() ==> (
            #[trigger] run_at(len, retries, s, number, answers).calls[k]).0 > s,
    decreases retries - number,
{
    let reply = answers(s, number);
    assert(reply is Transport);
    let then = next_step(len, retries, s, s, number, reply);
    let cursor = next_skip(len, retries, s, s, number, reply);
    let rest = run_from(len, retries, cursor, then, answers);
    let run = run_at(len, retries, s, number, answers);
    lemma_run_unfold(len, retries, s, number, answers);
    if number < retries {
        lemma_run_budget(len, retries, s, number + 1, answers);
    } else if s + 1 < len {
        lemma_run_bounds(len, retries, s + 1, 0, answers);
    }
    assert forall|k: int| 0 <= k <= retries - number implies (#[trigger] run.calls[k]) == (
        s,
        (number + k) as nat,
    ) by {
        if k > 0 {
            assert(run.calls[k] == rest.calls[k - 1]);
        }
    }
    assert forall|k: int| retries - number < k < run.calls.len() implies (#[trigger] run.calls[k]).0
        > s by {
        assert(run.calls[k] == rest.calls[k - 1]);
    }
}

/// Retry budget: a source at the cursor that fails in transport on every
/// attempt gets exactly `retries + 1` attempts, numbered from zero, before
/// any other source is called; every later call goes to a later source, and
/// the cursor ends behind it.
pub proof fn lemma_retry_budget<T>(len: nat, retries: nat, s: nat, answers: Answers<T>)
    requires
        s < len,
        forall|n: nat| #[trigger] answers(s, n) is Transport,
    ensures
        request(len, retries, s, answers).calls.len() >= retries + 1,
        request(len, retries, s, answers).skip > s,
        forall|k: int|
            0 <= k <= retries ==> (#[trigger] request(len, retries, s, answers).calls[k]) == (
                s,
                k as nat,
            ),
        forall|k: int|
            retries < k < request(len, retries, s, answers).calls.len() ==> (#[trigger] request(
                len,
                retries,
                s,
                answers,
            ).calls[k]).0 > s,
{
    lemma_run_budget(len, retries, s, 0, answers);
}

/// A source that used up its attempts in a run lies before the cursor at the
/// run's end.
pub proof fn lemma_run_passes_exhausted<T>(
    len: nat,
    retries: nat,
    skip: nat,
    number: nat,
    answers: Answers<T>,
    s: nat,
)
    requires
        skip < len,
        exhausted(run_at(len, retries, skip, number, answers).calls, answers, retries, s),
    ensures
        s < run_at(len, retries, skip, number, answers).skip,
    decreases len - skip, (if number < retries { retries - number } else { 0 }),
{
    let reply = answers(skip, number);
    let then = next_step(len, retries, skip, skip, number, reply);
    let cursor = next_skip(len, retries, skip, skip, number, reply);
    let rest = run_from(len, retries, cursor, then, answers);
    let run = run_at(len, retries, skip, number, answers);
    lemma_run_unfold(len, retries, skip, number, answers);
    let k = choose|k: int| 0 <= k < run.calls.len() && run.calls[k] == (s, retries);
    if k == 0 {
        assert(cursor == skip + 1);
        if then is Call {
            lemma_run_bounds(len, retries, cursor, then->number, answers);
        }
    } else {
        assert(rest.calls[k - 1] == (s, retries));
        assert(then is Call);
        lemma_run_passes_exhausted(len, retries, cursor, then->number, answers, s);
    }
}

/// Sticky skip: a source that used up its attempts in one request is called
/// by no later request of the same engine, whatever moved the cursor on in
/// between.
pub proof fn lemma_sticky_skip<T>(
    len: nat,
    retries: nat,
    skip: nat,
    answers: Answers<T>,
    s: nat,
    later_skip: nat,
    later_answers: Answers<T>,
)
    requires
        exhausted(request(len, retries, skip, answers).calls, answers, retries, s),
        later_skip >= request(len, retries, skip, answers).skip,
    ensures
        forall|k: int|
            0 <= k < request(len, retries, later_skip, later_answers).calls.len() ==> (
            #[trigger] request(len, retries, later_skip, later_answers).calls[k]).0 != s,
{
    if skip < len {
        lemma_run_passes_exhausted(len, retries, skip, 0, answers, s);
    } else {
        assert(request(len, retries, skip, answers).calls =~= Seq::<(nat, nat)>::empty());
    }
    lemma_request_bounds(len, retries, later_skip, later_answers);
}

/// A business failure ends the run it occurs in.
pub proof fn lemma_run_ends_at_refusal<T>(
    len: nat,
    retries: nat,
    skip: nat,
    number: nat,
    answers: Answers<T>,
    s: nat,
    n: nat,
)
    requires
        skip < len,
        run_at(len, retries, skip, number, answers).calls.contains((s, n)),
        answers(s, n) is Business,
    ensures
        run_at(len, retries, skip, number, answers).outcome == Outcome::<T>::Failure(
            answers(s, n)->Business_0,
        ),
        run_at(len, retries, skip, number, answers).skip == s,
        run_at(len, retries, skip, number, answers).calls.last() == (s, n),
        forall|k: int|
            0 <= k < run_at(len, retries, skip, number, answers).calls.len() ==> (#[trigger] run_at(
                len,
                retries,
                skip,
                number,
                answers,
            ).calls[k]).0 <= s,
    decreases len - skip, (if number < retries { retries - number } else { 0 }),
{
    let reply = answers(skip, number);
    let then = next_step(len, retries, skip, skip, number, reply);
    let cursor = next_skip(len, retries, skip, skip, number, reply);
    let rest = run_from(len, retries, cursor, then, answers);
    let run = run_at(len, retries, skip, number, answers);
    lemma_run_unfold(len, retries, skip, number, answers);
    let k = choose|k: int| 0 <= k < run.calls.len() && run.calls[k] == (s, n);
    if k == 0 {
        assert(rest.calls =~= Seq::<(nat, nat)>::empty());
        assert(run.calls =~= seq![(skip, number)]);
    } else {
        assert(rest.calls[k - 1] == (s, n));
        assert(then is Call);
        lemma_run_ends_at_refusal(len, retries, cursor, then->number, answers, s, n);
        lemma_run_bounds(len, retries, cursor, then->number, answers);
        assert(run.calls.last() == rest.calls.last());
        assert forall|j: int| 0 <= j < run.calls.len() implies (#[trigger] run.calls[j]).0
            <= s by {
            if j > 0 {
                assert(run.calls[j] == rest.calls[j - 1]);
            } else {
                assert(rest.calls[k - 1].0 >= cursor);
            }
        }
    }
}

/// Terminal business error: where a source answers a call of a request with
/// a business failure, the request returns that failure at once. The call
/// is the request's last, the cursor stays on that source, and no later
/// source is called.
pub proof fn lemma_business_error_is_terminal<T>(
    len: nat,
    retries: nat,
    skip: nat,
    answers: Answers<T>,
    s: nat,
    n: nat,
)
    requires
        request(len, retries, skip, answers).calls.contains((s, n)),
        answers(s, n) is Business,
    ensures
        request(len, retries, skip, answers).outcome == Outcome::<T>::Failure(
            answers(s, n)->Business_0,
        ),
        request(len, retries, skip, answers).skip == s,
        request(len, retries, skip, answers).calls.last() == (s, n),
        forall|k: int|
            0 <= k < request(len, retries, skip, answers).calls.len() ==> (#[trigger] request(
                len,
                retries,
                skip,
                answers,
            ).calls[k]).0 <= s,
{
    if skip < len {
        lemma_run_ends_at_refusal(len, retries, skip, 0, answers, s, n);
    } else {
        assert(request(len, retries, skip, answers).calls =~= Seq::<(nat, nat)>::empty());
    }
}

/// Where every source fails in transport on every attempt, the run ends
/// with the message of the last attempt on the last source, and with every
/// source passed.
pub proof fn lemma_run_exhausts<T>(
    len: nat,
    retries: nat,
    skip: nat,
    number: nat,
    answers: Answers<T>,
)
    requires
        skip < len,
        number <= retries,
        forall|s: nat, n: nat| #[trigger] answers(s, n) is Transport,
    ensures
        run_at(len, retries, skip, number, answers).outcome == Outcome::<T>::Failure(
            answers((len - 1) as nat, retries)->Transport_0,
        ),
        run_at(len, retries, skip, number, answers).skip == len,
    decreases len - skip, retries - number,
{
    let reply = answers(skip, number);
    let then = next_step(len, retries, skip, skip, number, reply);
    let cursor = next_skip(len, retries, skip, skip, number, reply);
    let rest = run_from(len, retries, cursor, then, answers);
    let run = run_at(len, retries, skip, number, answers);
    assert(reply is Transport);
    assert(run.outcome == rest.outcome && run.skip == rest.skip);
    if number < retries {
        lemma_run_exhausts(len, retries, skip, number + 1, answers);
    } else if skip + 1 < len {
        lemma_run_exhausts(len, retries, skip + 1, 0, answers);
    } else {
        assert(rest.outcome == then && rest.skip == cursor);
    }
}

/// Exhaustion: where every source fails in transport on every attempt, the
/// request fails with the message of the last transport failure, and the
/// cursor ends behind the last source.
pub proof fn lemma_exhaustion_returns_last_failure<T>(
    len: nat,
    retries: nat,
    skip: nat,
    answers: Answers<T>,
)
    requires
        skip < len,
        forall|s: nat, n: nat| #[trigger] answers(s, n) is Transport,
    ensures
        request(len, retries, skip, answers).outcome == Outcome::<T>::Failure(
            answers((len - 1) as nat, retries)->Transport_0,
        ),
        request(len, retries, skip, answers).skip == len,
{
    lemma_run_exhausts(len, retries, skip, 0, answers);
}

} // verus!
