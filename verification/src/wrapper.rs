//! Combinators on a fallible result: wrapping its failure into a chain, and
//! retrying the operation that produced it.

use crate::error::{outer_tag, outer_text, wrapped_model, Error, Fault, TypeTag};
use vstd::prelude::*;

verus! {

/// Whether a result calls for another attempt: it is a failure, and one
/// that `eligible` accepts.
pub open spec fn calls_for_retry<T, E>(r: Result<T, E>, eligible: spec_fn(E) -> bool) -> bool {
    match r {
        Ok(_) => false,
        Err(e) => eligible(e),
    }
}

/// `trace` holds, in order, what the attempts `1`, `2`, ... of `f` returned
/// when `first` was retried at most `max` times, and `out` is what was left:
/// every result but the last called for another attempt, and the last one
/// did not, unless `max` attempts were made.
pub open spec fn retry_trace<T, E, F: Fn(usize) -> Result<T, E>>(
    first: Result<T, E>,
    max: usize,
    f: F,
    eligible: spec_fn(E) -> bool,
    trace: Seq<Result<T, E>>,
    out: Result<T, E>,
) -> bool {
    &&& trace.len() <= max
    &&& forall|i: int|
        0 <= i < trace.len() ==> call_ensures(f, ((i + 1) as usize,), #[trigger] trace[i])
    &&& out == (if trace.len() == 0 {
        first
    } else {
        trace.last()
    })
    &&& trace.len() > 0 ==> calls_for_retry(first, eligible)
    &&& forall|i: int| 0 <= i < trace.len() - 1 ==> calls_for_retry(#[trigger] trace[i], eligible)
    &&& (trace.len() == max || !calls_for_retry(out, eligible))
}

/// `out` is what retrying `first` with `f` at most `max` times leaves.
pub open spec fn retried<T, E, F: Fn(usize) -> Result<T, E>>(
    first: Result<T, E>,
    max: usize,
    f: F,
    eligible: spec_fn(E) -> bool,
    out: Result<T, E>,
) -> bool {
    exists|trace: Seq<Result<T, E>>| #[trigger] retry_trace(first, max, f, eligible, trace, out)
}

/// Accepts every failure.
pub open spec fn any_failure<E>() -> spec_fn(E) -> bool {
    |e: E| true
}

/// Accepts the failures whose concrete type `tag` identifies.
pub open spec fn failure_of<E: Fault>(tag: TypeTag) -> spec_fn(E) -> bool {
    |e: E| outer_tag(e.chain()) == tag
}

/// Retries `first`: while the current result calls for another attempt and
/// fewer than `max` were made, replaces it with `f` applied to the number of
/// the attempt, counted from 1. `accept` decides at run time what `eligible`
/// says of a failure.
fn retry_while<T, E, F: Fn(usize) -> Result<T, E>, A: Fn(&E) -> bool>(
    first: Result<T, E>,
    max: usize,
    f: F,
    accept: A,
    Ghost(eligible): Ghost<spec_fn(E) -> bool>,
) -> (out: Result<T, E>)
    requires
        calls_for_retry(first, eligible) ==> forall|i: usize|
            1 <= i <= max ==> call_requires(f, (i,)),
        forall|e: &E| call_requires(accept, (e,)),
        forall|e: &E, r: bool| call_ensures(accept, (e,), r) ==> r == eligible(*e),
    ensures
        retried(first, max, f, eligible, out),
{
    let mut retries: usize = 0;
    let mut result = first;
    let ghost mut trace: Seq<Result<T, E>> = Seq::empty();
    loop
        invariant
            retries <= max,
            retries == trace.len(),
            calls_for_retry(first, eligible) ==> forall|i: usize|
                1 <= i <= max ==> call_requires(f, (i,)),
            forall|e: &E| call_requires(accept, (e,)),
            forall|e: &E, r: bool| call_ensures(accept, (e,), r) ==> r == eligible(*e),
            forall|i: int|
                0 <= i < trace.len() ==> call_ensures(f, ((i + 1) as usize,), #[trigger] trace[i]),
            result == (if trace.len() == 0 {
                first
            } else {
                trace.last()
            }),
            trace.len() > 0 ==> calls_for_retry(first, eligible),
            forall|i: int|
                0 <= i < trace.len() - 1 ==> calls_for_retry(#[trigger] trace[i], eligible),
        ensures
            retry_trace(first, max, f, eligible, trace, result),
        decreases max - retries,
    {
        if retries >= max {
            break ;
        }
        let again = match &result {
            Ok(_) => false,
            Err(e) => accept(e),
        };
        if !again {
            break ;
        }
        retries += 1;
        let ghost before = trace;
        let ghost previous = result;
        result = f(retries);
        proof {
            trace = before.push(result);
            assert forall|i: int| 0 <= i < trace.len() - 1 implies calls_for_retry(
                #[trigger] trace[i],
                eligible,
            ) by {
                if i < before.len() - 1 {
                    assert(trace[i] == before[i]);
                } else {
                    assert(trace[i] == previous);
                }
            }
            assert forall|i: int| 0 <= i < trace.len() implies call_ensures(
                f,
                ((i + 1) as usize,),
                #[trigger] trace[i],
            ) by {
                if i < before.len() {
                    assert(trace[i] == before[i]);
                }
            }
        }
    }
    result
}

/// The combinators on a result whose failure can stand in a chain.
pub trait Wrapper<T, E: Fault>: Sized {
    /// The result behind `self`.
    spec fn outcome(&self) -> Result<T, E>;

    /// Passes a success through, and a failure as a chain node around it
    /// that shows the failure's own text.
    fn pass(self, cwd: Option<&str>) -> (r: Result<T, Error>)
        ensures
            match self.outcome() {
                Ok(value) => r == Ok::<T, Error>(value),
                Err(err) => r matches Err(node) && node@ == wrapped_model(
                    err.chain(),
                    outer_text(err.chain()),
                    node@.nodes[0].frames,
                ),
            },
    ;

    /// Passes a success through, and a failure as a chain node around it
    /// with the message `msg`.
    fn wrap(self, msg: &str, cwd: Option<&str>) -> (r: Result<T, Error>)
        ensures
            match self.outcome() {
                Ok(value) => r == Ok::<T, Error>(value),
                Err(err) => r matches Err(node) && node@ == wrapped_model(
                    err.chain(),
                    msg@,
                    node@.nodes[0].frames,
                ),
            },
    ;

    /// Whether this is a failure whose concrete type `tag` identifies. Only
    /// the failure itself is looked at, not what it may wrap.
    fn err_is(&self, tag: TypeTag) -> (r: bool)
        ensures
            r == calls_for_retry(self.outcome(), failure_of::<E>(tag)),
    ;

    /// Retries a failure at most `max` times: each attempt replaces the
    /// result with `f` applied to the attempt's number, counted from 1, and
    /// the first success ends it. Without a failure, or with `max` zero,
    /// `f` is not called and the result comes back as it is.
    fn retry<F: Fn(usize) -> Result<T, E>>(self, max: usize, f: F) -> (out: Result<T, E>)
        requires
            self.outcome() is Err ==> forall|i: usize| 1 <= i <= max ==> call_requires(f, (i,)),
        ensures
            retried(self.outcome(), max, f, any_failure::<E>(), out),
            max == 0 || self.outcome() is Ok ==> out == self.outcome(),
    ;

    /// Retries as `retry` does, but only while the failure's concrete type
    /// is the one that `tag` identifies: a failure of another type ends it
    /// at once and comes back as it is.
    fn retry_on<F: Fn(usize) -> Result<T, E>>(self, max: usize, tag: TypeTag, f: F) -> (out: Result<
        T,
        E,
    >)
        requires
            calls_for_retry(self.outcome(), failure_of::<E>(tag)) ==> forall|i: usize|
                1 <= i <= max ==> call_requires(f, (i,)),
        ensures
            retried(self.outcome(), max, f, failure_of::<E>(tag), out),
            max == 0 || !calls_for_retry(self.outcome(), failure_of::<E>(tag)) ==> out
                == self.outcome(),
    ;
}

impl<T, E: Fault> Wrapper<T, E> for Result<T, E> {
    open spec fn outcome(&self) -> Result<T, E> {
        *self
    }

    fn pass(self, cwd: Option<&str>) -> (r: Result<T, Error>) {
        match self {
            Ok(value) => Ok(value),
            Err(err) => Error::pass(err, cwd),
        }
    }

    fn wrap(self, msg: &str, cwd: Option<&str>) -> (r: Result<T, Error>) {
        match self {
            Ok(value) => Ok(value),
            Err(err) => Error::wrap(err, msg, cwd),
        }
    }

    fn err_is(&self, tag: TypeTag) -> (r: bool) {
        match self {
            Ok(_) => false,
            Err(err) => err.tag().same(&tag),
        }
    }

    fn retry<F: Fn(usize) -> Result<T, E>>(self, max: usize, f: F) -> (out: Result<T, E>) {
        let accept = |e: &E| -> (r: bool)
            ensures
                r == any_failure::<E>()(*e),
            { true };
        let out = retry_while(self, max, f, accept, Ghost(any_failure::<E>()));
        proof {
            let trace = choose|trace: Seq<Result<T, E>>| #[trigger]
                retry_trace(self, max, f, any_failure::<E>(), trace, out);
            assert(max == 0 || self is Ok ==> trace.len() == 0);
        }
        out
    }

    fn retry_on<F: Fn(usize) -> Result<T, E>>(self, max: usize, tag: TypeTag, f: F) -> (out: Result<
        T,
        E,
    >) {
        let accept = |e: &E| -> (r: bool)
            ensures
                r == failure_of::<E>(tag)(*e),
            { e.tag().same(&tag) };
        let out = retry_while(self, max, f, accept, Ghost(failure_of::<E>(tag)));
        proof {
            let trace = choose|trace: Seq<Result<T, E>>| #[trigger]
                retry_trace(self, max, f, failure_of::<E>(tag), trace, out);
            assert(max == 0 || !calls_for_retry(self, failure_of::<E>(tag)) ==> trace.len() == 0);
        }
        out
    }
}

/// A retry spends nothing on a result that does not call for it: where the
/// first result is a success, or a failure that `eligible` does not accept,
/// no attempt is made and it comes back as it is; and an attempt whose
/// result does not call for another is the last one.
pub proof fn lemma_retry_stops_at_once<T, E, F: Fn(usize) -> Result<T, E>>(
    first: Result<T, E>,
    max: usize,
    f: F,
    eligible: spec_fn(E) -> bool,
    trace: Seq<Result<T, E>>,
    out: Result<T, E>,
)
    requires
        retry_trace(first, max, f, eligible, trace, out),
    ensures
        !calls_for_retry(first, eligible) ==> trace.len() == 0 && out == first,
        max == 0 ==> trace.len() == 0 && out == first,
        forall|i: int|
            0 <= i < trace.len() && !calls_for_retry(#[trigger] trace[i], eligible) ==> i
                == trace.len() - 1 && out == trace[i],
{
}

} // verus!
