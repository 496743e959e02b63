use vstd::prelude::*;

use crate::codec::{decode_frame, frame_len};
use crate::error::{ParseError, ServerError};
use crate::service::serve_model;
use crate::store::{fresh_state, publish_step, retrieve_step, StoreState};

verus! {

/// The state after publishing `ps` in order, one `add_message` each.
pub open spec fn publish_all<T>(s: StoreState<T>, ps: Seq<T>) -> StoreState<T>
    decreases ps.len(),
{
    if ps.len() == 0 {
        s
    } else {
        publish_step(publish_all(s, ps.drop_last()), ps.last()).0
    }
}

/// The state after `n` calls of `retrieve_message`, and their outcomes in order.
pub open spec fn retrieve_n<T>(s: StoreState<T>, n: nat) -> (
    StoreState<T>,
    Seq<Result<Option<T>, ServerError>>,
)
    decreases n,
{
    if n == 0 {
        (s, Seq::empty())
    } else {
        let (s1, r) = retrieve_step(s);
        let (s2, rs) = retrieve_n(s1, (n - 1) as nat);
        (s2, seq![r] + rs)
    }
}

/// The payloads that a run of retrievals handed out, in order.
pub open spec fn delivered<T>(outs: Seq<Result<Option<T>, ServerError>>) -> Seq<T>
    decreases outs.len(),
{
    if outs.len() == 0 {
        Seq::empty()
    } else {
        let head: Seq<T> = match outs[0] {
            Ok(Some(v)) => seq![v],
            _ => Seq::empty(),
        };
        head + delivered(outs.drop_first())
    }
}

/// The outcome of a run of `n` retrievals on a healthy store holding `q`.
pub open spec fn drained<T>(q: Seq<T>, n: nat) -> Seq<Result<Option<T>, ServerError>> {
    Seq::new(n, |i: int| if i < q.len() { Ok(Some(q[i])) } else { Ok(None) })
}

proof fn lemma_publish_all<T>(s: StoreState<T>, ps: Seq<T>)
    requires
        !s.degraded,
    ensures
        publish_all(s, ps) == (StoreState { queue: s.queue + ps, degraded: false }),
    decreases ps.len(),
{
    if ps.len() > 0 {
        lemma_publish_all(s, ps.drop_last());
        assert(s.queue + ps =~= (s.queue + ps.drop_last()).push(ps.last()));
    } else {
        assert(s.queue + ps =~= s.queue);
    }
}

proof fn lemma_retrieve_n<T>(q: Seq<T>, n: nat)
    ensures
        retrieve_n(StoreState { queue: q, degraded: false }, n) == (
            StoreState {
                queue: if n <= q.len() { q.subrange(n as int, q.len() as int) } else { Seq::empty() },
                degraded: false,
            },
            drained(q, n),
        ),
    decreases n,
{
    let s = StoreState { queue: q, degraded: false };
    if n == 0 {
        assert(q.subrange(0, q.len() as int) =~= q);
        assert(drained(q, 0) =~= Seq::<Result<Option<T>, ServerError>>::empty());
    } else {
        let (s1, r) = retrieve_step(s);
        lemma_retrieve_n(s1.queue, (n - 1) as nat);
        if q.len() == 0 {
            assert(drained(q, n) =~= seq![r] + drained(s1.queue, (n - 1) as nat));
            assert(q.subrange(0, 0) =~= Seq::<T>::empty());
        } else {
            assert(s1.queue =~= q.drop_first());
            assert(drained(q, n) =~= seq![r] + drained(s1.queue, (n - 1) as nat));
            if n <= q.len() {
                assert(s1.queue.subrange((n - 1) as int, s1.queue.len() as int) =~= q.subrange(
                    n as int,
                    q.len() as int,
                ));
            }
        }
    }
}

proof fn lemma_delivered_drained<T>(q: Seq<T>, n: nat)
    requires
        q.len() <= n,
    ensures
        delivered(drained(q, n)) == q,
    decreases n,
{
    if n == 0 {
        assert(q =~= Seq::<T>::empty());
    } else {
        let d = drained(q, n);
        if q.len() == 0 {
            assert(d.drop_first() =~= drained(q, (n - 1) as nat));
            lemma_delivered_drained(q, (n - 1) as nat);
        } else {
            assert(d.drop_first() =~= drained(q.drop_first(), (n - 1) as nat));
            lemma_delivered_drained(q.drop_first(), (n - 1) as nat);
            assert(seq![q[0]] + q.drop_first() =~= q);
        }
    }
}

/// Publishing `ps` on a new mailbox, then retrieving `ps.len() + extra`
/// times, hands the payloads back in publish order and then reports the
/// mailbox empty on every further retrieval.
pub proof fn publish_then_retrieve_in_order<T>(ps: Seq<T>, extra: nat)
    ensures
        retrieve_n(publish_all(fresh_state::<T>(), ps), ps.len() + extra).1 == drained(
            ps,
            ps.len() + extra,
        ),
        forall|i: int|
            0 <= i < ps.len() ==> #[trigger] retrieve_n(
                publish_all(fresh_state::<T>(), ps),
                ps.len() + extra,
            ).1[i] == Ok::<Option<T>, ServerError>(Some(ps[i])),
        forall|i: int|
            ps.len() <= i < ps.len() + extra ==> #[trigger] retrieve_n(
                publish_all(fresh_state::<T>(), ps),
                ps.len() + extra,
            ).1[i] == Ok::<Option<T>, ServerError>(None),
{
    lemma_publish_all(fresh_state::<T>(), ps);
    assert(Seq::<T>::empty() + ps =~= ps);
    lemma_retrieve_n(ps, ps.len() + extra);
}

/// Publishing payloads one after another, in whatever order they were
/// serialised, leaves exactly those payloads queued: none lost, none
/// duplicated.
pub proof fn publishes_lose_nothing<T>(ps: Seq<T>)
    ensures
        publish_all(fresh_state::<T>(), ps).queue == ps,
        publish_all(fresh_state::<T>(), ps).queue.to_multiset() == ps.to_multiset(),
        publish_all(fresh_state::<T>(), ps).queue.len() == ps.len(),
        !publish_all(fresh_state::<T>(), ps).degraded,
{
    lemma_publish_all(fresh_state::<T>(), ps);
    assert(Seq::<T>::empty() + ps =~= ps);
}

/// With `ps` queued, any `n >= ps.len()` retrievals, in whatever order they
/// were serialised, hand out each queued payload exactly once and report
/// the mailbox empty on all the others.
pub proof fn each_payload_delivered_once<T>(ps: Seq<T>, n: nat)
    requires
        ps.len() <= n,
    ensures
        delivered(retrieve_n(publish_all(fresh_state::<T>(), ps), n).1) == ps,
        retrieve_n(publish_all(fresh_state::<T>(), ps), n).1.len() == n,
        forall|i: int|
            0 <= i < n ==> (#[trigger] retrieve_n(publish_all(fresh_state::<T>(), ps), n).1[i] is Ok
                && (retrieve_n(publish_all(fresh_state::<T>(), ps), n).1[i]->Ok_0 is None <==> i
                >= ps.len())),
        retrieve_n(publish_all(fresh_state::<T>(), ps), n).0.queue.len() == 0,
{
    lemma_publish_all(fresh_state::<T>(), ps);
    assert(Seq::<T>::empty() + ps =~= ps);
    lemma_retrieve_n(ps, n);
    lemma_delivered_drained(ps, n);
}

/// A complete frame whose text is not a command stops the connection with
/// `ParseError` and leaves the mailbox untouched, with no reply.
pub proof fn malformed_line_changes_nothing(s: StoreState<Seq<char>>, b: Seq<u8>, e: ParseError)
    requires
        frame_len(b) matches Some(n) && 1 <= n <= b.len() && decode_frame(b.subrange(0, n)) == Err::<
            crate::command::CommandModel,
            ServerError,
        >(ServerError::ParseError(e)),
    ensures
        serve_model(s, b).0 == s,
        serve_model(s, b).1.len() == 0,
        serve_model(s, b).3 == Err::<(), ServerError>(ServerError::ParseError(e)),
{
}

} // verus!
