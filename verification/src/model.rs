use vstd::prelude::*;
use vstd::multiset::Multiset;

use crate::batch::{decision_of, BatchModel, RoundDecision};
use crate::blob::BlobModel;

verus! {

// The mathematical model of one batch-upload call. An outcome assignment
// `o: spec_fn(BlobModel, nat) -> bool` abstracts the storage client:
// `o(b, r)` says whether the write of blob `b` dispatched in round `r`
// succeeds (rounds are numbered from 1; identical blobs are
// indistinguishable, so they fare alike). Over that assignment the functions
// below say which blobs each round dispatches and what the call returns, and
// the public lemmas state the laws of the round loop.

/// How often blob `b` occurs in the sequence `s`.
pub open spec fn occurrences(s: Seq<BlobModel>, b: BlobModel) -> nat {
    s.to_multiset().count(b)
}

/// The blobs of `s` whose round-`r` write fails under the outcome assignment
/// `o`: the pending set of the round after `r`, with multiplicity, in
/// dispatch order.
pub open spec fn round_failures(
    s: Seq<BlobModel>,
    o: spec_fn(BlobModel, nat) -> bool,
    r: nat,
) -> Seq<BlobModel>
    decreases s.len(),
{
    if s.len() == 0 {
        Seq::empty()
    } else if o(s.first(), r) {
        round_failures(s.drop_first(), o, r)
    } else {
        seq![s.first()] + round_failures(s.drop_first(), o, r)
    }
}

/// The blobs dispatched in round `n` of a call on `blobs` (rounds are
/// numbered from 1): the whole batch in round 1, thereafter exactly the
/// failures of the round before.
pub open spec fn dispatched(
    blobs: Seq<BlobModel>,
    o: spec_fn(BlobModel, nat) -> bool,
    n: nat,
) -> Seq<BlobModel>
    decreases n,
{
    if n <= 1 {
        blobs
    } else {
        round_failures(dispatched(blobs, o, (n - 1) as nat), o, (n - 1) as nat)
    }
}

/// How many rounds the loop runs: it stops after the first round that leaves
/// nothing pending and never runs more than [`crate::batch::ATTEMPT_LIMIT`]
/// rounds. A batch that is empty at the outset still runs one (empty) round.
pub open spec fn rounds_used(blobs: Seq<BlobModel>, o: spec_fn(BlobModel, nat) -> bool) -> nat {
    if dispatched(blobs, o, 2).len() == 0 {
        1
    } else if dispatched(blobs, o, 3).len() == 0 {
        2
    } else {
        3
    }
}

/// How many blobs are still unwritten when the loop stops. Rounds past the
/// one the loop stops at dispatch nothing, so the pending set left by round
/// [`rounds_used`] is the one left by round 3.
pub open spec fn unwritten_after(
    blobs: Seq<BlobModel>,
    o: spec_fn(BlobModel, nat) -> bool,
) -> nat {
    dispatched(blobs, o, 4).len()
}

/// Whether the call succeeds: every blob of the batch has been confirmed
/// written at least once, so nothing is pending when the loop stops.
pub open spec fn batch_succeeds(
    blobs: Seq<BlobModel>,
    o: spec_fn(BlobModel, nat) -> bool,
) -> bool {
    unwritten_after(blobs, o) == 0
}

/// How many write requests the whole call issues for blob `b`: one per
/// occurrence of `b` in a dispatched round. A round the loop never reaches
/// dispatches nothing, so the sum over all three possible rounds is exact.
pub open spec fn writes_total(
    blobs: Seq<BlobModel>,
    o: spec_fn(BlobModel, nat) -> bool,
    b: BlobModel,
) -> nat {
    occurrences(dispatched(blobs, o, 1), b) + occurrences(dispatched(blobs, o, 2), b)
        + occurrences(dispatched(blobs, o, 3), b)
}

/// Nothing occurs in the empty sequence.
proof fn lemma_occurrences_empty(b: BlobModel)
    ensures
        occurrences(Seq::<BlobModel>::empty(), b) == 0,
{
    broadcast use vstd::seq_lib::group_to_multiset_ensures;
    broadcast use vstd::multiset::group_multiset_axioms;

    let s = Seq::<BlobModel>::empty();
    assert(s.len() == s.to_multiset().len());
    vstd::multiset::lemma_multiset_empty_len(s.to_multiset());
    assert(s.to_multiset() =~= Multiset::<BlobModel>::empty());
}

/// In a sequence of length zero nothing occurs.
proof fn lemma_occurrences_len_zero(s: Seq<BlobModel>, b: BlobModel)
    requires
        s.len() == 0,
    ensures
        occurrences(s, b) == 0,
{
    assert(s =~= Seq::<BlobModel>::empty());
    lemma_occurrences_empty(b);
}

/// Splitting off the first element splits the occurrence count.
proof fn lemma_occurrences_cons(s: Seq<BlobModel>, b: BlobModel)
    requires
        s.len() > 0,
    ensures
        occurrences(s, b) == occurrences(s.drop_first(), b) + (if s.first() == b {
            1nat
        } else {
            0nat
        }),
{
    broadcast use vstd::seq_lib::group_to_multiset_ensures;
    broadcast use vstd::multiset::group_multiset_axioms;

    assert(s.drop_first() =~= s.remove(0));
    assert(s.remove(0).to_multiset() == s.to_multiset().remove(s[0]));
    assert(s.contains(s[0]));
    assert(s.to_multiset().count(s[0]) > 0);
    assert(s.to_multiset().remove(s[0]) == s.to_multiset().sub(Multiset::singleton(s[0])));
}

/// Occurrence counts after putting one element in front.
proof fn lemma_occurrences_prepend(x: BlobModel, t: Seq<BlobModel>, b: BlobModel)
    ensures
        occurrences(seq![x] + t, b) == occurrences(t, b) + (if x == b {
            1nat
        } else {
            0nat
        }),
{
    let s = seq![x] + t;
    assert(s.first() == x);
    assert(s.drop_first() =~= t);
    lemma_occurrences_cons(s, b);
}

/// A sequence in which no blob occurs is empty.
proof fn lemma_no_occurrences_empty(s: Seq<BlobModel>)
    requires
        forall|b: BlobModel| #[trigger] occurrences(s, b) == 0,
    ensures
        s.len() == 0,
{
    broadcast use vstd::seq_lib::group_to_multiset_ensures;

    if s.len() > 0 {
        assert(s.contains(s[0]));
        assert(occurrences(s, s[0]) > 0);
    }
}

/// The requeue law: a blob is pending for the round after `r` exactly as
/// often as it was dispatched in round `r` and failed — a successful write
/// discards the blob, a failed one preserves every copy, and no write of a
/// sibling blob changes either.
pub proof fn lemma_round_failures_count(
    s: Seq<BlobModel>,
    o: spec_fn(BlobModel, nat) -> bool,
    r: nat,
    b: BlobModel,
)
    ensures
        occurrences(round_failures(s, o, r), b) == if o(b, r) {
            0nat
        } else {
            occurrences(s, b)
        },
    decreases s.len(),
{
    if s.len() == 0 {
        lemma_occurrences_empty(b);
        lemma_occurrences_len_zero(s, b);
    } else {
        lemma_round_failures_count(s.drop_first(), o, r, b);
        lemma_occurrences_cons(s, b);
        if !o(s.first(), r) {
            lemma_occurrences_prepend(s.first(), round_failures(s.drop_first(), o, r), b);
        }
    }
}

/// The first four values of [`dispatched`], written out round by round.
proof fn lemma_dispatched_unfold(blobs: Seq<BlobModel>, o: spec_fn(BlobModel, nat) -> bool)
    ensures
        dispatched(blobs, o, 1) == blobs,
        dispatched(blobs, o, 2) == round_failures(blobs, o, 1),
        dispatched(blobs, o, 3) == round_failures(dispatched(blobs, o, 2), o, 2),
        dispatched(blobs, o, 4) == round_failures(dispatched(blobs, o, 3), o, 3),
{
    reveal_with_fuel(dispatched, 5);
}

/// A round in which every dispatched write succeeds leaves nothing pending.
proof fn lemma_round_all_succeed(s: Seq<BlobModel>, o: spec_fn(BlobModel, nat) -> bool, r: nat)
    requires
        forall|b: BlobModel| #[trigger] occurrences(s, b) > 0 ==> o(b, r),
    ensures
        round_failures(s, o, r).len() == 0,
{
    assert forall|b: BlobModel| #[trigger] occurrences(round_failures(s, o, r), b) == 0 by {
        lemma_round_failures_count(s, o, r, b);
    };
    lemma_no_occurrences_empty(round_failures(s, o, r));
}

/// LAW (all succeed immediately): if every blob of the batch succeeds in
/// round 1, the call succeeds after exactly one round, and each blob is
/// written exactly as often as it occurs in the batch — exactly once for a
/// batch of distinct blobs.
pub proof fn lemma_all_succeed_first_round(
    blobs: Seq<BlobModel>,
    o: spec_fn(BlobModel, nat) -> bool,
)
    requires
        forall|b: BlobModel| #[trigger] occurrences(blobs, b) > 0 ==> o(b, 1),
    ensures
        batch_succeeds(blobs, o),
        rounds_used(blobs, o) == 1,
        forall|b: BlobModel| #[trigger] writes_total(blobs, o, b) == occurrences(blobs, b),
{
    lemma_dispatched_unfold(blobs, o);
    lemma_round_all_succeed(blobs, o, 1);
    let d2 = dispatched(blobs, o, 2);
    assert(dispatched(blobs, o, 3) == Seq::<BlobModel>::empty());
    assert(dispatched(blobs, o, 4) == Seq::<BlobModel>::empty());
    assert forall|b: BlobModel| #[trigger] writes_total(blobs, o, b) == occurrences(blobs, b) by {
        lemma_occurrences_len_zero(d2, b);
        lemma_occurrences_empty(b);
    };
}

/// LAW (eventual success): if one blob (`late`) fails in rounds 1 and 2 and
/// succeeds in round 3, while every other blob of the batch succeeds in
/// round 1, the call succeeds after all three rounds; `late` is written three
/// times per occurrence in the batch — two failed attempts and one success —
/// and every other blob exactly as often as it occurs.
pub proof fn lemma_eventual_success(
    blobs: Seq<BlobModel>,
    o: spec_fn(BlobModel, nat) -> bool,
    late: BlobModel,
)
    requires
        occurrences(blobs, late) > 0,
        !o(late, 1),
        !o(late, 2),
        o(late, 3),
        forall|b: BlobModel| #[trigger] occurrences(blobs, b) > 0 && b != late ==> o(b, 1),
    ensures
        batch_succeeds(blobs, o),
        rounds_used(blobs, o) == 3,
        writes_total(blobs, o, late) == 3 * occurrences(blobs, late),
        forall|b: BlobModel| b != late ==> #[trigger] writes_total(blobs, o, b) == occurrences(
            blobs,
            b,
        ),
{
    lemma_dispatched_unfold(blobs, o);
    let d2 = dispatched(blobs, o, 2);
    let d3 = dispatched(blobs, o, 3);
    let d4 = dispatched(blobs, o, 4);
    assert forall|b: BlobModel| #[trigger] occurrences(d2, b) == if b == late {
        occurrences(blobs, late)
    } else {
        0nat
    } by {
        lemma_round_failures_count(blobs, o, 1, b);
    };
    assert forall|b: BlobModel| #[trigger] occurrences(d3, b) == if b == late {
        occurrences(blobs, late)
    } else {
        0nat
    } by {
        lemma_round_failures_count(d2, o, 2, b);
    };
    assert forall|b: BlobModel| #[trigger] occurrences(d4, b) == 0 by {
        lemma_round_failures_count(d3, o, 3, b);
    };
    lemma_no_occurrences_empty(d4);
    assert(occurrences(d2, late) > 0);
    if d2.len() == 0 {
        lemma_occurrences_len_zero(d2, late);
    }
    if d3.len() == 0 {
        lemma_occurrences_len_zero(d3, late);
    }
}

/// LAW (exhaustion): a blob (`stuck`) whose write fails in all three rounds
/// makes the call fail after exactly three rounds — a fourth is never
/// dispatched — and every copy of it is still unwritten at the end.
pub proof fn lemma_retry_exhausted(
    blobs: Seq<BlobModel>,
    o: spec_fn(BlobModel, nat) -> bool,
    stuck: BlobModel,
)
    requires
        occurrences(blobs, stuck) > 0,
        !o(stuck, 1),
        !o(stuck, 2),
        !o(stuck, 3),
    ensures
        !batch_succeeds(blobs, o),
        rounds_used(blobs, o) == 3,
        occurrences(dispatched(blobs, o, 4), stuck) == occurrences(blobs, stuck),
        unwritten_after(blobs, o) > 0,
{
    lemma_dispatched_unfold(blobs, o);
    let d2 = dispatched(blobs, o, 2);
    let d3 = dispatched(blobs, o, 3);
    let d4 = dispatched(blobs, o, 4);
    lemma_round_failures_count(blobs, o, 1, stuck);
    lemma_round_failures_count(d2, o, 2, stuck);
    lemma_round_failures_count(d3, o, 3, stuck);
    if d2.len() == 0 {
        lemma_occurrences_len_zero(d2, stuck);
    }
    if d3.len() == 0 {
        lemma_occurrences_len_zero(d3, stuck);
    }
    if d4.len() == 0 {
        lemma_occurrences_len_zero(d4, stuck);
    }
}

/// LAW (final decision): after the round the loop stops at, the decision is
/// never `Retry`: it is `AllWritten` exactly when the call succeeds, and
/// otherwise `RetryExhausted`, carrying the number of blobs that remain
/// unwritten.
pub proof fn lemma_final_decision(blobs: Seq<BlobModel>, o: spec_fn(BlobModel, nat) -> bool)
    ensures
        ({
            let d = decision_of(
                (BatchModel {
                    pending: dispatched(blobs, o, (rounds_used(blobs, o) + 1) as nat),
                    attempts: rounds_used(blobs, o),
                }),
            );
            &&& d != RoundDecision::Retry
            &&& (d == RoundDecision::AllWritten <==> batch_succeeds(blobs, o))
            &&& (!batch_succeeds(blobs, o) ==> d == (RoundDecision::RetryExhausted {
                unwritten: unwritten_after(blobs, o) as usize,
            }))
        }),
{
    lemma_dispatched_unfold(blobs, o);
    let ru = rounds_used(blobs, o);
    if ru == 1 {
        assert(dispatched(blobs, o, 2).len() == 0);
    } else if ru == 2 {
        assert(dispatched(blobs, o, 3).len() == 0);
        assert(dispatched(blobs, o, 4).len() == 0);
    }
}

/// LAW (order independence): the decision after a round, and how often each
/// blob stays pending, depend only on which writes failed how often — never
/// on the order in which the concurrent completions arrived. Two pending
/// sequences collected in different orders from the same failures agree.
pub proof fn lemma_order_independent(p1: Seq<BlobModel>, p2: Seq<BlobModel>, attempts: nat)
    requires
        p1.to_multiset() == p2.to_multiset(),
    ensures
        decision_of((BatchModel { pending: p1, attempts: attempts })) == decision_of(
            (BatchModel { pending: p2, attempts: attempts }),
        ),
        forall|b: BlobModel| #[trigger] occurrences(p1, b) == occurrences(p2, b),
{
    broadcast use vstd::seq_lib::group_to_multiset_ensures;

    assert(p1.len() == p1.to_multiset().len());
    assert(p2.len() == p2.to_multiset().len());
}

/// What the bucket stores under one key: a content type and a body.
pub struct StoredObject {
    pub mime: Seq<char>,
    pub content: Seq<u8>,
}

/// The bucket after one successful write of `b`: the object stored under
/// `b`'s path is overwritten with `b`'s content type and body; a failed
/// write stores nothing.
pub open spec fn store_after_write(
    store: Map<Seq<char>, StoredObject>,
    b: BlobModel,
) -> Map<Seq<char>, StoredObject> {
    store.insert(b.path, StoredObject { mime: b.mime, content: b.content })
}

/// LAW (idempotence of retries): writing the same blob again — as a retry
/// after a transient failure does — leaves the bucket exactly as one
/// successful write of it does; repeating the write corrupts nothing.
pub proof fn lemma_rewrite_idempotent(store: Map<Seq<char>, StoredObject>, b: BlobModel)
    ensures
        store_after_write(store_after_write(store, b), b) == store_after_write(store, b),
{
    assert(store_after_write(store_after_write(store, b), b) =~= store_after_write(store, b));
}

} // verus!

