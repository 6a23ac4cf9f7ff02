use batch_upload::batch::{BatchState, RoundDecision};
use batch_upload::blob::Blob;

fn blob(path: &str, mime: &str, content: &[u8]) -> Blob {
    Blob { path: path.to_string(), mime: mime.to_string(), content: content.to_vec() }
}

fn paths(blobs: &[Blob]) -> Vec<String> {
    let mut ps: Vec<String> = blobs.iter().map(|b| b.path.clone()).collect();
    ps.sort();
    ps
}

#[test]
fn empty_batch_succeeds_with_zero_writes() {
    let mut state = BatchState::new(Vec::new());
    let sent = state.begin_round();
    assert_eq!(sent.len(), 0);
    assert_eq!(state.round_decision(), RoundDecision::AllWritten);
    assert_eq!(state.attempts(), 1);
}

#[test]
fn all_succeed_first_round_writes_each_blob_once() {
    let batch = vec![
        blob("a", "text/plain", b"alpha"),
        blob("b", "application/json", b"{}"),
    ];
    let mut state = BatchState::new(batch);
    let sent = state.begin_round();
    assert_eq!(paths(&sent), vec!["a".to_string(), "b".to_string()]);
    // Every write succeeds: nothing is recorded as failed.
    assert_eq!(state.round_decision(), RoundDecision::AllWritten);
    assert_eq!(state.attempts(), 1);
    assert_eq!(state.pending_count(), 0);
}

#[test]
fn blob_failing_twice_succeeds_on_third_round() {
    let always_ok = blob("a", "text/plain", b"alpha");
    let late = blob("b", "text/plain", b"beta");
    let mut writes_of_late = 0;

    let mut state = BatchState::new(vec![always_ok, late]);

    // Round 1: both dispatched, `b` fails.
    let sent = state.begin_round();
    assert_eq!(paths(&sent), vec!["a".to_string(), "b".to_string()]);
    for b in sent {
        if b.path == "b" {
            writes_of_late += 1;
            state.record_failure(b);
        }
    }
    assert_eq!(state.round_decision(), RoundDecision::Retry);

    // Round 2: only `b` is re-dispatched, and fails again.
    let sent = state.begin_round();
    assert_eq!(paths(&sent), vec!["b".to_string()]);
    for b in sent {
        writes_of_late += 1;
        state.record_failure(b);
    }
    assert_eq!(state.round_decision(), RoundDecision::Retry);

    // Round 3: `b` succeeds.
    let sent = state.begin_round();
    assert_eq!(paths(&sent), vec!["b".to_string()]);
    writes_of_late += sent.len();
    assert_eq!(state.round_decision(), RoundDecision::AllWritten);

    assert_eq!(writes_of_late, 3);
    assert_eq!(state.attempts(), 3);
}

#[test]
fn exhaustion_after_three_failed_rounds() {
    let mut state = BatchState::new(vec![blob("c", "text/plain", b"gamma")]);
    for round in 1..=3u32 {
        let sent = state.begin_round();
        assert_eq!(sent.len(), 1);
        for b in sent {
            state.record_failure(b);
        }
        assert_eq!(state.attempts(), round);
        if round < 3 {
            assert_eq!(state.round_decision(), RoundDecision::Retry);
        }
    }
    assert_eq!(state.round_decision(), RoundDecision::RetryExhausted { unwritten: 1 });
}

#[test]
fn exhaustion_reports_every_unwritten_blob() {
    let mut state = BatchState::new(vec![
        blob("c", "text/plain", b"gamma"),
        blob("d", "text/plain", b"delta"),
    ]);
    for _ in 0..3 {
        let sent = state.begin_round();
        for b in sent {
            state.record_failure(b);
        }
    }
    assert_eq!(state.round_decision(), RoundDecision::RetryExhausted { unwritten: 2 });
    assert_eq!(state.pending_count(), 2);
}

#[test]
fn completion_order_never_changes_the_outcome() {
    let batch = || vec![blob("x", "text/plain", b"ex"), blob("y", "text/plain", b"why")];

    // Both writes of round 1 fail; the completions arrive in opposite orders.
    let mut forward = BatchState::new(batch());
    let sent = forward.begin_round();
    for b in sent {
        forward.record_failure(b);
    }

    let mut backward = BatchState::new(batch());
    let mut sent = backward.begin_round();
    while let Some(b) = sent.pop() {
        backward.record_failure(b);
    }

    assert_eq!(forward.round_decision(), backward.round_decision());
    assert_eq!(forward.pending_count(), backward.pending_count());

    // The next round dispatches the same set of blobs either way.
    let next_forward = forward.begin_round();
    let next_backward = backward.begin_round();
    assert_eq!(paths(&next_forward), paths(&next_backward));
}

#[test]
fn retry_resends_the_identical_blob() {
    let original = blob("k", "application/octet-stream", b"\x00\x01\x02");
    let mut state = BatchState::new(vec![original]);

    let sent = state.begin_round();
    for b in sent {
        state.record_failure(b);
    }
    let resent = state.begin_round();

    // The retried write carries the same key, content type and body, so a
    // store that overwrites by key ends up exactly as after one success.
    assert_eq!(resent.len(), 1);
    assert_eq!(resent[0].path, "k");
    assert_eq!(resent[0].mime, "application/octet-stream");
    assert_eq!(resent[0].content, vec![0u8, 1u8, 2u8]);
}

#[test]
fn scenario_mixed_batch_exhausts_on_the_stuck_blob() {
    // A always succeeds, B fails in rounds 1 and 2, C fails in every round.
    let mut state = BatchState::new(vec![
        blob("a", "text/plain", b"alpha"),
        blob("b", "text/plain", b"beta"),
        blob("c", "text/plain", b"gamma"),
    ]);

    // Round 1 dispatches {a, b, c}; a is written, b and c fail.
    let sent = state.begin_round();
    assert_eq!(paths(&sent), vec!["a".to_string(), "b".to_string(), "c".to_string()]);
    for b in sent {
        if b.path != "a" {
            state.record_failure(b);
        }
    }
    assert_eq!(state.round_decision(), RoundDecision::Retry);

    // Round 2 dispatches {b, c}; b is written, c fails.
    let sent = state.begin_round();
    assert_eq!(paths(&sent), vec!["b".to_string(), "c".to_string()]);
    for b in sent {
        if b.path != "b" {
            state.record_failure(b);
        }
    }
    assert_eq!(state.round_decision(), RoundDecision::Retry);

    // Round 3 dispatches {c} alone; c fails again and the attempts are spent.
    let sent = state.begin_round();
    assert_eq!(paths(&sent), vec!["c".to_string()]);
    for b in sent {
        state.record_failure(b);
    }
    assert_eq!(state.round_decision(), RoundDecision::RetryExhausted { unwritten: 1 });
    assert_eq!(state.attempts(), 3);
}
