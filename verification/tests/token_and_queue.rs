use arche::errors::Error;
use arche::queue::{JobStatus, Queue};
use arche::token::{issue, tag, verify, Action, Claims};

fn secret() -> Vec<u8> {
    b"a-process-wide-secret-key".to_vec()
}

fn claims(act: Action, email: &str) -> Claims {
    Claims { act, email: email.as_bytes().to_vec() }
}

#[test]
fn issue_verify_round_trip() {
    let s = secret();
    let c = claims(Action::Confirm, "user@example.com");
    let token = issue(&c, 3600, 1000, &s);
    let got = verify(&token, &s, 1500).expect("token should verify before expiry");
    assert_eq!(got.act, Action::Confirm);
    assert_eq!(got.email, b"user@example.com".to_vec());
}

#[test]
fn verify_at_expiry_boundary() {
    let s = secret();
    let c = claims(Action::Confirm, "user@example.com");
    let token = issue(&c, 3600, 1000, &s);
    // the token carries exp = 4600 and is still alive exactly at that instant
    assert!(verify(&token, &s, 4600).is_ok());
    assert_eq!(verify(&token, &s, 4601).unwrap_err(), Error::Expired);
}

#[test]
fn expired_token_rejected() {
    let s = secret();
    let c = claims(Action::ResetPassword, "user@example.com");
    let token = issue(&c, 1, 1000, &s);
    assert_eq!(verify(&token, &s, 1002).unwrap_err(), Error::Expired);
}

#[test]
fn tampering_any_byte_gives_invalid_signature() {
    let s = secret();
    let c = claims(Action::Unlock, "user@example.com");
    let token = issue(&c, 3600, 1000, &s);
    for i in 0..token.len() {
        let mut forged = token.clone();
        forged[i] ^= 0x01;
        assert_eq!(verify(&forged, &s, 1500).unwrap_err(), Error::InvalidSignature, "byte {}", i);
    }
}

#[test]
fn wrong_secret_gives_invalid_signature() {
    let s = secret();
    let c = claims(Action::Confirm, "user@example.com");
    let token = issue(&c, 3600, 1000, &s);
    let other = b"another-secret".to_vec();
    assert_eq!(verify(&token, &other, 1500).unwrap_err(), Error::InvalidSignature);
}

#[test]
fn short_token_is_malformed() {
    let s = secret();
    assert_eq!(verify(&vec![1, 2, 3], &s, 0).unwrap_err(), Error::Malformed);
    assert_eq!(verify(&Vec::new(), &s, 0).unwrap_err(), Error::Malformed);
}

#[test]
fn unknown_action_code_is_malformed() {
    let s = secret();
    // a correctly signed body whose action byte names no action
    let mut body: Vec<u8> = vec![9];
    body.extend_from_slice(&4600u64.to_le_bytes());
    body.extend_from_slice(b"user@example.com");
    let sig = tag(s.as_slice(), body.as_slice());
    let mut token = body;
    token.extend_from_slice(&sig.to_le_bytes());
    assert_eq!(verify(&token, &s, 1500).unwrap_err(), Error::Malformed);
}

fn topic() -> Vec<u8> {
    b"send-email".to_vec()
}

fn enqueue_simple(q: &mut Queue, priority: u32, payload: &[u8], now: u64) -> u64 {
    q.enqueue(topic(), b"application/json".to_vec(), priority, payload.to_vec(), now)
}

#[test]
fn dequeue_priority_over_enqueue_order() {
    let mut q = Queue::new(3, 10, 60);
    enqueue_simple(&mut q, 5, b"high", 1);
    enqueue_simple(&mut q, 1, b"low", 2);
    let first = q.dequeue(&topic(), 10).expect("one job should come out");
    assert_eq!(first.payload, b"high".to_vec());

    let mut q2 = Queue::new(3, 10, 60);
    enqueue_simple(&mut q2, 1, b"low", 1);
    enqueue_simple(&mut q2, 5, b"high", 2);
    let first2 = q2.dequeue(&topic(), 10).expect("one job should come out");
    assert_eq!(first2.payload, b"high".to_vec());
}

#[test]
fn dequeue_fifo_within_priority() {
    let mut q = Queue::new(3, 10, 60);
    enqueue_simple(&mut q, 4, b"a", 1);
    enqueue_simple(&mut q, 4, b"b", 2);
    let first = q.dequeue(&topic(), 10).expect("job a");
    let second = q.dequeue(&topic(), 10).expect("job b");
    assert_eq!(first.payload, b"a".to_vec());
    assert_eq!(second.payload, b"b".to_vec());
    assert!(q.dequeue(&topic(), 10).is_none());
}

#[test]
fn dequeue_respects_topic() {
    let mut q = Queue::new(3, 10, 60);
    q.enqueue(b"other-topic".to_vec(), b"application/json".to_vec(), 9, b"x".to_vec(), 1);
    assert!(q.dequeue(&topic(), 10).is_none());
    assert!(q.dequeue(&b"other-topic".to_vec(), 10).is_some());
}

#[test]
fn claimed_job_is_exclusive() {
    let mut q = Queue::new(3, 10, 60);
    enqueue_simple(&mut q, 5, b"only", 1);
    assert!(q.dequeue(&topic(), 10).is_some());
    assert!(q.dequeue(&topic(), 11).is_none());
}

#[test]
fn ack_is_idempotent_and_final() {
    let mut q = Queue::new(3, 10, 60);
    enqueue_simple(&mut q, 5, b"work", 1);
    let job = q.dequeue(&topic(), 10).expect("job");
    q.ack(job.id);
    q.ack(job.id);
    assert!(q.dequeue(&topic(), 100).is_none());
    assert_eq!(q.jobs[0].status, JobStatus::Done);
}

#[test]
fn retries_exhaust_into_dead() {
    let mut q = Queue::new(2, 0, 60);
    enqueue_simple(&mut q, 5, b"flaky", 1);
    for _ in 0..2 {
        let job = q.dequeue(&topic(), 10).expect("still retryable");
        q.fail(job.id, 10);
        assert_eq!(q.jobs[0].status, JobStatus::Pending);
    }
    let job = q.dequeue(&topic(), 10).expect("last attempt");
    q.fail(job.id, 10);
    assert_eq!(q.jobs[0].status, JobStatus::Dead);
    assert!(q.dequeue(&topic(), 1000).is_none());
    q.restart();
    assert!(q.dequeue(&topic(), 2000).is_none());
}

#[test]
fn retry_backoff_delays_next_claim() {
    let mut q = Queue::new(3, 50, 60);
    enqueue_simple(&mut q, 5, b"later", 1);
    let job = q.dequeue(&topic(), 10).expect("job");
    q.fail(job.id, 10);
    assert!(q.dequeue(&topic(), 59).is_none());
    assert!(q.dequeue(&topic(), 60).is_some());
}

#[test]
fn enqueue_survives_restart() {
    let mut q = Queue::new(3, 10, 60);
    let id = enqueue_simple(&mut q, 5, b"durable", 1);
    q.restart();
    let job = q.dequeue(&topic(), 10).expect("job survived the restart");
    assert_eq!(job.id, id);
    assert_eq!(job.payload, b"durable".to_vec());
}

#[test]
fn restart_releases_claims() {
    let mut q = Queue::new(3, 10, 60);
    enqueue_simple(&mut q, 5, b"redeliver", 1);
    assert!(q.dequeue(&topic(), 10).is_some());
    q.restart();
    assert!(q.dequeue(&topic(), 20).is_some(), "claim released, job redelivered");
}

#[test]
fn claim_timeout_reclaims() {
    let mut q = Queue::new(3, 10, 60);
    enqueue_simple(&mut q, 5, b"stuck", 1);
    assert!(q.dequeue(&topic(), 100).is_some());
    q.reclaim(150);
    assert!(q.dequeue(&topic(), 151).is_none(), "claim still within its timeout");
    q.reclaim(160);
    let job = q.dequeue(&topic(), 161).expect("reclaimed after the timeout");
    assert_eq!(job.payload, b"stuck".to_vec());
}
