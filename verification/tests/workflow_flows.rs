use arche::errors::Error;
use arche::forms::{FmEmail, FmResetPassword, FmSignIn, FmSignUp};
use arche::queue::Queue;
use arche::token::{issue, verify, Action, Claims};
use arche::workflow::{
    redeem, request_action, sign_in, sign_out, sign_up, Account, ACTION_TTL_SECONDS,
    EMAIL_PRIORITY,
};

fn secret() -> Vec<u8> {
    b"workflow-secret".to_vec()
}

fn account(confirmed: bool, locked: bool) -> Account {
    Account {
        email: b"user@example.com".to_vec(),
        password: b"hunter2hunter2".to_vec(),
        confirmed,
        locked,
        sign_in_count: 0,
        audit_count: 0,
    }
}

fn queue() -> Queue {
    Queue::new(3, 10, 60)
}

#[test]
fn confirm_issue_and_redeem_once() {
    let s = secret();
    let mut q = queue();
    let acct = account(false, false);
    let token = request_action(
        Action::Confirm,
        &acct,
        &b"Confirm your address".to_vec(),
        &b"Use this token: ".to_vec(),
        1000,
        &s,
        &mut q,
    )
    .expect("issuance is owed on an unconfirmed account");

    // the notification job is already durably queued
    assert_eq!(q.jobs.len(), 1);
    assert_eq!(q.jobs[0].topic, b"send-email".to_vec());
    assert_eq!(q.jobs[0].content_type, b"application/json".to_vec());
    assert_eq!(q.jobs[0].priority, EMAIL_PRIORITY);

    // redemption confirms the account, exactly once
    let updated = redeem(&token, Action::Confirm, &acct, &Vec::new(), 2000, &s)
        .expect("first redemption succeeds");
    assert!(updated.confirmed);
    assert_eq!(updated.audit_count, 1);

    // replaying the still-unexpired token is rejected by entity state
    let replay = redeem(&token, Action::Confirm, &updated, &Vec::new(), 2500, &s);
    assert_eq!(replay.unwrap_err(), Error::AlreadyApplied);
    assert_eq!(Error::AlreadyApplied.client_text(), "bad-request");
}

#[test]
fn concurrent_redemptions_serialize_to_one_success() {
    // the entity store serializes the two transactions; whichever runs
    // second sees the updated state and fails
    let s = secret();
    let mut q = queue();
    let acct = account(false, false);
    let token = request_action(
        Action::Confirm,
        &acct,
        &b"s".to_vec(),
        &b"b".to_vec(),
        1000,
        &s,
        &mut q,
    )
    .expect("issuance");
    let first = redeem(&token, Action::Confirm, &acct, &Vec::new(), 1500, &s);
    let winner = first.expect("one of the two racers succeeds");
    let second = redeem(&token, Action::Confirm, &winner, &Vec::new(), 1500, &s);
    assert_eq!(second.unwrap_err(), Error::AlreadyApplied);
    assert_eq!(winner.audit_count, acct.audit_count + 1, "one audit entry for one success");
}

#[test]
fn reset_password_token_expires() {
    let s = secret();
    let acct = account(true, false);
    let c = Claims { act: Action::ResetPassword, email: acct.email.clone() };
    let token = issue(&c, 1, 1000, &s);
    let res = redeem(&token, Action::ResetPassword, &acct, &b"newpassword".to_vec(), 1002, &s);
    let err = res.unwrap_err();
    assert_eq!(err, Error::Expired);
    assert_eq!(err.client_text(), "bad-request");
    // the account value is untouched on failure; the password stands
    assert_eq!(acct.password, b"hunter2hunter2".to_vec());
}

#[test]
fn reset_password_applies_new_password() {
    let s = secret();
    let mut q = queue();
    let acct = account(true, false);
    let token = request_action(
        Action::ResetPassword,
        &acct,
        &b"Reset".to_vec(),
        &b"Token: ".to_vec(),
        1000,
        &s,
        &mut q,
    )
    .expect("reset issuance");
    let updated = redeem(&token, Action::ResetPassword, &acct, &b"freshpassword".to_vec(), 1500, &s)
        .expect("redeem");
    assert_eq!(updated.password, b"freshpassword".to_vec());
}

#[test]
fn unlock_flow_and_preconditions() {
    let s = secret();
    let mut q = queue();

    // unlock cannot be requested for an account that is not locked
    let unlocked = account(true, false);
    let refused = request_action(
        Action::Unlock,
        &unlocked,
        &b"s".to_vec(),
        &b"b".to_vec(),
        1000,
        &s,
        &mut q,
    );
    assert_eq!(refused.unwrap_err(), Error::PreconditionFailed);
    assert_eq!(q.jobs.len(), 0, "a refused issuance queues nothing");
    assert_eq!(Error::PreconditionFailed.client_text(), "precondition-failed");

    let locked = account(true, true);
    let token = request_action(
        Action::Unlock,
        &locked,
        &b"s".to_vec(),
        &b"b".to_vec(),
        1000,
        &s,
        &mut q,
    )
    .expect("unlock issuance");
    let updated = redeem(&token, Action::Unlock, &locked, &Vec::new(), 1500, &s).expect("unlock");
    assert!(!updated.locked);
    let replay = redeem(&token, Action::Unlock, &updated, &Vec::new(), 1600, &s);
    assert_eq!(replay.unwrap_err(), Error::AlreadyApplied);
}

#[test]
fn redeem_checks_action_and_subject() {
    let s = secret();
    let acct = account(false, false);
    let c = Claims { act: Action::Unlock, email: acct.email.clone() };
    let token = issue(&c, 3600, 1000, &s);
    // an unlock token presented at the confirm endpoint fails like a bad token
    let res = redeem(&token, Action::Confirm, &acct, &Vec::new(), 1500, &s);
    assert_eq!(res.unwrap_err(), Error::Malformed);

    let other = Claims { act: Action::Confirm, email: b"other@example.com".to_vec() };
    let token2 = issue(&other, 3600, 1000, &s);
    let res2 = redeem(&token2, Action::Confirm, &acct, &Vec::new(), 1500, &s);
    assert_eq!(res2.unwrap_err(), Error::Malformed);
}

#[test]
fn sign_up_then_duplicate() {
    let s = secret();
    let mut q = queue();
    let created = sign_up(
        &b"user@example.com".to_vec(),
        &b"hunter2hunter2".to_vec(),
        false,
        &b"Welcome".to_vec(),
        &b"Confirm with: ".to_vec(),
        1000,
        &s,
        &mut q,
    )
    .expect("fresh sign-up");
    assert!(!created.confirmed);
    assert_eq!(created.audit_count, 1);
    assert_eq!(q.jobs.len(), 1, "the confirm notification is queued");

    let dup = sign_up(
        &b"user@example.com".to_vec(),
        &b"hunter2hunter2".to_vec(),
        true,
        &b"Welcome".to_vec(),
        &b"Confirm with: ".to_vec(),
        1000,
        &s,
        &mut q,
    );
    assert_eq!(dup.unwrap_err(), Error::PreconditionFailed);
    assert_eq!(q.jobs.len(), 1, "a refused sign-up queues nothing");
}

#[test]
fn sign_in_checks_password_and_standing() {
    let s = secret();
    let good = account(true, false);
    let (updated, token) =
        sign_in(&good, &b"hunter2hunter2".to_vec(), 1000, &s).expect("sign-in");
    assert_eq!(updated.sign_in_count, 1);
    assert_eq!(updated.audit_count, 1);
    let claims = verify(&token, &s, 2000).expect("session token verifies");
    assert_eq!(claims.act, Action::Session);
    assert_eq!(claims.email, b"user@example.com".to_vec());

    // a wrong password fails, and the returned state carries the audit
    // record of the failed attempt; nothing else moves
    let (after_fail, err) = sign_in(&good, &b"wrong-password".to_vec(), 1000, &s).unwrap_err();
    assert_eq!(err, Error::PreconditionFailed);
    assert_eq!(after_fail.audit_count, good.audit_count + 1);
    assert_eq!(after_fail.sign_in_count, good.sign_in_count);
    assert_eq!(after_fail.password, good.password);

    // a standing failure (locked, unconfirmed) records nothing
    let locked = account(true, true);
    let (state, err2) = sign_in(&locked, &b"hunter2hunter2".to_vec(), 1000, &s).unwrap_err();
    assert_eq!(err2, Error::PreconditionFailed);
    assert_eq!(state.audit_count, locked.audit_count);
    let unconfirmed = account(false, false);
    let (state2, _) = sign_in(&unconfirmed, &b"hunter2hunter2".to_vec(), 1000, &s).unwrap_err();
    assert_eq!(state2.audit_count, unconfirmed.audit_count);
}

#[test]
fn session_token_is_refused_by_redemption() {
    let s = secret();
    let acct = account(true, false);
    let (_, token) = sign_in(&acct, &b"hunter2hunter2".to_vec(), 1000, &s).expect("sign-in");
    let res = redeem(&token, Action::Confirm, &acct, &Vec::new(), 1500, &s);
    assert_eq!(res.unwrap_err(), Error::Malformed);
}

#[test]
fn sign_out_records_audit_entry() {
    let acct = account(true, false);
    let after = sign_out(&acct);
    assert_eq!(after.audit_count, acct.audit_count + 1);
    assert_eq!(after.email, acct.email);
}

#[test]
fn notification_payload_is_json_with_token() {
    let s = secret();
    let mut q = queue();
    let acct = account(false, false);
    let token = request_action(
        Action::Confirm,
        &acct,
        &b"Confirm your address".to_vec(),
        &b"Use this token: ".to_vec(),
        1000,
        &s,
        &mut q,
    )
    .expect("issuance");
    let payload = q.jobs[0].payload.clone();
    let v: serde_json::Value = serde_json::from_slice(&payload).expect("payload parses as JSON");
    assert_eq!(v["to"], "user@example.com");
    assert_eq!(v["subject"], "Confirm your address");
    assert!(v["attachments"].as_object().expect("attachments is an object").is_empty());
    let body: Vec<u8> = v["body"].as_str().unwrap().chars().map(|c| c as u8).collect();
    let mut expected = b"Use this token: ".to_vec();
    expected.extend_from_slice(&token);
    assert_eq!(body, expected, "the body carries the prefix and the exact token bytes");
}

#[test]
fn token_ttl_is_three_hours() {
    let s = secret();
    let mut q = queue();
    let acct = account(false, false);
    let token = request_action(
        Action::Confirm,
        &acct,
        &b"s".to_vec(),
        &b"b".to_vec(),
        1000,
        &s,
        &mut q,
    )
    .expect("issuance");
    assert_eq!(ACTION_TTL_SECONDS, 10800);
    assert!(verify(&token, &s, 1000 + 10800).is_ok());
    assert_eq!(verify(&token, &s, 1000 + 10801).unwrap_err(), Error::Expired);
}

#[test]
fn forms_validate() {
    let ok = FmSignUp {
        email: String::from("user@example.com"),
        password: String::from("hunter2"),
    };
    assert!(ok.validate());
    let bad_email = FmSignUp {
        email: String::from("not-an-email"),
        password: String::from("hunter2"),
    };
    assert!(!bad_email.validate());
    let short_password = FmSignUp {
        email: String::from("user@example.com"),
        password: String::from("abc"),
    };
    assert!(!short_password.validate());
    let long_password = FmSignUp {
        email: String::from("user@example.com"),
        password: "x".repeat(33),
    };
    assert!(!long_password.validate());

    assert!(FmSignIn {
        email: String::from("user@example.com"),
        password: String::from("hunter2"),
    }
    .validate());
    assert!(!FmSignIn { email: String::from("@@"), password: String::from("hunter2") }.validate());
    assert!(FmEmail { email: String::from("user@example.com") }.validate());
    assert!(!FmEmail { email: String::from("") }.validate());
    assert!(FmResetPassword {
        password: String::from("hunter2"),
        token: String::from("t"),
    }
    .validate());
    assert!(!FmResetPassword {
        password: String::from("hunter2"),
        token: String::from(""),
    }
    .validate());
}

#[test]
fn client_text_collapses_redemption_errors() {
    assert_eq!(Error::Malformed.client_text(), "bad-request");
    assert_eq!(Error::InvalidSignature.client_text(), "bad-request");
    assert_eq!(Error::Expired.client_text(), "bad-request");
    assert_eq!(Error::AlreadyApplied.client_text(), "bad-request");
    assert_eq!(Error::TransactionConflict.client_text(), "bad-request");
    assert_eq!(Error::PreconditionFailed.client_text(), "precondition-failed");
    assert_eq!(Error::QueueUnavailable.client_text(), "queue-unavailable");
    assert_eq!(Error::EncodingError.client_text(), "encoding-error");
}
