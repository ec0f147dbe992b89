use vstd::prelude::*;
use vstd::string::{StringSliceAdditionalSpecFns, StrSliceExecFns};
use crate::errors::Error;
use crate::notify::{encode_notification, notification_json};
use crate::outside::{application_json, lit_bytes};
use crate::queue::{enqueue_spec, Queue};
use crate::support::{bytes_eq, clone_bytes, push_bytes};
use crate::token::{issue, issue_spec, verify, Action, Claims, ClaimsView};

verus! {

/// Lifetime of an action token: three hours.
pub const ACTION_TTL_SECONDS: u64 = 60 * 60 * 3;

/// Lifetime of a session token handed out on sign-in: one day.
pub const SESSION_TTL_SECONDS: u64 = 60 * 60 * 24;

/// Priority of notification jobs; fixed for the whole action class.
pub const EMAIL_PRIORITY: u32 = 6;

/// The topic that routes notification jobs to the mail worker.
pub open spec fn email_topic() -> Seq<u8> {
    lit_bytes("send-email"@)
}

/// The byte form of the notification topic.
pub fn email_topic_bytes() -> (r: Vec<u8>)
    ensures
        r@ == email_topic(),
{
    let s = "send-email";
    proof {
        reveal_strlit("send-email");
        vstd::string::is_ascii_spec_bytes(s);
        assert(s.spec_bytes() =~= lit_bytes(s@));
    }
    s.as_bytes_vec()
}

/// The durable state of one account, as far as the security workflows read
/// and change it.  The audit count stands for the audit log: every recorded
/// transition grows it by one.
#[derive(Debug)]
pub struct Account {
    pub email: Vec<u8>,
    pub password: Vec<u8>,
    pub confirmed: bool,
    pub locked: bool,
    pub sign_in_count: u64,
    pub audit_count: u64,
}

/// Mathematical image of `Account`.
#[verifier::ext_equal]
pub struct AccountView {
    pub email: Seq<u8>,
    pub password: Seq<u8>,
    pub confirmed: bool,
    pub locked: bool,
    pub sign_in_count: u64,
    pub audit_count: u64,
}

impl View for Account {
    type V = AccountView;

    open spec fn view(&self) -> AccountView {
        AccountView {
            email: self.email@,
            password: self.password@,
            confirmed: self.confirmed,
            locked: self.locked,
            sign_in_count: self.sign_in_count,
            audit_count: self.audit_count,
        }
    }
}

/// The entity-state requirement that justifies issuing, and later
/// redeeming, a token for `act`.  Session tokens are never redeemed by a
/// workflow, so no state justifies one.
pub open spec fn precondition(act: Action, a: AccountView) -> bool {
    match act {
        Action::Confirm => !a.confirmed,
        Action::Unlock => a.locked,
        Action::ResetPassword => true,
        Action::Session => false,
    }
}

/// The state transition a successful redemption applies, together with its
/// audit record.
pub open spec fn apply_transition(act: Action, a: AccountView, new_password: Seq<u8>) -> AccountView {
    match act {
        Action::Confirm => AccountView {
            confirmed: true,
            audit_count: (a.audit_count + 1) as u64,
            ..a
        },
        Action::Unlock => AccountView { locked: false, audit_count: (a.audit_count + 1) as u64, ..a },
        Action::ResetPassword => AccountView {
            password: new_password,
            audit_count: (a.audit_count + 1) as u64,
            ..a
        },
        Action::Session => a,
    }
}

/// The token the issuance phase signs for `act` on this account.
pub open spec fn issued_token(act: Action, a: AccountView, now: u64, secret: Seq<u8>) -> Seq<u8> {
    issue_spec(ClaimsView { act, email: a.email }, ACTION_TTL_SECONDS, now, secret)
}

/// The notification payload the issuance phase enqueues: addressed to the
/// subject, with the token appended to the body text.
pub open spec fn issued_payload(
    act: Action,
    a: AccountView,
    subject: Seq<u8>,
    body_prefix: Seq<u8>,
    now: u64,
    secret: Seq<u8>,
) -> Seq<u8> {
    notification_json(a.email, subject, body_prefix + issued_token(act, a, now, secret))
}

/// The whole redemption decision, as a function of the presented token, the
/// endpoint's action, the current entity state and the clock: every check
/// and the transition it gates.
pub open spec fn redeem_spec(
    token: Seq<u8>,
    endpoint: Action,
    a: AccountView,
    new_password: Seq<u8>,
    now: u64,
    secret: Seq<u8>,
) -> Result<AccountView, Error> {
    match crate::token::verify_spec(token, secret, now) {
        Err(e) => Err(e),
        Ok(c) => {
            if c.act != endpoint {
                Err(Error::Malformed)
            } else if c.email != a.email {
                Err(Error::Malformed)
            } else if !precondition(endpoint, a) {
                Err(Error::AlreadyApplied)
            } else {
                Ok(apply_transition(endpoint, a, new_password))
            }
        },
    }
}

/// Image of an executable redemption result.
pub open spec fn account_result_view(r: Result<Account, Error>) -> Result<AccountView, Error> {
    match r {
        Ok(a) => Ok(a@),
        Err(e) => Err(e),
    }
}

/// Issuance phase of one security action: checks the precondition on the
/// entity, signs the action token, and enqueues the notification job that
/// will carry it to the subject.  On a failed precondition nothing is
/// signed and nothing is queued.  The caller supplies the localized subject
/// and body text; the token is appended to the body.
pub fn request_action(
    act: Action,
    account: &Account,
    subject: &Vec<u8>,
    body_prefix: &Vec<u8>,
    now: u64,
    secret: &Vec<u8>,
    qu: &mut Queue,
) -> (r: Result<Vec<u8>, Error>)
    requires
        !(act is Session),
        now + ACTION_TTL_SECONDS <= u64::MAX,
        old(qu)@.next_id < u64::MAX,
    ensures
        (r is Ok) <==> precondition(act, account@),
        r matches Ok(t) ==> t@ == issued_token(act, account@, now, secret@),
        precondition(act, account@) ==> final(qu)@ == enqueue_spec(
            old(qu)@,
            email_topic(),
            lit_bytes("application/json"@),
            EMAIL_PRIORITY,
            issued_payload(act, account@, subject@, body_prefix@, now, secret@),
            now,
        ),
        !precondition(act, account@) ==> final(qu)@ == old(qu)@ && r == Err::<Vec<u8>, Error>(
            Error::PreconditionFailed,
        ),
{
    let allowed = match act {
        Action::Confirm => !account.confirmed,
        Action::Unlock => account.locked,
        Action::ResetPassword => true,
        Action::Session => false,
    };
    if !allowed {
        return Err(Error::PreconditionFailed);
    }
    let claims = Claims { act, email: clone_bytes(&account.email) };
    let token = issue(&claims, ACTION_TTL_SECONDS, now, secret);
    let mut body = clone_bytes(body_prefix);
    push_bytes(&mut body, token.as_slice());
    let payload = encode_notification(&account.email, subject, &body);
    let content_type = application_json();
    let topic = email_topic_bytes();
    qu.enqueue(topic, content_type, EMAIL_PRIORITY, payload, now);
    Ok(token)
}

/// Redemption phase of one security action.  Inside the entity store's
/// transaction, the caller passes the current entity state in and writes
/// the returned state back; check and transition are one step here, so two
/// racing redemptions can never both pass the check against the same state.
pub fn redeem(
    token: &Vec<u8>,
    endpoint: Action,
    account: &Account,
    new_password: &Vec<u8>,
    now: u64,
    secret: &Vec<u8>,
) -> (r: Result<Account, Error>)
    requires
        account@.audit_count < u64::MAX,
    ensures
        account_result_view(r) == redeem_spec(
            token@,
            endpoint,
            account@,
            new_password@,
            now,
            secret@,
        ),
{
    let claims = match verify(token, secret, now) {
        Ok(c) => c,
        Err(e) => {
            return Err(e);
        },
    };
    if claims.act != endpoint {
        return Err(Error::Malformed);
    }
    if !bytes_eq(claims.email.as_slice(), account.email.as_slice()) {
        return Err(Error::Malformed);
    }
    let allowed = match endpoint {
        Action::Confirm => !account.confirmed,
        Action::Unlock => account.locked,
        Action::ResetPassword => true,
        Action::Session => false,
    };
    if !allowed {
        return Err(Error::AlreadyApplied);
    }
    let updated = Account {
        email: clone_bytes(&account.email),
        password: match endpoint {
            Action::ResetPassword => clone_bytes(new_password),
            _ => clone_bytes(&account.password),
        },
        confirmed: match endpoint {
            Action::Confirm => true,
            _ => account.confirmed,
        },
        locked: match endpoint {
            Action::Unlock => false,
            _ => account.locked,
        },
        sign_in_count: account.sign_in_count,
        audit_count: account.audit_count + 1,
    };
    proof {
        assert(updated@ =~= apply_transition(endpoint, account@, new_password@));
    }
    Ok(updated)
}

/// Whether a sign-in attempt may succeed: the stored password check must
/// pass and the account must be in good standing (confirmed, not locked).
pub open spec fn sign_in_allowed(a: AccountView, password: Seq<u8>) -> bool {
    a.password == password && a.confirmed && !a.locked
}

/// The account after a recorded successful sign-in.
pub open spec fn signed_in(a: AccountView) -> AccountView {
    AccountView {
        sign_in_count: (a.sign_in_count + 1) as u64,
        audit_count: (a.audit_count + 1) as u64,
        ..a
    }
}

/// The account after a failed sign-in attempt is recorded in the audit log.
pub open spec fn failed_sign_in(a: AccountView) -> AccountView {
    AccountView { audit_count: (a.audit_count + 1) as u64, ..a }
}

/// Sign-in decision: checks the supplied password and the account's
/// standing, records the sign-in, and issues the session token that the
/// response carries.  The error arm hands back the account state to
/// persist alongside the failure: a wrong password is itself an audited
/// event, so that state carries one new audit record; an account blocked
/// by its standing (unconfirmed or locked) is returned unchanged.
pub fn sign_in(account: &Account, password: &Vec<u8>, now: u64, secret: &Vec<u8>) -> (r: Result<
    (Account, Vec<u8>),
    (Account, Error),
>)
    requires
        now + SESSION_TTL_SECONDS <= u64::MAX,
        account@.audit_count < u64::MAX,
        account@.sign_in_count < u64::MAX,
    ensures
        (r is Ok) <==> sign_in_allowed(account@, password@),
        r matches Ok(p) ==> p.0@ == signed_in(account@) && p.1@ == issue_spec(
            ClaimsView { act: Action::Session, email: account@.email },
            SESSION_TTL_SECONDS,
            now,
            secret@,
        ),
        r matches Err(p) ==> p.1 == Error::PreconditionFailed && p.0@ == (
        if account@.password == password@ {
            account@
        } else {
            failed_sign_in(account@)
        }),
{
    if !bytes_eq(password.as_slice(), account.password.as_slice()) {
        let recorded = Account {
            email: clone_bytes(&account.email),
            password: clone_bytes(&account.password),
            confirmed: account.confirmed,
            locked: account.locked,
            sign_in_count: account.sign_in_count,
            audit_count: account.audit_count + 1,
        };
        proof {
            assert(recorded@ =~= failed_sign_in(account@));
        }
        return Err((recorded, Error::PreconditionFailed));
    }
    if !account.confirmed || account.locked {
        let unchanged = Account {
            email: clone_bytes(&account.email),
            password: clone_bytes(&account.password),
            confirmed: account.confirmed,
            locked: account.locked,
            sign_in_count: account.sign_in_count,
            audit_count: account.audit_count,
        };
        proof {
            assert(unchanged@ =~= account@);
        }
        return Err((unchanged, Error::PreconditionFailed));
    }
    let claims = Claims { act: Action::Session, email: clone_bytes(&account.email) };
    let token = issue(&claims, SESSION_TTL_SECONDS, now, secret);
    let updated = Account {
        email: clone_bytes(&account.email),
        password: clone_bytes(&account.password),
        confirmed: account.confirmed,
        locked: account.locked,
        sign_in_count: account.sign_in_count + 1,
        audit_count: account.audit_count + 1,
    };
    proof {
        assert(updated@ =~= signed_in(account@));
    }
    Ok((updated, token))
}

/// A brand-new account: unconfirmed, unlocked, with the sign-up itself as
/// the first audit record.
pub open spec fn new_account(email: Seq<u8>, password: Seq<u8>) -> AccountView {
    AccountView {
        email: email,
        password: password,
        confirmed: false,
        locked: false,
        sign_in_count: 0,
        audit_count: 1,
    }
}

/// Sign-up decision: refuses an address that already has an account;
/// otherwise creates the account and starts the confirm-email workflow,
/// whose notification job is enqueued before the call returns.
pub fn sign_up(
    email: &Vec<u8>,
    password: &Vec<u8>,
    existing: bool,
    subject: &Vec<u8>,
    body_prefix: &Vec<u8>,
    now: u64,
    secret: &Vec<u8>,
    qu: &mut Queue,
) -> (r: Result<Account, Error>)
    requires
        now + ACTION_TTL_SECONDS <= u64::MAX,
        old(qu)@.next_id < u64::MAX,
    ensures
        (r is Ok) <==> !existing,
        existing ==> final(qu)@ == old(qu)@ && r == Err::<Account, Error>(Error::PreconditionFailed),
        r matches Ok(a) ==> a@ == new_account(email@, password@) && final(qu)@ == enqueue_spec(
            old(qu)@,
            email_topic(),
            lit_bytes("application/json"@),
            EMAIL_PRIORITY,
            issued_payload(
                Action::Confirm,
                new_account(email@, password@),
                subject@,
                body_prefix@,
                now,
                secret@,
            ),
            now,
        ),
{
    if existing {
        return Err(Error::PreconditionFailed);
    }
    let account = Account {
        email: clone_bytes(email),
        password: clone_bytes(password),
        confirmed: false,
        locked: false,
        sign_in_count: 0,
        audit_count: 1,
    };
    proof {
        assert(account@ =~= new_account(email@, password@));
    }
    let res = request_action(Action::Confirm, &account, subject, body_prefix, now, secret, qu);
    match res {
        Ok(_) => Ok(account),
        Err(_) => {
            proof {
                assert(precondition(Action::Confirm, account@));
                assert(false);
            }
            Err(Error::PreconditionFailed)
        },
    }
}

/// Sign-out: the only durable effect is the audit record of the event.
pub fn sign_out(account: &Account) -> (r: Account)
    requires
        account@.audit_count < u64::MAX,
    ensures
        r@ == (AccountView { audit_count: (account@.audit_count + 1) as u64, ..account@ }),
{
    let r = Account {
        email: clone_bytes(&account.email),
        password: clone_bytes(&account.password),
        confirmed: account.confirmed,
        locked: account.locked,
        sign_in_count: account.sign_in_count,
        audit_count: account.audit_count + 1,
    };
    proof {
        assert(r@ =~= AccountView { audit_count: (account@.audit_count + 1) as u64, ..account@ });
    }
    r
}

/// One successful redemption closes the token for good on the confirm and
/// unlock workflows: replaying the same token against the resulting state
/// fails — as `AlreadyApplied` while the token is still alive, as the
/// generic expiry failure afterwards — and the audit log of the one
/// success has exactly one new entry.  With the entity store serializing
/// the two transactions, two racing redemptions therefore see exactly one
/// success between them.
pub proof fn lemma_single_redemption(
    token: Seq<u8>,
    endpoint: Action,
    a: AccountView,
    new_password: Seq<u8>,
    t1: u64,
    t2: u64,
    secret: Seq<u8>,
)
    requires
        endpoint is Confirm || endpoint is Unlock,
        a.audit_count < u64::MAX,
        redeem_spec(token, endpoint, a, new_password, t1, secret) is Ok,
    ensures
        ({
            let a1 = redeem_spec(token, endpoint, a, new_password, t1, secret)->Ok_0;
            let second = redeem_spec(token, endpoint, a1, new_password, t2, secret);
            &&& a1.audit_count == a.audit_count + 1
            &&& !(second is Ok)
            &&& second == Err::<AccountView, Error>(Error::AlreadyApplied) || second == Err::<
                AccountView,
                Error,
            >(Error::Expired)
        }),
{
    let c = crate::token::verify_spec(token, secret, t1)->Ok_0;
    let a1 = redeem_spec(token, endpoint, a, new_password, t1, secret)->Ok_0;
    assert(a1 == apply_transition(endpoint, a, new_password));
    assert(a1.email == a.email);
    assert(!precondition(endpoint, a1));
    match crate::token::verify_spec(token, secret, t2) {
        Err(e) => {
            assert(e == Error::Expired);
        },
        Ok(c2) => {
            assert(c2 == c);
        },
    }
}

} // verus!
