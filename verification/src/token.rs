use vstd::prelude::*;
use vstd::bytes::*;
use crate::errors::Error;
use crate::support::push_bytes;

verus! {

/// The closed set of purposes a token can be issued for.  The three action
/// variants drive the security workflows; `Session` marks the credential a
/// successful sign-in hands back.
#[derive(Clone, Copy, Debug, PartialEq, Eq, Structural)]
pub enum Action {
    Confirm,
    Unlock,
    ResetPassword,
    Session,
}

/// The claim set a token carries: the action it authorizes and the subject
/// (an e-mail address, as bytes) it is bound to.
#[derive(Debug)]
pub struct Claims {
    pub act: Action,
    pub email: Vec<u8>,
}

/// Mathematical image of `Claims`.
#[verifier::ext_equal]
pub struct ClaimsView {
    pub act: Action,
    pub email: Seq<u8>,
}

impl View for Claims {
    type V = ClaimsView;

    open spec fn view(&self) -> ClaimsView {
        ClaimsView { act: self.act, email: self.email@ }
    }
}

pub open spec fn act_code(a: Action) -> u8 {
    match a {
        Action::Confirm => 1,
        Action::Unlock => 2,
        Action::ResetPassword => 3,
        Action::Session => 4,
    }
}

pub open spec fn act_of_code(b: u8) -> Option<Action> {
    if b == 1 {
        Some(Action::Confirm)
    } else if b == 2 {
        Some(Action::Unlock)
    } else if b == 3 {
        Some(Action::ResetPassword)
    } else if b == 4 {
        Some(Action::Session)
    } else {
        None
    }
}

fn act_encode(a: Action) -> (r: u8)
    ensures
        r == act_code(a),
{
    match a {
        Action::Confirm => 1,
        Action::Unlock => 2,
        Action::ResetPassword => 3,
        Action::Session => 4,
    }
}

fn act_decode(b: u8) -> (r: Option<Action>)
    ensures
        r == act_of_code(b),
{
    if b == 1 {
        Some(Action::Confirm)
    } else if b == 2 {
        Some(Action::Unlock)
    } else if b == 3 {
        Some(Action::ResetPassword)
    } else if b == 4 {
        Some(Action::Session)
    } else {
        None
    }
}

/// Internal 256-bit state of the keyed tag.
#[derive(Clone, Copy, Debug)]
pub struct TagState {
    pub v0: u64,
    pub v1: u64,
    pub v2: u64,
    pub v3: u64,
}

/// One ARX mixing round of the tag state: the SipHash round function
/// (additions, fixed rotations and xors across the four lanes).
pub open spec fn tag_round(s: TagState) -> TagState {
    let a0 = s.v0.wrapping_add(s.v1);
    let b1 = ((s.v1 << 13) | (s.v1 >> 51)) ^ a0;
    let c0 = (a0 << 32) | (a0 >> 32);
    let a2 = s.v2.wrapping_add(s.v3);
    let b3 = ((s.v3 << 16) | (s.v3 >> 48)) ^ a2;
    let d0 = c0.wrapping_add(b3);
    let c3 = ((b3 << 21) | (b3 >> 43)) ^ d0;
    let c2 = a2.wrapping_add(b1);
    let c1 = ((b1 << 17) | (b1 >> 47)) ^ c2;
    let d2 = (c2 << 32) | (c2 >> 32);
    TagState { v0: d0, v1: c1, v2: d2, v3: c3 }
}

/// The state after one 64-bit word is absorbed: the word enters the state
/// on both sides of two mixing rounds, as in SipHash-2-4 compression.
pub open spec fn tag_absorb_u64(s: TagState, w: u64) -> TagState {
    let t = tag_round(tag_round(TagState { v3: s.v3 ^ w, ..s }));
    TagState { v0: t.v0 ^ w, ..t }
}

/// One input byte, absorbed as a word.
pub open spec fn tag_absorb_byte(s: TagState, b: u8) -> TagState {
    tag_absorb_u64(s, b as u64)
}

/// A whole byte sequence, absorbed left to right.
pub open spec fn tag_absorb_seq(s: TagState, m: Seq<u8>) -> TagState
    decreases m.len(),
{
    if m.len() == 0 {
        s
    } else {
        tag_absorb_seq(tag_absorb_byte(s, m[0]), m.skip(1))
    }
}

/// Initial state: the SipHash initialization constants.
pub open spec fn tag_init() -> TagState {
    TagState {
        v0: 0x736f6d6570736575,
        v1: 0x646f72616e646f6d,
        v2: 0x6c7967656e657261,
        v3: 0x7465646279746573,
    }
}

/// Output extraction: a domain byte into one lane, four more rounds, then
/// the xor of all four lanes — the 64-bit tag is a compression of the
/// 256-bit state, not an invertible image of it.
pub open spec fn tag_finalize(s: TagState) -> u64 {
    let t = tag_round(tag_round(tag_round(tag_round(TagState { v2: s.v2 ^ 0xff, ..s }))));
    t.v0 ^ t.v1 ^ t.v2 ^ t.v3
}

/// The signature of `msg` under `secret`: a wide-state keyed construction
/// in the shape of SipHash-2-4.  The secret and its length are absorbed
/// before the message, and the message's own length closes the input, so a
/// tag for one message gives no footing to extend that message, and the
/// published 64 bits reveal no invertible image of the keyed state.
pub open spec fn tag_of(secret: Seq<u8>, msg: Seq<u8>) -> u64 {
    let keyed = tag_absorb_u64(tag_absorb_seq(tag_init(), secret), secret.len() as u64);
    let fed = tag_absorb_u64(tag_absorb_seq(keyed, msg), msg.len() as u64);
    tag_finalize(fed)
}

fn tag_round_exec(s: TagState) -> (r: TagState)
    ensures
        r == tag_round(s),
{
    let a0 = s.v0.wrapping_add(s.v1);
    let b1 = ((s.v1 << 13) | (s.v1 >> 51)) ^ a0;
    let c0 = (a0 << 32) | (a0 >> 32);
    let a2 = s.v2.wrapping_add(s.v3);
    let b3 = ((s.v3 << 16) | (s.v3 >> 48)) ^ a2;
    let d0 = c0.wrapping_add(b3);
    let c3 = ((b3 << 21) | (b3 >> 43)) ^ d0;
    let c2 = a2.wrapping_add(b1);
    let c1 = ((b1 << 17) | (b1 >> 47)) ^ c2;
    let d2 = (c2 << 32) | (c2 >> 32);
    TagState { v0: d0, v1: c1, v2: d2, v3: c3 }
}

fn tag_absorb_u64_exec(s: TagState, w: u64) -> (r: TagState)
    ensures
        r == tag_absorb_u64(s, w),
{
    let t = tag_round_exec(tag_round_exec(TagState { v3: s.v3 ^ w, ..s }));
    TagState { v0: t.v0 ^ w, ..t }
}

proof fn lemma_tag_absorb_seq_snoc(s: TagState, m: Seq<u8>, b: u8)
    ensures
        tag_absorb_seq(s, m.push(b)) == tag_absorb_byte(tag_absorb_seq(s, m), b),
    decreases m.len(),
{
    assert(m.push(b).len() == m.len() + 1);
    if m.len() == 0 {
        assert(m.push(b)[0] == b);
        assert(m.push(b).skip(1) =~= Seq::<u8>::empty());
        assert(tag_absorb_seq(s, m.push(b)) == tag_absorb_seq(
            tag_absorb_byte(s, b),
            Seq::<u8>::empty(),
        ));
        assert(tag_absorb_seq(s, m) == s);
    } else {
        assert(m.push(b)[0] == m[0]);
        assert(m.push(b).skip(1) =~= m.skip(1).push(b));
        lemma_tag_absorb_seq_snoc(tag_absorb_byte(s, m[0]), m.skip(1), b);
        assert(tag_absorb_seq(s, m.push(b)) == tag_absorb_seq(
            tag_absorb_byte(s, m[0]),
            m.skip(1).push(b),
        ));
        assert(tag_absorb_seq(s, m) == tag_absorb_seq(tag_absorb_byte(s, m[0]), m.skip(1)));
    }
}

fn tag_absorb_slice(s: TagState, m: &[u8]) -> (r: TagState)
    ensures
        r == tag_absorb_seq(s, m@),
{
    let mut st = s;
    let mut i: usize = 0;
    while i < m.len()
        invariant
            0 <= i <= m@.len(),
            st == tag_absorb_seq(s, m@.take(i as int)),
        decreases m@.len() - i,
    {
        let b = m[i];
        proof {
            assert(m@.take(i + 1) =~= m@.take(i as int).push(m@[i as int]));
            lemma_tag_absorb_seq_snoc(s, m@.take(i as int), m@[i as int]);
        }
        st = tag_absorb_u64_exec(st, b as u64);
        i = i + 1;
    }
    proof {
        assert(m@.take(m@.len() as int) =~= m@);
    }
    st
}

/// The signature of `msg` under `secret`.
pub fn tag(secret: &[u8], msg: &[u8]) -> (r: u64)
    ensures
        r == tag_of(secret@, msg@),
{
    let init = TagState {
        v0: 0x736f6d6570736575,
        v1: 0x646f72616e646f6d,
        v2: 0x6c7967656e657261,
        v3: 0x7465646279746573,
    };
    let keyed = tag_absorb_u64_exec(tag_absorb_slice(init, secret), secret.len() as u64);
    let fed = tag_absorb_u64_exec(tag_absorb_slice(keyed, msg), msg.len() as u64);
    let t = tag_round_exec(tag_round_exec(tag_round_exec(tag_round_exec(TagState {
        v2: fed.v2 ^ 0xff,
        ..fed
    }))));
    t.v0 ^ t.v1 ^ t.v2 ^ t.v3
}

/// The signed part of a token: action code, expiry, then the subject.
/// The subject is the final field, so it needs no length prefix.
pub open spec fn body_bytes(c: ClaimsView, exp: u64) -> Seq<u8> {
    seq![act_code(c.act)] + spec_u64_to_le_bytes(exp) + c.email
}

/// The full wire form of a token: the signed body followed by its signature.
pub open spec fn token_bytes(c: ClaimsView, exp: u64, secret: Seq<u8>) -> Seq<u8> {
    body_bytes(c, exp) + spec_u64_to_le_bytes(tag_of(secret, body_bytes(c, exp)))
}

/// What `issue` returns: a token whose expiry is `now + ttl`.
pub open spec fn issue_spec(c: ClaimsView, ttl: u64, now: u64, secret: Seq<u8>) -> Seq<u8> {
    token_bytes(c, (now + ttl) as u64, secret)
}

/// What `verify` returns on any input.  The token must be long enough to be
/// cut apart, its signature must match the recomputed one, its action byte
/// must name a known action, and it must not be past its expiry.
pub open spec fn verify_spec(token: Seq<u8>, secret: Seq<u8>, now: u64) -> Result<
    ClaimsView,
    Error,
> {
    if token.len() < 17 {
        Err(Error::Malformed)
    } else {
        let body = token.take(token.len() - 8);
        let sig = spec_u64_from_le_bytes(token.skip(token.len() - 8));
        if sig != tag_of(secret, body) {
            Err(Error::InvalidSignature)
        } else {
            match act_of_code(token[0]) {
                Option::None => Err(Error::Malformed),
                Option::Some(act) => {
                    let exp = spec_u64_from_le_bytes(token.subrange(1, 9));
                    if now > exp {
                        Err(Error::Expired)
                    } else {
                        Ok(ClaimsView { act, email: body.skip(9) })
                    }
                },
            }
        }
    }
}

/// Image of an executable verification result.
pub open spec fn result_view(r: Result<Claims, Error>) -> Result<ClaimsView, Error> {
    match r {
        Ok(c) => Ok(c@),
        Err(e) => Err(e),
    }
}

/// Issues a signed token for `claims` that expires `ttl` seconds after `now`.
///
/// The token is a pure function of its arguments and the secret; nothing is
/// stored anywhere.
pub fn issue(claims: &Claims, ttl: u64, now: u64, secret: &Vec<u8>) -> (r: Vec<u8>)
    requires
        now + ttl <= u64::MAX,
    ensures
        r@ == issue_spec(claims@, ttl, now, secret@),
        r@ == token_bytes(claims@, (now + ttl) as u64, secret@),
{
    let exp: u64 = now + ttl;
    let mut body: Vec<u8> = Vec::new();
    body.push(act_encode(claims.act));
    let exp_bytes = u64_to_le_bytes(exp);
    push_bytes(&mut body, exp_bytes.as_slice());
    push_bytes(&mut body, claims.email.as_slice());
    proof {
        assert(body@ =~= body_bytes(claims@, exp));
    }
    let sig = tag(secret.as_slice(), body.as_slice());
    let sig_bytes = u64_to_le_bytes(sig);
    push_bytes(&mut body, sig_bytes.as_slice());
    proof {
        assert(body@ =~= token_bytes(claims@, exp, secret@));
    }
    body
}

/// A token issued for claims `c` at time `now` with a positive lifetime
/// `ttl` verifies back to exactly `c` at any time strictly before its
/// expiry, and is rejected as expired at any time strictly after it.
pub proof fn lemma_issue_then_verify(c: ClaimsView, ttl: u64, now: u64, t: u64, secret: Seq<u8>)
    requires
        ttl > 0,
        now + ttl <= u64::MAX,
    ensures
        t < now + ttl ==> verify_spec(issue_spec(c, ttl, now, secret), secret, t) == Ok::<
            ClaimsView,
            Error,
        >(c),
        t > now + ttl ==> verify_spec(issue_spec(c, ttl, now, secret), secret, t) == Err::<
            ClaimsView,
            Error,
        >(Error::Expired),
{
    lemma_auto_spec_u64_to_from_le_bytes();
    let exp = (now + ttl) as u64;
    let body = body_bytes(c, exp);
    let tok = token_bytes(c, exp, secret);
    assert(body.len() == 9 + c.email.len());
    assert(tok.len() == body.len() + 8);
    assert(tok.take(tok.len() - 8) =~= body);
    assert(tok.skip(tok.len() - 8) =~= spec_u64_to_le_bytes(tag_of(secret, body)));
    assert(tok[0] == act_code(c.act));
    assert(act_of_code(act_code(c.act)) == Some(c.act));
    assert(tok.subrange(1, 9) =~= spec_u64_to_le_bytes(exp));
    assert(body.skip(9) =~= c.email);
    if t <= exp {
        assert(ClaimsView { act: c.act, email: body.skip(9) } =~= c);
    }
}

/// Whatever replaces the signature field of an issued token with anything
/// other than the correct signature is rejected as `InvalidSignature`, at
/// every verification time.
///
/// This is the provable half of tamper evidence.  A change to the body is
/// caught by the same comparison unless its recomputed tag happens to
/// collide with the embedded one, which for the keyed wide-state tag fails
/// with overwhelming probability; that probabilistic half is exercised by
/// the byte-by-byte tamper test, since no proof about the fixed function
/// can state it.
pub proof fn lemma_tampered_signature(
    c: ClaimsView,
    exp: u64,
    secret: Seq<u8>,
    forged: Seq<u8>,
    t: u64,
)
    requires
        forged.len() == token_bytes(c, exp, secret).len(),
        forged.take(forged.len() - 8) == token_bytes(c, exp, secret).take(
            token_bytes(c, exp, secret).len() - 8,
        ),
        forged != token_bytes(c, exp, secret),
    ensures
        verify_spec(forged, secret, t) == Err::<ClaimsView, Error>(Error::InvalidSignature),
{
    lemma_auto_spec_u64_to_from_le_bytes();
    let body = body_bytes(c, exp);
    let tok = token_bytes(c, exp, secret);
    assert(tok.take(tok.len() - 8) =~= body);
    assert(forged.take(forged.len() - 8) == body);
    let fsig = forged.skip(forged.len() - 8);
    let gsig = tok.skip(tok.len() - 8);
    assert(gsig =~= spec_u64_to_le_bytes(tag_of(secret, body)));
    assert(fsig.len() == 8);
    if spec_u64_from_le_bytes(fsig) == tag_of(secret, body) {
        assert(spec_u64_to_le_bytes(spec_u64_from_le_bytes(fsig)) == fsig);
        assert(fsig == gsig);
        assert(forged =~= tok);
        assert(false);
    }
}

/// A token that verifies is, byte for byte, a token that was signed with the
/// same secret for the claims and expiry it reports, and that expiry has not
/// passed.
pub proof fn lemma_verify_sound(tok: Seq<u8>, secret: Seq<u8>, now: u64, c: ClaimsView)
    requires
        verify_spec(tok, secret, now) == Ok::<ClaimsView, Error>(c),
    ensures
        exists|exp: u64|
            now <= exp && tok == #[trigger] token_bytes(c, exp, secret),
{
    lemma_auto_spec_u64_to_from_le_bytes();
    let body = tok.take(tok.len() - 8);
    let exp = spec_u64_from_le_bytes(tok.subrange(1, 9));
    assert(tok.subrange(1, 9) =~= body.subrange(1, 9));
    assert(body_bytes(c, exp) =~= body) by {
        assert(body[0] == tok[0]);
        assert(act_of_code(tok[0]) == Some(c.act));
        assert(body[0] == act_code(c.act));
        assert(spec_u64_to_le_bytes(spec_u64_from_le_bytes(body.subrange(1, 9))) == body.subrange(
            1,
            9,
        ));
        assert(c.email == body.skip(9));
    }
    assert(tok =~= token_bytes(c, exp, secret)) by {
        assert(tok.skip(tok.len() - 8).len() == 8);
        assert(spec_u64_from_le_bytes(tok.skip(tok.len() - 8)) == tag_of(secret, body));
        assert(spec_u64_to_le_bytes(spec_u64_from_le_bytes(tok.skip(tok.len() - 8))) == tok.skip(
            tok.len() - 8,
        ));
    }
    assert(now <= exp && tok == token_bytes(c, exp, secret));
}

/// Verifies a token against the secret at time `now`: recomputes the
/// signature over the body, decodes the action and expiry, and returns the
/// embedded claims exactly when the token is intact, well formed and not yet
/// expired.
pub fn verify(token: &Vec<u8>, secret: &Vec<u8>, now: u64) -> (r: Result<Claims, Error>)
    ensures
        result_view(r) == verify_spec(token@, secret@, now),
{
    if token.len() < 17 {
        return Err(Error::Malformed);
    }
    let n = token.len();
    let body = vstd::slice::slice_subrange(token.as_slice(), 0, n - 8);
    let sig_part = vstd::slice::slice_subrange(token.as_slice(), n - 8, n);
    proof {
        assert(body@ =~= token@.take(token@.len() - 8));
        assert(sig_part@ =~= token@.skip(token@.len() - 8));
    }
    let sig = u64_from_le_bytes(sig_part);
    let expected = tag(secret.as_slice(), body);
    if sig != expected {
        return Err(Error::InvalidSignature);
    }
    let act = match act_decode(*vstd::slice::slice_index_get(token.as_slice(), 0)) {
        Option::Some(a) => a,
        Option::None => {
            return Err(Error::Malformed);
        },
    };
    let exp_part = vstd::slice::slice_subrange(token.as_slice(), 1, 9);
    proof {
        assert(exp_part@ =~= token@.subrange(1, 9));
    }
    let exp = u64_from_le_bytes(exp_part);
    if now > exp {
        return Err(Error::Expired);
    }
    let email_part = vstd::slice::slice_subrange(token.as_slice(), 9, n - 8);
    let email = vstd::slice::slice_to_vec(email_part);
    proof {
        assert(email@ =~= token@.take(token@.len() - 8).skip(9));
    }
    Ok(Claims { act, email })
}

} // verus!
