use vstd::prelude::*;
use vstd::string::StrSliceExecFns;
use crate::outside::lit_bytes;
use crate::support::push_bytes;

verus! {

/// The lowercase hexadecimal digit of a value below 16, as an ASCII byte.
pub open spec fn hex_digit(n: u8) -> u8
    recommends
        n < 16,
{
    if n < 10 {
        (48 + n) as u8
    } else {
        (87 + n) as u8
    }
}

/// How one byte of a field appears inside a JSON string: quote and
/// backslash are backslash-escaped, anything outside printable ASCII
/// becomes a `\u00XX` escape, the rest stands as it is.  Escaping every
/// byte outside printable ASCII keeps the whole document ASCII, whatever
/// the payload holds.
pub open spec fn escape_byte(b: u8) -> Seq<u8> {
    if b == 34 {
        seq![92u8, 34u8]
    } else if b == 92 {
        seq![92u8, 92u8]
    } else if b < 32 || b >= 127 {
        seq![92u8, 117u8, 48u8, 48u8, hex_digit(b / 16), hex_digit(b % 16)]
    } else {
        seq![b]
    }
}

/// A whole field, escaped byte by byte.
pub open spec fn json_escape(s: Seq<u8>) -> Seq<u8>
    decreases s.len(),
{
    if s.len() == 0 {
        Seq::empty()
    } else {
        escape_byte(s[0]) + json_escape(s.skip(1))
    }
}

proof fn lemma_json_escape_snoc(s: Seq<u8>, b: u8)
    ensures
        json_escape(s.push(b)) == json_escape(s) + escape_byte(b),
    decreases s.len(),
{
    if s.len() == 0 {
        assert(s.push(b).len() == 1);
        assert(s.push(b)[0] == b);
        assert(s.push(b).skip(1) =~= Seq::<u8>::empty());
        assert(json_escape(s.push(b)) == escape_byte(b) + json_escape(s.push(b).skip(1)));
        assert(json_escape(Seq::<u8>::empty()) == Seq::<u8>::empty());
        assert(json_escape(s.push(b)) =~= escape_byte(b));
        assert(json_escape(s) + escape_byte(b) =~= escape_byte(b));
    } else {
        assert(s.push(b)[0] == s[0]);
        assert(s.push(b).skip(1) =~= s.skip(1).push(b));
        lemma_json_escape_snoc(s.skip(1), b);
        assert(json_escape(s.push(b)) == escape_byte(s[0]) + (json_escape(s.skip(1))
            + escape_byte(b)));
        assert(escape_byte(s[0]) + (json_escape(s.skip(1)) + escape_byte(b)) =~= (escape_byte(s[0])
            + json_escape(s.skip(1))) + escape_byte(b));
    }
}

/// Appends the escaped form of `src` to `dst`.
fn push_escaped(dst: &mut Vec<u8>, src: &[u8])
    ensures
        final(dst)@ == old(dst)@ + json_escape(src@),
{
    let mut i: usize = 0;
    while i < src.len()
        invariant
            0 <= i <= src@.len(),
            dst@ == old(dst)@ + json_escape(src@.take(i as int)),
        decreases src@.len() - i,
    {
        let b = src[i];
        proof {
            assert(src@.take(i + 1) =~= src@.take(i as int).push(src@[i as int]));
            lemma_json_escape_snoc(src@.take(i as int), src@[i as int]);
        }
        let ghost pre = dst@;
        if b == 34 {
            dst.push(92);
            dst.push(34);
        } else if b == 92 {
            dst.push(92);
            dst.push(92);
        } else if b < 32 || b >= 127 {
            dst.push(92);
            dst.push(117);
            dst.push(48);
            dst.push(48);
            let hi = b / 16;
            let lo = b % 16;
            dst.push(if hi < 10 { 48 + hi } else { 87 + hi });
            dst.push(if lo < 10 { 48 + lo } else { 87 + lo });
        } else {
            dst.push(b);
        }
        proof {
            assert(dst@ =~= pre + escape_byte(b));
            assert(dst@ =~= old(dst)@ + json_escape(src@.take(i + 1)));
        }
        i = i + 1;
    }
    proof {
        assert(src@.take(src@.len() as int) =~= src@);
    }
}

/// Appends an ASCII literal to `dst`, as its bytes.
fn push_lit(dst: &mut Vec<u8>, s: &str)
    requires
        s.is_ascii(),
    ensures
        final(dst)@ == old(dst)@ + lit_bytes(s@),
{
    let bs = s.as_bytes_vec();
    proof {
        vstd::string::is_ascii_spec_bytes(s);
        assert(bs@ =~= lit_bytes(s@));
    }
    push_bytes(dst, bs.as_slice());
}

/// The notification payload on the wire: a JSON object with the recipient,
/// the subject, the body, and an (always empty) attachment map, every field
/// escaped so the document is plain ASCII.
pub open spec fn notification_json(to: Seq<u8>, subject: Seq<u8>, body: Seq<u8>) -> Seq<u8> {
    lit_bytes("{\"to\":\""@) + json_escape(to) + lit_bytes("\",\"subject\":\""@) + json_escape(
        subject,
    ) + lit_bytes("\",\"body\":\""@) + json_escape(body) + lit_bytes("\",\"attachments\":{}}"@)
}

/// Encodes the notification record a queue worker will deliver.
pub fn encode_notification(to: &Vec<u8>, subject: &Vec<u8>, body: &Vec<u8>) -> (r: Vec<u8>)
    ensures
        r@ == notification_json(to@, subject@, body@),
{
    let mut out: Vec<u8> = Vec::new();
    proof {
        reveal_strlit("{\"to\":\"");
        reveal_strlit("\",\"subject\":\"");
        reveal_strlit("\",\"body\":\"");
        reveal_strlit("\",\"attachments\":{}}");
    }
    push_lit(&mut out, "{\"to\":\"");
    push_escaped(&mut out, to.as_slice());
    push_lit(&mut out, "\",\"subject\":\"");
    push_escaped(&mut out, subject.as_slice());
    push_lit(&mut out, "\",\"body\":\"");
    push_escaped(&mut out, body.as_slice());
    push_lit(&mut out, "\",\"attachments\":{}}");
    proof {
        assert(out@ =~= notification_json(to@, subject@, body@));
    }
    out
}

} // verus!
