use vstd::prelude::*;
use crate::json::hex_digit;
use crate::query::{error_response, error_text};

verus! {

/// Fixed description answered for a secret key that does not parse; it never
/// echoes the key.
pub const SECRET_KEY_ERROR: &'static str = "Secret Key error";

/// Description answered for a failed submission whose cause says nothing.
pub const SUBMIT_FAILED: &'static str = "Submit transaction failed";

/// What happened at one point of a submission.
#[derive(Debug, PartialEq, Eq)]
pub enum SubmitEvent {
    /// The caller's secret key was parsed, or found malformed.
    KeyParsed(bool),
    /// The store and the full node were opened, or the cause of the failure.
    Connected(Result<(), String>),
    /// The node took the transaction, with its hash, or the cause of the failure.
    Submitted(Result<[u8; 32], String>),
}

/// What to do next in a submission.
#[derive(Debug, PartialEq, Eq)]
pub enum SubmitAction {
    /// Open the store and connect to the full node.
    Connect,
    /// Sign the transaction and send it through the connection.
    Submit,
    /// End the call with this text for the caller.
    Reply(String),
}

/// Hexadecimal digits of the bytes of `h`, two per byte, most significant first.
pub open spec fn hex_bytes(h: Seq<u8>) -> Seq<char>
    decreases h.len(),
{
    if h.len() == 0 {
        Seq::empty()
    } else {
        hex_bytes(h.drop_last()) + seq![hex_digit((h.last() / 16) as nat), hex_digit((h.last() % 16) as nat)]
    }
}

/// A transaction hash as the caller reads it: `0x` and 64 hexadecimal digits.
pub open spec fn hash_text(h: Seq<u8>) -> Seq<char> {
    seq!['0', 'x'] + hex_bytes(h)
}

/// The description carried by a failure's envelope: the cause, or a fixed
/// one where the cause is empty.
pub open spec fn failure_description(cause: Seq<char>) -> Seq<char> {
    if cause.len() == 0 {
        SUBMIT_FAILED@
    } else {
        cause
    }
}

/// The text answered for a failure with this cause.
pub open spec fn failure_text(cause: Seq<char>) -> Seq<char> {
    error_text(failure_description(cause))
}

pub open spec fn is_hex_char(c: char) -> bool {
    ('0' <= c && c <= '9') || ('a' <= c && c <= 'f')
}

/// Whether `s` has the shape of a transaction hash.
pub open spec fn is_hash_text(s: Seq<char>) -> bool {
    &&& s.len() == 66
    &&& s[0] == '0'
    &&& s[1] == 'x'
    &&& forall|i: int| 2 <= i < 66 ==> is_hex_char(#[trigger] s[i])
}

fn hex_digit_str(n: u8) -> (r: &'static str)
    requires
        n < 16,
    ensures
        r@ == seq![hex_digit(n as nat)],
{
    proof {
        reveal_strlit("0");
        reveal_strlit("1");
        reveal_strlit("2");
        reveal_strlit("3");
        reveal_strlit("4");
        reveal_strlit("5");
        reveal_strlit("6");
        reveal_strlit("7");
        reveal_strlit("8");
        reveal_strlit("9");
        reveal_strlit("a");
        reveal_strlit("b");
        reveal_strlit("c");
        reveal_strlit("d");
        reveal_strlit("e");
        reveal_strlit("f");
    }
    let r = match n {
        0 => "0",
        1 => "1",
        2 => "2",
        3 => "3",
        4 => "4",
        5 => "5",
        6 => "6",
        7 => "7",
        8 => "8",
        9 => "9",
        10 => "a",
        11 => "b",
        12 => "c",
        13 => "d",
        14 => "e",
        _ => "f",
    };
    assert(r@ =~= seq![hex_digit(n as nat)]);
    r
}

/// The text of a transaction hash: `0x` followed by its bytes in hexadecimal.
pub fn hash_response(hash: &[u8; 32]) -> (r: String)
    ensures
        r@ == hash_text(hash@),
{
    proof {
        reveal_strlit("0x");
    }
    let mut r = String::from_str("0x");
    let mut i: usize = 0;
    while i < 32
        invariant
            i <= 32,
            hash@.len() == 32,
            r@ == seq!['0', 'x'] + hex_bytes(hash@.take(i as int)),
        decreases 32 - i,
    {
        let b: u8 = hash[i];
        r.append(hex_digit_str(b / 16));
        r.append(hex_digit_str(b % 16));
        assert(hash@.take(i + 1).drop_last() =~= hash@.take(i as int));
        assert(hash@.take(i + 1).last() == b);
        assert(r@ =~= seq!['0', 'x'] + hex_bytes(hash@.take(i + 1)));
        i = i + 1;
    }
    assert(hash@.take(32) =~= hash@);
    r
}

/// The envelope answered for a failure with this cause.
pub fn failure_response(cause: &str) -> (r: String)
    ensures
        r@ == failure_text(cause@),
{
    if cause.unicode_len() == 0 {
        error_response(SUBMIT_FAILED)
    } else {
        error_response(cause)
    }
}

/// One step of a transaction submission: given what just happened, what to
/// do next. A malformed key ends the call at once with the fixed key error,
/// before any connection; a failed connection or submission ends it with the
/// envelope of its cause; a taken transaction ends it with its hash.
pub fn submit_transaction(event: SubmitEvent) -> (r: SubmitAction)
    ensures
        match event {
            SubmitEvent::KeyParsed(true) => r is Connect,
            SubmitEvent::KeyParsed(false) => r is Reply && r->Reply_0@ == error_text(SECRET_KEY_ERROR@),
            SubmitEvent::Connected(Ok(())) => r is Submit,
            SubmitEvent::Connected(Err(cause)) => r is Reply && r->Reply_0@ == failure_text(cause@),
            SubmitEvent::Submitted(Ok(hash)) => r is Reply && r->Reply_0@ == hash_text(hash@),
            SubmitEvent::Submitted(Err(cause)) => r is Reply && r->Reply_0@ == failure_text(cause@),
        },
{
    match event {
        SubmitEvent::KeyParsed(true) => SubmitAction::Connect,
        SubmitEvent::KeyParsed(false) => SubmitAction::Reply(error_response(SECRET_KEY_ERROR)),
        SubmitEvent::Connected(Ok(())) => SubmitAction::Submit,
        SubmitEvent::Connected(Err(cause)) => SubmitAction::Reply(failure_response(cause.as_str())),
        SubmitEvent::Submitted(Ok(hash)) => SubmitAction::Reply(hash_response(&hash)),
        SubmitEvent::Submitted(Err(cause)) => SubmitAction::Reply(failure_response(cause.as_str())),
    }
}

proof fn lemma_hex_bytes_shape(h: Seq<u8>)
    ensures
        hex_bytes(h).len() == 2 * h.len(),
        forall|i: int| 0 <= i < hex_bytes(h).len() ==> is_hex_char(#[trigger] hex_bytes(h)[i]),
    decreases h.len(),
{
    if h.len() > 0 {
        lemma_hex_bytes_shape(h.drop_last());
        let x = h.last();
        assert(is_hex_char(hex_digit((x / 16) as nat)));
        assert(is_hex_char(hex_digit((x % 16) as nat)));
    }
}

proof fn lemma_hex_bytes_injective(a: Seq<u8>, b: Seq<u8>)
    requires
        a.len() == b.len(),
        hex_bytes(a) == hex_bytes(b),
    ensures
        a == b,
    decreases a.len(),
{
    if a.len() > 0 {
        lemma_hex_bytes_shape(a.drop_last());
        lemma_hex_bytes_shape(b.drop_last());
        let t = hex_bytes(a);
        let n = t.len() as int;
        let x = a.last();
        let y = b.last();
        assert(t[n - 2] == hex_digit((x / 16) as nat) && t[n - 2] == hex_digit((y / 16) as nat));
        assert(t[n - 1] == hex_digit((x % 16) as nat) && t[n - 1] == hex_digit((y % 16) as nat));
        assert(x / 16 == y / 16);
        assert(x % 16 == y % 16);
        assert(x == y);
        assert(hex_bytes(a.drop_last()) =~= t.subrange(0, n - 2));
        assert(hex_bytes(b.drop_last()) =~= t.subrange(0, n - 2));
        lemma_hex_bytes_injective(a.drop_last(), b.drop_last());
        assert(a =~= a.drop_last().push(x));
        assert(b =~= b.drop_last().push(y));
    }
}

/// The reply to a taken transaction has the shape of a hash and reads back
/// as the hash it was written from.
pub proof fn lemma_hash_reply_decodes(h: Seq<u8>, other: Seq<u8>)
    requires
        h.len() == 32,
        other.len() == 32,
    ensures
        is_hash_text(hash_text(h)),
        hash_text(h) == hash_text(other) ==> h == other,
{
    lemma_hex_bytes_shape(h);
    let t = hash_text(h);
    assert forall|i: int| 2 <= i < 66 implies is_hex_char(#[trigger] t[i]) by {
        assert(t[i] == hex_bytes(h)[i - 2]);
    }
    if hash_text(h) == hash_text(other) {
        assert(hex_bytes(h) =~= hash_text(h).subrange(2, 66));
        lemma_hex_bytes_shape(other);
        assert(hex_bytes(other) =~= hash_text(other).subrange(2, 66));
        lemma_hex_bytes_injective(h, other);
    }
}

/// Every reply of a failed submission, the key error included, carries a
/// non-empty description and never has the shape of a hash.
pub proof fn lemma_failure_reply_is_no_hash(cause: Seq<char>)
    ensures
        failure_description(cause).len() > 0,
        !is_hash_text(failure_text(cause)),
        SECRET_KEY_ERROR@.len() > 0,
        !is_hash_text(error_text(SECRET_KEY_ERROR@)),
{
    reveal_strlit("Submit transaction failed");
    reveal_strlit("Secret Key error");
    reveal_strlit("{\"message\":");
    assert(failure_text(cause)[0] == '{');
    assert(error_text(SECRET_KEY_ERROR@)[0] == '{');
}

} // verus!
