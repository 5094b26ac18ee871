use vstd::prelude::*;
use crate::json::{escape_char, hex_digit, is_json, json_escape, json_quote, parses_as_json, quote_json};

verus! {

/// The text answered for a topic that has no message recorded yet.
pub const EMPTY_MESSAGE_LIST: &'static str = "{\"message_list\":[]}";

/// The cause reported for a stored message list that is not JSON.
pub const INVALID_STORED_LIST: &'static str = "Stored message list is not valid JSON";

/// The JSON envelope that carries the description of a failure.
pub open spec fn error_text(cause: Seq<char>) -> Seq<char> {
    "{\"message\":"@ + json_quote(cause) + "}"@
}

/// What a message-list query answers for one read of the store: the stored
/// list as it is where it is JSON, the envelope of a fixed cause where it is
/// not, the empty list where none is recorded, or the envelope of the
/// store's failure.
pub open spec fn message_list_text(stored: Result<Option<Seq<char>>, Seq<char>>) -> Seq<char> {
    match stored {
        Ok(Some(list)) => if is_json(list) {
            list
        } else {
            error_text(INVALID_STORED_LIST@)
        },
        Ok(None) => EMPTY_MESSAGE_LIST@,
        Err(cause) => error_text(cause),
    }
}

/// The view of a store read as plain sequences.
pub open spec fn stored_view(stored: Result<Option<String>, String>) -> Result<Option<Seq<char>>, Seq<char>> {
    match stored {
        Ok(Some(list)) => Ok(Some(list@)),
        Ok(None) => Ok(None),
        Err(cause) => Err(cause@),
    }
}

/// The JSON envelope `{"message":"<cause>"}` of a failure.
pub fn error_response(cause: &str) -> (r: String)
    ensures
        r@ == error_text(cause@),
{
    let mut r = String::from_str("{\"message\":");
    let quoted = quote_json(cause);
    r.append(quoted.as_str());
    r.append("}");
    r
}

/// Turns one read of the store into the answer of a message-list query.
pub fn message_list_response(stored: Result<Option<String>, String>) -> (r: String)
    ensures
        r@ == message_list_text(stored_view(stored)),
        r@.len() > 0,
{
    match stored {
        Ok(Some(list)) => {
            proof {
                reveal_strlit("{\"message\":");
            }
            if parses_as_json(list.as_str()) {
                list
            } else {
                error_response(INVALID_STORED_LIST)
            }
        },
        Ok(None) => {
            proof {
                reveal_strlit("{\"message_list\":[]}");
            }
            String::from_str(EMPTY_MESSAGE_LIST)
        },
        Err(cause) => {
            proof {
                reveal_strlit("{\"message\":");
            }
            error_response(cause.as_str())
        },
    }
}

/// Answer of the query for confidence-achieved messages, given the store's
/// read of that topic.
pub fn get_confidence_message_list(stored: Result<Option<String>, String>) -> (r: String)
    ensures
        r@ == message_list_text(stored_view(stored)),
        r@.len() > 0,
{
    message_list_response(stored)
}

/// Answer of the query for data-verified messages, given the store's read of
/// that topic.
pub fn get_data_verified_message_list(stored: Result<Option<String>, String>) -> (r: String)
    ensures
        r@ == message_list_text(stored_view(stored)),
        r@.len() > 0,
{
    message_list_response(stored)
}

/// Answer of the query for header-verified messages, given the store's read
/// of that topic.
pub fn get_header_verified_message_list(stored: Result<Option<String>, String>) -> (r: String)
    ensures
        r@ == message_list_text(stored_view(stored)),
        r@.len() > 0,
{
    message_list_response(stored)
}

/// A topic with no stored message is answered with exactly
/// `{"message_list":[]}`, whichever of the three topics is asked.
pub proof fn lemma_no_messages_gives_empty_list()
    ensures
        message_list_text(Ok(None)) == seq!['{', '"', 'm', 'e', 's', 's', 'a', 'g', 'e', '_', 'l', 'i', 's', 't', '"', ':', '[', ']', '}'],
{
    reveal_strlit("{\"message_list\":[]}");
    assert(message_list_text(Ok(None)) =~= seq!['{', '"', 'm', 'e', 's', 's', 'a', 'g', 'e', '_', 'l', 'i', 's', 't', '"', ':', '[', ']', '}']);
}

proof fn lemma_hex_digit_injective(x: nat, y: nat)
    requires
        x < 16,
        y < 16,
        hex_digit(x) == hex_digit(y),
    ensures
        x == y,
{
}

proof fn lemma_escape_char_shape(c: char)
    ensures
        escape_char(c).len() >= 1,
        escape_char(c)[0] == '\\' <==> (c == '"' || c == '\\' || (c as u32) < 32),
        escape_char(c)[0] == '\\' ==> escape_char(c).len() >= 2,
{
}

/// Two characters whose escapes stand at the start of one text are equal,
/// and so are their escapes.
proof fn lemma_escape_char_prefix(a: char, b: char, t: Seq<char>)
    requires
        escape_char(a).len() <= t.len(),
        escape_char(b).len() <= t.len(),
        t.subrange(0, escape_char(a).len() as int) == escape_char(a),
        t.subrange(0, escape_char(b).len() as int) == escape_char(b),
    ensures
        a == b,
{
    lemma_escape_char_shape(a);
    lemma_escape_char_shape(b);
    let ea = escape_char(a);
    let eb = escape_char(b);
    assert(ea[0] == t[0]);
    assert(eb[0] == t[0]);
    if t[0] == '\\' {
        assert(ea[1] == t[1]);
        assert(eb[1] == t[1]);
        if t[1] == 'u' {
            assert(ea[4] == t[4] && eb[4] == t[4]);
            assert(ea[5] == t[5] && eb[5] == t[5]);
            let x = a as u32;
            let y = b as u32;
            lemma_hex_digit_injective((x / 16) as nat, (y / 16) as nat);
            lemma_hex_digit_injective((x % 16) as nat, (y % 16) as nat);
            assert(x == y);
        }
    } else {
        assert(ea[0] == a);
        assert(eb[0] == b);
    }
}

proof fn lemma_escape_injective(a: Seq<char>, b: Seq<char>)
    requires
        json_escape(a) == json_escape(b),
    ensures
        a == b,
    decreases a.len(),
{
    if a.len() == 0 {
        if b.len() != 0 {
            lemma_escape_char_shape(b[0]);
        }
    } else if b.len() == 0 {
        lemma_escape_char_shape(a[0]);
    } else {
        let t = json_escape(a);
        let ea = escape_char(a[0]);
        let eb = escape_char(b[0]);
        assert(t == ea + json_escape(a.drop_first()));
        assert(t == eb + json_escape(b.drop_first()));
        assert(t.subrange(0, ea.len() as int) =~= ea);
        assert(t.subrange(0, eb.len() as int) =~= eb);
        lemma_escape_char_prefix(a[0], b[0], t);
        assert(json_escape(a.drop_first()) =~= t.subrange(ea.len() as int, t.len() as int));
        assert(json_escape(b.drop_first()) =~= t.subrange(eb.len() as int, t.len() as int));
        lemma_escape_injective(a.drop_first(), b.drop_first());
        assert(a =~= seq![a[0]] + a.drop_first());
        assert(b =~= seq![b[0]] + b.drop_first());
    }
}

/// A JSON string literal ends where its closing quote stands: a text that
/// starts with one reads back as that string, followed by the same rest.
pub(crate) proof fn lemma_quote_prefix(a: Seq<char>, b: Seq<char>, x: Seq<char>, y: Seq<char>)
    requires
        json_quote(a) + x == json_quote(b) + y,
    ensures
        a == b,
        x == y,
    decreases a.len(),
{
    let ta = json_quote(a) + x;
    assert(ta.drop_first() =~= json_escape(a) + (seq!['"'] + x));
    assert((json_quote(b) + y).drop_first() =~= json_escape(b) + (seq!['"'] + y));
    lemma_escape_prefix(a, b, seq!['"'] + x, seq!['"'] + y);
    assert(x =~= (seq!['"'] + x).drop_first());
    assert(y =~= (seq!['"'] + y).drop_first());
}

proof fn lemma_escape_prefix(a: Seq<char>, b: Seq<char>, x: Seq<char>, y: Seq<char>)
    requires
        json_escape(a) + x == json_escape(b) + y,
        x.len() > 0 && x[0] == '"',
        y.len() > 0 && y[0] == '"',
    ensures
        a == b,
        x == y,
    decreases a.len(),
{
    let t = json_escape(a) + x;
    if a.len() == 0 {
        assert(t =~= x);
        if b.len() != 0 {
            lemma_escape_char_shape(b[0]);
            assert(t =~= escape_char(b[0]) + (json_escape(b.drop_first()) + y));
            assert(t[0] == escape_char(b[0])[0]);
        } else {
            assert(y =~= json_escape(b) + y);
        }
    } else if b.len() == 0 {
        lemma_escape_char_shape(a[0]);
        assert(t =~= escape_char(a[0]) + (json_escape(a.drop_first()) + x));
        assert(t =~= y);
        assert(t[0] == escape_char(a[0])[0]);
    } else {
        let ea = escape_char(a[0]);
        let eb = escape_char(b[0]);
        let ra = json_escape(a.drop_first()) + x;
        let rb = json_escape(b.drop_first()) + y;
        assert(t =~= ea + ra);
        assert(t =~= eb + rb);
        lemma_escape_char_shape(a[0]);
        lemma_escape_char_shape(b[0]);
        assert(ra.len() > 0 && rb.len() > 0);
        assert(ea.len() <= t.len());
        assert(eb.len() <= t.len());
        assert(t.subrange(0, ea.len() as int) =~= ea);
        assert(t.subrange(0, eb.len() as int) =~= eb);
        lemma_escape_char_prefix(a[0], b[0], t);
        assert(ra =~= t.subrange(ea.len() as int, t.len() as int));
        assert(rb =~= t.subrange(eb.len() as int, t.len() as int));
        lemma_escape_prefix(a.drop_first(), b.drop_first(), x, y);
        assert(a =~= seq![a[0]] + a.drop_first());
        assert(b =~= seq![b[0]] + b.drop_first());
    }
}

/// The error envelope loses nothing of its cause: read back, it gives the
/// cause it was built from, since two causes never share an envelope.
pub proof fn lemma_error_envelope_round_trip(a: Seq<char>, b: Seq<char>)
    requires
        error_text(a) == error_text(b),
    ensures
        a == b,
{
    reveal_strlit("{\"message\":");
    reveal_strlit("}");
    let ta = error_text(a);
    assert(ta.subrange(12, ta.len() - 2) =~= json_escape(a));
    assert(ta.subrange(12, ta.len() - 2) =~= json_escape(b));
    lemma_escape_injective(a, b);
}

} // verus!
