//! Messages and their display form.
//!
//! A [`ChatMessage`] is the owned value the hub fans out: the origin's
//! identifier, the text, and the origin's endpoint. Before a message is
//! written to a client it is rendered as `[Client {origin}]: {text}`.

use vstd::prelude::*;
use vstd::string::*;
use vstd::utf8::is_ascii_chars;

verus! {

/// Identifier assigned to a connection at accept time; unique for the life
/// of the server process.
pub type ClientId = u64;

/// A transport endpoint as plain values: an IPv4 address and a port.
#[derive(Clone, Copy, PartialEq, Eq, Structural, Debug)]
pub struct Endpoint {
    pub octet0: u8,
    pub octet1: u8,
    pub octet2: u8,
    pub octet3: u8,
    pub port: u16,
}

/// One broadcast message: who sent it, its text, and the sender's endpoint.
#[derive(Clone, Debug)]
pub struct ChatMessage {
    pub origin: ClientId,
    pub text: String,
    pub addr: Endpoint,
}

/// A copy of `m`, equal to it field by field.
pub fn clone_message(m: &ChatMessage) -> (r: ChatMessage)
    ensures
        r == *m,
{
    ChatMessage { origin: m.origin, text: m.text.clone(), addr: m.addr }
}

/// The decimal digit character for `d`.
pub open spec fn digit_char(d: int) -> char {
    if d == 0 {
        '0'
    } else if d == 1 {
        '1'
    } else if d == 2 {
        '2'
    } else if d == 3 {
        '3'
    } else if d == 4 {
        '4'
    } else if d == 5 {
        '5'
    } else if d == 6 {
        '6'
    } else if d == 7 {
        '7'
    } else if d == 8 {
        '8'
    } else {
        '9'
    }
}

/// The decimal digits of `n`, most significant first.
pub open spec fn dec_chars(n: int) -> Seq<char>
    decreases n,
{
    if n < 10 {
        seq![digit_char(n)]
    } else {
        dec_chars(n / 10) + seq![digit_char(n % 10)]
    }
}

/// A one-character string for the digit `d`.
fn digit_str(d: u64) -> (s: &'static str)
    requires
        d < 10,
    ensures
        s@ =~= seq![digit_char(d as int)],
{
    proof {
        reveal_strlit("0");
        reveal_strlit("1");
        reveal_strlit("2");
        reveal_strlit("3");
        reveal_strlit("4");
        reveal_strlit("5");
        reveal_strlit("6");
        reveal_strlit("7");
        reveal_strlit("8");
        reveal_strlit("9");
    }
    if d == 0 {
        "0"
    } else if d == 1 {
        "1"
    } else if d == 2 {
        "2"
    } else if d == 3 {
        "3"
    } else if d == 4 {
        "4"
    } else if d == 5 {
        "5"
    } else if d == 6 {
        "6"
    } else if d == 7 {
        "7"
    } else if d == 8 {
        "8"
    } else {
        "9"
    }
}

/// Renders `n` in decimal.
pub fn u64_to_string(n: u64) -> (s: String)
    ensures
        s@ == dec_chars(n as int),
{
    let mut digits: Vec<u64> = Vec::new();
    let mut m = n;
    loop
        invariant_except_break
            forall|i: int| 0 <= i < digits@.len() ==> digits@[i] < 10,
            digits@.len() > 0 ==> m > 0,
            digits@.len() == 0 ==> m == n,
            dec_chars(n as int) == if digits@.len() == 0 {
                dec_chars(m as int)
            } else {
                dec_chars(m as int) + rev_digit_chars(digits@)
            },
        ensures
            forall|i: int| 0 <= i < digits@.len() ==> digits@[i] < 10,
            dec_chars(n as int) == rev_digit_chars(digits@),
        decreases m,
    {
        let d = m % 10;
        proof {
            assert(rev_digit_chars(digits@.push(d)) =~= seq![digit_char(d as int)]
                + rev_digit_chars(digits@));
            if m >= 10 {
                assert(dec_chars(m as int) == dec_chars(m as int / 10) + seq![
                    digit_char(m as int % 10),
                ]);
            } else {
                assert(dec_chars(m as int) =~= seq![digit_char(m as int)]);
            }
        }
        digits.push(d);
        m = m / 10;
        if m == 0 {
            break;
        }
    }
    let mut s = String::new();
    let mut i = digits.len();
    while i > 0
        invariant
            i <= digits@.len(),
            forall|j: int| 0 <= j < digits@.len() ==> digits@[j] < 10,
            s@ == rev_digit_chars(digits@).take(digits@.len() - i),
        decreases i,
    {
        i = i - 1;
        proof {
            assert(rev_digit_chars(digits@).take(digits@.len() - i)
                =~= rev_digit_chars(digits@).take(digits@.len() - (i + 1)).push(
                digit_char(digits@[i as int] as int)));
        }
        s.append(digit_str(digits[i]));
    }
    proof {
        assert(rev_digit_chars(digits@).take(digits@.len() as int) =~= rev_digit_chars(
            digits@,
        ));
    }
    s
}

/// The digit characters of `ds` read back to front.
pub open spec fn rev_digit_chars(ds: Seq<u64>) -> Seq<char> {
    Seq::new(ds.len(), |i: int| digit_char(ds[ds.len() - 1 - i] as int))
}

/// The display form of a message: `[Client {origin}]: {text}`.
pub open spec fn display_of(origin: ClientId, text: Seq<char>) -> Seq<char> {
    "[Client "@ + dec_chars(origin as int) + "]: "@ + text
}

/// Renders the display form of a message.
pub fn render_display(origin: ClientId, text: &str) -> (s: String)
    ensures
        s@ == display_of(origin, text@),
{
    let mut s = String::from_str("[Client ");
    let num = u64_to_string(origin);
    s.append(num.as_str());
    s.append("]: ");
    s.append(text);
    s
}

/// Decimal renderings are ASCII and never empty.
pub proof fn lemma_dec_chars_ascii(n: int)
    ensures
        is_ascii_chars(dec_chars(n)),
        dec_chars(n).len() >= 1,
    decreases n,
{
    if n < 10 {
        assert(is_ascii_chars(seq![digit_char(n)]));
    } else {
        lemma_dec_chars_ascii(n / 10);
        let a = dec_chars(n / 10);
        let b = seq![digit_char(n % 10)];
        assert(is_ascii_chars(b));
        lemma_ascii_concat(a, b);
    }
}

/// Two ASCII texts concatenate to an ASCII text.
pub proof fn lemma_ascii_concat(a: Seq<char>, b: Seq<char>)
    requires
        is_ascii_chars(a),
        is_ascii_chars(b),
    ensures
        is_ascii_chars(a + b),
{
    assert forall|i: int| 0 <= i < (a + b).len() implies '\0' <= #[trigger] (a + b)[i]
        <= '\u{7f}' by {
        if i < a.len() {
            assert((a + b)[i] == a[i]);
        } else {
            assert((a + b)[i] == b[i - a.len()]);
        }
    }
}

/// Text of a join announcement.
pub open spec fn join_text() -> Seq<char> {
    "has joined the chat"@
}

/// Text of a leave announcement.
pub open spec fn leave_text() -> Seq<char> {
    "has left the chat"@
}

} // verus!
