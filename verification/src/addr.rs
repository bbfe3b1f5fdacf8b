//! The textual form `ip:port` from which both programs obtain a socket address.
use vstd::prelude::*;

verus! {

/// The character of a decimal digit `d` (`d < 10`).
pub open spec fn digit_char(d: nat) -> char {
    seq!['0', '1', '2', '3', '4', '5', '6', '7', '8', '9'][d as int]
}

/// Decimal representation of `n`, most significant digit first, without leading zeros.
pub open spec fn decimal(n: nat) -> Seq<char>
    decreases n,
{
    if n < 10 {
        seq![digit_char(n)]
    } else {
        decimal(n / 10).push(digit_char(n % 10))
    }
}

/// The text `ip:port`, the port written in decimal.
pub open spec fn endpoint_spec(ip: Seq<char>, port: u16) -> Seq<char> {
    ip + seq![':'] + decimal(port as nat)
}

/// A character is one of the ASCII digits `0`..`9`.
pub open spec fn is_ascii_digit(c: char) -> bool {
    '0' <= c && c <= '9'
}

/// The number a string of ASCII digits denotes in base 10, read from left to
/// right by the usual rule: each digit multiplies what came before by ten
/// and adds its own value, `c - '0'`.
pub open spec fn numeral_value(s: Seq<char>) -> int
    decreases s.len(),
{
    if s.len() == 0 {
        0
    } else {
        numeral_value(s.drop_last()) * 10 + (s.last() as int - '0' as int)
    }
}

/// Each digit character stands for its digit.
pub proof fn lemma_digit_char_value(d: nat)
    requires
        d < 10,
    ensures
        is_ascii_digit(digit_char(d)),
        digit_char(d) as int - '0' as int == d,
{
    let t = seq!['0', '1', '2', '3', '4', '5', '6', '7', '8', '9'];
    assert(t[0] == '0' && t[1] == '1' && t[2] == '2' && t[3] == '3' && t[4] == '4');
    assert(t[5] == '5' && t[6] == '6' && t[7] == '7' && t[8] == '8' && t[9] == '9');
}

/// The decimal text of `n` consists of ASCII digits, does not start with a
/// zero unless it is `0` itself, and reads back as `n`.
pub proof fn lemma_decimal_reads_back(n: nat)
    ensures
        decimal(n).len() > 0,
        forall|i: int| 0 <= i < decimal(n).len() ==> is_ascii_digit(#[trigger] decimal(n)[i]),
        decimal(n)[0] == '0' ==> n == 0,
        numeral_value(decimal(n)) == n,
    decreases n,
{
    if n < 10 {
        lemma_digit_char_value(n);
        assert(seq![digit_char(n)].drop_last() =~= Seq::<char>::empty());
        assert(numeral_value(Seq::<char>::empty()) == 0);
        assert(numeral_value(decimal(n)) == numeral_value(Seq::<char>::empty()) * 10 + (digit_char(n) as int - '0' as int));
        if n != 0 {
            lemma_digit_char_value(0);
        }
    } else {
        lemma_decimal_reads_back(n / 10);
        lemma_digit_char_value(n % 10);
        let d = decimal(n);
        assert(d.drop_last() =~= decimal(n / 10));
        assert(d.last() == digit_char(n % 10));
        assert(numeral_value(d) == numeral_value(decimal(n / 10)) * 10 + (n % 10));
        assert(d[0] == decimal(n / 10)[0]);
        assert forall|i: int| 0 <= i < d.len() implies is_ascii_digit(#[trigger] d[i]) by {
            if i < d.len() - 1 {
                assert(d[i] == decimal(n / 10)[i]);
            }
        }
    }
}

/// The text `ip:port` is the IP text, a colon, and a run of ASCII digits that
/// reads back as the port.
pub proof fn lemma_endpoint_reads_back(ip: Seq<char>, port: u16)
    ensures
        ({
            let text = endpoint_spec(ip, port);
            let digits = text.subrange(ip.len() as int + 1, text.len() as int);
            &&& text.subrange(0, ip.len() as int) == ip
            &&& text[ip.len() as int] == ':'
            &&& digits.len() > 0
            &&& forall|i: int| 0 <= i < digits.len() ==> is_ascii_digit(#[trigger] digits[i])
            &&& numeral_value(digits) == port
        }),
{
    let text = endpoint_spec(ip, port);
    lemma_decimal_reads_back(port as nat);
    assert(text.subrange(0, ip.len() as int) =~= ip);
    assert(text.subrange(ip.len() as int + 1, text.len() as int) =~= decimal(port as nat));
}

fn digit_str(d: u16) -> (s: &'static str)
    requires
        d < 10,
    ensures
        s@ == seq![digit_char(d as nat)],
{
    if d == 0 {
        proof { reveal_strlit("0"); }
        "0"
    } else if d == 1 {
        proof { reveal_strlit("1"); }
        "1"
    } else if d == 2 {
        proof { reveal_strlit("2"); }
        "2"
    } else if d == 3 {
        proof { reveal_strlit("3"); }
        "3"
    } else if d == 4 {
        proof { reveal_strlit("4"); }
        "4"
    } else if d == 5 {
        proof { reveal_strlit("5"); }
        "5"
    } else if d == 6 {
        proof { reveal_strlit("6"); }
        "6"
    } else if d == 7 {
        proof { reveal_strlit("7"); }
        "7"
    } else if d == 8 {
        proof { reveal_strlit("8"); }
        "8"
    } else {
        proof { reveal_strlit("9"); }
        "9"
    }
}

/// Appends the decimal digits of `n` to `text`.
fn append_decimal(text: &mut String, n: u16)
    ensures
        final(text)@ == old(text)@ + decimal(n as nat),
    decreases n,
{
    if n >= 10 {
        append_decimal(text, n / 10);
    }
    text.append(digit_str(n % 10));
}

/// Builds the text `ip:port` that is parsed into the address to bind or to connect to.
pub fn endpoint_text(ip: &str, port: u16) -> (text: String)
    ensures
        text@ == endpoint_spec(ip@, port),
        text@.subrange(0, ip@.len() as int) == ip@,
        text@[ip@.len() as int] == ':',
        forall|i: int| ip@.len() < i < text@.len() ==> is_ascii_digit(#[trigger] text@[i]),
        numeral_value(text@.subrange(ip@.len() as int + 1, text@.len() as int)) == port,
{
    let mut text = String::from_str(ip);
    proof { reveal_strlit(":"); }
    text.append(":");
    append_decimal(&mut text, port);
    proof {
        lemma_endpoint_reads_back(ip@, port);
        lemma_decimal_reads_back(port as nat);
        let digits = text@.subrange(ip@.len() as int + 1, text@.len() as int);
        assert(digits =~= decimal(port as nat));
        assert(text@.subrange(0, ip@.len() as int) =~= ip@);
        assert forall|i: int| ip@.len() < i < text@.len() implies is_ascii_digit(#[trigger] text@[i]) by {
            let k = i - ip@.len() - 1;
            lemma_decimal_reads_back(port as nat);
            assert(0 <= k < decimal(port as nat).len());
            assert(is_ascii_digit(decimal(port as nat)[k]));
            assert(text@[i] == decimal(port as nat)[k]);
        }
    }
    text
}

} // verus!
