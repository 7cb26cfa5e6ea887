//! Decimal rendering of unsigned integers and quoting of strings, shared by
//! the diagnostic and description builders.
use vstd::prelude::*;
use vstd::string::StringExecFns;

verus! {

/// The single decimal digit `d`.
pub open spec fn digit_text(d: nat) -> Seq<char> {
    if d == 0 {
        "0"@
    } else if d == 1 {
        "1"@
    } else if d == 2 {
        "2"@
    } else if d == 3 {
        "3"@
    } else if d == 4 {
        "4"@
    } else if d == 5 {
        "5"@
    } else if d == 6 {
        "6"@
    } else if d == 7 {
        "7"@
    } else if d == 8 {
        "8"@
    } else {
        "9"@
    }
}

/// `n` written in decimal, without leading zeros.
pub open spec fn decimal(n: nat) -> Seq<char>
    decreases n,
{
    if n < 10 {
        digit_text(n)
    } else {
        decimal(n / 10) + digit_text(n % 10)
    }
}

/// A digit is one character, `'0'` to `'9'` in order.
pub proof fn lemma_digit_text(d: nat)
    requires
        d < 10,
    ensures
        digit_text(d).len() == 1,
        digit_text(d)[0] as int == '0' as int + d,
{
    reveal_strlit("0");
    reveal_strlit("1");
    reveal_strlit("2");
    reveal_strlit("3");
    reveal_strlit("4");
    reveal_strlit("5");
    reveal_strlit("6");
    reveal_strlit("7");
    reveal_strlit("8");
    reveal_strlit("9");
}

/// A number's decimal text has at least one digit, and two or more from 10
/// on.
pub proof fn lemma_decimal_len(n: nat)
    ensures
        decimal(n).len() >= 1,
        n >= 10 ==> decimal(n).len() >= 2,
    decreases n,
{
    if n < 10 {
        lemma_digit_text(n);
    } else {
        lemma_decimal_len(n / 10);
        lemma_digit_text(n % 10);
    }
}

/// Different numbers are written differently.
pub proof fn lemma_decimal_injective(a: nat, b: nat)
    ensures
        decimal(a) == decimal(b) ==> a == b,
    decreases a,
{
    if decimal(a) == decimal(b) {
        lemma_decimal_len(a);
        lemma_decimal_len(b);
        if a < 10 && b < 10 {
            lemma_digit_text(a);
            lemma_digit_text(b);
        } else if a >= 10 && b >= 10 {
            let (pa, pb) = (decimal(a / 10), decimal(b / 10));
            let (da, db) = (digit_text(a % 10), digit_text(b % 10));
            lemma_digit_text(a % 10);
            lemma_digit_text(b % 10);
            lemma_decimal_len(a / 10);
            lemma_decimal_len(b / 10);
            assert(pa + da == pb + db);
            assert(pa.len() == pb.len());
            assert(da[0] == (pa + da)[pa.len() as int]);
            assert(db[0] == (pb + db)[pb.len() as int]);
            assert(pa =~= (pa + da).subrange(0, pa.len() as int));
            assert(pb =~= (pb + db).subrange(0, pb.len() as int));
            lemma_decimal_injective(a / 10, b / 10);
        } else if a < 10 {
            lemma_digit_text(a);
        } else {
            lemma_digit_text(b);
        }
    }
}

fn digit_str(d: u64) -> (s: &'static str)
    requires
        d < 10,
    ensures
        s@ == digit_text(d as nat),
{
    match d {
        0 => "0",
        1 => "1",
        2 => "2",
        3 => "3",
        4 => "4",
        5 => "5",
        6 => "6",
        7 => "7",
        8 => "8",
        _ => "9",
    }
}

/// Appends `n` in decimal to `out`.
pub fn push_decimal(out: &mut String, n: u64)
    ensures
        final(out)@ == old(out)@ + decimal(n as nat),
    decreases n,
{
    if n >= 10 {
        push_decimal(out, n / 10);
    }
    out.append(digit_str(n % 10));
    assert(out@ =~= old(out)@ + decimal(n as nat));
}

/// What `Debug` writes for a string: the text quoted, with quotes,
/// backslashes and control characters escaped.
pub uninterp spec fn debug_text(text: Seq<char>) -> Seq<char>;

/// `Debug` of a `str`, as `format!("{:?}")` writes it. Its result is named
/// `debug_text`; the escaping rules themselves are not stated.
#[verifier::external_body]
pub(crate) fn quoted(text: &str) -> (quoted: String)
    ensures
        quoted@ == debug_text(text@),
{
    format!("{text:?}")
}

} // verus!
