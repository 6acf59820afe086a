//! Decimal numbers and case folding in strings.
use vstd::prelude::*;

verus! {

/// `String::push` appends one character.
pub assume_specification[ String::push ](s: &mut String, c: char)
    ensures
        final(s)@ == old(s)@.push(c),
;

/// What `str::to_uppercase` makes of a text: the full mapping of Unicode, which may change its
/// length.
pub uninterp spec fn uppercase(s: Seq<char>) -> Seq<char>;

/// `str::to_uppercase` depends on the text alone. A text of ASCII characters has its letters
/// turned into their capitals, one for one; what other characters map to is left unsaid.
pub assume_specification[ str::to_uppercase ](s: &str) -> (out: String)
    ensures
        out@ == uppercase(s@),
        is_ascii_text(s@) ==> out@ == capitals(s@),
;

/// The character for a decimal digit.
pub open spec fn digit(d: nat) -> char {
    (48 + d) as char
}

/// Whether a character is a decimal digit.
pub open spec fn is_digit(c: char) -> bool {
    '0' <= c <= '9'
}

/// A number in decimal, without leading zeros.
pub open spec fn decimal(n: nat) -> Seq<char>
    decreases n,
{
    if n < 10 {
        seq![digit(n)]
    } else {
        decimal(n / 10).push(digit(n % 10))
    }
}

/// Appends a number in decimal.
pub fn push_decimal(out: &mut String, n: u32)
    ensures
        final(out)@ == old(out)@ + decimal(n as nat),
    decreases n,
{
    if n >= 10 {
        push_decimal(out, n / 10);
    }
    let c: char = (48 + (n % 10) as u8) as char;
    out.push(c);
    assert(out@ =~= old(out)@ + decimal(n as nat));
}

/// A number in decimal is made of digits and is not empty.
pub proof fn lemma_decimal_digits(n: nat)
    ensures
        decimal(n).len() > 0,
        forall|i: int| 0 <= i < decimal(n).len() ==> is_digit(#[trigger] decimal(n)[i]),
    decreases n,
{
    if n >= 10 {
        lemma_decimal_digits(n / 10);
    }
}

/// Different numbers differ in decimal.
pub proof fn decimal_is_injective(a: nat, b: nat)
    requires
        decimal(a) == decimal(b),
    ensures
        a == b,
    decreases a,
{
    lemma_decimal_digits(a / 10);
    lemma_decimal_digits(b / 10);
    let d = decimal(a);
    if a < 10 {
        if b >= 10 {
            assert(d.len() == decimal(b / 10).len() + 1);
        } else {
            assert(seq![digit(a)][0] == seq![digit(b)][0]);
        }
    } else if b < 10 {
        assert(d.len() == decimal(a / 10).len() + 1);
    } else {
        assert(decimal(a / 10) =~= d.drop_last());
        assert(decimal(b / 10) =~= d.drop_last());
        assert(d.last() == digit(a % 10) && d.last() == digit(b % 10));
        decimal_is_injective(a / 10, b / 10);
    }
}

/// A number and what follows it can be told apart where something other than a digit follows.
pub proof fn decimal_prefix_is_unique(a: nat, rest_a: Seq<char>, b: nat, rest_b: Seq<char>)
    requires
        decimal(a) + rest_a == decimal(b) + rest_b,
        rest_a.len() > 0 && !is_digit(rest_a[0]),
        rest_b.len() > 0 && !is_digit(rest_b[0]),
    ensures
        a == b,
        rest_a == rest_b,
{
    lemma_decimal_digits(a);
    lemma_decimal_digits(b);
    let whole = decimal(a) + rest_a;
    let la = decimal(a).len() as int;
    let lb = decimal(b).len() as int;
    assert(whole[la] == rest_a[0]);
    assert(whole[lb] == rest_b[0]) by {
        assert((decimal(b) + rest_b)[lb] == rest_b[0]);
    }
    if la < lb {
        assert((decimal(b) + rest_b)[la] == decimal(b)[la]);
    }
    if lb < la {
        assert(whole[lb] == decimal(a)[lb]);
    }
    assert(decimal(a) =~= whole.take(la));
    assert(decimal(b) =~= (decimal(b) + rest_b).take(lb));
    assert(rest_a =~= whole.skip(la));
    assert(rest_b =~= (decimal(b) + rest_b).skip(lb));
    decimal_is_injective(a, b);
}

/// The capital of an ASCII letter; any other character itself.
pub open spec fn capital(c: char) -> char {
    if 'a' <= c <= 'z' {
        (c as u32 - 32) as char
    } else {
        c
    }
}

/// A text with its small ASCII letters turned into their capitals.
pub open spec fn capitals(s: Seq<char>) -> Seq<char> {
    s.map_values(|c: char| capital(c))
}

/// Whether a text is made of ASCII characters.
pub open spec fn is_ascii_text(s: Seq<char>) -> bool {
    forall|i: int| 0 <= i < s.len() ==> (#[trigger] s[i] as u32) < 128
}

/// The capital of an ASCII letter; any other character itself.
pub fn to_capital(c: char) -> (out: char)
    ensures
        out == capital(c),
{
    if 'a' <= c && c <= 'z' {
        ((c as u8) - 32) as char
    } else {
        c
    }
}

/// The number that a row of decimal digits stands for.
pub open spec fn decimal_value(s: Seq<char>) -> int
    decreases s.len(),
{
    if s.len() == 0 {
        0
    } else {
        10 * decimal_value(s.drop_last()) + (s.last() as int - 48)
    }
}

/// A number in decimal is made of the characters `0` to `9`, does not start with a zero unless it is
/// one, and read from left to right gives the number again.
pub proof fn decimal_reads_back(n: nat)
    ensures
        decimal_value(decimal(n)) == n,
        decimal(n).len() > 0,
        n > 0 ==> decimal(n)[0] != '0',
        n == 0 ==> decimal(n) == seq!['0'],
        forall|i: int| 0 <= i < decimal(n).len() ==> 48 <= #[trigger] decimal(n)[i] as int <= 57,
    decreases n,
{
    if n >= 10 {
        decimal_reads_back(n / 10);
        assert(decimal(n).drop_last() =~= decimal(n / 10));
        assert(decimal(n)[0] == decimal(n / 10)[0]);
    } else {
        assert(decimal(n).drop_last() =~= Seq::<char>::empty());
        assert(decimal_value(Seq::<char>::empty()) == 0);
    }
}

/// A decimal digit is one of the ten characters from `0` to `9`.
pub proof fn digits_are_ten(c: char)
    ensures
        is_digit(c) <==> 48 <= c as int <= 57,
{
}

/// Capitals: a small ASCII letter becomes the letter that stands thirty-two places before it, which
/// is a capital; every other character stays.
pub proof fn capital_moves_small_letters(c: char)
    ensures
        97 <= c as int <= 122 ==> capital(c) as int + 32 == c as int,
        !(97 <= c as int <= 122) ==> capital(c) == c,
        capital(capital(c)) == capital(c),
{
}

/// A text keeps its length in capitals, and each character becomes its own capital.
pub proof fn capitals_go_one_by_one(s: Seq<char>, i: int)
    requires
        0 <= i < s.len(),
    ensures
        capitals(s).len() == s.len(),
        97 <= s[i] as int <= 122 ==> capitals(s)[i] as int + 32 == s[i] as int,
        !(97 <= s[i] as int <= 122) ==> capitals(s)[i] == s[i],
{
}

/// No character is needed for a text to be ASCII, and one more leaves it so exactly if it lies among
/// the first one hundred and twenty-eight.
pub proof fn ascii_text_grows_by_ascii(s: Seq<char>, c: char)
    ensures
        is_ascii_text(Seq::empty()),
        is_ascii_text(s.push(c)) <==> is_ascii_text(s) && (c as int) < 128,
{
    let longer = s.push(c);
    if is_ascii_text(longer) {
        assert((longer[s.len() as int] as u32) < 128);
        assert forall|i: int| 0 <= i < s.len() implies (#[trigger] s[i] as u32) < 128 by {
            assert((longer[i] as u32) < 128);
        }
    }
}

} // verus!
