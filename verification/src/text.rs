//! Small text routines: rendering and reading numbers, and name tests.

use vstd::prelude::*;

verus! {

/// The character that stands for the digit `d`, for `d` below ten.
pub open spec fn digit_char(d: nat) -> char {
    if d == 0 {
        '0'
    } else if d == 1 {
        '1'
    } else if d == 2 {
        '2'
    } else if d == 3 {
        '3'
    } else if d == 4 {
        '4'
    } else if d == 5 {
        '5'
    } else if d == 6 {
        '6'
    } else if d == 7 {
        '7'
    } else if d == 8 {
        '8'
    } else {
        '9'
    }
}

/// The digits of `n` in the given base, most significant first, without
/// padding: zero is the single digit `0`.
pub open spec fn digits(n: nat, base: nat) -> Seq<char>
    recommends
        2 <= base <= 10,
    decreases n,
    via digits_terminates
{
    if n < base || base < 2 {
        seq![digit_char(n)]
    } else {
        digits(n / base, base).push(digit_char(n % base))
    }
}

#[via_fn]
proof fn digits_terminates(n: nat, base: nat) {
    if !(n < base || base < 2) {
        lemma_quotient_is_smaller(n, base);
    }
}

proof fn lemma_quotient_is_smaller(n: nat, base: nat)
    requires
        2 <= base <= n,
    ensures
        n / base < n,
{
    assert(n / base < n) by (nonlinear_arith)
        requires
            2 <= base <= n,
    ;
}

/// What `strmode` renders: nothing for no mode, otherwise the flag `-m`, a
/// blank, a zero and the mode in octal.
pub open spec fn strmode_text(mode: Option<u32>) -> Seq<char> {
    match mode {
        Some(m) => seq!['-', 'm', ' ', '0'] + digits(m as nat, 8),
        None => Seq::empty(),
    }
}

fn digit_str(d: u32) -> (r: &'static str)
    requires
        d < 10,
    ensures
        r@ == seq![digit_char(d as nat)],
{
    proof {
        reveal_strlit("0");
        reveal_strlit("1");
        reveal_strlit("2");
        reveal_strlit("3");
        reveal_strlit("4");
        reveal_strlit("5");
        reveal_strlit("6");
        reveal_strlit("7");
        reveal_strlit("8");
        reveal_strlit("9");
    }
    let r = if d == 0 {
        "0"
    } else if d == 1 {
        "1"
    } else if d == 2 {
        "2"
    } else if d == 3 {
        "3"
    } else if d == 4 {
        "4"
    } else if d == 5 {
        "5"
    } else if d == 6 {
        "6"
    } else if d == 7 {
        "7"
    } else if d == 8 {
        "8"
    } else {
        "9"
    };
    assert(r@ =~= seq![digit_char(d as nat)]);
    r
}

fn render_number(n: u32, base: u32) -> (r: String)
    requires
        2 <= base <= 10,
    ensures
        r@ == digits(n as nat, base as nat),
    decreases n,
{
    if n < base {
        String::from_str(digit_str(n))
    } else {
        proof {
            lemma_quotient_is_smaller(n as nat, base as nat);
        }
        let mut r = render_number(n / base, base);
        r.append(digit_str(n % base));
        r
    }
}

/// Renders `n` in decimal.
pub fn render_decimal(n: u32) -> (r: String)
    ensures
        r@ == digits(n as nat, 10),
{
    render_number(n, 10)
}

/// Renders `n` in octal.
pub fn render_octal(n: u32) -> (r: String)
    ensures
        r@ == digits(n as nat, 8),
{
    render_number(n, 8)
}

/// The mode as the `install` tool takes it on its command line.
pub fn strmode(mode: Option<u32>) -> (r: String)
    ensures
        r@ == strmode_text(mode),
{
    match mode {
        Some(m) => {
            proof {
                reveal_strlit("-m 0");
            }
            let mut r = String::from_str("-m 0");
            let octal = render_octal(m);
            r.append(octal.as_str());
            assert(r@ =~= strmode_text(mode));
            r
        },
        None => String::new(),
    }
}

/// The value of an octal digit; zero for any other character.
pub open spec fn octal_digit_value(c: char) -> nat {
    if c == '1' {
        1
    } else if c == '2' {
        2
    } else if c == '3' {
        3
    } else if c == '4' {
        4
    } else if c == '5' {
        5
    } else if c == '6' {
        6
    } else if c == '7' {
        7
    } else {
        0
    }
}

/// Whether `c` is one of the characters `0` to `7`.
pub open spec fn is_octal_digit(c: char) -> bool {
    c == '0' || octal_digit_value(c) != 0
}

/// Whether every character of `s` is an octal digit.
pub open spec fn all_octal(s: Seq<char>) -> bool {
    forall|i: int| 0 <= i < s.len() ==> is_octal_digit(#[trigger] s[i])
}

/// The number that the octal digits of `s` denote, most significant first.
pub open spec fn octal_value(s: Seq<char>) -> nat
    decreases s.len(),
{
    if s.len() == 0 {
        0
    } else {
        octal_value(s.drop_last()) * 8 + octal_digit_value(s.last())
    }
}

/// The text without one leading plus sign.
pub open spec fn unsigned_part(s: Seq<char>) -> Seq<char> {
    if s.len() > 0 && s[0] == '+' {
        s.subrange(1, s.len() as int)
    } else {
        s
    }
}

/// The permission bits that a mode text denotes: an optional plus sign, then
/// at least one octal digit and nothing else, with a value that fits 32 bits.
/// Any other text denotes no mode.
pub open spec fn parse_mode(s: Seq<char>) -> Option<u32> {
    let body = unsigned_part(s);
    if body.len() > 0 && all_octal(body) && octal_value(body) <= u32::MAX {
        Some(octal_value(body) as u32)
    } else {
        None
    }
}

/// A prefix of a digit sequence never denotes more than the whole sequence.
proof fn lemma_octal_value_grows(s: Seq<char>, k: int)
    requires
        0 <= k <= s.len(),
    ensures
        octal_value(s.subrange(0, k)) <= octal_value(s),
    decreases s.len() - k,
{
    if k == s.len() {
        assert(s.subrange(0, k) =~= s);
    } else {
        lemma_octal_value_grows(s.drop_last(), k);
        assert(s.drop_last().subrange(0, k) =~= s.subrange(0, k));
    }
}

fn octal_digit(c: char) -> (r: Option<u32>)
    ensures
        r is Some <==> is_octal_digit(c),
        r matches Some(d) ==> d == octal_digit_value(c) && d < 8,
{
    if c == '0' {
        Some(0)
    } else if c == '1' {
        Some(1)
    } else if c == '2' {
        Some(2)
    } else if c == '3' {
        Some(3)
    } else if c == '4' {
        Some(4)
    } else if c == '5' {
        Some(5)
    } else if c == '6' {
        Some(6)
    } else if c == '7' {
        Some(7)
    } else {
        None
    }
}

/// Reads a mode text. Returns the permission bits, or `None` where the text
/// is not an octal number that fits 32 bits.
pub fn parse_octal(text: &str) -> (r: Option<u32>)
    ensures
        r == parse_mode(text@),
{
    let n: usize = text.unicode_len();
    let mut i: usize = 0;
    if n > 0 && text.get_char(0) == '+' {
        i = 1;
    }
    let start: usize = i;
    let ghost body = unsigned_part(text@);
    assert(body =~= text@.subrange(start as int, n as int));
    if i == n {
        return None;
    }
    let mut acc: u32 = 0;
    assert(body.subrange(0, 0) =~= Seq::<char>::empty());
    while i < n
        invariant
            start <= i <= n,
            n == text@.len(),
            body == text@.subrange(start as int, n as int),
            body == unsigned_part(text@),
            all_octal(body.subrange(0, i - start)),
            acc == octal_value(body.subrange(0, i - start)),
        decreases n - i,
    {
        let c = text.get_char(i);
        let ghost seen = body.subrange(0, i - start);
        let ghost next = body.subrange(0, i - start + 1);
        assert(next.drop_last() =~= seen);
        assert(next.last() == c);
        assert(body[i - start] == c);
        match octal_digit(c) {
            None => {
                return None;
            },
            Some(d) => {
                if acc > (u32::MAX - d) / 8 {
                    proof {
                        lemma_octal_value_grows(body, i - start + 1);
                    }
                    return None;
                }
                acc = acc * 8 + d;
                assert forall|j: int| 0 <= j < next.len() implies is_octal_digit(
                    #[trigger] next[j],
                ) by {
                    if j < seen.len() {
                        assert(next[j] == seen[j]);
                    }
                }
            },
        }
        i = i + 1;
    }
    assert(body.subrange(0, i - start) =~= body);
    Some(acc)
}

/// Whether a directory entry of this name is hidden: its name starts with a
/// dot.
pub open spec fn is_hidden_name(name: Seq<char>) -> bool {
    name.len() > 0 && name[0] == '.'
}

/// Tells whether a directory entry of this name is hidden.
pub fn is_hidden(name: &str) -> (r: bool)
    ensures
        r == is_hidden_name(name@),
{
    if name.is_empty() {
        false
    } else {
        name.get_char(0) == '.'
    }
}

/// The octal digits of a number are octal digits, at least one of them, and
/// denote the number.
pub proof fn lemma_octal_digits(n: nat)
    ensures
        digits(n, 8).len() > 0,
        all_octal(digits(n, 8)),
        octal_value(digits(n, 8)) == n,
    decreases n,
{
    let text = digits(n, 8);
    if n < 8 {
        assert(text.drop_last() =~= Seq::<char>::empty());
        assert(octal_value(text.drop_last()) == 0);
    } else {
        lemma_quotient_is_smaller(n, 8);
        lemma_octal_digits(n / 8);
        let front = digits(n / 8, 8);
        assert(text.drop_last() =~= front);
        assert(text.last() == digit_char(n % 8));
        assert forall|i: int| 0 <= i < text.len() implies is_octal_digit(#[trigger] text[i]) by {
            if i < front.len() {
                assert(text[i] == front[i]);
            }
        }
    }
}

/// Reading a mode gives back the number that was rendered in octal.
pub proof fn lemma_octal_round_trip(n: u32)
    ensures
        parse_mode(digits(n as nat, 8)) == Some(n),
{
    lemma_octal_digits(n as nat);
    let text = digits(n as nat, 8);
    assert(is_octal_digit(text[0]));
    assert(unsigned_part(text) == text);
}

} // verus!
