//! Numbers as text, for the lines the device reports.
use vstd::prelude::*;
use vstd::string::*;

verus! {

/// The lowercase digit of a value below sixteen.
pub open spec fn digit(d: int) -> char {
    if d == 0 {
        '0'
    } else if d == 1 {
        '1'
    } else if d == 2 {
        '2'
    } else if d == 3 {
        '3'
    } else if d == 4 {
        '4'
    } else if d == 5 {
        '5'
    } else if d == 6 {
        '6'
    } else if d == 7 {
        '7'
    } else if d == 8 {
        '8'
    } else if d == 9 {
        '9'
    } else if d == 10 {
        'a'
    } else if d == 11 {
        'b'
    } else if d == 12 {
        'c'
    } else if d == 13 {
        'd'
    } else if d == 14 {
        'e'
    } else {
        'f'
    }
}

/// `n` written in `base`, most significant digit first and without padding.
pub open spec fn digits(n: int, base: int) -> Seq<char>
    decreases n,
{
    if base < 2 || n < base {
        seq![digit(n)]
    } else {
        proof {
            assert(0 <= n / base < n) by (nonlinear_arith)
                requires
                    n >= base,
                    base >= 2,
            ;
        }
        digits(n / base, base).push(digit(n % base))
    }
}

/// `n` in decimal.
pub open spec fn decimal(n: int) -> Seq<char> {
    digits(n, 10)
}

/// `n` in hexadecimal, without a prefix.
pub open spec fn hex(n: int) -> Seq<char> {
    digits(n, 16)
}

/// `true` or `false`.
pub open spec fn truth(value: bool) -> Seq<char> {
    if value {
        "true"@
    } else {
        "false"@
    }
}

/// An optional number the way `Option` prints itself.
pub open spec fn optional(value: Option<u64>) -> Seq<char> {
    match value {
        Some(n) => "Some("@ + decimal(n as int) + ")"@,
        None => "None"@,
    }
}

fn push_digit(out: &mut String, d: u64)
    requires
        d < 16,
    ensures
        final(out)@ == old(out)@.push(digit(d as int)),
{
    let text: &str = if d == 0 {
        "0"
    } else if d == 1 {
        "1"
    } else if d == 2 {
        "2"
    } else if d == 3 {
        "3"
    } else if d == 4 {
        "4"
    } else if d == 5 {
        "5"
    } else if d == 6 {
        "6"
    } else if d == 7 {
        "7"
    } else if d == 8 {
        "8"
    } else if d == 9 {
        "9"
    } else if d == 10 {
        "a"
    } else if d == 11 {
        "b"
    } else if d == 12 {
        "c"
    } else if d == 13 {
        "d"
    } else if d == 14 {
        "e"
    } else {
        "f"
    };
    proof {
        reveal_strlit("0");
        reveal_strlit("1");
        reveal_strlit("2");
        reveal_strlit("3");
        reveal_strlit("4");
        reveal_strlit("5");
        reveal_strlit("6");
        reveal_strlit("7");
        reveal_strlit("8");
        reveal_strlit("9");
        reveal_strlit("a");
        reveal_strlit("b");
        reveal_strlit("c");
        reveal_strlit("d");
        reveal_strlit("e");
        reveal_strlit("f");
    }
    assert(text@ =~= seq![digit(d as int)]);
    out.append(text);
    assert(out@ =~= old(out)@.push(digit(d as int)));
}

fn push_digits(out: &mut String, n: u64, base: u64)
    requires
        2 <= base <= 16,
    ensures
        final(out)@ == old(out)@ + digits(n as int, base as int),
    decreases n,
{
    if n < base {
        push_digit(out, n);
        assert(out@ =~= old(out)@ + digits(n as int, base as int));
    } else {
        assert(n / base < n) by (nonlinear_arith)
            requires
                n > 0,
                base >= 2,
        ;
        push_digits(out, n / base, base);
        push_digit(out, n % base);
        assert(out@ =~= old(out)@ + digits(n as int, base as int));
    }
}

/// Appends `n` in decimal.
pub fn push_decimal(out: &mut String, n: u64)
    ensures
        final(out)@ == old(out)@ + decimal(n as int),
{
    push_digits(out, n, 10);
}

/// Appends `n` in hexadecimal, without a prefix.
pub fn push_hex(out: &mut String, n: u64)
    ensures
        final(out)@ == old(out)@ + hex(n as int),
{
    push_digits(out, n, 16);
}

/// Appends `true` or `false`.
pub fn push_truth(out: &mut String, value: bool)
    ensures
        final(out)@ == old(out)@ + truth(value),
{
    if value {
        out.append("true");
    } else {
        out.append("false");
    }
}

/// Appends an optional number the way `Option` prints itself.
pub fn push_optional(out: &mut String, value: Option<u64>)
    ensures
        final(out)@ == old(out)@ + optional(value),
{
    match value {
        Some(n) => {
            out.append("Some(");
            push_decimal(out, n);
            out.append(")");
            assert(out@ =~= old(out)@ + optional(value));
        },
        None => {
            out.append("None");
        },
    }
}

/// What a list of lines says.
pub open spec fn texts(lines: Seq<String>) -> Seq<Seq<char>> {
    Seq::new(lines.len(), |k: int| lines[k]@)
}

/// Appends a line to a list.
pub fn push_line(lines: &mut Vec<String>, line: String)
    ensures
        texts(final(lines)@) == texts(old(lines)@).push(line@),
{
    lines.push(line);
    assert(texts(lines@) =~= texts(old(lines)@).push(line@));
}

/// The value a digit stands for.
pub open spec fn digit_value(c: char) -> int {
    if '0' <= c && c <= '9' {
        c as int - '0' as int
    } else {
        c as int - 'a' as int + 10
    }
}

/// The number that digits stand for, the most significant first.
pub open spec fn value_of(text: Seq<char>, base: int) -> int
    decreases text.len(),
{
    if text.len() == 0 {
        0
    } else {
        value_of(text.drop_last(), base) * base + digit_value(text.last())
    }
}

/// Reading a number's digits gives the number back, and nothing stands before the
/// first digit that counts.
pub proof fn law_digits_read_back(n: int, base: int)
    requires
        n >= 0,
        2 <= base <= 16,
    ensures
        value_of(digits(n, base), base) == n,
        digits(n, base).len() > 0,
        digits(n, base)[0] == '0' <==> n == 0,
        forall|k: int|
            0 <= k < digits(n, base).len() ==> 0 <= digit_value(#[trigger] digits(n, base)[k])
                < base,
    decreases n,
{
    let text = digits(n, base);
    if n < base {
        assert(text.drop_last() =~= Seq::<char>::empty());
        assert(value_of(text.drop_last(), base) == 0);
        assert(text.last() == digit(n));
        assert(digit_value(digit(n)) == n);
    } else {
        assert(0 < n / base < n) by (nonlinear_arith)
            requires
                n >= base,
                base >= 2,
        ;
        law_digits_read_back(n / base, base);
        let front = digits(n / base, base);
        assert(text == front.push(digit(n % base)));
        assert(text.drop_last() =~= front);
        assert(0 <= n % base < base) by (nonlinear_arith)
            requires
                base >= 2,
        ;
        assert(digit_value(digit(n % base)) == n % base);
        vstd::arithmetic::div_mod::lemma_fundamental_div_mod(n, base);
        assert(n / base * base == base * (n / base)) by (nonlinear_arith);
        assert(text[0] == front[0]);
        assert forall|k: int| 0 <= k < text.len() implies 0 <= digit_value(#[trigger] text[k])
            < base by {
            if k < front.len() {
                assert(text[k] == front[k]);
            }
        }
    }
}

/// Decimal text is read in ten and hexadecimal in sixteen; different numbers are
/// never written alike.
pub proof fn law_written_numbers_differ(a: int, b: int)
    requires
        a >= 0,
        b >= 0,
    ensures
        value_of(decimal(a), 10) == a,
        value_of(hex(a), 16) == a,
        decimal(a) == decimal(b) ==> a == b,
        hex(a) == hex(b) ==> a == b,
{
    law_digits_read_back(a, 10);
    law_digits_read_back(b, 10);
    law_digits_read_back(a, 16);
    law_digits_read_back(b, 16);
}

/// Different optional numbers are never written alike, nor are the two truths.
pub proof fn law_written_options_differ(a: Option<u64>, b: Option<u64>)
    ensures
        optional(a) == optional(b) ==> a == b,
        truth(true) != truth(false),
{
    reveal_strlit("Some(");
    reveal_strlit(")");
    reveal_strlit("None");
    reveal_strlit("true");
    reveal_strlit("false");
    assert("true"@[0] == 't');
    assert("false"@[0] == 'f');
    assert("true"@[0] == 't');
    assert("false"@[0] == 'f');
    assert("None"@[0] == 'N');
    assert("Some("@[0] == 'S');
    if optional(a) == optional(b) {
        if let Some(x) = a {
            assert(optional(a)[0] == 'S');
            if let Some(y) = b {
                let one = decimal(x as int);
                let other = decimal(y as int);
                assert(optional(a).subrange(5, optional(a).len() - 1) =~= one);
                assert(optional(b).subrange(5, optional(b).len() - 1) =~= other);
                law_written_numbers_differ(x as int, y as int);
            }
        } else if let Some(y) = b {
            assert(optional(b)[0] == 'S');
        }
    }
}

} // verus!
