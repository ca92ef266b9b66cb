//! Numbers as text.
use vstd::prelude::*;

verus! {

/// The character of a digit in base sixteen or below.
pub open spec fn digit_char(d: int, upper: bool) -> char {
    if d < 10 {
        (d + 48) as char
    } else if upper {
        (d + 55) as char
    } else {
        (d + 87) as char
    }
}

/// `v` in positional notation, without leading zeros; zero is one digit.
pub open spec fn numeral(v: nat, base: nat, upper: bool) -> Seq<char>
    decreases v,
{
    if base < 2 || v < base {
        seq![digit_char(v as int, upper)]
    } else {
        proof {
            assert(v / base < v) by (nonlinear_arith)
                requires
                    v >= base,
                    base >= 2,
            ;
        }
        numeral(v / base, base, upper).push(digit_char((v % base) as int, upper))
    }
}

/// `n` times `c`.
pub open spec fn repeated(c: char, n: int) -> Seq<char> {
    Seq::new(
        if n > 0 {
            n as nat
        } else {
            0
        },
        |i: int| c,
    )
}

/// `s` right-aligned in `width` places, filled with `c`.
pub open spec fn right_aligned(s: Seq<char>, width: int, c: char) -> Seq<char> {
    repeated(c, width - s.len()) + s
}

/// `s` left-aligned in `width` places, filled with `c`.
pub open spec fn left_aligned(s: Seq<char>, width: int, c: char) -> Seq<char> {
    s + repeated(c, width - s.len())
}

/// Decimal notation.
pub open spec fn decimal(v: int) -> Seq<char> {
    numeral(v as nat, 10, false)
}

/// Hexadecimal notation, filled with zeros to at least eight digits.
pub open spec fn hex8(v: int, upper: bool) -> Seq<char> {
    right_aligned(numeral(v as nat, 16, upper), 8, '0')
}

/// The text of one digit.
fn digit_text(d: u64, upper: bool) -> (s: &'static str)
    requires
        d < 16,
    ensures
        s@ == seq![digit_char(d as int, upper)],
{
    proof {
        reveal_strlit("0");
        reveal_strlit("1");
        reveal_strlit("2");
        reveal_strlit("3");
        reveal_strlit("4");
        reveal_strlit("5");
        reveal_strlit("6");
        reveal_strlit("7");
        reveal_strlit("8");
        reveal_strlit("9");
        reveal_strlit("a");
        reveal_strlit("b");
        reveal_strlit("c");
        reveal_strlit("d");
        reveal_strlit("e");
        reveal_strlit("f");
        reveal_strlit("A");
        reveal_strlit("B");
        reveal_strlit("C");
        reveal_strlit("D");
        reveal_strlit("E");
        reveal_strlit("F");
    }
    let s = if d == 0 {
        "0"
    } else if d == 1 {
        "1"
    } else if d == 2 {
        "2"
    } else if d == 3 {
        "3"
    } else if d == 4 {
        "4"
    } else if d == 5 {
        "5"
    } else if d == 6 {
        "6"
    } else if d == 7 {
        "7"
    } else if d == 8 {
        "8"
    } else if d == 9 {
        "9"
    } else if upper {
        if d == 10 {
            "A"
        } else if d == 11 {
            "B"
        } else if d == 12 {
            "C"
        } else if d == 13 {
            "D"
        } else if d == 14 {
            "E"
        } else {
            "F"
        }
    } else if d == 10 {
        "a"
    } else if d == 11 {
        "b"
    } else if d == 12 {
        "c"
    } else if d == 13 {
        "d"
    } else if d == 14 {
        "e"
    } else {
        "f"
    };
    assert(s@ =~= seq![digit_char(d as int, upper)]);
    s
}

/// Appends `v` in the given base.
pub fn push_numeral(s: &mut String, v: u64, base: u64, upper: bool)
    requires
        2 <= base <= 16,
    ensures
        final(s)@ == old(s)@ + numeral(v as nat, base as nat, upper),
    decreases v,
{
    let ghost before = s@;
    if v < base {
        s.append(digit_text(v, upper));
        assert(s@ =~= before + numeral(v as nat, base as nat, upper));
    } else {
        proof {
            assert(v / base < v) by (nonlinear_arith)
                requires
                    v >= base,
                    base >= 2,
            ;
        }
        push_numeral(s, v / base, base, upper);
        s.append(digit_text(v % base, upper));
        assert(s@ =~= before + numeral(v as nat, base as nat, upper));
    }
}

/// Appends `text` `n` times.
pub(crate) fn push_repeated(s: &mut String, text: &str, n: usize, Ghost(c): Ghost<char>)
    requires
        text@ == seq![c],
    ensures
        final(s)@ == old(s)@ + repeated(c, n as int),
{
    let ghost before = s@;
    let mut i: usize = 0;
    assert(before + repeated(c, 0) =~= before);
    while i < n
        invariant
            i <= n,
            text@ == seq![c],
            s@ == before + repeated(c, i as int),
        decreases n - i,
    {
        s.append(text);
        assert(before + repeated(c, i as int) + seq![c] =~= before + repeated(c, i + 1));
        i = i + 1;
    }
}

/// The text of a number, right-aligned with zeros or blanks.
pub fn number_text(v: u64, base: u64, upper: bool, width: usize, zeros: bool) -> (s: String)
    requires
        2 <= base <= 16,
    ensures
        s@ == right_aligned(
            numeral(v as nat, base as nat, upper),
            width as int,
            if zeros {
                '0'
            } else {
                ' '
            },
        ),
{
    proof {
        reveal_strlit("0");
        reveal_strlit(" ");
        assert("0"@ =~= seq!['0']);
        assert(" "@ =~= seq![' ']);
    }
    let mut n = String::new();
    push_numeral(&mut n, v, base, upper);
    assert(n@ =~= numeral(v as nat, base as nat, upper));
    let len = n.as_str().unicode_len();
    let mut s = String::new();
    let pad: usize = if width > len {
        width - len
    } else {
        0
    };
    if zeros {
        push_repeated(&mut s, "0", pad, Ghost('0'));
    } else {
        push_repeated(&mut s, " ", pad, Ghost(' '));
    }
    s.append(n.as_str());
    assert(s@ =~= right_aligned(
        numeral(v as nat, base as nat, upper),
        width as int,
        if zeros {
            '0'
        } else {
            ' '
        },
    ));
    s
}

/// Appends `v` in decimal.
pub fn push_decimal(s: &mut String, v: u64)
    ensures
        final(s)@ == old(s)@ + decimal(v as int),
{
    push_numeral(s, v, 10, false);
}

/// Appends `v` in hexadecimal, filled with zeros to eight digits.
pub fn push_hex8(s: &mut String, v: u64, upper: bool)
    ensures
        final(s)@ == old(s)@ + hex8(v as int, upper),
{
    let n = number_text(v, 16, upper, 8, true);
    s.append(n.as_str());
}

/// A string of its own.
pub fn owned(s: &str) -> (r: String)
    ensures
        r@ == s@,
{
    let mut r = String::new();
    r.append(s);
    assert(r@ =~= s@);
    r
}

/// A numeral is not longer than its value, but for zero.
pub proof fn lemma_numeral_is_short(v: nat, base: nat, upper: bool)
    requires
        base >= 2,
    ensures
        1 <= numeral(v, base, upper).len() <= v + 1,
    decreases v,
{
    if v >= base {
        assert(v / base < v) by (nonlinear_arith)
            requires
                v >= base,
                base >= 2,
        ;
        lemma_numeral_is_short(v / base, base, upper);
    }
}

/// What a digit stands for, in either case.
pub open spec fn digit_value(c: char) -> int {
    if '0' <= c <= '9' {
        c as int - '0' as int
    } else if 'a' <= c <= 'f' {
        c as int - 'a' as int + 10
    } else if 'A' <= c <= 'F' {
        c as int - 'A' as int + 10
    } else {
        -1
    }
}

/// What a run of digits stands for: each counts `base` times the one behind it.
pub open spec fn numeral_value(s: Seq<char>, base: int) -> int
    decreases s.len(),
{
    if s.len() == 0 {
        0
    } else {
        numeral_value(s.drop_last(), base) * base + digit_value(s.last())
    }
}

/// A numeral says its number: read back, its digits give it, and there is no zero
/// in front unless it is the only digit.
pub proof fn law_numerals_read_back(v: nat, base: nat, upper: bool)
    requires
        2 <= base <= 16,
    ensures
        numeral_value(numeral(v, base, upper), base as int) == v,
        numeral(v, base, upper).len() >= 1,
        numeral(v, base, upper)[0] == '0' ==> v == 0 && numeral(v, base, upper).len() == 1,
        forall|i: int|
            0 <= i < numeral(v, base, upper).len() ==> 0 <= digit_value(
                #[trigger] numeral(v, base, upper)[i],
            ) < base,
    decreases v,
{
    let n = numeral(v, base, upper);
    if v < base {
        assert(n.drop_last() =~= Seq::empty());
        assert(n =~= seq![digit_char(v as int, upper)]);
        assert(numeral_value(n, base as int) == 0 * base + digit_value(n.last())) by {
            assert(numeral_value(Seq::<char>::empty(), base as int) == 0);
        }
        assert(0 * base == 0) by (nonlinear_arith);
        assert(digit_value(digit_char(v as int, upper)) == v);
    } else {
        assert(v / base < v) by (nonlinear_arith)
            requires
                v >= base,
                base >= 2,
        ;
        assert(v / base >= 1) by (nonlinear_arith)
            requires
                v >= base,
                base >= 2,
        ;
        let q = v / base;
        let r = v % base;
        law_numerals_read_back(q, base, upper);
        vstd::arithmetic::div_mod::lemma_fundamental_div_mod(v as int, base as int);
        assert(q * base == base * q) by (nonlinear_arith);
        assert(0 <= r < base) by (nonlinear_arith)
            requires
                r == v % base,
                base >= 2,
        ;
        let front = numeral(q, base, upper);
        assert(n =~= front.push(digit_char(r as int, upper)));
        assert(n.drop_last() =~= front);
        assert(digit_value(digit_char(r as int, upper)) == r);
        assert forall|i: int| 0 <= i < n.len() implies 0 <= digit_value(#[trigger] n[i]) < base by {
            if i < front.len() {
                assert(n[i] == front[i]);
            }
        }
        assert(n[0] == front[0]);
    }
}

/// Letters in hexadecimal are capitals exactly on request.
pub proof fn law_hexadecimal_letters(d: int, upper: bool)
    requires
        10 <= d < 16,
    ensures
        upper ==> 'A' <= digit_char(d, upper) <= 'F',
        !upper ==> 'a' <= digit_char(d, upper) <= 'f',
        digit_value(digit_char(d, upper)) == d,
{
}

/// Alignment fills one side and keeps the text; what is too long is kept whole.
pub proof fn law_alignment_fills_one_side(s: Seq<char>, width: int, c: char)
    ensures
        right_aligned(s, width, c).len() == if s.len() < width {
            width
        } else {
            s.len() as int
        },
        left_aligned(s, width, c).len() == right_aligned(s, width, c).len(),
        right_aligned(s, width, c).skip(right_aligned(s, width, c).len() - s.len()) == s,
        left_aligned(s, width, c).take(s.len() as int) == s,
        forall|i: int|
            0 <= i < width - s.len() ==> #[trigger] right_aligned(s, width, c)[i] == c,
        forall|i: int|
            s.len() <= i < width ==> #[trigger] left_aligned(s, width, c)[i] == c,
{
    assert(right_aligned(s, width, c).skip(right_aligned(s, width, c).len() - s.len()) =~= s);
    assert(left_aligned(s, width, c).take(s.len() as int) =~= s);
}

/// Decimal and padded hexadecimal are numerals of base ten and sixteen.
pub proof fn law_notations_have_their_bases(v: nat, upper: bool)
    ensures
        numeral_value(decimal(v as int), 10) == v,
        hex8(v as int, upper).len() >= 8,
        numeral_value(hex8(v as int, upper), 16) == v,
{
    law_numerals_read_back(v, 10, false);
    law_numerals_read_back(v, 16, upper);
    let n = numeral(v, 16, upper);
    law_alignment_fills_one_side(n, 8, '0');
    lemma_zeros_in_front(n, (8 - n.len()) as int);
}

proof fn lemma_zeros_in_front(s: Seq<char>, k: int)
    ensures
        numeral_value(repeated('0', k) + s, 16) == numeral_value(s, 16),
    decreases s.len() + if k > 0 { k } else { 0 },
{
    let all = repeated('0', k) + s;
    if s.len() > 0 {
        lemma_zeros_in_front(s.drop_last(), k);
        assert(all.drop_last() =~= repeated('0', k) + s.drop_last());
    } else if k > 0 {
        lemma_zeros_in_front(s, k - 1);
        assert(all.drop_last() =~= repeated('0', k - 1) + s);
        assert(all.last() == '0');
    } else {
        assert(all =~= s);
    }
}

} // verus!
