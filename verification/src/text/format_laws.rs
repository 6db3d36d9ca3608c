//! What numbers and names look like as text.
#[allow(unused_imports)]
use crate::text::{decimal, digit, hex, lowercase, trim, white};
use vstd::prelude::*;

verus! {

/// The value of a digit of base 16 or below, letters in upper case.
pub open spec fn digit_value(c: char) -> int {
    if '0' <= c <= '9' {
        c as int - '0' as int
    } else if 'A' <= c <= 'F' {
        c as int - 'A' as int + 10
    } else {
        -1
    }
}

/// The number that digits stand for.
pub open spec fn number_of(s: Seq<char>, base: int) -> int
    decreases s.len(),
{
    if s.len() == 0 {
        0
    } else {
        number_of(s.drop_last(), base) * base + digit_value(s.last())
    }
}

proof fn lemma_digit(n: int)
    requires
        0 <= n < 16,
    ensures
        digit_value(digit(n)) == n,
{
}

/// A number in base 16 reads back as that number. It has as many digits as were asked for, and
/// more only where it needs them.
pub proof fn law_hex_reads_back(value: nat, width: nat)
    ensures
        number_of(hex(value, width), 16) == value,
        hex(value, width).len() >= width,
        hex(value, width).len() >= 1,
        hex(value, width).len() > width && hex(value, width).len() > 1 ==> hex(value, width)[0]
            != '0',
        forall|i: int|
            0 <= i < hex(value, width).len() ==> digit_value(#[trigger] hex(value, width)[i]) >= 0,
    decreases value, width,
{
    lemma_digit(value as int % 16);
    if value < 16 && width <= 1 {
        lemma_digit(value as int);
        let s = hex(value, width);
        assert(s.drop_last() =~= Seq::<char>::empty());
        assert(number_of(s.drop_last(), 16) == 0);
    } else {
        let rest = if width > 0 {
            (width - 1) as nat
        } else {
            0
        };
        law_hex_reads_back(value / 16, rest);
        let s = hex(value, width);
        assert(s.drop_last() =~= hex(value / 16, rest));
        assert(s.last() == digit(value as int % 16));
        if s.len() > width && s.len() > 1 {
            lemma_first_digit(value, width);
        }
    }
}

proof fn lemma_some_digit(value: nat, width: nat)
    ensures
        hex(value, width).len() >= 1,
    decreases value, width,
{
    if !(value < 16 && width <= 1) {
        let rest = if width > 0 {
            (width - 1) as nat
        } else {
            0
        };
        lemma_some_digit(value / 16, rest);
    }
}

proof fn lemma_first_digit(value: nat, width: nat)
    requires
        hex(value, width).len() > width,
        hex(value, width).len() > 1,
    ensures
        hex(value, width)[0] != '0',
    decreases value, width,
{
    let rest = if width > 0 {
        (width - 1) as nat
    } else {
        0
    };
    let s = hex(value / 16, rest);
    assert(hex(value, width) =~= s.push(digit(value as int % 16)));
    lemma_some_digit(value / 16, rest);
    assert(hex(value, width)[0] == s[0]);
    if s.len() > 1 {
        lemma_first_digit(value / 16, rest);
    } else {
        lemma_one_digit(value / 16, rest);
    }
}

proof fn lemma_one_digit(value: nat, width: nat)
    requires
        hex(value, width).len() == 1,
    ensures
        value < 16 && width <= 1,
        hex(value, width)[0] == digit(value as int),
{
    if !(value < 16 && width <= 1) {
        let rest = if width > 0 {
            (width - 1) as nat
        } else {
            0
        };
        lemma_some_digit(value / 16, rest);
    }
}

/// A number in base 10 reads back as that number, and starts with 0 only where it is 0.
pub proof fn law_decimal_reads_back(value: int)
    requires
        value >= 0,
    ensures
        number_of(decimal(value), 10) == value,
        decimal(value).len() >= 1,
        value > 0 ==> decimal(value)[0] != '0',
        value < 10 ==> decimal(value).len() == 1,
        10 <= value < 100 ==> decimal(value).len() == 2,
    decreases value,
{
    lemma_digit(value % 10);
    let s = decimal(value);
    if value < 10 {
        assert(s.drop_last() =~= Seq::<char>::empty());
        assert(number_of(s.drop_last(), 10) == 0);
    } else {
        law_decimal_reads_back(value / 10);
        assert(s.drop_last() =~= decimal(value / 10));
    }
}

/// Lower case is 32 above upper case for the letters from A to Z, and changes nothing else.
/// Once lowered, a text stays as it is.
pub proof fn law_lowercase(s: Seq<char>, i: int)
    requires
        0 <= i < s.len(),
    ensures
        lowercase(s).len() == s.len(),
        'A' <= s[i] <= 'Z' ==> lowercase(s)[i] as int == s[i] as int + 32,
        !('A' <= s[i] <= 'Z') ==> lowercase(s)[i] == s[i],
        lowercase(lowercase(s)) == lowercase(s),
{
    assert(lowercase(lowercase(s)) =~= lowercase(s));
}

/// Only white space is cut off before `a` and from `b` on.
pub open spec fn cut_at(s: Seq<char>, a: int, b: int) -> bool {
    &&& 0 <= a <= b <= s.len()
    &&& forall|i: int| 0 <= i < a ==> white(#[trigger] s[i])
    &&& forall|i: int| b <= i < s.len() ==> white(#[trigger] s[i])
}

/// A trimmed text has no white space at its ends, and is what is left of the text between some
/// white space at its start and some at its end.
pub proof fn law_trim(s: Seq<char>)
    ensures
        trim(s).len() > 0 ==> !white(trim(s).first()) && !white(trim(s).last()),
        exists|a: int, b: int| #[trigger] cut_at(s, a, b) && trim(s) == s.subrange(a, b),
    decreases s.len(),
{
    if s.len() == 0 {
        assert(cut_at(s, 0, 0));
        assert(s.subrange(0, 0) =~= s);
    } else if white(s.first()) {
        let t = s.drop_first();
        law_trim(t);
        let (a, b) = choose|a: int, b: int| #[trigger]
            cut_at(t, a, b) && trim(t) == t.subrange(a, b);
        lemma_cut_front(s, a, b);
    } else if white(s.last()) {
        let t = s.drop_last();
        law_trim(t);
        let (a, b) = choose|a: int, b: int| #[trigger]
            cut_at(t, a, b) && trim(t) == t.subrange(a, b);
        lemma_cut_back(s, a, b);
    } else {
        assert(cut_at(s, 0, s.len() as int));
        assert(s.subrange(0, s.len() as int) =~= s);
    }
}

proof fn lemma_cut_front(s: Seq<char>, a: int, b: int)
    requires
        s.len() > 0,
        white(s[0]),
        cut_at(s.drop_first(), a, b),
    ensures
        cut_at(s, a + 1, b + 1),
        s.subrange(a + 1, b + 1) == s.drop_first().subrange(a, b),
{
    let t = s.drop_first();
    assert(s.subrange(a + 1, b + 1) =~= t.subrange(a, b));
    assert forall|i: int| 0 <= i < a + 1 implies white(#[trigger] s[i]) by {
        if i > 0 {
            assert(s[i] == t[i - 1]);
        }
    }
    assert forall|i: int| b + 1 <= i < s.len() implies white(#[trigger] s[i]) by {
        assert(s[i] == t[i - 1]);
    }
}

proof fn lemma_cut_back(s: Seq<char>, a: int, b: int)
    requires
        s.len() > 0,
        white(s[s.len() - 1]),
        cut_at(s.drop_last(), a, b),
    ensures
        cut_at(s, a, b),
        s.subrange(a, b) == s.drop_last().subrange(a, b),
{
    let t = s.drop_last();
    assert(s.subrange(a, b) =~= t.subrange(a, b));
    assert forall|i: int| 0 <= i < a implies white(#[trigger] s[i]) by {
        assert(s[i] == t[i]);
    }
    assert forall|i: int| b <= i < s.len() implies white(#[trigger] s[i]) by {
        if i < t.len() {
            assert(s[i] == t[i]);
        }
    }
}

} // verus!
