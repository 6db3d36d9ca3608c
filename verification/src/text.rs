//! Text: letter case, trimming and joining.
pub mod format_laws;

use vstd::prelude::*;
use vstd::string::*;

verus! {

/// `String::push` appends a character.
pub assume_specification[ String::push ](s: &mut String, c: char)
    ensures
        final(s)@ == old(s)@.push(c),
;

/// A letter from A to Z in lower case; any other character as it is.
pub open spec fn lower(c: char) -> char {
    if 'A' <= c && c <= 'Z' {
        ((c as u32) + 32) as char
    } else {
        c
    }
}

/// Text with the letters from A to Z in lower case.
pub open spec fn lowercase(s: Seq<char>) -> Seq<char> {
    s.map_values(|c: char| lower(c))
}

/// A letter from A to Z in lower case.
pub fn to_lower(c: char) -> (r: char)
    ensures
        r == lower(c),
{
    match c {
        'A' => 'a',
        'B' => 'b',
        'C' => 'c',
        'D' => 'd',
        'E' => 'e',
        'F' => 'f',
        'G' => 'g',
        'H' => 'h',
        'I' => 'i',
        'J' => 'j',
        'K' => 'k',
        'L' => 'l',
        'M' => 'm',
        'N' => 'n',
        'O' => 'o',
        'P' => 'p',
        'Q' => 'q',
        'R' => 'r',
        'S' => 's',
        'T' => 't',
        'U' => 'u',
        'V' => 'v',
        'W' => 'w',
        'X' => 'x',
        'Y' => 'y',
        'Z' => 'z',
        _ => c,
    }
}

/// The characters of a text.
pub fn chars_of(s: &str) -> (r: Vec<char>)
    ensures
        r@ == s@,
{
    let n = s.unicode_len();
    let mut v: Vec<char> = Vec::new();
    let mut i: usize = 0;
    while i < n
        invariant
            n == s@.len(),
            i <= n,
            v@ == s@.take(i as int),
        decreases n - i,
    {
        v.push(s.get_char(i));
        i = i + 1;
        assert(v@ =~= s@.take(i as int));
    }
    assert(s@.take(n as int) =~= s@);
    v
}

/// Whether characters are the given text.
pub fn spells(v: &Vec<char>, s: &str) -> (r: bool)
    ensures
        r == (v@ == s@),
{
    let n = s.unicode_len();
    if v.len() != n {
        return false;
    }
    let mut i: usize = 0;
    while i < n
        invariant
            n == s@.len(),
            v.len() == n,
            i <= n,
            forall|k: int| 0 <= k < i ==> v@[k] == s@[k],
        decreases n - i,
    {
        if v[i] != s.get_char(i) {
            return false;
        }
        i = i + 1;
    }
    assert(v@ =~= s@);
    true
}

/// Characters with the letters from A to Z in lower case.
pub fn lowered(v: &Vec<char>) -> (r: Vec<char>)
    ensures
        r@ == lowercase(v@),
{
    let mut out: Vec<char> = Vec::new();
    let mut i: usize = 0;
    while i < v.len()
        invariant
            i <= v.len(),
            out.len() == i,
            forall|k: int| 0 <= k < i ==> out@[k] == lower(v@[k]),
        decreases v.len() - i,
    {
        out.push(to_lower(v[i]));
        i = i + 1;
    }
    assert(out@ =~= lowercase(v@));
    out
}

/// A hexadecimal digit in upper case.
pub open spec fn digit(n: int) -> char {
    if n < 10 {
        (n + 0x30) as char
    } else {
        (n + 0x37) as char
    }
}

/// A number in base 16, upper case, with leading zeros up to `width` digits.
pub open spec fn hex(value: nat, width: nat) -> Seq<char>
    decreases value, width,
{
    if value < 16 && width <= 1 {
        seq![digit(value as int)]
    } else {
        let rest = if width > 0 {
            (width - 1) as nat
        } else {
            0
        };
        hex(value / 16, rest).push(digit(value as int % 16))
    }
}

/// A number in base 10.
pub open spec fn decimal(value: int) -> Seq<char>
    decreases value,
{
    if value < 10 {
        seq![digit(value)]
    } else {
        decimal(value / 10).push(digit(value % 10))
    }
}

/// A hexadecimal digit in upper case.
pub fn to_digit(n: u8) -> (r: char)
    requires
        n < 16,
    ensures
        r == digit(n as int),
{
    match n {
        0 => '0',
        1 => '1',
        2 => '2',
        3 => '3',
        4 => '4',
        5 => '5',
        6 => '6',
        7 => '7',
        8 => '8',
        9 => '9',
        10 => 'A',
        11 => 'B',
        12 => 'C',
        13 => 'D',
        14 => 'E',
        _ => 'F',
    }
}

/// Append a number in base 16.
pub fn push_hex(s: &mut String, value: u64, width: u32)
    ensures
        final(s)@ == old(s)@ + hex(value as nat, width as nat),
    decreases value, width,
{
    if value >= 16 || width > 1 {
        let rest: u32 = if width > 0 {
            width - 1
        } else {
            0
        };
        push_hex(s, value / 16, rest);
    }
    s.push(to_digit((value % 16) as u8));
    assert(s@ =~= old(s)@ + hex(value as nat, width as nat));
}

/// Append a number in base 10.
pub fn push_decimal(s: &mut String, value: u64)
    ensures
        final(s)@ == old(s)@ + decimal(value as int),
    decreases value,
{
    if value >= 10 {
        push_decimal(s, value / 10);
    }
    s.push(to_digit((value % 10) as u8));
    assert(s@ =~= old(s)@ + decimal(value as int));
}

/// A number in base 16.
pub fn hex_text(value: u64, width: u32) -> (r: String)
    ensures
        r@ == hex(value as nat, width as nat),
{
    let mut s = String::new();
    push_hex(&mut s, value, width);
    assert(s@ =~= hex(value as nat, width as nat));
    s
}

/// The parts of a text between commas.
pub open spec fn fields(s: Seq<char>) -> Seq<Seq<char>>
    decreases s.len(),
{
    if s.len() == 0 {
        seq![Seq::empty()]
    } else {
        let f = fields(s.drop_last());
        if s.last() == ',' {
            f.push(Seq::empty())
        } else {
            f.drop_last().push(f.last().push(s.last()))
        }
    }
}

/// The parts of two texts with a comma between them are those of the one, then
/// those of the other.
pub proof fn law_fields_join(a: Seq<char>, b: Seq<char>)
    ensures
        fields(a + seq![','] + b) == fields(a) + fields(b),
        fields(b).len() >= 1,
    decreases b.len(),
{
    let t = a + seq![','] + b;
    if b.len() == 0 {
        assert(t.drop_last() =~= a);
        assert(fields(b) =~= seq![Seq::<char>::empty()]);
        assert(fields(t) =~= fields(a) + fields(b));
    } else {
        law_fields_join(a, b.drop_last());
        assert(t.drop_last() =~= a + seq![','] + b.drop_last());
        assert(fields(t) =~= fields(a) + fields(b));
    }
}

/// A text without a comma has one part, itself.
pub proof fn law_no_comma_one_field(s: Seq<char>)
    requires
        forall|i: int| 0 <= i < s.len() ==> #[trigger] s[i] != ',',
    ensures
        fields(s) == seq![s],
    decreases s.len(),
{
    if s.len() == 0 {
        assert(s =~= Seq::empty());
    } else {
        let rest = s.drop_last();
        assert forall|i: int| 0 <= i < rest.len() implies #[trigger] rest[i] != ',' by {
            assert(s[i] != ',');
        }
        law_no_comma_one_field(rest);
        assert(s.last() != ',');
        assert(rest.push(s.last()) =~= s);
        assert(fields(s) =~= seq![s]);
    }
}

/// White space, as Unicode has it.
pub open spec fn white(c: char) -> bool {
    ||| 0x09 <= c as int <= 0x0D
    ||| c as int == 0x20
    ||| c as int == 0x85
    ||| c as int == 0xA0
    ||| c as int == 0x1680
    ||| 0x2000 <= c as int <= 0x200A
    ||| c as int == 0x2028
    ||| c as int == 0x2029
    ||| c as int == 0x202F
    ||| c as int == 0x205F
    ||| c as int == 0x3000
}

/// A text without the white space at its ends.
pub open spec fn trim(s: Seq<char>) -> Seq<char>
    decreases s.len(),
{
    if s.len() == 0 {
        s
    } else if white(s.first()) {
        trim(s.drop_first())
    } else if white(s.last()) {
        trim(s.drop_last())
    } else {
        s
    }
}

/// The parts of a text between commas.
pub fn split_commas(v: &Vec<char>) -> (r: Vec<Vec<char>>)
    ensures
        r.len() == fields(v@).len(),
        forall|k: int| 0 <= k < r.len() ==> #[trigger] r@[k]@ == fields(v@)[k],
{
    let mut out: Vec<Vec<char>> = Vec::new();
    let mut part: Vec<char> = Vec::new();
    let mut i: usize = 0;
    assert(v@.take(0) =~= Seq::<char>::empty());
    while i < v.len()
        invariant
            i <= v.len(),
            fields(v@.take(i as int)).len() == out.len() + 1,
            forall|k: int| 0 <= k < out.len() ==> #[trigger] out@[k]@ == fields(v@.take(i as int))[k],
            part@ == fields(v@.take(i as int)).last(),
        decreases v.len() - i,
    {
        proof {
            assert(v@.take(i + 1).drop_last() =~= v@.take(i as int));
        }
        let c = v[i];
        if c == ',' {
            out.push(part);
            part = Vec::new();
        } else {
            part.push(c);
        }
        i = i + 1;
    }
    assert(v@.take(v.len() as int) =~= v@);
    out.push(part);
    out
}

/// Whether a character is white space.
pub fn is_white(c: char) -> (r: bool)
    ensures
        r == white(c),
{
    let n = c as u32;
    (0x09 <= n && n <= 0x0D) || n == 0x20 || n == 0x85 || n == 0xA0 || n == 0x1680 || (0x2000 <= n
        && n <= 0x200A) || n == 0x2028 || n == 0x2029 || n == 0x202F || n == 0x205F || n == 0x3000
}

/// Characters without the white space at their ends.
pub fn trimmed(v: &Vec<char>) -> (r: Vec<char>)
    ensures
        r@ == trim(v@),
{
    let mut from: usize = 0;
    let mut to: usize = v.len();
    assert(v@.subrange(0, v.len() as int) =~= v@);
    while from < to && is_white(v[from])
        invariant
            from <= to <= v.len(),
            trim(v@) == trim(v@.subrange(from as int, to as int)),
        decreases to - from,
    {
        assert(v@.subrange(from as int, to as int).drop_first() =~= v@.subrange(
            from + 1,
            to as int,
        ));
        from = from + 1;
    }
    while from < to && is_white(v[to - 1])
        invariant
            from <= to <= v.len(),
            from < to ==> !white(v@[from as int]),
            trim(v@) == trim(v@.subrange(from as int, to as int)),
        decreases to - from,
    {
        assert(v@.subrange(from as int, to as int).drop_last() =~= v@.subrange(
            from as int,
            to - 1,
        ));
        to = to - 1;
    }
    let mut out: Vec<char> = Vec::new();
    let mut i: usize = from;
    while i < to
        invariant
            from <= i <= to <= v.len(),
            out@ == v@.subrange(from as int, i as int),
        decreases to - i,
    {
        out.push(v[i]);
        i = i + 1;
        assert(out@ =~= v@.subrange(from as int, i as int));
    }
    out
}

/// Characters as text.
pub fn string_of(v: &Vec<char>) -> (r: String)
    ensures
        r@ == v@,
{
    let mut s = String::new();
    let mut i: usize = 0;
    assert(v@.take(0) =~= Seq::<char>::empty());
    while i < v.len()
        invariant
            i <= v.len(),
            s@ == v@.take(i as int),
        decreases v.len() - i,
    {
        s.push(v[i]);
        i = i + 1;
        assert(s@ =~= v@.take(i as int));
    }
    assert(v@.take(v.len() as int) =~= v@);
    s
}

} // verus!
