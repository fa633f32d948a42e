//! Text as a sequence of characters.

use vstd::prelude::*;
use vstd::std_specs::iter::IteratorSpec;

verus! {

/// The characters of `text`, in order.
pub fn chars_of(text: &str) -> (chars: Vec<char>)
    ensures
        chars@ == text@,
{
    broadcast use vstd::string::group_string_axioms;
    let mut chars: Vec<char> = Vec::new();
    for ch in it: text.chars()
        invariant
            it.seq() == text@,
            chars@ == text@.take(it.index() as int),
    {
        chars.push(ch);
    }
    assert(text@.take(text@.len() as int) == text@);
    chars
}

/// The index of the first `needle` in `text`, or the length of `text` if it
/// holds none.
pub open spec fn first_index(text: Seq<char>, needle: char) -> int
    decreases text.len(),
{
    if text.len() == 0 {
        0
    } else if text[0] == needle {
        0
    } else {
        1 + first_index(text.drop_first(), needle)
    }
}

/// The index of the first `needle` in `text`, or the length of `text` if it
/// holds none.
pub fn find_char(text: &Vec<char>, needle: char) -> (at: usize)
    ensures
        at == first_index(text@, needle),
        at <= text@.len(),
        at < text@.len() ==> text@[at as int] == needle,
{
    let mut at: usize = 0;
    assert(text@.subrange(0, text@.len() as int) =~= text@);
    while at < text.len() && text[at] != needle
        invariant
            at <= text@.len(),
            first_index(text@, needle) == at + first_index(
                text@.subrange(at as int, text@.len() as int),
                needle,
            ),
        decreases text.len() - at,
    {
        proof {
            let rest = text@.subrange(at as int, text@.len() as int);
            assert(rest.drop_first() =~= text@.subrange(at + 1, text@.len() as int));
        }
        at += 1;
    }
    proof {
        let rest = text@.subrange(at as int, text@.len() as int);
        assert(first_index(rest, needle) == 0);
    }
    at
}

/// The index of the first `needle` in `text` at or after `from`, or the
/// length of `text` if none follows.
pub open spec fn next_index(text: Seq<char>, needle: char, from: int) -> int {
    from + first_index(text.subrange(from, text.len() as int), needle)
}

/// The index of the first `needle` in `text` at or after `from`, or the
/// length of `text` if none follows.
pub fn find_char_from(text: &Vec<char>, needle: char, from: usize) -> (at: usize)
    requires
        from <= text@.len(),
    ensures
        at == next_index(text@, needle, from as int),
        from <= at <= text@.len(),
        at < text@.len() ==> text@[at as int] == needle,
{
    let mut at: usize = from;
    while at < text.len() && text[at] != needle
        invariant
            from <= at <= text@.len(),
            next_index(text@, needle, from as int) == next_index(text@, needle, at as int),
        decreases text.len() - at,
    {
        proof {
            let rest = text@.subrange(at as int, text@.len() as int);
            assert(rest.drop_first() =~= text@.subrange(at + 1, text@.len() as int));
        }
        at += 1;
    }
    proof {
        let rest = text@.subrange(at as int, text@.len() as int);
        assert(first_index(rest, needle) == 0);
    }
    at
}

/// Whether two texts are the same.
pub fn same_text(left: &str, right: &str) -> (same: bool)
    ensures
        same == (left@ == right@),
{
    let a = chars_of(left);
    let b = chars_of(right);
    if a.len() != b.len() {
        return false;
    }
    let mut n: usize = 0;
    while n < a.len()
        invariant
            a@ == left@,
            b@ == right@,
            a@.len() == b@.len(),
            n <= a@.len(),
            forall|i: int| 0 <= i < n ==> a@[i] == b@[i],
        decreases a.len() - n,
    {
        if a[n] != b[n] {
            return false;
        }
        n += 1;
    }
    assert(a@ =~= b@);
    true
}

/// The character of a decimal digit.
pub open spec fn digit_char(digit: nat) -> char {
    if digit == 0 {
        '0'
    } else if digit == 1 {
        '1'
    } else if digit == 2 {
        '2'
    } else if digit == 3 {
        '3'
    } else if digit == 4 {
        '4'
    } else if digit == 5 {
        '5'
    } else if digit == 6 {
        '6'
    } else if digit == 7 {
        '7'
    } else if digit == 8 {
        '8'
    } else {
        '9'
    }
}

/// The decimal numeral of `n`, without leading zeros.
pub open spec fn decimal(n: nat) -> Seq<char>
    decreases n,
{
    if n < 10 {
        seq![digit_char(n)]
    } else {
        decimal(n / 10).push(digit_char(n % 10))
    }
}

/// `body`, with as many `pad` characters put before it as it is shorter
/// than `width`.
pub open spec fn padded(body: Seq<char>, width: nat, pad: char) -> Seq<char> {
    if body.len() >= width {
        body
    } else {
        Seq::new((width - body.len()) as nat, |i: int| pad) + body
    }
}

/// The character of a decimal digit.
pub fn digit(value: u32) -> (ch: char)
    requires
        value < 10,
    ensures
        ch == digit_char(value as nat),
{
    if value == 0 {
        '0'
    } else if value == 1 {
        '1'
    } else if value == 2 {
        '2'
    } else if value == 3 {
        '3'
    } else if value == 4 {
        '4'
    } else if value == 5 {
        '5'
    } else if value == 6 {
        '6'
    } else if value == 7 {
        '7'
    } else if value == 8 {
        '8'
    } else {
        '9'
    }
}

/// Appends the decimal numeral of `n`, put to `width` characters at least
/// with `pad` in front, to `out`.
pub fn push_number(out: &mut Vec<char>, n: u32, width: usize, pad: char)
    ensures
        final(out)@ == old(out)@ + padded(decimal(n as nat), width as nat, pad),
{
    let ghost before = out@;
    let mut reversed: Vec<char> = Vec::new();
    let mut rest = n;
    while rest >= 10
        invariant
            decimal(n as nat) == decimal(rest as nat) + reversed@.reverse(),
        decreases rest,
    {
        let ghost old_rev = reversed@;
        reversed.push(digit(rest % 10));
        proof {
            let d = digit_char((rest % 10) as nat);
            assert(reversed@.reverse() =~= seq![d] + old_rev.reverse());
            assert(decimal(rest as nat) == decimal((rest / 10) as nat).push(d));
            assert(decimal((rest / 10) as nat).push(d) + old_rev.reverse() =~= decimal(
                (rest / 10) as nat,
            ) + (seq![d] + old_rev.reverse()));
        }
        rest = rest / 10;
    }
    reversed.push(digit(rest));
    proof {
        let d = digit_char(rest as nat);
        let last = reversed@.drop_last();
        assert(reversed@.reverse() =~= seq![d] + last.reverse());
        assert(decimal(rest as nat) + last.reverse() =~= seq![d] + last.reverse());
    }
    assert(reversed@.reverse() == decimal(n as nat));
    let ghost body = decimal(n as nat);
    let mut k: usize = reversed.len();
    while k < width
        invariant
            reversed@.len() <= k,
            k <= width || k == reversed@.len(),
            out@ =~= before + Seq::new((k - reversed@.len()) as nat, |i: int| pad),
        decreases width - k,
    {
        out.push(pad);
        k += 1;
    }
    let ghost lead = out@;
    let mut m: usize = reversed.len();
    while m > 0
        invariant
            m <= reversed@.len(),
            out@ =~= lead + reversed@.reverse().take(reversed@.len() - m),
        decreases m,
    {
        m -= 1;
        out.push(reversed[m]);
    }
    proof {
        assert(reversed@.reverse().take(reversed@.len() as int) =~= body);
        assert(out@ =~= before + padded(body, width as nat, pad));
    }
}

} // verus!
