use vstd::prelude::*;

verus! {

/// The decimal digit character for `d` (0 to 9).
pub open spec fn digit_char(d: int) -> char {
    if d == 0 {
        '0'
    } else if d == 1 {
        '1'
    } else if d == 2 {
        '2'
    } else if d == 3 {
        '3'
    } else if d == 4 {
        '4'
    } else if d == 5 {
        '5'
    } else if d == 6 {
        '6'
    } else if d == 7 {
        '7'
    } else if d == 8 {
        '8'
    } else {
        '9'
    }
}

/// The decimal representation of `n`, without leading zeros (`0` is "0").
pub open spec fn decimal_digits(n: nat) -> Seq<char>
    decreases n,
{
    if n < 10 {
        seq![digit_char(n as int)]
    } else {
        decimal_digits(n / 10).push(digit_char((n % 10) as int))
    }
}

pub proof fn lemma_decimal_digits_nonempty(n: nat)
    ensures
        decimal_digits(n).len() >= 1,
    decreases n,
{
    if n >= 10 {
        lemma_decimal_digits_nonempty(n / 10);
    }
}

pub(crate) fn digit(d: u64) -> (c: char)
    requires
        d < 10,
    ensures
        c == digit_char(d as int),
{
    if d == 0 {
        '0'
    } else if d == 1 {
        '1'
    } else if d == 2 {
        '2'
    } else if d == 3 {
        '3'
    } else if d == 4 {
        '4'
    } else if d == 5 {
        '5'
    } else if d == 6 {
        '6'
    } else if d == 7 {
        '7'
    } else if d == 8 {
        '8'
    } else {
        '9'
    }
}

/// The decimal digits of `n`, most significant first.
pub(crate) fn decimal_chars(n: u64) -> (digits: Vec<char>)
    ensures
        digits@ == decimal_digits(n as nat),
{
    let mut rest = n;
    let mut digits: Vec<char> = Vec::new();
    while rest >= 10
        invariant
            decimal_digits(n as nat) == decimal_digits(rest as nat) + digits@,
        decreases rest,
    {
        let c = digit(rest % 10);
        proof {
            assert(decimal_digits(rest as nat) == decimal_digits((rest / 10) as nat).push(c));
        }
        let ghost old_digits = digits@;
        digits.insert(0, c);
        proof {
            old_digits.insert_ensures(0, c);
            assert(digits@ =~= seq![c] + old_digits);
            assert(decimal_digits((rest / 10) as nat).push(c) + old_digits =~= decimal_digits(
                (rest / 10) as nat,
            ) + digits@);
        }
        rest = rest / 10;
    }
    let c = digit(rest);
    let ghost old_digits = digits@;
    digits.insert(0, c);
    proof {
        old_digits.insert_ensures(0, c);
        assert(digits@ =~= seq![c] + old_digits);
        assert(decimal_digits(n as nat) =~= digits@);
    }
    digits
}

/// Appends a character to a string (`String::push`).
#[verifier::external_body]
pub(crate) fn push_char(text: &mut String, c: char)
    ensures
        final(text)@ == old(text)@.push(c),
{
    text.push(c);
}

/// A string made of the given characters, in order.
pub(crate) fn string_of(chars: &Vec<char>) -> (text: String)
    ensures
        text@ == chars@,
{
    let mut text = String::new();
    let mut i: usize = 0;
    while i < chars.len()
        invariant
            i <= chars.len(),
            text@ == chars@.take(i as int),
        decreases chars.len() - i,
    {
        push_char(&mut text, chars[i]);
        assert(chars@.take(i + 1) =~= chars@.take(i as int).push(chars@[i as int]));
        i = i + 1;
    }
    assert(chars@.take(chars.len() as int) =~= chars@);
    text
}

} // verus!

verus! {

/// The characters of a string, in order.
pub(crate) fn chars_of(text: &str) -> (chars: Vec<char>)
    ensures
        chars@ == text@,
{
    let count = text.unicode_len();
    let mut chars: Vec<char> = Vec::new();
    let mut i: usize = 0;
    while i < count
        invariant
            count == text@.len(),
            i <= count,
            chars@ == text@.take(i as int),
        decreases count - i,
    {
        chars.push(text.get_char(i));
        assert(text@.take(i + 1) =~= text@.take(i as int).push(text@[i as int]));
        i = i + 1;
    }
    assert(text@.take(count as int) =~= text@);
    chars
}

/// `c` with an ASCII capital letter made small (`char::to_ascii_lowercase`).
pub open spec fn ascii_lower(c: char) -> char {
    if 'A' <= c <= 'Z' {
        ((c as int) + 32) as char
    } else {
        c
    }
}

pub(crate) fn ascii_lower_char(c: char) -> (r: char)
    ensures
        r == ascii_lower(c),
{
    if 'A' <= c && c <= 'Z' {
        ((c as u8) + 32) as char
    } else {
        c
    }
}

/// Whether `pattern` occurs in `text` starting at position `at`.
pub open spec fn occurs_at(text: Seq<char>, pattern: Seq<char>, at: int) -> bool {
    0 <= at && at + pattern.len() <= text.len() && text.subrange(at, at + pattern.len()) == pattern
}

/// Whether `pattern` occurs somewhere in `text`.
pub open spec fn occurs_in(text: Seq<char>, pattern: Seq<char>) -> bool {
    exists|at: int| occurs_at(text, pattern, at)
}

/// Whether `pattern` occurs in `text` (`str::contains` with a string
/// pattern).
pub(crate) fn contains_chars(text: &Vec<char>, pattern: &Vec<char>) -> (found: bool)
    ensures
        found == occurs_in(text@, pattern@),
{
    let n = text.len();
    let m = pattern.len();
    if m > n {
        assert forall|at: int| !occurs_at(text@, pattern@, at) by {}
        return false;
    }
    let mut at: usize = 0;
    while at <= n - m
        invariant
            n == text@.len(),
            m == pattern@.len(),
            m <= n,
            at <= n - m + 1,
            forall|a: int| 0 <= a < at ==> !occurs_at(text@, pattern@, a),
        decreases n - m + 1 - at,
    {
        let mut k: usize = 0;
        let mut same = true;
        while k < m
            invariant
                n == text@.len(),
                m == pattern@.len(),
                at + m <= n,
                k <= m,
                same == forall|j: int| 0 <= j < k ==> text@[at + j] == pattern@[j],
            decreases m - k,
        {
            if text[at + k] != pattern[k] {
                same = false;
            }
            k = k + 1;
        }
        if same {
            assert(text@.subrange(at as int, at + m) =~= pattern@);
            assert(occurs_at(text@, pattern@, at as int));
            return true;
        }
        assert(!occurs_at(text@, pattern@, at as int)) by {
            let j = choose|j: int| 0 <= j < m && text@[at + j] != pattern@[j];
            if text@.subrange(at as int, at + m) == pattern@ {
                assert(text@.subrange(at as int, at + m)[j] == text@[at + j]);
            }
        }
        at = at + 1;
    }
    assert forall|a: int| !occurs_at(text@, pattern@, a) by {
        if 0 <= a < at {
        }
    }
    false
}

} // verus!
