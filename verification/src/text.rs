//! Text helpers: suffixes of field names and decimal numerals.

use vstd::prelude::*;

verus! {

/// The decimal digit `d`.
pub open spec fn digit(d: nat) -> char {
    (48 + d) as char
}

/// The decimal numeral of `n`, without leading zeros.
pub open spec fn decimal(n: nat) -> Seq<char>
    decreases n,
{
    if n < 10 {
        seq![digit(n)]
    } else {
        decimal(n / 10).push(digit(n % 10))
    }
}

/// `s` without `suffix` at its end: taken off once, where `s` ends with it.
pub open spec fn without_suffix(s: Seq<char>, suffix: Seq<char>) -> Seq<char> {
    if suffix.is_suffix_of(s) {
        s.take(s.len() - suffix.len())
    } else {
        s
    }
}

/// The characters of an optional text.
pub open spec fn opt_text(text: Option<String>) -> Option<Seq<char>> {
    match text {
        Some(text) => Some(text@),
        None => None,
    }
}

/// The digit `d` as text.
fn digit_text(d: u64) -> (text: &'static str)
    requires
        d < 10,
    ensures
        text@ == seq![digit(d as nat)],
{
    proof {
        reveal_strlit("0");
        reveal_strlit("1");
        reveal_strlit("2");
        reveal_strlit("3");
        reveal_strlit("4");
        reveal_strlit("5");
        reveal_strlit("6");
        reveal_strlit("7");
        reveal_strlit("8");
        reveal_strlit("9");
    }
    if d == 0 {
        "0"
    } else if d == 1 {
        "1"
    } else if d == 2 {
        "2"
    } else if d == 3 {
        "3"
    } else if d == 4 {
        "4"
    } else if d == 5 {
        "5"
    } else if d == 6 {
        "6"
    } else if d == 7 {
        "7"
    } else if d == 8 {
        "8"
    } else {
        "9"
    }
}

/// Writes `n` in decimal.
pub fn decimal_text(n: u64) -> (text: String)
    ensures
        text@ == decimal(n as nat),
    decreases n,
{
    if n < 10 {
        digit_text(n).to_owned()
    } else {
        let mut text = decimal_text(n / 10);
        text.append(digit_text(n % 10));
        proof {
            assert(text@ =~= decimal((n / 10) as nat).push(digit((n % 10) as nat)));
        }
        text
    }
}

/// The characters of `s`.
fn chars_of(s: &str) -> (chars: Vec<char>)
    ensures
        chars@ == s@,
{
    let mut chars: Vec<char> = Vec::new();
    for c in it: s.chars()
        invariant
            chars@ == it.seq().take(it.index() as int),
            it.seq() == s@,
    {
        chars.push(c);
        proof {
            assert(chars@ =~= it.seq().take(it.index() + 1));
        }
    }
    proof {
        assert(chars@ =~= s@);
    }
    chars
}

/// Whether the first `len` characters of `chars` end with `suffix`.
fn prefix_ends_with(chars: &Vec<char>, len: usize, suffix: &Vec<char>) -> (found: bool)
    requires
        len <= chars@.len(),
    ensures
        found == suffix@.is_suffix_of(chars@.take(len as int)),
{
    if suffix.len() > len {
        return false;
    }
    let start: usize = len - suffix.len();
    let mut i: usize = 0;
    while i < suffix.len()
        invariant
            i <= suffix@.len() <= len <= chars@.len(),
            start == len - suffix@.len(),
            forall|k: int| 0 <= k < i ==> suffix@[k] == chars@[start + k],
        decreases suffix@.len() - i,
    {
        if chars[start + i] != suffix[i] {
            proof {
                let tail = chars@.take(len as int).subrange(start as int, len as int);
                assert(tail[i as int] == chars@[start + i]);
            }
            return false;
        }
        i += 1;
    }
    proof {
        assert(suffix@ =~= chars@.take(len as int).subrange(start as int, len as int));
    }
    true
}

/// Whether `s` ends with `suffix`.
pub fn ends_with(s: &str, suffix: &str) -> (found: bool)
    ensures
        found == suffix@.is_suffix_of(s@),
{
    let chars = chars_of(s);
    let suffix_chars = chars_of(suffix);
    proof {
        assert(chars@.take(chars@.len() as int) =~= chars@);
    }
    prefix_ends_with(&chars, chars.len(), &suffix_chars)
}

/// Takes `suffix` off the end of `s`, once, where `s` ends with it.
pub fn remove_suffix(s: &str, suffix: &str) -> (rest: String)
    ensures
        rest@ == without_suffix(s@, suffix@),
{
    let chars = chars_of(s);
    let suffix_chars = chars_of(suffix);
    proof {
        assert(chars@.take(chars@.len() as int) =~= chars@);
    }
    if prefix_ends_with(&chars, chars.len(), &suffix_chars) {
        s.substring_char(0, chars.len() - suffix_chars.len()).to_owned()
    } else {
        s.to_owned()
    }
}

} // verus!
