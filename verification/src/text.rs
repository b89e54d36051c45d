//! Text handling used when reading what the user typed and when building
//! request addresses: whitespace trimming, decimal numbers, substrings.

use vstd::prelude::*;

verus! {

/// Unicode `White_Space`, the set that `str::trim` removes.
pub open spec fn is_whitespace(c: char) -> bool {
    let n = c as int;
    ||| 0x09 <= n <= 0x0d
    ||| n == 0x20
    ||| n == 0x85
    ||| n == 0xa0
    ||| n == 0x1680
    ||| 0x2000 <= n <= 0x200a
    ||| n == 0x2028
    ||| n == 0x2029
    ||| n == 0x202f
    ||| n == 0x205f
    ||| n == 0x3000
}

/// Decides `is_whitespace` for one character.
pub fn is_whitespace_char(c: char) -> (b: bool)
    ensures
        b == is_whitespace(c),
{
    let n = c as u32;
    (0x09 <= n && n <= 0x0d) || n == 0x20 || n == 0x85 || n == 0xa0 || n == 0x1680 || (0x2000
        <= n && n <= 0x200a) || n == 0x2028 || n == 0x2029 || n == 0x202f || n == 0x205f || n
        == 0x3000
}

/// The text without its leading whitespace.
pub open spec fn trim_start(s: Seq<char>) -> Seq<char>
    decreases s.len(),
{
    if s.len() > 0 && is_whitespace(s[0]) {
        trim_start(s.drop_first())
    } else {
        s
    }
}

/// The text without its trailing whitespace.
pub open spec fn trim_end(s: Seq<char>) -> Seq<char>
    decreases s.len(),
{
    if s.len() > 0 && is_whitespace(s.last()) {
        trim_end(s.drop_last())
    } else {
        s
    }
}

/// The text without leading and trailing whitespace.
pub open spec fn trimmed(s: Seq<char>) -> Seq<char> {
    trim_end(trim_start(s))
}

/// Removes leading and trailing whitespace, as `str::trim` does.
pub fn trim(s: &str) -> (r: &str)
    ensures
        r@ == trimmed(s@),
{
    let n = s.unicode_len();
    let mut i: usize = 0;
    proof {
        assert(s@.subrange(0, n as int) =~= s@);
    }
    while i < n && is_whitespace_char(s.get_char(i))
        invariant
            n == s@.len(),
            i <= n,
            trim_start(s@) == trim_start(s@.subrange(i as int, n as int)),
        decreases n - i,
    {
        proof {
            let rest = s@.subrange(i as int, n as int);
            assert(rest.drop_first() =~= s@.subrange(i + 1, n as int));
        }
        i = i + 1;
    }
    let mut j: usize = n;
    proof {
        assert(trim_start(s@.subrange(i as int, n as int)) == s@.subrange(i as int, n as int));
    }
    while j > i && is_whitespace_char(s.get_char(j - 1))
        invariant
            n == s@.len(),
            i <= j <= n,
            trimmed(s@) == trim_end(s@.subrange(i as int, j as int)),
        decreases j - i,
    {
        proof {
            let rest = s@.subrange(i as int, j as int);
            assert(rest.drop_last() =~= s@.subrange(i as int, j - 1));
        }
        j = j - 1;
    }
    s.substring_char(i, j)
}

/// An ASCII decimal digit, the characters that `char::to_digit(10)` accepts.
pub open spec fn is_digit(c: char) -> bool {
    0x30 <= c as int <= 0x39
}

/// The value of a decimal digit character.
pub open spec fn digit_value(c: char) -> nat {
    (c as int - 0x30) as nat
}

/// The character that writes a digit below ten.
pub open spec fn digit_char(d: nat) -> char {
    (d + 0x30) as char
}

/// Every character of the text is a decimal digit.
pub open spec fn all_digits(s: Seq<char>) -> bool {
    forall|i: int| 0 <= i < s.len() ==> is_digit(#[trigger] s[i])
}

/// The number that a string of decimal digits writes, most significant first.
pub open spec fn decimal_value(s: Seq<char>) -> nat
    decreases s.len(),
{
    if s.len() == 0 {
        0
    } else {
        decimal_value(s.drop_last()) * 10 + digit_value(s.last())
    }
}

/// The digits that follow an optional leading `+`.
pub open spec fn unsigned_digits(s: Seq<char>) -> Seq<char> {
    if s.len() > 0 && s[0] == '+' {
        s.drop_first()
    } else {
        s
    }
}

/// What `str::parse::<usize>` gives: an optional `+`, then at least one
/// decimal digit and nothing else, for a value that fits in `usize`.
pub open spec fn parsed_usize(s: Seq<char>) -> Option<usize> {
    let d = unsigned_digits(s);
    if d.len() > 0 && all_digits(d) && decimal_value(d) <= usize::MAX {
        Some(decimal_value(d) as usize)
    } else {
        None
    }
}

/// The value of a decimal digit character, as `char::to_digit(10)` gives it.
pub fn char_digit(c: char) -> (d: Option<u32>)
    ensures
        d is Some <==> is_digit(c),
        d matches Some(v) ==> v == digit_value(c),
{
    let n = c as u32;
    if 0x30 <= n && n <= 0x39 {
        Some(n - 0x30)
    } else {
        None
    }
}

proof fn lemma_decimal_value_grows(s: Seq<char>, c: char)
    requires
        is_digit(c),
    ensures
        decimal_value(s.push(c)) == decimal_value(s) * 10 + digit_value(c),
        decimal_value(s.push(c)) >= decimal_value(s),
{
    assert(s.push(c).drop_last() =~= s);
}

/// Reads a number written in decimal, as `str::parse::<usize>` does.
pub fn parse_usize(s: &str) -> (r: Option<usize>)
    ensures
        r == parsed_usize(s@),
{
    let n = s.unicode_len();
    let mut start: usize = 0;
    if n > 0 && s.get_char(0) == '+' {
        start = 1;
    }
    let ghost d = unsigned_digits(s@);
    proof {
        assert(d =~= s@.subrange(start as int, n as int));
    }
    if start == n {
        return None;
    }
    let mut acc: u128 = 0;
    let mut overflow = false;
    let mut i: usize = start;
    proof {
        assert(d.subrange(0, 0) =~= Seq::<char>::empty());
    }
    while i < n
        invariant
            n == s@.len(),
            start <= i <= n,
            d =~= s@.subrange(start as int, n as int),
            d == unsigned_digits(s@),
            all_digits(d.subrange(0, i - start)),
            !overflow ==> acc == decimal_value(d.subrange(0, i - start)) && acc <= usize::MAX,
            overflow ==> decimal_value(d.subrange(0, i - start)) > usize::MAX,
        decreases n - i,
    {
        let c = s.get_char(i);
        let k = i - start;
        let ghost prefix = d.subrange(0, k as int);
        proof {
            assert(d.subrange(0, k + 1) =~= prefix.push(c));
        }
        match char_digit(c) {
            None => {
                proof {
                    assert(d[k as int] == c);
                    assert(!all_digits(d));
                }
                return None;
            },
            Some(v) => {
                proof {
                    lemma_decimal_value_grows(prefix, c);
                }
                if !overflow {
                    let next = acc * 10 + v as u128;
                    if next > usize::MAX as u128 {
                        overflow = true;
                    } else {
                        acc = next;
                    }
                }
            },
        }
        i = i + 1;
    }
    proof {
        assert(d.subrange(0, n - start) =~= d);
    }
    if overflow {
        None
    } else {
        Some(acc as usize)
    }
}

/// The decimal text of a natural number, without leading zeros.
pub open spec fn decimal_text(n: nat) -> Seq<char>
    decreases n,
{
    if n < 10 {
        seq![digit_char(n)]
    } else {
        decimal_text(n / 10).push(digit_char(n % 10))
    }
}

/// The decimal text of an integer, with a `-` in front of a negative one.
pub open spec fn signed_decimal_text(n: int) -> Seq<char> {
    if n < 0 {
        seq!['-'] + decimal_text((-n) as nat)
    } else {
        decimal_text(n as nat)
    }
}

/// The one-character text of a digit below ten.
fn digit_text(d: u64) -> (t: &'static str)
    requires
        d < 10,
    ensures
        t@ == seq![digit_char(d as nat)],
{
    match d {
        0 => {
            proof {
                reveal_strlit("0");
            }
            "0"
        },
        1 => {
            proof {
                reveal_strlit("1");
            }
            "1"
        },
        2 => {
            proof {
                reveal_strlit("2");
            }
            "2"
        },
        3 => {
            proof {
                reveal_strlit("3");
            }
            "3"
        },
        4 => {
            proof {
                reveal_strlit("4");
            }
            "4"
        },
        5 => {
            proof {
                reveal_strlit("5");
            }
            "5"
        },
        6 => {
            proof {
                reveal_strlit("6");
            }
            "6"
        },
        7 => {
            proof {
                reveal_strlit("7");
            }
            "7"
        },
        8 => {
            proof {
                reveal_strlit("8");
            }
            "8"
        },
        _ => {
            proof {
                reveal_strlit("9");
            }
            "9"
        },
    }
}

/// Appends the decimal text of `n`.
pub fn push_decimal(out: &mut String, n: u64)
    ensures
        final(out)@ == old(out)@ + decimal_text(n as nat),
    decreases n,
{
    if n >= 10 {
        push_decimal(out, n / 10);
    }
    out.append(digit_text(n % 10));
    proof {
        if n >= 10 {
            assert(old(out)@ + decimal_text((n / 10) as nat) + seq![digit_char((n % 10) as nat)]
                =~= old(out)@ + decimal_text(n as nat));
        } else {
            assert(old(out)@ + seq![digit_char((n % 10) as nat)] =~= old(out)@ + decimal_text(
                n as nat,
            ));
        }
    }
}

/// Appends the decimal text of a signed number, as its `to_string` writes it.
pub fn push_signed_decimal(out: &mut String, n: i64)
    ensures
        final(out)@ == old(out)@ + signed_decimal_text(n as int),
{
    if n < 0 {
        proof {
            reveal_strlit("-");
        }
        out.append("-");
        let m: u64 = (0i128 - n as i128) as u64;
        push_decimal(out, m);
        proof {
            assert(old(out)@.push('-') + decimal_text(m as nat) =~= old(out)@ + (seq!['-']
                + decimal_text(m as nat)));
        }
    } else {
        push_decimal(out, n as u64);
    }
}

proof fn lemma_decimal_text_digits(n: nat)
    ensures
        decimal_text(n).len() > 0,
        all_digits(decimal_text(n)),
        decimal_value(decimal_text(n)) == n,
    decreases n,
{
    if n < 10 {
        let t = decimal_text(n);
        assert(t.drop_last() =~= Seq::<char>::empty());
        assert(digit_value(digit_char(n)) == n);
        assert(decimal_value(t.drop_last()) == 0);
        assert(decimal_value(t) == decimal_value(t.drop_last()) * 10 + digit_value(t.last()));
    } else {
        lemma_decimal_text_digits(n / 10);
        let t = decimal_text(n);
        assert(t.drop_last() =~= decimal_text(n / 10));
        assert(digit_value(digit_char(n % 10)) == n % 10);
        assert(n == (n / 10) * 10 + n % 10);
        assert(decimal_value(t) == decimal_value(t.drop_last()) * 10 + digit_value(t.last()));
        assert(all_digits(t)) by {
            assert forall|i: int| 0 <= i < t.len() implies is_digit(#[trigger] t[i]) by {
                if i < t.len() - 1 {
                    assert(t[i] == decimal_text(n / 10)[i]);
                }
            }
        }
    }
}

/// Reading back the decimal text of a number gives the number: what
/// `push_decimal` writes, `parse_usize` reads as the same value.
pub proof fn lemma_parse_decimal_roundtrip(n: usize)
    ensures
        parsed_usize(decimal_text(n as nat)) == Some(n),
{
    lemma_decimal_text_digits(n as nat);
    assert(is_digit(decimal_text(n as nat)[0]));
}

/// The characters of a text, one by one.
pub fn chars_of(s: &str) -> (v: Vec<char>)
    ensures
        v@ == s@,
{
    let n = s.unicode_len();
    let mut v: Vec<char> = Vec::new();
    let mut i: usize = 0;
    while i < n
        invariant
            n == s@.len(),
            i <= n,
            v@ =~= s@.subrange(0, i as int),
        decreases n - i,
    {
        v.push(s.get_char(i));
        i = i + 1;
    }
    proof {
        assert(s@.subrange(0, n as int) =~= s@);
    }
    v
}

/// `pat` occurs in `s` as a run of consecutive characters (the empty text
/// occurs in every text).
pub open spec fn contains_text(s: Seq<char>, pat: Seq<char>) -> bool {
    exists|i: int|
        0 <= i && i + pat.len() <= s.len() && #[trigger] s.subrange(i, i + pat.len()) == pat
}

/// Whether `pat` occurs in `s`, as `str::contains` with a text pattern tells.
pub fn contains(s: &str, pat: &str) -> (b: bool)
    ensures
        b == contains_text(s@, pat@),
{
    let hay = chars_of(s);
    let needle = chars_of(pat);
    let n = hay.len();
    let m = needle.len();
    if m > n {
        return false;
    }
    let mut i: usize = 0;
    while i <= n - m
        invariant
            hay@ == s@,
            needle@ == pat@,
            n == hay.len(),
            m == needle.len(),
            m <= n,
            i <= n - m + 1,
            forall|k: int| 0 <= k < i ==> #[trigger] s@.subrange(k, k + m) != pat@,
        decreases n - m + 1 - i,
    {
        let mut j: usize = 0;
        let mut same = true;
        while j < m
            invariant
                hay@ == s@,
                needle@ == pat@,
                n == hay.len(),
                m == needle.len(),
                i + m <= n,
                j <= m,
                same <==> forall|l: int| 0 <= l < j ==> hay@[i + l] == needle@[l],
            decreases m - j,
        {
            if hay[i + j] != needle[j] {
                same = false;
            }
            j = j + 1;
        }
        if same {
            proof {
                assert(s@.subrange(i as int, i + m) =~= pat@);
            }
            return true;
        }
        proof {
            assert(s@.subrange(i as int, i + m) != pat@) by {
                let l = choose|l: int| 0 <= l < m && hay@[i + l] != needle@[l];
                assert(s@.subrange(i as int, i + m)[l] != pat@[l]);
            }
        }
        i = i + 1;
    }
    false
}

/// The first character of the trimmed text, if any.
pub open spec fn first_char_spec(s: Seq<char>) -> Option<char> {
    if trimmed(s).len() > 0 {
        Some(trimmed(s)[0])
    } else {
        None
    }
}

/// Reads one character from a line the user typed: the first character after
/// trimming, or nothing when the line holds only whitespace.
pub fn read_single_character(line: &str) -> (c: Option<char>)
    ensures
        c == first_char_spec(line@),
{
    let t = trim(line);
    if t.unicode_len() > 0 {
        Some(t.get_char(0))
    } else {
        None
    }
}

/// Reads a number from a line the user typed: the trimmed text parsed as a
/// `usize`; nothing when the trimmed line is empty or is not such a number.
pub fn read_number(line: &str) -> (r: Option<usize>)
    ensures
        r == parsed_usize(trimmed(line@)),
{
    parse_usize(trim(line))
}

} // verus!
