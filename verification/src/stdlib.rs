//! Text handling for the built-ins: the line a `readLine` read yields, and
//! the text `toNumber` accepts as a number.
use vstd::prelude::*;

use crate::text::{chars_of, is_digit, is_digit_exec, is_unicode_ws, is_unicode_ws_exec, string_from_range};

verus! {

/// `s` without one trailing `\n`, and then without one `\r` before it.
pub open spec fn strip_newline(s: Seq<char>) -> Seq<char> {
    if s.len() > 0 && s.last() == '\n' {
        let t = s.drop_last();
        if t.len() > 0 && t.last() == '\r' {
            t.drop_last()
        } else {
            t
        }
    } else {
        s
    }
}

/// The line that a read of `bytes_read` bytes, holding `text`, yields:
/// nothing at end of input, else the text without its line ending.
pub open spec fn line_of_read(bytes_read: nat, text: Seq<char>) -> Option<Seq<char>> {
    if bytes_read == 0 {
        None
    } else {
        Some(strip_newline(text))
    }
}

/// Turns what one `read_line` call gave back (the byte count it reported
/// and the text it appended to an empty string) into the line it holds.
pub fn finish_line(bytes_read: usize, text: String) -> (line: Option<String>)
    ensures
        line matches Some(l) ==> line_of_read(bytes_read as nat, text@) == Some(l@),
        line is None <==> line_of_read(bytes_read as nat, text@) is None,
{
    if bytes_read == 0 {
        return None;
    }
    let cs = chars_of(text.as_str());
    let mut end = cs.len();
    if end > 0 && cs[end - 1] == '\n' {
        end = end - 1;
        if end > 0 && cs[end - 1] == '\r' {
            end = end - 1;
        }
    }
    let l = string_from_range(&cs, 0, end);
    assert(l@ =~= strip_newline(text@));
    Some(l)
}

/// Index of the first character of `s` that is not white space.
pub open spec fn trim_start(s: Seq<char>) -> int
    decreases s.len(),
{
    if s.len() > 0 && is_unicode_ws(s[0]) {
        1 + trim_start(s.drop_first())
    } else {
        0
    }
}

/// Index just past the last character of `s` that is not white space.
pub open spec fn trim_end(s: Seq<char>) -> int
    decreases s.len(),
{
    if s.len() > 0 && is_unicode_ws(s.last()) {
        trim_end(s.drop_last())
    } else {
        s.len() as int
    }
}

/// `s` without leading and trailing white space.
pub open spec fn trimmed(s: Seq<char>) -> Seq<char> {
    let a = trim_start(s);
    let b = trim_end(s);
    if a < b {
        s.subrange(a, b)
    } else {
        Seq::empty()
    }
}

/// The text of a Lox `NUMBER` literal: digits, then optionally a `.` and
/// more digits.
pub open spec fn is_number_text(s: Seq<char>) -> bool {
    exists|k: int|
        #![trigger s[k]]
        0 < k <= s.len() && (forall|i: int| 0 <= i < k ==> is_digit(#[trigger] s[i])) && (k == s.len()
            || (s[k] == '.' && k + 1 < s.len() && forall|i: int| k < i < s.len() ==> is_digit(#[trigger] s[i])))
}

proof fn lemma_trim_start_bound(s: Seq<char>)
    ensures
        0 <= trim_start(s) <= s.len(),
        forall|i: int| 0 <= i < trim_start(s) ==> is_unicode_ws(#[trigger] s[i]),
        trim_start(s) < s.len() ==> !is_unicode_ws(s[trim_start(s)]),
    decreases s.len(),
{
    if s.len() > 0 && is_unicode_ws(s[0]) {
        lemma_trim_start_bound(s.drop_first());
        assert forall|i: int| 0 <= i < trim_start(s) implies is_unicode_ws(#[trigger] s[i]) by {
            if i > 0 {
                assert(s[i] == s.drop_first()[i - 1]);
            }
        }
    }
}

proof fn lemma_trim_end_bound(s: Seq<char>)
    ensures
        0 <= trim_end(s) <= s.len(),
        forall|i: int| trim_end(s) <= i < s.len() ==> is_unicode_ws(#[trigger] s[i]),
        trim_end(s) > 0 ==> !is_unicode_ws(s[trim_end(s) - 1]),
    decreases s.len(),
{
    if s.len() > 0 && is_unicode_ws(s.last()) {
        lemma_trim_end_bound(s.drop_last());
        assert forall|i: int| trim_end(s) <= i < s.len() implies is_unicode_ws(#[trigger] s[i]) by {
            if i < s.len() - 1 {
                assert(s[i] == s.drop_last()[i]);
            }
        }
    }
}

/// The first index at or after `i` whose character is not a digit.
fn skip_digits(cs: &Vec<char>, i: usize) -> (j: usize)
    requires
        i <= cs@.len(),
    ensures
        i <= j <= cs@.len(),
        forall|k: int| i <= k < j ==> is_digit(#[trigger] cs@[k]),
        j < cs@.len() ==> !is_digit(cs@[j as int]),
{
    let mut j = i;
    while j < cs.len() && is_digit_exec(cs[j])
        invariant
            i <= j <= cs@.len(),
            forall|k: int| i <= k < j ==> is_digit(#[trigger] cs@[k]),
        decreases cs@.len() - j,
    {
        j = j + 1;
    }
    j
}

/// With `k` the length of the leading digits of `s`, whether `s` is a
/// number literal depends on what follows them.
proof fn lemma_number_text_split(s: Seq<char>, k: int)
    requires
        0 <= k <= s.len(),
        forall|i: int| 0 <= i < k ==> is_digit(#[trigger] s[i]),
        k < s.len() ==> !is_digit(s[k]),
    ensures
        is_number_text(s) <==> (k > 0 && (k == s.len() || (s[k] == '.' && k + 1 < s.len() && forall|i: int|
            k < i < s.len() ==> is_digit(#[trigger] s[i])))),
{
    if k > 0 && (k == s.len() || (s[k] == '.' && k + 1 < s.len() && forall|i: int|
        k < i < s.len() ==> is_digit(#[trigger] s[i]))) {
        // `k` is the witness; naming `s[k]` lets the existential see it.
        let witness = s[k];
        assert(0 < k <= s.len() && (forall|i: int| 0 <= i < k ==> is_digit(#[trigger] s[i])) && (k == s.len() || (
        s[k] == '.' && k + 1 < s.len() && forall|i: int| k < i < s.len() ==> is_digit(#[trigger] s[i]))));
    } else {
        assert forall|j: int|
            #![trigger s[j]]
            !(0 < j <= s.len() && (forall|i: int| 0 <= i < j ==> is_digit(#[trigger] s[i])) && (j == s.len() || (s[j]
                == '.' && j + 1 < s.len() && forall|i: int| j < i < s.len() ==> is_digit(#[trigger] s[i])))) by {
            if 0 < j <= s.len() && (forall|i: int| 0 <= i < j ==> is_digit(#[trigger] s[i])) {
                if j < k {
                    assert(is_digit(s[j]));
                }
                if j > k {
                    assert(is_digit(s[k]));
                }
            }
        }
    }
}

/// `s` without leading and trailing white space.
pub fn trim_text(s: &str) -> (t: String)
    ensures
        t@ == trimmed(s@),
{
    let cs = chars_of(s);
    let n = cs.len();
    let mut a: usize = 0;
    while a < n && is_unicode_ws_exec(cs[a])
        invariant
            a <= n == cs@.len(),
            cs@ == s@,
            forall|i: int| 0 <= i < a ==> is_unicode_ws(#[trigger] cs@[i]),
        decreases n - a,
    {
        a = a + 1;
    }
    let mut b: usize = n;
    while b > a && is_unicode_ws_exec(cs[b - 1])
        invariant
            a <= b <= n == cs@.len(),
            cs@ == s@,
            forall|i: int| b <= i < n ==> is_unicode_ws(#[trigger] cs@[i]),
        decreases b,
    {
        b = b - 1;
    }
    proof {
        let sv = s@;
        lemma_trim_start_bound(sv);
        lemma_trim_end_bound(sv);
        let ts = trim_start(sv);
        let te = trim_end(sv);
        if a < ts {
            assert(is_unicode_ws(sv[a as int]));
        }
        if ts < a {
            assert(is_unicode_ws(sv[ts]));
        }
        assert(a == ts);
        if b > a {
            if te < b {
                assert(is_unicode_ws(sv[b - 1]));
            }
            if te > b {
                assert(is_unicode_ws(sv[te - 1]));
            }
            assert(b == te);
        } else if te > a {
            assert(is_unicode_ws(sv[te - 1]));
        }
    }
    if a == b {
        proof {
            assert(trimmed(s@) =~= Seq::<char>::empty());
        }
        return String::new();
    }
    string_from_range(&cs, a, b)
}

/// The text of `s` without surrounding white space, when it is a Lox
/// number literal (no sign, no exponent); `None` otherwise.
pub fn lox_number_text(s: &str) -> (r: Option<String>)
    ensures
        match r {
            Some(t) => t@ == trimmed(s@) && is_number_text(t@),
            None => !is_number_text(trimmed(s@)),
        },
{
    let text = trim_text(s);
    let tc = chars_of(text.as_str());
    let len = tc.len();
    let k = skip_digits(&tc, 0);
    proof {
        lemma_number_text_split(tc@, k as int);
    }
    if k == 0 {
        return None;
    }
    if k == len {
        return Some(text);
    }
    if tc[k] != '.' {
        return None;
    }
    let m = skip_digits(&tc, k + 1);
    if m == k + 1 || m < len {
        proof {
            if m < len {
                assert(!is_digit(tc@[m as int]));
            }
        }
        return None;
    }
    Some(text)
}

} // verus!
