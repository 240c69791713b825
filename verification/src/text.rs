//! Verified text utilities: substring search, replacement, cropping, and
//! number formatting over exact character sequences.
use vstd::prelude::*;
use vstd::std_specs::iter::IteratorSpec;

use crate::rat::Rat;

verus! {

/// Relies on String::push: appends one character to the end of the string.
#[verifier::external_body]
fn push_char(s: &mut String, c: char)
    ensures
        final(s)@ == old(s)@.push(c),
{
    s.push(c)
}

/// The characters of a string, as a vector.
pub fn chars_vec(s: &str) -> (r: Vec<char>)
    ensures
        r@ == s@,
{
    broadcast use vstd::string::next_postcondition;
    broadcast use vstd::string::axiom_spec_iter;

    let mut it = s.chars();
    let mut out: Vec<char> = Vec::new();
    loop
        invariant
            out@ + IteratorSpec::remaining(&it) == s@,
            it.obeys_prophetic_iter_laws(),
            IteratorSpec::decrease(&it) is Some,
        ensures
            out@ == s@,
        decreases IteratorSpec::decrease(&it)->0,
    {
        let next_char = it.next();
        match next_char {
            Some(c) => {
                out.push(c);
                proof {
                    assert(out@ + IteratorSpec::remaining(&it) =~= s@);
                }
            },
            None => {
                proof {
                    assert(out@ =~= s@);
                }
                break ;
            },
        }
    }
    out
}

/// Builds a string back from a vector of characters.
pub fn chars_to_string(v: &Vec<char>) -> (r: String)
    ensures
        r@ == v@,
{
    let mut out: String = String::new();
    let mut i: usize = 0;
    while i < v.len()
        invariant
            i <= v@.len(),
            out@ == v@.subrange(0, i as int),
        decreases v@.len() - i,
    {
        push_char(&mut out, v[i]);
        proof {
            assert(v@.subrange(0, i as int).push(v@[i as int]) =~= v@.subrange(0, i + 1));
        }
        i = i + 1;
    }
    proof {
        assert(v@.subrange(0, v@.len() as int) =~= v@);
    }
    out
}

/// Whether `needle` occurs in `haystack` starting at position `i`.
pub open spec fn matches_at(haystack: Seq<char>, needle: Seq<char>, i: int) -> bool {
    &&& 0 <= i
    &&& i + needle.len() <= haystack.len()
    &&& haystack.subrange(i, i + needle.len() as int) == needle
}

/// Whether `needle` occurs anywhere in `haystack`.
pub open spec fn contains_spec(haystack: Seq<char>, needle: Seq<char>) -> bool {
    exists|i: int| matches_at(haystack, needle, i)
}

/// Whether the needle starts at position `i` of the haystack.
fn check_match_at(haystack: &Vec<char>, needle: &Vec<char>, i: usize) -> (r: bool)
    requires
        i + needle@.len() <= haystack@.len(),
    ensures
        r == matches_at(haystack@, needle@, i as int),
{
    let hn: usize = haystack.len();
    let m: usize = needle.len();
    let mut j: usize = 0;
    while j < m
        invariant
            j <= m,
            m == needle@.len(),
            i + m <= haystack@.len(),
            haystack@.len() == hn,
            forall|k: int| 0 <= k < j ==> haystack@[i + k] == needle@[k],
        decreases m - j,
    {
        if haystack[i + j] != needle[j] {
            proof {
                assert(haystack@.subrange(i as int, i + m as int)[j as int] == haystack@[i + j]);
            }
            return false;
        }
        j = j + 1;
    }
    proof {
        assert(haystack@.subrange(i as int, i + m as int) =~= needle@);
    }
    true
}

/// Whether the needle occurs anywhere in the haystack.
pub fn contains_chars(haystack: &Vec<char>, needle: &Vec<char>) -> (r: bool)
    ensures
        r == contains_spec(haystack@, needle@),
{
    let n: usize = haystack.len();
    let m: usize = needle.len();
    if m > n {
        proof {
            assert(forall|i: int| !matches_at(haystack@, needle@, i));
        }
        return false;
    }
    if m == 0 {
        proof {
            assert(haystack@.subrange(0, 0) =~= needle@);
            assert(matches_at(haystack@, needle@, 0));
        }
        return true;
    }
    let mut i: usize = 0;
    while i <= n - m
        invariant
            1 <= m <= n,
            n == haystack@.len(),
            m == needle@.len(),
            i <= n - m + 1,
            forall|k: int| 0 <= k < i ==> !matches_at(haystack@, needle@, k),
        decreases n - m + 1 - i,
    {
        if check_match_at(haystack, needle, i) {
            return true;
        }
        i = i + 1;
    }
    proof {
        assert(forall|k: int| !matches_at(haystack@, needle@, k));
    }
    false
}

/// Whether one string occurs inside another.
pub fn contains_str(haystack: &str, needle: &str) -> (r: bool)
    ensures
        r == contains_spec(haystack@, needle@),
{
    let h = chars_vec(haystack);
    let n = chars_vec(needle);
    contains_chars(&h, &n)
}

/// The string with every non-overlapping occurrence of `pat` replaced by
/// `rep`, scanning left to right, without rescanning replacements.
pub open spec fn replace_spec(s: Seq<char>, pat: Seq<char>, rep: Seq<char>) -> Seq<char>
    recommends
        pat.len() > 0,
    decreases s.len(),
{
    if pat.len() == 0 || s.len() < pat.len() {
        s
    } else if s.subrange(0, pat.len() as int) == pat {
        rep + replace_spec(s.skip(pat.len() as int), pat, rep)
    } else {
        seq![s[0]] + replace_spec(s.skip(1), pat, rep)
    }
}

/// Replaces every occurrence of `pat` with `rep`.
pub fn replace_chars(s: &Vec<char>, pat: &Vec<char>, rep: &Vec<char>) -> (r: Vec<char>)
    requires
        pat@.len() > 0,
    ensures
        r@ == replace_spec(s@, pat@, rep@),
{
    let n: usize = s.len();
    let m: usize = pat.len();
    let mut out: Vec<char> = Vec::new();
    let mut i: usize = 0;
    proof {
        assert(s@.skip(0) =~= s@);
        assert(Seq::<char>::empty() + replace_spec(s@, pat@, rep@) =~= replace_spec(
            s@,
            pat@,
            rep@,
        ));
    }
    while i < n
        invariant
            i <= n,
            n == s@.len(),
            m == pat@.len(),
            m > 0,
            replace_spec(s@, pat@, rep@) == out@ + replace_spec(s@.skip(i as int), pat@, rep@),
        decreases n - i,
    {
        let ghost rem = s@.skip(i as int);
        if m <= n - i && check_match_at(s, pat, i) {
            proof {
                assert(rem.subrange(0, m as int) =~= s@.subrange(i as int, i + m as int));
                assert(rem.skip(m as int) =~= s@.skip(i + m as int));
            }
            let mut j: usize = 0;
            let ghost out_before = out@;
            while j < rep.len()
                invariant
                    j <= rep@.len(),
                    out@ == out_before + rep@.subrange(0, j as int),
                decreases rep@.len() - j,
            {
                out.push(rep[j]);
                proof {
                    assert(out_before + rep@.subrange(0, j as int).push(rep@[j as int])
                        =~= out_before + rep@.subrange(0, j + 1));
                }
                j = j + 1;
            }
            proof {
                assert(rep@.subrange(0, rep@.len() as int) =~= rep@);
                assert((out_before + rep@) + replace_spec(s@.skip(i + m as int), pat@, rep@)
                    =~= out_before + (rep@ + replace_spec(s@.skip(i + m as int), pat@, rep@)));
            }
            i = i + m;
        } else {
            proof {
                if i + m <= n {
                    assert(rem.subrange(0, m as int) =~= s@.subrange(i as int, i + m as int));
                }
                assert(rem.len() >= 1);
                assert(rem.len() < m ==> replace_spec(rem, pat@, rep@) == rem);
                assert(rem[0] == s@[i as int]);
                assert(rem.skip(1) =~= s@.skip(i + 1));
                assert((out@ + seq![s@[i as int]]) + replace_spec(s@.skip(i + 1), pat@, rep@)
                    =~= out@ + (seq![s@[i as int]] + replace_spec(s@.skip(i + 1), pat@, rep@)));
                assert(out@.push(s@[i as int]) =~= out@ + seq![s@[i as int]]);
            }
            out.push(s[i]);
            i = i + 1;
        }
    }
    proof {
        assert(s@.skip(n as int) =~= Seq::<char>::empty());
        assert(replace_spec(Seq::<char>::empty(), pat@, rep@) == Seq::<char>::empty());
        assert(out@ + Seq::<char>::empty() =~= out@);
    }
    out
}

/// The string from character position `pos` on; empty when the string is
/// shorter than that.
pub fn crop_letters(s: &str, pos: usize) -> (r: String)
    ensures
        pos <= s@.len() ==> r@ == s@.skip(pos as int),
        pos > s@.len() ==> r@ == Seq::<char>::empty(),
{
    let v = chars_vec(s);
    let mut out: Vec<char> = Vec::new();
    if pos > v.len() {
        return chars_to_string(&out);
    }
    let mut i: usize = pos;
    while i < v.len()
        invariant
            pos <= i <= v@.len(),
            v@ == s@,
            out@ == s@.subrange(pos as int, i as int),
        decreases v@.len() - i,
    {
        out.push(v[i]);
        proof {
            assert(s@.subrange(pos as int, i as int).push(s@[i as int]) =~= s@.subrange(
                pos as int,
                i + 1,
            ));
        }
        i = i + 1;
    }
    proof {
        assert(s@.subrange(pos as int, s@.len() as int) =~= s@.skip(pos as int));
    }
    chars_to_string(&out)
}

/// Returns `value()` under the condition, the default otherwise.
pub fn conditional_value_or_default<T, F: FnOnce() -> T>(condition: bool, value: F, default: T) -> (r:
    T)
    requires
        condition ==> call_requires(value, ()),
    ensures
        !condition ==> r == default,
        condition ==> call_ensures(value, (), r),
{
    if condition {
        return value();
    }
    default
}


/// The decimal digit character of a value below ten.
pub open spec fn digit_char_spec(d: int) -> char {
    if d == 0 {
        '0'
    } else if d == 1 {
        '1'
    } else if d == 2 {
        '2'
    } else if d == 3 {
        '3'
    } else if d == 4 {
        '4'
    } else if d == 5 {
        '5'
    } else if d == 6 {
        '6'
    } else if d == 7 {
        '7'
    } else if d == 8 {
        '8'
    } else {
        '9'
    }
}

/// The decimal digits of a number, most significant first.
pub open spec fn digits_spec(n: int) -> Seq<char>
    decreases n,
{
    if n < 10 {
        seq![digit_char_spec(n)]
    } else {
        digits_spec(n / 10) + seq![digit_char_spec(n % 10)]
    }
}

/// The decimal rendering of a number.
pub fn usize_to_digits(n: usize) -> (r: Vec<char>)
    ensures
        r@ == digits_spec(n as int),
    decreases n,
{
    let d: usize = n % 10;
    let c: char = match d {
        0 => '0',
        1 => '1',
        2 => '2',
        3 => '3',
        4 => '4',
        5 => '5',
        6 => '6',
        7 => '7',
        8 => '8',
        _ => '9',
    };
    if n < 10 {
        let mut v: Vec<char> = Vec::new();
        v.push(c);
        proof {
            assert(v@ =~= seq![digit_char_spec(n as int)]);
        }
        v
    } else {
        let mut v = usize_to_digits(n / 10);
        v.push(c);
        proof {
            assert(digits_spec((n / 10) as int).push(digit_char_spec(n as int % 10))
                =~= digits_spec((n / 10) as int) + seq![digit_char_spec(n as int % 10)]);
        }
        v
    }
}

/// The chat-noise marker the log watcher strips, for one client thread
/// index.
pub open spec fn netty_pattern_spec(index: int) -> Seq<char> {
    "] Netty Epoll Client IO #"@ + digits_spec(index) + "/INFO] CHAT] "@
}

/// The string with the chat-noise markers of thread indices `0..=upto`
/// stripped, in ascending index order.
pub open spec fn crop_netty_upto(s: Seq<char>, upto: int) -> Seq<char>
    decreases upto + 1,
{
    if upto < 0 {
        s
    } else {
        replace_spec(crop_netty_upto(s, upto - 1), netty_pattern_spec(upto), Seq::empty())
    }
}

/// Strips the chat-noise markers of every client thread index up to twice
/// the CPU count (the thread pool's size) from the message.
pub fn crop_netty(s: String, cpu_count: usize) -> (r: String)
    requires
        cpu_count <= 4096,
    ensures
        r@ == crop_netty_upto(s@, 2 * cpu_count as int),
{
    let upto: usize = cpu_count * 2;
    let prefix = chars_vec("] Netty Epoll Client IO #");
    let suffix = chars_vec("/INFO] CHAT] ");
    let empty_rep: Vec<char> = Vec::new();
    let mut acc: Vec<char> = chars_vec(s.as_str());
    let mut index: usize = 0;
    while index <= upto
        invariant
            index <= upto + 1,
            upto <= 8192,
            prefix@ == "] Netty Epoll Client IO #"@,
            suffix@ == "/INFO] CHAT] "@,
            empty_rep@ == Seq::<char>::empty(),
            acc@ == crop_netty_upto(s@, index as int - 1),
        decreases upto + 1 - index,
    {
        let digits = usize_to_digits(index);
        let mut pat: Vec<char> = Vec::new();
        let mut k: usize = 0;
        while k < prefix.len()
            invariant
                k <= prefix@.len(),
                pat@ == prefix@.subrange(0, k as int),
            decreases prefix@.len() - k,
        {
            pat.push(prefix[k]);
            proof {
                assert(prefix@.subrange(0, k as int).push(prefix@[k as int]) =~= prefix@.subrange(
                    0,
                    k + 1,
                ));
            }
            k = k + 1;
        }
        let mut k2: usize = 0;
        while k2 < digits.len()
            invariant
                k2 <= digits@.len(),
                pat@ == prefix@ + digits@.subrange(0, k2 as int),
                prefix@ == "] Netty Epoll Client IO #"@,
            decreases digits@.len() - k2,
        {
            pat.push(digits[k2]);
            proof {
                assert((prefix@ + digits@.subrange(0, k2 as int)).push(digits@[k2 as int])
                    =~= prefix@ + digits@.subrange(0, k2 + 1));
            }
            k2 = k2 + 1;
        }
        let mut k3: usize = 0;
        while k3 < suffix.len()
            invariant
                k3 <= suffix@.len(),
                pat@ == (prefix@ + digits@) + suffix@.subrange(0, k3 as int),
                prefix@ == "] Netty Epoll Client IO #"@,
                suffix@ == "/INFO] CHAT] "@,
            decreases suffix@.len() - k3,
        {
            pat.push(suffix[k3]);
            proof {
                assert(((prefix@ + digits@) + suffix@.subrange(0, k3 as int)).push(
                    suffix@[k3 as int],
                ) =~= (prefix@ + digits@) + suffix@.subrange(0, k3 + 1));
            }
            k3 = k3 + 1;
        }
        proof {
            assert(prefix@.subrange(0, prefix@.len() as int) =~= prefix@);
            assert(digits@.subrange(0, digits@.len() as int) =~= digits@);
            assert(suffix@.subrange(0, suffix@.len() as int) =~= suffix@);
            assert(pat@ =~= netty_pattern_spec(index as int));
            assert(pat@.len() > 0) by {
                reveal_strlit("] Netty Epoll Client IO #");
            }
        }
        acc = replace_chars(&acc, &pat, &empty_rep);
        index = index + 1;
    }
    chars_to_string(&acc)
}

/// The sixteen color codes and six format codes of chat text, each of
/// which follows a section sign.
pub open spec fn chat_format_codes() -> Seq<char> {
    seq![
        'a', 'b', 'c', 'd', 'e', 'f', '0', '1', '2', '3', '4', '5', '6', '7', '8', '9', 'k', 'l',
        'm', 'n', 'o', 'r',
    ]
}

/// The text with the section-sign pairs of the first `upto + 1` chat
/// format codes removed, in code order.
pub open spec fn strip_codes_upto(s: Seq<char>, upto: int) -> Seq<char>
    decreases upto + 1,
{
    if upto < 0 {
        s
    } else {
        replace_spec(
            strip_codes_upto(s, upto - 1),
            seq!['\u{a7}', chat_format_codes()[upto]],
            Seq::empty(),
        )
    }
}

/// Removes every Minecraft color and format code (a section sign followed
/// by a code character) from the text.
pub fn remove_color_codes(text: &str) -> (r: String)
    ensures
        r@ == strip_codes_upto(text@, chat_format_codes().len() - 1),
{
    let codes: [char; 22] = [
        'a', 'b', 'c', 'd', 'e', 'f', '0', '1', '2', '3', '4', '5', '6', '7', '8', '9', 'k', 'l',
        'm', 'n', 'o', 'r',
    ];
    let empty_rep: Vec<char> = Vec::new();
    let mut acc: Vec<char> = chars_vec(text);
    let mut i: usize = 0;
    while i < 22
        invariant
            i <= 22,
            empty_rep@ == Seq::<char>::empty(),
            codes@ == chat_format_codes(),
            acc@ == strip_codes_upto(text@, i as int - 1),
        decreases 22 - i,
    {
        let mut pat: Vec<char> = Vec::new();
        pat.push('\u{a7}');
        pat.push(codes[i]);
        proof {
            assert(pat@ =~= seq!['\u{a7}', chat_format_codes()[i as int]]);
        }
        acc = replace_chars(&acc, &pat, &empty_rep);
        i = i + 1;
    }
    chars_to_string(&acc)
}


/// The position of the first dot in a string, or its length when there is
/// none.
pub open spec fn first_dot(s: Seq<char>) -> int
    decreases s.len(),
{
    if s.len() == 0 {
        0
    } else if s[0] == '.' {
        0
    } else {
        1 + first_dot(s.skip(1))
    }
}

/// A left-to-right scan that stops at the first dot finds `first_dot`.
proof fn lemma_first_dot_from_scan(s: Seq<char>, r: int)
    requires
        0 <= r <= s.len(),
        forall|k: int| 0 <= k < r ==> s[k] != '.',
        r < s.len() ==> s[r] == '.',
    ensures
        first_dot(s) == r,
    decreases r,
{
    if s.len() == 0 {
    } else if r == 0 {
    } else {
        assert(s[0] != '.');
        lemma_first_dot_from_scan(s.skip(1), r - 1);
    }
}

/// Whether every character of a number string is in place: digits
/// anywhere, a minus sign only in front, a dot only at the first dot.
pub open spec fn comma_sep_valid(s: Seq<char>, dot: int) -> bool {
    forall|i: int|
        0 <= i < s.len() ==> ('0' <= #[trigger] s[i] <= '9' || (s[i] == '-' && i == 0) || (s[i]
            == '.' && i == dot))
}

/// What position `i` of a number string contributes to the grouped
/// rendering: the character itself, preceded by a comma at every third
/// integer digit.
pub open spec fn comma_emitted_at(s: Seq<char>, dot: int, neg_ofs: int, i: int) -> Seq<char> {
    let c = s[i];
    if '0' <= c <= '9' && i < dot && i != neg_ofs && (dot - i) % 3 == 0 {
        seq![',', c]
    } else {
        seq![c]
    }
}

/// The grouped rendering of the first `i` characters.
pub open spec fn comma_rendered(s: Seq<char>, dot: int, neg_ofs: int, i: int) -> Seq<char>
    decreases i,
{
    if i <= 0 {
        Seq::empty()
    } else {
        comma_rendered(s, dot, neg_ofs, i - 1) + comma_emitted_at(s, dot, neg_ofs, i - 1)
    }
}

/// Inserts a comma after every third integer digit of a number string;
/// nothing for a string that is not a plain decimal number.
pub fn with_comma_separators(s: &str) -> (r: Option<String>)
    ensures
        ({
            let dot = first_dot(s@);
            let neg_ofs: int = if s@.len() > 0 && s@[0] == '-' {
                1int
            } else {
                0int
            };
            &&& (r is Some <==> comma_sep_valid(s@, dot))
            &&& (r matches Some(t) ==> t@ == comma_rendered(s@, dot, neg_ofs, s@.len() as int))
        }),
{
    let v = chars_vec(s);
    let n: usize = v.len();
    let mut dot: usize = 0;
    while dot < n && v[dot] != '.'
        invariant
            dot <= n,
            n == v@.len(),
            v@ == s@,
            forall|k: int| 0 <= k < dot ==> s@[k] != '.',
        decreases n - dot,
    {
        dot = dot + 1;
    }
    proof {
        lemma_first_dot_from_scan(s@, dot as int);
    }
    let negative: bool = n > 0 && v[0] == '-';
    let neg_ofs: usize = if negative {
        1
    } else {
        0
    };
    let mut out: Vec<char> = Vec::new();
    let mut i: usize = 0;
    while i < n
        invariant
            i <= n,
            n == v@.len(),
            v@ == s@,
            dot as int == first_dot(s@),
            dot <= n,
            dot < n ==> s@[dot as int] == '.',
            forall|k: int| 0 <= k < dot ==> s@[k] != '.',
            neg_ofs as int == if s@.len() > 0 && s@[0] == '-' {
                1int
            } else {
                0int
            },
            out@ == comma_rendered(s@, dot as int, neg_ofs as int, i as int),
            forall|k: int|
                0 <= k < i ==> ('0' <= #[trigger] s@[k] <= '9' || (s@[k] == '-' && k == 0) || (
                s@[k] == '.' && k == dot)),
        decreases n - i,
    {
        let c: char = v[i];
        if c == '-' {
            if i != 0 {
                proof {
                    assert(!comma_sep_valid(s@, dot as int)) by {
                        assert(s@[i as int] == '-' && i != 0);
                    }
                }
                return None;
            }
            out.push(c);
        } else if c == '.' {
            if i != dot {
                proof {
                    assert(!comma_sep_valid(s@, dot as int)) by {
                        assert(s@[i as int] == '.' && i as int != dot as int);
                    }
                }
                return None;
            }
            out.push(c);
        } else if '0' <= c && c <= '9' {
            if i < dot && i != neg_ofs && (dot - i) % 3 == 0 {
                out.push(',');
            }
            out.push(c);
        } else {
            proof {
                assert(!comma_sep_valid(s@, dot as int)) by {
                    assert(!('0' <= s@[i as int] <= '9'));
                    assert(s@[i as int] != '-' && s@[i as int] != '.');
                }
            }
            return None;
        }
        proof {
            let em = comma_emitted_at(s@, dot as int, neg_ofs as int, i as int);
            if em.len() == 2 {
                assert(out@ =~= comma_rendered(s@, dot as int, neg_ofs as int, i as int) + em);
            } else {
                assert(out@ =~= comma_rendered(s@, dot as int, neg_ofs as int, i as int) + em);
            }
        }
        i = i + 1;
    }
    Some(chars_to_string(&out))
}


/// Whether a character is a decimal digit.
pub open spec fn is_digit_char(c: char) -> bool {
    '0' <= c <= '9'
}

/// Whether every character of a string is a decimal digit.
pub open spec fn all_digit_chars(s: Seq<char>) -> bool {
    forall|i: int| 0 <= i < s.len() ==> is_digit_char(#[trigger] s[i])
}

/// The numeric value of one digit character.
pub open spec fn digit_val(c: char) -> int {
    c as int - 48
}

/// The value of a digit string, most significant digit first; an empty
/// string reads as zero.
pub open spec fn digits_value(s: Seq<char>) -> int
    decreases s.len(),
{
    if s.len() == 0 {
        0
    } else {
        digits_value(s.drop_last()) * 10 + digit_val(s.last())
    }
}

/// Powers of ten.
pub open spec fn pow10(k: int) -> int
    decreases k,
{
    if k <= 0 {
        1
    } else {
        10 * pow10(k - 1)
    }
}

/// Extending a digit prefix by one digit multiplies its value by ten and
/// adds the digit.
proof fn lemma_digits_value_extend(s: Seq<char>, i: int)
    requires
        0 <= i < s.len(),
    ensures
        digits_value(s.subrange(0, i + 1)) == digits_value(s.subrange(0, i)) * 10 + digit_val(
            s[i],
        ),
{
    let pre = s.subrange(0, i + 1);
    assert(pre.drop_last() =~= s.subrange(0, i));
}

/// A digit string's value is bounded by the power of ten of its length.
proof fn lemma_digits_value_bounds(s: Seq<char>)
    requires
        all_digit_chars(s),
    ensures
        0 <= digits_value(s) < pow10(s.len() as int),
    decreases s.len(),
{
    if s.len() > 0 {
        assert(all_digit_chars(s.drop_last())) by {
            assert(forall|i: int|
                0 <= i < s.drop_last().len() ==> s.drop_last()[i] == s[i]);
        }
        lemma_digits_value_bounds(s.drop_last());
        assert(is_digit_char(s.last()));
        assert(digits_value(s.drop_last()) * 10 + digit_val(s.last()) < pow10(
            s.len() as int,
        )) by (nonlinear_arith)
            requires
                0 <= digits_value(s.drop_last()) < pow10(s.len() - 1),
                0 <= digit_val(s.last()) <= 9,
                pow10(s.len() as int) == 10 * pow10(s.len() - 1),
        ;
    }
}

/// Reads the value of a digit run as an exact integer.
fn digits_run_value(v: &Vec<char>, from: usize, to: usize) -> (r: Option<i64>)
    requires
        from <= to <= v@.len(),
    ensures
        r is Some <==> all_digit_chars(v@.subrange(from as int, to as int)) && to - from <= 12,
        r matches Some(val) ==> val == digits_value(v@.subrange(from as int, to as int))
            && 0 <= val < pow10(to as int - from as int),
{
    let ghost run = v@.subrange(from as int, to as int);
    if to - from > 12 {
        return None;
    }
    let mut acc: i64 = 0;
    let mut j: usize = from;
    while j < to
        invariant
            from <= j <= to <= v@.len(),
            to - from <= 12,
            run == v@.subrange(from as int, to as int),
            all_digit_chars(run.subrange(0, j as int - from as int)),
            acc == digits_value(run.subrange(0, j as int - from as int)),
            0 <= acc < pow10(j as int - from as int),
            acc < 1_000_000_000_000i64,
        decreases to - j,
    {
        let c: char = v[j];
        if !('0' <= c && c <= '9') {
            proof {
                assert(run[j as int - from as int] == c);
                assert(!all_digit_chars(run));
            }
            return None;
        }
        proof {
            lemma_digits_value_extend(run, j as int - from as int);
            assert(run[j as int - from as int] == c);
            assert(all_digit_chars(run.subrange(0, j as int - from as int + 1))) by {
                assert(forall|k: int|
                    0 <= k < j as int - from as int + 1 ==> run.subrange(
                        0,
                        j as int - from as int + 1,
                    )[k] == run[k]);
            }
            assert(pow10(j as int - from as int + 1) == 10 * pow10(j as int - from as int));
            assert(pow10(j as int - from as int) <= 100_000_000_000i64) by {
                reveal_with_fuel(pow10, 13);
            }
        }
        let d: i64 = ((c as u32) - 48) as i64;
        acc = acc * 10 + d;
        j = j + 1;
    }
    proof {
        assert(run.subrange(0, to as int - from as int) =~= run);
    }
    Some(acc)
}

/// Parses a plain decimal number (optional minus sign, digits, an
/// optional dot and fraction digits) into an exact rational: up to twelve
/// integer digits and four fraction digits.
pub fn parse_decimal(s: &str) -> (r: Option<Rat>)
    ensures
        ({
            let v = s@;
            let neg = v.len() > 0 && v[0] == '-';
            let body = if neg {
                v.skip(1)
            } else {
                v
            };
            let dot = first_dot(body);
            let int_part = body.subrange(0, dot);
            let frac_part = if dot < body.len() {
                body.skip(dot + 1)
            } else {
                Seq::empty()
            };
            let ok = all_digit_chars(int_part) && all_digit_chars(frac_part) && int_part.len()
                + frac_part.len() >= 1 && int_part.len() <= 12 && frac_part.len() <= 4;
            &&& (r is Some <==> ok)
            &&& (r matches Some(t) ==> t.wf() && t.den == pow10(frac_part.len() as int) && t.num
                == (if neg {
                -1int
            } else {
                1int
            }) * (digits_value(int_part) * pow10(frac_part.len() as int) + digits_value(
                frac_part,
            )) && 0 < t.den <= 10_000)
        }),
{
    let v = chars_vec(s);
    let n: usize = v.len();
    let negative: bool = n > 0 && v[0] == '-';
    let start: usize = if negative {
        1
    } else {
        0
    };
    let ghost body = if negative {
        s@.skip(1)
    } else {
        s@
    };
    proof {
        assert(forall|k: int| 0 <= k < body.len() ==> body[k] == s@[k + start]);
    }
    let mut k: usize = start;
    while k < n && v[k] != '.'
        invariant
            start <= k <= n,
            n == v@.len(),
            v@ == s@,
            start == if negative {
                1int
            } else {
                0int
            },
            body == if negative {
                s@.skip(1)
            } else {
                s@
            },
            forall|j: int| 0 <= j < k - start ==> body[j] != '.',
        decreases n - k,
    {
        k = k + 1;
    }
    let dot_rel: usize = k - start;
    proof {
        lemma_first_dot_from_scan(body, dot_rel as int);
    }
    let ghost int_part = body.subrange(0, dot_rel as int);
    let ghost frac_part = if dot_rel < body.len() {
        body.skip(dot_rel as int + 1)
    } else {
        Seq::<char>::empty()
    };
    let int_val: i64 = match digits_run_value(&v, start, k) {
        Some(val) => {
            proof {
                assert(v@.subrange(start as int, k as int) =~= int_part);
            }
            val
        },
        None => {
            proof {
                assert(v@.subrange(start as int, k as int) =~= int_part);
            }
            return None;
        },
    };
    let frac_from: usize = if k < n {
        k + 1
    } else {
        n
    };
    let frac_val: i64 = match digits_run_value(&v, frac_from, n) {
        Some(val) => {
            proof {
                assert(v@.subrange(frac_from as int, n as int) =~= frac_part);
            }
            val
        },
        None => {
            proof {
                assert(v@.subrange(frac_from as int, n as int) =~= frac_part);
            }
            return None;
        },
    };
    let frac_len: usize = n - frac_from;
    if frac_len > 4 {
        return None;
    }
    if k == start && frac_len == 0 {
        // No digits at all.
        return None;
    }
    let mut den: i64 = 1;
    let mut p: usize = 0;
    while p < frac_len
        invariant
            p <= frac_len <= 4,
            den == pow10(p as int),
            1 <= den <= 10_000,
        decreases frac_len - p,
    {
        proof {
            assert(pow10(p as int + 1) == 10 * pow10(p as int));
            assert(pow10(0) == 1 && pow10(1) == 10 && pow10(2) == 100 && pow10(3) == 1000) by {
                reveal_with_fuel(pow10, 5);
            }
            assert(den <= 1000);
        }
        den = den * 10;
        p = p + 1;
    }
    proof {
        assert(0 <= int_val < pow10(12)) by {
            assert(pow10(dot_rel as int) <= pow10(12)) by {
                reveal_with_fuel(pow10, 13);
            }
        }
        assert(pow10(12) == 1_000_000_000_000i128) by {
            reveal_with_fuel(pow10, 13);
        }
    }
    proof {
        assert(0 <= (int_val as int) * (den as int) <= 10_000_000_000_000_000i128)
            by (nonlinear_arith)
            requires
                0 <= int_val as int <= 1_000_000_000_000i128,
                1 <= den as int <= 10_000i128,
        ;
    }
    let magnitude: i128 = (int_val as i128) * (den as i128) + (frac_val as i128);
    let num: i128 = if negative {
        -magnitude
    } else {
        magnitude
    };
    proof {
        assert(all_digit_chars(int_part));
        assert(all_digit_chars(frac_part));
        assert(int_part.len() <= 12);
        assert(frac_part.len() <= 4);
        assert(int_part.len() + frac_part.len() >= 1);
        assert(frac_part.len() == frac_len);
        assert(den as int == pow10(frac_part.len() as int));
        assert(int_val == digits_value(int_part));
        assert(frac_val == digits_value(frac_part));
        assert(magnitude as int == digits_value(int_part) * pow10(frac_part.len() as int)
            + digits_value(frac_part));
        assert(num as int == (if negative {
            -1int
        } else {
            1int
        }) * (digits_value(int_part) * pow10(frac_part.len() as int) + digits_value(frac_part)))
            by (nonlinear_arith)
            requires
                magnitude as int == digits_value(int_part) * pow10(frac_part.len() as int)
                    + digits_value(frac_part),
                num as int == if negative {
                    -(magnitude as int)
                } else {
                    magnitude as int
                },
        ;
    }
    Some(Rat { num, den: den as i128 })
}

} // verus!
