//! Character-level helpers shared by the other modules.

use vstd::prelude::*;
use vstd::std_specs::iter::IteratorSpec;

verus! {

/// The characters of `s`, in order.
pub fn chars_of(s: &str) -> (out: Vec<char>)
    ensures
        out@ == s@,
{
    let mut out: Vec<char> = Vec::new();
    let mut it = s.chars();
    loop
        invariant
            it.obeys_prophetic_iter_laws(),
            it.decrease() is Some,
            out@ + it.remaining() == s@,
        ensures
            out@ == s@,
        decreases it.decrease()->0,
    {
        match it.next() {
            Some(c) => {
                out.push(c);
                proof {
                    assert(out@ + it.remaining() =~= s@);
                }
            },
            None => {
                proof {
                    assert(out@ =~= s@);
                }
                break ;
            },
        }
    }
    out
}

/// The string made of the characters of `v`, in order.
///
/// Trusted: wraps `String::from_iter` over the slice's characters. The
/// contract claims that the string holds exactly those characters.
#[verifier::external_body]
pub(crate) fn string_of(v: &Vec<char>) -> (out: String)
    ensures
        out@ == v@,
{
    String::from_iter(v.iter())
}

/// An optional text by its characters.
pub open spec fn text_view(text: Option<String>) -> Option<Seq<char>> {
    match text {
        Some(t) => Some(t@),
        None => None,
    }
}

/// The views of a list of texts.
pub open spec fn texts(list: Seq<String>) -> Seq<Seq<char>> {
    list.map_values(|t: String| t@)
}

/// `pat` occurs in `s` starting at position `at`.
pub open spec fn occurs_at(s: Seq<char>, pat: Seq<char>, at: int) -> bool {
    0 <= at && at + pat.len() <= s.len() && s.subrange(at, at + pat.len()) == pat
}

/// `pat` occurs somewhere in `s` as a contiguous run.
pub open spec fn contains_seq(s: Seq<char>, pat: Seq<char>) -> bool {
    exists|at: int| occurs_at(s, pat, at)
}

fn matches_at(s: &Vec<char>, pat: &Vec<char>, at: usize) -> (hit: bool)
    requires
        at + pat@.len() <= s@.len(),
    ensures
        hit == occurs_at(s@, pat@, at as int),
{
    let n: usize = s.len();
    let mut j: usize = 0;
    while j < pat.len()
        invariant
            n == s@.len(),
            at + pat@.len() <= s@.len(),
            j <= pat@.len(),
            forall|k: int| 0 <= k < j ==> s@[at + k] == pat@[k],
        decreases pat@.len() - j,
    {
        if s[at + j] != pat[j] {
            proof {
                assert(s@.subrange(at as int, at + pat@.len())[j as int] == s@[at + j]);
            }
            return false;
        }
        j = j + 1;
    }
    proof {
        assert(s@.subrange(at as int, at + pat@.len()) =~= pat@);
    }
    true
}

/// Whether `pat` occurs in `s`.
pub fn contains_chars(s: &Vec<char>, pat: &Vec<char>) -> (found: bool)
    ensures
        found == contains_seq(s@, pat@),
{
    if pat.len() > s.len() {
        return false;
    }
    let last: usize = s.len() - pat.len();
    let mut at: usize = 0;
    loop
        invariant
            last == s@.len() - pat@.len(),
            at <= last,
            forall|k: int| 0 <= k < at ==> !occurs_at(s@, pat@, k),
        decreases last - at,
    {
        if matches_at(s, pat, at) {
            return true;
        }
        if at == last {
            return false;
        }
        at = at + 1;
    }
}

/// Whether the text `pat` occurs in the text `s`.
pub fn contains_text(s: &str, pat: &str) -> (found: bool)
    ensures
        found == contains_seq(s@, pat@),
{
    let sv = chars_of(s);
    let pv = chars_of(pat);
    contains_chars(&sv, &pv)
}


/// What `String::from_utf8_lossy` makes of a run of bytes.
pub uninterp spec fn utf8_lossy(bytes: Seq<u8>) -> Seq<char>;

/// The bytes read as text, each malformed stretch replaced.
///
/// Trusted: wraps `String::from_utf8_lossy`. The contract gives the result
/// its name, and claims that nothing is made of no bytes; the decoding
/// itself is std's.
#[verifier::external_body]
pub(crate) fn lossy_text(bytes: &Vec<u8>) -> (out: String)
    ensures
        out@ == utf8_lossy(bytes@),
        bytes@.len() == 0 ==> out@.len() == 0,
{
    String::from_utf8_lossy(bytes.as_slice()).into_owned()
}

/// Whether a character is white space: the characters that Unicode gives
/// the property White_Space.
pub open spec fn is_space(c: char) -> bool {
    ||| '\u{9}' <= c && c <= '\u{d}'
    ||| c == ' '
    ||| c == '\u{85}'
    ||| c == '\u{a0}'
    ||| c == '\u{1680}'
    ||| '\u{2000}' <= c && c <= '\u{200a}'
    ||| c == '\u{2028}'
    ||| c == '\u{2029}'
    ||| c == '\u{202f}'
    ||| c == '\u{205f}'
    ||| c == '\u{3000}'
}

/// Whether `c` is white space.
pub fn is_whitespace(c: char) -> (out: bool)
    ensures
        out == is_space(c),
{
    ('\u{9}' <= c && c <= '\u{d}') || c == ' ' || c == '\u{85}' || c == '\u{a0}' || c
        == '\u{1680}' || ('\u{2000}' <= c && c <= '\u{200a}') || c == '\u{2028}' || c
        == '\u{2029}' || c == '\u{202f}' || c == '\u{205f}' || c == '\u{3000}'
}

/// The path `rest` below the directory `base`, with `/` between the two
/// unless `base` is empty or ends with one. A `rest` that begins with `/`
/// stands for itself.
pub open spec fn joined(base: Seq<char>, rest: Seq<char>) -> Seq<char> {
    if rest.len() > 0 && rest[0] == '/' {
        rest
    } else if base.len() == 0 || base.last() == '/' {
        base + rest
    } else {
        base + seq!['/'] + rest
    }
}

/// The path `rest` below the directory `base`.
pub fn join_path(base: &str, rest: &str) -> (path: String)
    ensures
        path@ == joined(base@, rest@),
{
    let b = chars_of(base);
    let r = chars_of(rest);
    if r.len() > 0 && r[0] == '/' {
        return string_of(&r);
    }
    let mut out: Vec<char> = Vec::new();
    let mut i: usize = 0;
    while i < b.len()
        invariant
            i <= b@.len(),
            out@ == b@.subrange(0, i as int),
        decreases b@.len() - i,
    {
        out.push(b[i]);
        proof {
            assert(b@.subrange(0, i + 1) =~= b@.subrange(0, i as int).push(b@[i as int]));
        }
        i = i + 1;
    }
    proof {
        assert(b@.subrange(0, i as int) =~= b@);
    }
    if b.len() > 0 && b[b.len() - 1] != '/' {
        out.push('/');
    }
    let ghost head = out@;
    let mut j: usize = 0;
    while j < r.len()
        invariant
            j <= r@.len(),
            out@ == head + r@.subrange(0, j as int),
        decreases r@.len() - j,
    {
        out.push(r[j]);
        proof {
            assert(r@.subrange(0, j + 1) =~= r@.subrange(0, j as int).push(r@[j as int]));
        }
        j = j + 1;
    }
    proof {
        assert(r@.subrange(0, j as int) =~= r@);
        assert(out@ =~= joined(b@, r@));
    }
    string_of(&out)
}

/// The first position at or after `from` that holds no white space, or the
/// length of the text.
pub open spec fn skip_space(s: Seq<char>, from: int) -> int
    decreases s.len() - from,
{
    if 0 <= from < s.len() && is_space(s[from]) {
        skip_space(s, from + 1)
    } else {
        from
    }
}

/// The end of the text once the white space before `to` is dropped, never
/// going below `floor`.
pub open spec fn drop_space(s: Seq<char>, floor: int, to: int) -> int
    decreases to - floor,
{
    if floor < to <= s.len() && is_space(s[to - 1]) {
        drop_space(s, floor, to - 1)
    } else {
        to
    }
}

/// The text without the white space at its two ends.
pub open spec fn trimmed(s: Seq<char>) -> Seq<char> {
    let a = skip_space(s, 0);
    let b = drop_space(s, a, s.len() as int);
    s.subrange(a, b)
}

proof fn lemma_skip_space(s: Seq<char>, from: int, to: int)
    requires
        0 <= from <= to <= s.len(),
        forall|k: int| from <= k < to ==> is_space(s[k]),
        to == s.len() || !is_space(s[to]),
    ensures
        skip_space(s, from) == to,
    decreases to - from,
{
    if from < to {
        lemma_skip_space(s, from + 1, to);
    }
}

proof fn lemma_drop_space(s: Seq<char>, floor: int, b: int, to: int)
    requires
        0 <= floor <= b <= to <= s.len(),
        forall|k: int| b <= k < to ==> is_space(s[k]),
        b == floor || !is_space(s[b - 1]),
    ensures
        drop_space(s, floor, to) == b,
    decreases to - b,
{
    if b < to {
        lemma_drop_space(s, floor, b, to - 1);
    }
}

proof fn lemma_skip_stops(s: Seq<char>, from: int, at: int)
    requires
        0 <= from <= at < s.len(),
        !is_space(s[at]),
    ensures
        from <= skip_space(s, from) <= at,
    decreases at - from,
{
    if from < at && is_space(s[from]) {
        lemma_skip_stops(s, from + 1, at);
    }
}

proof fn lemma_drop_stops(s: Seq<char>, floor: int, to: int, at: int)
    requires
        0 <= floor <= at < to <= s.len(),
        !is_space(s[at]),
    ensures
        at < drop_space(s, floor, to) <= to,
    decreases to - at,
{
    if is_space(s[to - 1]) {
        lemma_drop_stops(s, floor, to - 1, at);
    }
}

/// Trimming leaves nothing exactly of a text that holds white space alone.
pub proof fn lemma_trimmed_empty_iff_blank(s: Seq<char>)
    ensures
        trimmed(s).len() == 0 <==> (forall|k: int| 0 <= k < s.len() ==> is_space(s[k])),
{
    if forall|k: int| 0 <= k < s.len() ==> is_space(s[k]) {
        lemma_skip_space(s, 0, s.len() as int);
    } else {
        let at = choose|k: int| 0 <= k < s.len() && !is_space(s[k]);
        lemma_skip_stops(s, 0, at);
        lemma_drop_stops(s, skip_space(s, 0), s.len() as int, at);
    }
}

fn copy_range(s: &Vec<char>, a: usize, b: usize) -> (out: Vec<char>)
    requires
        a <= b <= s@.len(),
    ensures
        out@ == s@.subrange(a as int, b as int),
{
    let mut out: Vec<char> = Vec::new();
    let mut j: usize = a;
    while j < b
        invariant
            a <= j <= b <= s@.len(),
            out@ == s@.subrange(a as int, j as int),
        decreases b - j,
    {
        out.push(s[j]);
        proof {
            assert(s@.subrange(a as int, j + 1) =~= s@.subrange(a as int, j as int).push(
                s@[j as int],
            ));
        }
        j = j + 1;
    }
    out
}

/// The text without the white space at its two ends.
pub fn trim_text(s: &str) -> (out: String)
    ensures
        out@ == trimmed(s@),
{
    let v = chars_of(s);
    let n: usize = v.len();
    let mut a: usize = 0;
    while a < n && is_whitespace(v[a])
        invariant
            n == v@.len(),
            a <= n,
            forall|k: int| 0 <= k < a ==> is_space(v@[k]),
        decreases n - a,
    {
        a = a + 1;
    }
    let mut b: usize = n;
    while b > a && is_whitespace(v[b - 1])
        invariant
            n == v@.len(),
            a <= b <= n,
            forall|k: int| b <= k < n ==> is_space(v@[k]),
        decreases b - a,
    {
        b = b - 1;
    }
    proof {
        lemma_skip_space(v@, 0, a as int);
        lemma_drop_space(v@, a as int, b as int, n as int);
    }
    let kept = copy_range(&v, a, b);
    string_of(&kept)
}

/// The words of `s` from position `from` on: the maximal runs of characters
/// that are no white space, in their order.
pub open spec fn words_from(s: Seq<char>, from: int) -> Seq<Seq<char>>
    decreases s.len() - from,
{
    let a = skip_space(s, from);
    if from < 0 || a >= s.len() || a < from {
        Seq::empty()
    } else {
        let b = a + word_len(s, a);
        if b >= s.len() {
            seq![s.subrange(a, s.len() as int)]
        } else {
            seq![s.subrange(a, b)] + words_from(s, b + 1)
        }
    }
}

/// How many characters that are no white space stand from `from` on.
pub open spec fn word_len(s: Seq<char>, from: int) -> nat
    decreases s.len() - from,
{
    if 0 <= from < s.len() && !is_space(s[from]) {
        1 + word_len(s, from + 1)
    } else {
        0
    }
}

/// The words of a text.
pub open spec fn words_of(s: Seq<char>) -> Seq<Seq<char>> {
    words_from(s, 0)
}

proof fn lemma_word_len(s: Seq<char>, from: int, to: int)
    requires
        0 <= from <= to <= s.len(),
        forall|k: int| from <= k < to ==> !is_space(s[k]),
        to == s.len() || is_space(s[to]),
    ensures
        word_len(s, from) == to - from,
    decreases to - from,
{
    if from < to {
        lemma_word_len(s, from + 1, to);
    }
}

/// The words of `s`, each as a vector of its characters.
pub fn split_words(s: &Vec<char>) -> (words: Vec<Vec<char>>)
    ensures
        words@.len() == words_of(s@).len(),
        forall|k: int| 0 <= k < words@.len() ==> (#[trigger] words@[k])@ == words_of(s@)[k],
{
    let n: usize = s.len();
    let mut words: Vec<Vec<char>> = Vec::new();
    let ghost mut done: Seq<Seq<char>> = Seq::empty();
    let mut from: usize = 0;
    while from < n
        invariant
            n == s@.len(),
            from <= n,
            words_of(s@) =~= done + words_from(s@, from as int),
            words@.len() == done.len(),
            forall|k: int| 0 <= k < words@.len() ==> (#[trigger] words@[k])@ == done[k],
        decreases n - from,
    {
        let mut a: usize = from;
        while a < n && is_whitespace(s[a])
            invariant
                n == s@.len(),
                from <= a <= n,
                forall|k: int| from <= k < a ==> is_space(s@[k]),
            decreases n - a,
        {
            a = a + 1;
        }
        proof {
            lemma_skip_space(s@, from as int, a as int);
        }
        if a >= n {
            from = n;
        } else {
            let mut b: usize = a;
            while b < n && !is_whitespace(s[b])
                invariant
                    n == s@.len(),
                    a <= b <= n,
                    forall|k: int| a <= k < b ==> !is_space(s@[k]),
                decreases n - b,
            {
                b = b + 1;
            }
            proof {
                lemma_word_len(s@, a as int, b as int);
                done = done.push(s@.subrange(a as int, b as int));
            }
            let word = copy_range(s, a, b);
            words.push(word);
            if b >= n {
                from = n;
            } else {
                from = b + 1;
            }
        }
    }
    proof {
        assert(words_from(s@, from as int) =~= Seq::<Seq<char>>::empty());
    }
    words
}

/// The character that stands for a decimal digit.
pub open spec fn digit_char(d: int) -> char {
    if d == 0 {
        '0'
    } else if d == 1 {
        '1'
    } else if d == 2 {
        '2'
    } else if d == 3 {
        '3'
    } else if d == 4 {
        '4'
    } else if d == 5 {
        '5'
    } else if d == 6 {
        '6'
    } else if d == 7 {
        '7'
    } else if d == 8 {
        '8'
    } else {
        '9'
    }
}

/// A natural number in decimal, without leading zeros.
pub open spec fn decimal(n: nat) -> Seq<char>
    decreases n,
{
    if n < 10 {
        seq![digit_char(n as int)]
    } else {
        decimal(n / 10).push(digit_char((n % 10) as int))
    }
}

/// An integer in decimal, with a minus sign where it is negative.
pub open spec fn signed_decimal(i: int) -> Seq<char> {
    if i < 0 {
        seq!['-'] + decimal((-i) as nat)
    } else {
        decimal(i as nat)
    }
}

fn digit_of(d: u32) -> (c: char)
    requires
        d < 10,
    ensures
        c == digit_char(d as int),
{
    if d == 0 {
        '0'
    } else if d == 1 {
        '1'
    } else if d == 2 {
        '2'
    } else if d == 3 {
        '3'
    } else if d == 4 {
        '4'
    } else if d == 5 {
        '5'
    } else if d == 6 {
        '6'
    } else if d == 7 {
        '7'
    } else if d == 8 {
        '8'
    } else {
        '9'
    }
}

fn push_decimal(n: u32, out: &mut Vec<char>)
    ensures
        final(out)@ == old(out)@ + decimal(n as nat),
    decreases n,
{
    if n >= 10 {
        push_decimal(n / 10, out);
    }
    out.push(digit_of(n % 10));
    proof {
        assert(final(out)@ =~= old(out)@ + decimal(n as nat));
    }
}

/// `n` written in decimal.
pub fn decimal_text(n: u32) -> (out: String)
    ensures
        out@ == decimal(n as nat),
{
    let mut v: Vec<char> = Vec::new();
    push_decimal(n, &mut v);
    proof {
        assert(v@ =~= decimal(n as nat));
    }
    string_of(&v)
}

/// `i` written in decimal, with its sign where it is negative.
pub fn signed_decimal_text(i: i32) -> (out: String)
    ensures
        out@ == signed_decimal(i as int),
{
    let mut v: Vec<char> = Vec::new();
    if i < 0 {
        v.push('-');
        let magnitude: u32 = if i == i32::MIN {
            2147483648u32
        } else {
            (-i) as u32
        };
        push_decimal(magnitude, &mut v);
    } else {
        push_decimal(i as u32, &mut v);
    }
    proof {
        assert(v@ =~= signed_decimal(i as int));
    }
    string_of(&v)
}

/// The value of a decimal digit, or nothing for any other character.
pub open spec fn digit_value(c: char) -> Option<nat> {
    if '0' <= c && c <= '9' {
        Some((c as u32 - '0' as u32) as nat)
    } else {
        None
    }
}

/// The number that a run of decimal digits denotes, or nothing where the
/// run is empty or holds another character.
pub open spec fn digits_value(s: Seq<char>) -> Option<nat>
    decreases s.len(),
{
    if s.len() == 0 {
        None
    } else {
        match digit_value(s.last()) {
            None => None,
            Some(d) => if s.len() == 1 {
                Some(d)
            } else {
                match digits_value(s.drop_last()) {
                    Some(v) => Some(v * 10 + d),
                    None => None,
                }
            },
        }
    }
}

/// The 32-bit integer that a text denotes in decimal: one sign at most, then
/// digits and nothing else, within the type's range. Any other text denotes
/// nothing.
pub open spec fn parsed_i32(s: Seq<char>) -> Option<i32> {
    let negative = s.len() > 0 && s[0] == '-';
    let signed = s.len() > 0 && (s[0] == '-' || s[0] == '+');
    let digits = if signed {
        s.subrange(1, s.len() as int)
    } else {
        s
    };
    match digits_value(digits) {
        None => None,
        Some(v) => if negative {
            if v <= 2147483648 {
                Some((-(v as int)) as i32)
            } else {
                None
            }
        } else {
            if v <= 2147483647 {
                Some(v as i32)
            } else {
                None
            }
        },
    }
}

proof fn lemma_stray_character(s: Seq<char>, at: int)
    requires
        0 <= at < s.len(),
        digit_value(s[at]) is None,
    ensures
        digits_value(s) is None,
    decreases s.len(),
{
    if at < s.len() - 1 {
        lemma_stray_character(s.drop_last(), at);
    }
}

/// Reads a 32-bit integer in decimal.
pub fn parse_i32(text: &Vec<char>) -> (out: Option<i32>)
    ensures
        out == parsed_i32(text@),
{
    let n: usize = text.len();
    let negative = n > 0 && text[0] == '-';
    let signed = n > 0 && (text[0] == '-' || text[0] == '+');
    let first: usize = if signed {
        1
    } else {
        0
    };
    if first == n {
        return None;
    }
    let ghost digits = text@.subrange(first as int, n as int);
    proof {
        if !signed {
            assert(digits =~= text@);
        }
    }
    let mut value: u64 = 0;
    let mut beyond = false;
    let mut i: usize = first;
    while i < n
        invariant
            first < n,
            n == text@.len(),
            first <= i <= n,
            digits == text@.subrange(first as int, n as int),
            digits == (if text@.len() > 0 && (text@[0] == '-' || text@[0] == '+') {
                text@.subrange(1, text@.len() as int)
            } else {
                text@
            }),
            i == first ==> value == 0 && !beyond,
            i > first ==> digits_value(digits.subrange(0, i - first)) is Some,
            i > first && !beyond ==> digits_value(digits.subrange(0, i - first)) == Some(
                value as nat,
            ),
            i > first && beyond ==> digits_value(digits.subrange(0, i - first))->Some_0
                > 2147483648,
            value <= 2147483648,
        decreases n - i,
    {
        let c = text[i];
        if !('0' <= c && c <= '9') {
            proof {
                assert(digits[i - first] == c);
                lemma_stray_character(digits, i - first);
            }
            return None;
        }
        let d: u64 = (c as u32 - '0' as u32) as u64;
        proof {
            let upto = digits.subrange(0, i + 1 - first);
            assert(upto.last() == c);
            assert(upto.drop_last() =~= digits.subrange(0, i - first));
        }
        if !beyond {
            let next: u64 = value * 10 + d;
            if next > 2147483648 {
                beyond = true;
            } else {
                value = next;
            }
        }
        i = i + 1;
    }
    proof {
        assert(digits.subrange(0, n - first) =~= digits);
    }
    if beyond {
        None
    } else if negative {
        if value == 2147483648 {
            Some(i32::MIN)
        } else {
            Some(-(value as i32))
        }
    } else if value <= 2147483647 {
        Some(value as i32)
    } else {
        None
    }
}

} // verus!
