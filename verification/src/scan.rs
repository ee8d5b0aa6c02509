//! Character-level scanning used by the keybinding parser: whitespace
//! tokenization, trimming, splitting on a separator, and reading a
//! non-negative decimal step count. Whitespace here is the Unicode
//! white-space set.

use vstd::prelude::*;

verus! {

/// The characters with the Unicode `White_Space` property.
pub open spec fn is_space_char(c: char) -> bool {
    let u = c as u32;
    ||| u == 0x09
    ||| u == 0x0A
    ||| u == 0x0B
    ||| u == 0x0C
    ||| u == 0x0D
    ||| u == 0x20
    ||| u == 0x85
    ||| u == 0xA0
    ||| u == 0x1680
    ||| (0x2000 <= u && u <= 0x200A)
    ||| u == 0x2028
    ||| u == 0x2029
    ||| u == 0x202F
    ||| u == 0x205F
    ||| u == 0x3000
}

fn is_space(c: char) -> (r: bool)
    ensures
        r == is_space_char(c),
{
    let u = c as u32;
    u == 0x09 || u == 0x0A || u == 0x0B || u == 0x0C || u == 0x0D || u == 0x20 || u == 0x85 || u
        == 0xA0 || u == 0x1680 || (0x2000 <= u && u <= 0x200A) || u == 0x2028 || u == 0x2029 || u
        == 0x202F || u == 0x205F || u == 0x3000
}

pub open spec fn is_digit_char(c: char) -> bool {
    48 <= c as u32 <= 57
}

pub open spec fn digit_val(c: char) -> nat {
    (c as u32 - 48) as nat
}

// ---------------------------------------------------------------------------
// Whitespace tokenization
// ---------------------------------------------------------------------------

/// Index just past the maximal run of non-space characters starting at `i`.
pub open spec fn token_end(s: Seq<char>, i: int) -> int
    decreases s.len() - i,
{
    if i >= s.len() || is_space_char(s[i]) {
        i
    } else {
        token_end(s, i + 1)
    }
}

pub proof fn lemma_token_end(s: Seq<char>, i: int)
    requires
        0 <= i <= s.len(),
    ensures
        i <= token_end(s, i) <= s.len(),
        forall|k: int| i <= k < token_end(s, i) ==> !is_space_char(s[k]),
        token_end(s, i) < s.len() ==> is_space_char(s[token_end(s, i)]),
        i < s.len() && !is_space_char(s[i]) ==> token_end(s, i) > i,
    decreases s.len() - i,
{
    if i < s.len() && !is_space_char(s[i]) {
        lemma_token_end(s, i + 1);
    }
}

proof fn lemma_token_end_is(s: Seq<char>, i: int, j: int)
    requires
        0 <= i <= j <= s.len(),
        forall|k: int| i <= k < j ==> !is_space_char(s[k]),
        j == s.len() || is_space_char(s[j]),
    ensures
        token_end(s, i) == j,
    decreases j - i,
{
    if i < j {
        lemma_token_end_is(s, i + 1, j);
    }
}

/// The whitespace-separated tokens of `s` from position `i` on.
pub open spec fn spec_tokens_from(s: Seq<char>, i: int) -> Seq<Seq<char>>
    decreases s.len() - i,
    via spec_tokens_from_dec
{
    if i < 0 || i >= s.len() {
        Seq::empty()
    } else if is_space_char(s[i]) {
        spec_tokens_from(s, i + 1)
    } else {
        seq![s.subrange(i, token_end(s, i))] + spec_tokens_from(s, token_end(s, i))
    }
}

#[via_fn]
proof fn spec_tokens_from_dec(s: Seq<char>, i: int) {
    if 0 <= i < s.len() && !is_space_char(s[i]) {
        lemma_token_end(s, i);
    }
}

/// The whitespace-separated tokens of `s`.
pub open spec fn spec_tokens(s: Seq<char>) -> Seq<Seq<char>> {
    spec_tokens_from(s, 0)
}

/// First position at or after `i` whose character ends the current token.
fn scan_token_end(s: &str, i: usize, n: usize) -> (j: usize)
    requires
        n == s@.len(),
        i < n,
        !is_space_char(s@[i as int]),
    ensures
        j == token_end(s@, i as int),
        i < j <= n,
{
    let mut j = i + 1;
    let mut boundary = if j == n {
        true
    } else {
        is_space(s.get_char(j))
    };
    while !boundary
        invariant
            n == s@.len(),
            i < j <= n,
            boundary == (j == n || is_space_char(s@[j as int])),
            forall|k: int| i <= k < j ==> !is_space_char(s@[k]),
        decreases n - j,
    {
        j += 1;
        boundary = if j == n {
            true
        } else {
            is_space(s.get_char(j))
        };
    }
    proof {
        lemma_token_end_is(s@, i as int, j as int);
    }
    j
}

/// The whitespace-separated tokens of `s`, as slices of `s`.
pub fn tokenize<'a>(s: &'a str) -> (tokens: Vec<&'a str>)
    ensures
        tokens.deep_view() == spec_tokens(s@),
{
    let n = s.unicode_len();
    let mut tokens: Vec<&str> = Vec::new();
    let mut i: usize = 0;
    while i < n
        invariant
            n == s@.len(),
            i <= n,
            spec_tokens(s@) == tokens.deep_view() + spec_tokens_from(s@, i as int),
        decreases n - i,
    {
        let c = s.get_char(i);
        if is_space(c) {
            i += 1;
        } else {
            let ghost before = tokens.deep_view();
            let j = scan_token_end(s, i, n);
            let tok = s.substring_char(i, j);
            tokens.push(tok);
            proof {
                assert(tokens.deep_view() =~= before + seq![tok@]);
                assert(before + seq![tok@] + spec_tokens_from(s@, j as int) =~= before + (seq![
                    tok@,
                ] + spec_tokens_from(s@, j as int)));
            }
            i = j;
        }
    }
    proof {
        assert(tokens.deep_view() + spec_tokens_from(s@, i as int) =~= tokens.deep_view());
    }
    tokens
}

// ---------------------------------------------------------------------------
// Trimming
// ---------------------------------------------------------------------------

/// First position at or after `i` that does not hold a space.
pub open spec fn skip_spaces(s: Seq<char>, i: int) -> int
    decreases s.len() - i,
{
    if i >= s.len() || !is_space_char(s[i]) {
        i
    } else {
        skip_spaces(s, i + 1)
    }
}

proof fn lemma_skip_spaces_is(s: Seq<char>, i: int, j: int)
    requires
        0 <= i <= j <= s.len(),
        forall|k: int| i <= k < j ==> is_space_char(s[k]),
        j == s.len() || !is_space_char(s[j]),
    ensures
        skip_spaces(s, i) == j,
    decreases j - i,
{
    if i < j {
        lemma_skip_spaces_is(s, i + 1, j);
    }
}

/// Position of the end of `s.subrange(0, j)` once trailing spaces are gone.
pub open spec fn trim_end_from(s: Seq<char>, j: int) -> int
    decreases j,
{
    if j <= 0 || !is_space_char(s[j - 1]) {
        j
    } else {
        trim_end_from(s, j - 1)
    }
}

pub proof fn lemma_trim_end_from(s: Seq<char>, j: int)
    requires
        0 <= j <= s.len(),
    ensures
        0 <= trim_end_from(s, j) <= j,
        forall|k: int| trim_end_from(s, j) <= k < j ==> is_space_char(s[k]),
        trim_end_from(s, j) > 0 ==> !is_space_char(s[trim_end_from(s, j) - 1]),
    decreases j,
{
    if j > 0 && is_space_char(s[j - 1]) {
        lemma_trim_end_from(s, j - 1);
    }
}

proof fn lemma_trim_end_from_is(s: Seq<char>, j: int, b: int)
    requires
        0 <= b <= j <= s.len(),
        forall|k: int| b <= k < j ==> is_space_char(s[k]),
        b == 0 || !is_space_char(s[b - 1]),
    ensures
        trim_end_from(s, j) == b,
    decreases j - b,
{
    if b < j {
        lemma_trim_end_from_is(s, j - 1, b);
    }
}

/// `s` without leading and trailing spaces.
pub open spec fn spec_trim(s: Seq<char>) -> Seq<char> {
    let a = skip_spaces(s, 0);
    let b = trim_end_from(s, s.len() as int);
    if a < b {
        s.subrange(a, b)
    } else {
        Seq::empty()
    }
}

/// `s` without leading and trailing spaces, as a slice of `s`.
pub fn trim<'a>(s: &'a str) -> (r: &'a str)
    ensures
        r@ == spec_trim(s@),
{
    let n = s.unicode_len();
    let mut a: usize = 0;
    let mut stop = if a == n {
        true
    } else {
        !is_space(s.get_char(a))
    };
    while !stop
        invariant
            n == s@.len(),
            a <= n,
            stop == (a == n || !is_space_char(s@[a as int])),
            forall|k: int| 0 <= k < a ==> is_space_char(s@[k]),
        decreases n - a,
    {
        a += 1;
        stop = if a == n {
            true
        } else {
            !is_space(s.get_char(a))
        };
    }
    proof {
        lemma_skip_spaces_is(s@, 0, a as int);
        lemma_trim_end_from(s@, n as int);
    }
    if a == n {
        return s.substring_char(n, n);
    }
    let mut b: usize = n;
    let mut stop2 = !is_space(s.get_char(b - 1));
    while !stop2
        invariant
            n == s@.len(),
            a < n,
            !is_space_char(s@[a as int]),
            a < b <= n,
            stop2 == !is_space_char(s@[b - 1]),
            forall|k: int| b <= k < n ==> is_space_char(s@[k]),
        decreases b,
    {
        b -= 1;
        stop2 = !is_space(s.get_char(b - 1));
    }
    proof {
        lemma_trim_end_from_is(s@, n as int, b as int);
    }
    s.substring_char(a, b)
}

// ---------------------------------------------------------------------------
// Splitting on a separator character
// ---------------------------------------------------------------------------

/// First position at or after `i` holding `c`, or the length if there is none.
pub open spec fn find_from(s: Seq<char>, c: char, i: int) -> int
    decreases s.len() - i,
{
    if i < 0 || i >= s.len() {
        s.len() as int
    } else if s[i] == c {
        i
    } else {
        find_from(s, c, i + 1)
    }
}

pub proof fn lemma_find_from(s: Seq<char>, c: char, i: int)
    requires
        0 <= i <= s.len(),
    ensures
        i <= find_from(s, c, i) <= s.len(),
        find_from(s, c, i) < s.len() ==> s[find_from(s, c, i)] == c,
        forall|k: int| i <= k < find_from(s, c, i) ==> s[k] != c,
    decreases s.len() - i,
{
    if i < s.len() && s[i] != c {
        lemma_find_from(s, c, i + 1);
    }
}

proof fn lemma_find_from_is(s: Seq<char>, c: char, i: int, j: int)
    requires
        0 <= i <= j <= s.len(),
        forall|k: int| i <= k < j ==> s[k] != c,
        j == s.len() || s[j] == c,
    ensures
        find_from(s, c, i) == j,
    decreases j - i,
{
    if i < j {
        lemma_find_from_is(s, c, i + 1, j);
    }
}

/// `s` contains `c` exactly when a search from the start finds it.
pub proof fn lemma_find_from_contains(s: Seq<char>, c: char)
    ensures
        s.contains(c) <==> find_from(s, c, 0) < s.len(),
{
    lemma_find_from(s, c, 0);
    if s.contains(c) {
        let k = choose|k: int| 0 <= k < s.len() && s[k] == c;
        assert(!(k < find_from(s, c, 0)));
    }
}

/// The segments of `s` from position `i` on, between occurrences of `sep`;
/// empty segments are kept, and a string without `sep` is one segment.
pub open spec fn spec_split_from(s: Seq<char>, sep: char, i: int) -> Seq<Seq<char>>
    decreases s.len() - i,
    via spec_split_from_dec
{
    if !(0 <= i <= s.len()) {
        Seq::empty()
    } else {
        let j = find_from(s, sep, i);
        if j == s.len() {
            seq![s.subrange(i, s.len() as int)]
        } else {
            seq![s.subrange(i, j)] + spec_split_from(s, sep, j + 1)
        }
    }
}

#[via_fn]
proof fn spec_split_from_dec(s: Seq<char>, sep: char, i: int) {
    if 0 <= i <= s.len() {
        lemma_find_from(s, sep, i);
    }
}

/// The segments of `s` between occurrences of `sep`.
pub open spec fn spec_split(s: Seq<char>, sep: char) -> Seq<Seq<char>> {
    spec_split_from(s, sep, 0)
}

/// The segments of `s` between occurrences of `sep`, as slices of `s`.
pub fn split_on<'a>(s: &'a str, sep: char) -> (parts: Vec<&'a str>)
    ensures
        parts.deep_view() == spec_split(s@, sep),
{
    let n = s.unicode_len();
    let mut parts: Vec<&str> = Vec::new();
    let mut i: usize = 0;
    let mut done = false;
    while !done
        invariant
            n == s@.len(),
            i <= n,
            !done ==> spec_split(s@, sep) == parts.deep_view() + spec_split_from(
                s@,
                sep,
                i as int,
            ),
            done ==> parts.deep_view() == spec_split(s@, sep),
        decreases n - i + (if done {
            0int
        } else {
            1int
        }),
    {
        let mut j = i;
        let mut found = if j == n {
            true
        } else {
            s.get_char(j) == sep
        };
        while !found
            invariant
                n == s@.len(),
                i <= j <= n,
                found == (j == n || s@[j as int] == sep),
                forall|k: int| i <= k < j ==> s@[k] != sep,
            decreases n - j,
        {
            j += 1;
            found = if j == n {
                true
            } else {
                s.get_char(j) == sep
            };
        }
        proof {
            lemma_find_from_is(s@, sep, i as int, j as int);
        }
        let ghost before = parts.deep_view();
        let part = s.substring_char(i, j);
        parts.push(part);
        proof {
            assert(parts.deep_view() =~= before + seq![part@]);
        }
        if j == n {
            done = true;
            proof {
                assert(before + seq![part@] =~= before + spec_split_from(s@, sep, i as int));
            }
        } else {
            i = j + 1;
            proof {
                assert(before + seq![part@] + spec_split_from(s@, sep, i as int) =~= before + (seq![
                    part@,
                ] + spec_split_from(s@, sep, i as int)));
            }
        }
    }
    parts
}

// ---------------------------------------------------------------------------
// Membership and equality
// ---------------------------------------------------------------------------

/// Whether the last character of `s`, ignoring trailing whitespace, is `c`.
pub open spec fn spec_ends_with(s: Seq<char>, c: char) -> bool {
    let b = trim_end_from(s, s.len() as int);
    b > 0 && s[b - 1] == c
}

/// Whether `s` ends with `c`, ignoring trailing whitespace.
pub fn ends_with_char(s: &str, c: char) -> (r: bool)
    ensures
        r == spec_ends_with(s@, c),
{
    let n = s.unicode_len();
    let mut b: usize = n;
    let mut stop = if b == 0 {
        true
    } else {
        !is_space(s.get_char(b - 1))
    };
    while !stop
        invariant
            n == s@.len(),
            b <= n,
            stop == (b == 0 || !is_space_char(s@[b as int - 1])),
            forall|k: int| b <= k < n ==> is_space_char(s@[k]),
        decreases b,
    {
        b -= 1;
        stop = if b == 0 {
            true
        } else {
            !is_space(s.get_char(b - 1))
        };
    }
    proof {
        lemma_trim_end_from_is(s@, n as int, b as int);
    }
    if b == 0 {
        false
    } else {
        s.get_char(b - 1) == c
    }
}

/// Whether two string slices hold the same characters.
pub fn str_eq(a: &str, b: &str) -> (r: bool)
    ensures
        r == (a@ == b@),
{
    let na = a.unicode_len();
    let nb = b.unicode_len();
    if na != nb {
        return false;
    }
    let mut i: usize = 0;
    while i < na
        invariant
            na == a@.len(),
            na == b@.len(),
            i <= na,
            forall|k: int| 0 <= k < i ==> a@[k] == b@[k],
        decreases na - i,
    {
        if a.get_char(i) != b.get_char(i) {
            return false;
        }
        i += 1;
    }
    proof {
        assert(a@ =~= b@);
    }
    true
}

// ---------------------------------------------------------------------------
// Decimal step counts
// ---------------------------------------------------------------------------

pub open spec fn all_digits(s: Seq<char>) -> bool {
    forall|k: int| 0 <= k < s.len() ==> is_digit_char(s[k])
}

/// Value of a digit string, most significant digit first.
pub open spec fn digits_val(s: Seq<char>) -> nat
    decreases s.len(),
{
    if s.len() == 0 {
        0
    } else {
        digits_val(s.drop_last()) * 10 + digit_val(s.last())
    }
}

/// Extending a digit string on the right never lowers its value.
pub proof fn lemma_digits_val_prefix(s: Seq<char>, k: int)
    requires
        0 <= k <= s.len(),
    ensures
        digits_val(s.take(k)) <= digits_val(s),
    decreases s.len() - k,
{
    if k == s.len() {
        assert(s.take(k) =~= s);
    } else {
        lemma_digits_val_prefix(s.drop_last(), k);
        assert(s.drop_last().take(k) =~= s.take(k));
    }
}

/// The digits of a step count: an optional leading `+` sign is skipped.
pub open spec fn steps_digits(s: Seq<char>) -> Seq<char> {
    if s.len() > 0 && s[0] == '+' {
        s.drop_first()
    } else {
        s
    }
}

/// The value of a step count: defined exactly when, after an optional `+`,
/// the string is one or more digits whose value fits the machine.
pub open spec fn spec_parse_steps(s: Seq<char>) -> Option<nat> {
    let d = steps_digits(s);
    if d.len() > 0 && all_digits(d) && digits_val(d) <= usize::MAX {
        Some(digits_val(d))
    } else {
        None
    }
}

/// Reads a non-negative decimal step count, rejecting anything else.
pub fn parse_steps(t: &str) -> (r: Option<usize>)
    ensures
        match r {
            Some(v) => spec_parse_steps(t@) == Some(v as nat),
            None => spec_parse_steps(t@) is None,
        },
{
    let n = t.unicode_len();
    let start: usize = if n > 0 && t.get_char(0) == '+' {
        1
    } else {
        0
    };
    let ghost d = steps_digits(t@);
    proof {
        assert(d =~= t@.subrange(start as int, n as int));
    }
    if start == n {
        return None;
    }
    let max: u128 = usize::MAX as u128;
    let mut acc: u128 = 0;
    let mut i = start;
    while i < n
        invariant
            n == t@.len(),
            start <= i <= n,
            start < n,
            d == steps_digits(t@),
            d == t@.subrange(start as int, n as int),
            all_digits(d.take(i - start)),
            acc == digits_val(d.take(i - start)),
            acc <= max,
            max == usize::MAX,
        decreases n - i,
    {
        let c = t.get_char(i);
        let u = c as u32;
        if !(48 <= u && u <= 57) {
            proof {
                assert(d[i - start] == t@[i as int]);
                assert(!is_digit_char(d[i - start]));
            }
            return None;
        }
        let dv: u128 = (u - 48) as u128;
        let acc2 = acc * 10 + dv;
        proof {
            assert(d.take(i - start + 1).drop_last() =~= d.take(i - start));
            assert(d.take(i - start + 1).last() == t@[i as int]);
            assert(digits_val(d.take(i - start + 1)) == acc * 10 + dv);
        }
        if acc2 > max {
            proof {
                lemma_digits_val_prefix(d, i - start + 1);
            }
            return None;
        }
        acc = acc2;
        i += 1;
    }
    proof {
        assert(d.take(n - start) =~= d);
    }
    Some(acc as usize)
}

} // verus!
