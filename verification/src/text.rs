//! Character-level string helpers: whitespace classification, trimming,
//! splitting a line on its first `=`, whitespace tokenization, and decimal
//! rendering of integers. Everything is specified over `Seq<char>` views.
use vstd::prelude::*;

verus! {

/// A character treated as whitespace by `trim` and the tokenizer
/// (the Unicode white-space set).
pub open spec fn is_space(c: char) -> bool {
    c == ' ' || c == '\t' || c == '\n' || c == '\r' || c == '\x0b' || c == '\x0c'
        || c == '\u{85}' || c == '\u{a0}' || c == '\u{1680}'
        || ('\u{2000}' <= c && c <= '\u{200a}')
        || c == '\u{2028}' || c == '\u{2029}' || c == '\u{202f}' || c == '\u{205f}'
        || c == '\u{3000}'
}

/// Executable test for [`is_space`].
pub fn space_char(c: char) -> (r: bool)
    ensures
        r == is_space(c),
{
    c == ' ' || c == '\t' || c == '\n' || c == '\r' || c == '\x0b' || c == '\x0c'
        || c == '\u{85}' || c == '\u{a0}' || c == '\u{1680}'
        || ('\u{2000}' <= c && c <= '\u{200a}')
        || c == '\u{2028}' || c == '\u{2029}' || c == '\u{202f}' || c == '\u{205f}'
        || c == '\u{3000}'
}

/// The string without its leading whitespace.
pub open spec fn trim_start_spec(s: Seq<char>) -> Seq<char>
    decreases s.len(),
{
    if s.len() == 0 {
        s
    } else if is_space(s[0]) {
        trim_start_spec(s.drop_first())
    } else {
        s
    }
}

/// The string without its trailing whitespace.
pub open spec fn trim_end_spec(s: Seq<char>) -> Seq<char>
    decreases s.len(),
{
    if s.len() == 0 {
        s
    } else if is_space(s.last()) {
        trim_end_spec(s.drop_last())
    } else {
        s
    }
}

/// The string without surrounding whitespace.
pub open spec fn trim_spec(s: Seq<char>) -> Seq<char> {
    trim_end_spec(trim_start_spec(s))
}

proof fn lemma_trim_start_is_skip(s: Seq<char>, i: int)
    requires
        0 <= i <= s.len(),
        forall|k: int| 0 <= k < i ==> is_space(s[k]),
        i == s.len() || !is_space(s[i]),
    ensures
        trim_start_spec(s) == s.skip(i),
    decreases i,
{
    if i == 0 {
        assert(s.skip(0) =~= s);
    } else {
        assert(is_space(s[0]));
        lemma_trim_start_is_skip(s.drop_first(), i - 1);
        assert(s.drop_first().skip(i - 1) =~= s.skip(i));
    }
}

proof fn lemma_trim_end_is_take(s: Seq<char>, j: int)
    requires
        0 <= j <= s.len(),
        forall|k: int| j <= k < s.len() ==> is_space(s[k]),
        j == 0 || !is_space(s[j - 1]),
    ensures
        trim_end_spec(s) == s.take(j),
    decreases s.len() - j,
{
    if j == s.len() {
        if s.len() == 0 {
            assert(s.take(0) =~= s);
        } else {
            assert(!is_space(s.last()));
            assert(s.take(j) =~= s);
        }
    } else {
        assert(is_space(s.last()));
        lemma_trim_end_is_take(s.drop_last(), j);
        assert(s.drop_last().take(j) =~= s.take(j));
    }
}

/// `trim_start_spec` keeps a suffix whose head, if any, is not whitespace.
proof fn lemma_trim_start_props(s: Seq<char>)
    ensures
        trim_start_spec(s).len() <= s.len(),
        trim_start_spec(s).len() > 0 ==> !is_space(trim_start_spec(s)[0]),
        trim_start_spec(s).len() > 0 ==> trim_start_spec(s).last() == s.last(),
        trim_start_spec(s).len() > 0 ==> s.len() > 0,
    decreases s.len(),
{
    if s.len() == 0 {
    } else if is_space(s[0]) {
        lemma_trim_start_props(s.drop_first());
    }
}

/// `trim_end_spec` keeps a prefix whose last character, if any, is not
/// whitespace.
proof fn lemma_trim_end_props(s: Seq<char>)
    ensures
        trim_end_spec(s).len() <= s.len(),
        trim_end_spec(s).len() > 0 ==> !is_space(trim_end_spec(s).last()),
        trim_end_spec(s).len() > 0 ==> trim_end_spec(s)[0] == s[0],
        trim_end_spec(s).len() > 0 ==> s.len() > 0,
    decreases s.len(),
{
    if s.len() == 0 {
    } else if is_space(s.last()) {
        lemma_trim_end_props(s.drop_last());
        if trim_end_spec(s).len() > 0 {
            assert(s.drop_last()[0] == s[0]);
        }
    }
}

/// Trimming an already trimmed string changes nothing.
pub proof fn lemma_trim_idempotent(s: Seq<char>)
    ensures
        trim_spec(trim_spec(s)) == trim_spec(s),
{
    let t = trim_spec(s);
    lemma_trim_start_props(s);
    lemma_trim_end_props(trim_start_spec(s));
    if t.len() == 0 {
        assert(trim_start_spec(t) == t);
        assert(trim_end_spec(t) == t);
    } else {
        assert(!is_space(t[0]));
        assert(trim_start_spec(t) == t);
        assert(!is_space(t.last()));
        assert(trim_end_spec(t) == t);
    }
}

/// Returns the argument without surrounding whitespace.
pub fn trim(s: &str) -> (r: &str)
    ensures
        r@ == trim_spec(s@),
{
    let len = s.unicode_len();
    let mut i: usize = 0;
    while i < len && space_char(s.get_char(i))
        invariant
            0 <= i <= len,
            len == s@.len(),
            forall|k: int| 0 <= k < i ==> is_space(s@[k]),
        decreases len - i,
    {
        i += 1;
    }
    let mut j: usize = len;
    while j > i && space_char(s.get_char(j - 1))
        invariant
            i <= j <= len,
            len == s@.len(),
            forall|k: int| j <= k < len ==> is_space(s@[k]),
        decreases j,
    {
        j -= 1;
    }
    proof {
        lemma_trim_start_is_skip(s@, i as int);
        let t = s@.skip(i as int);
        lemma_trim_end_is_take(t, j - i);
        assert(t.take(j - i) =~= s@.subrange(i as int, j as int));
    }
    s.substring_char(i, j)
}

/// Splitting a line at its first `=`: the part before it and the part after
/// it, or nothing when the line holds no `=`.
pub open spec fn split_eq_spec(s: Seq<char>) -> Option<(Seq<char>, Seq<char>)>
    decreases s.len(),
{
    if s.len() == 0 {
        None
    } else if s[0] == '=' {
        Some((Seq::empty(), s.drop_first()))
    } else {
        match split_eq_spec(s.drop_first()) {
            None => None,
            Some((k, v)) => Some((seq![s[0]] + k, v)),
        }
    }
}

/// A line without `=` does not split.
pub proof fn lemma_split_eq_none(s: Seq<char>)
    requires
        forall|k: int| 0 <= k < s.len() ==> s[k] != '=',
    ensures
        split_eq_spec(s) is None,
    decreases s.len(),
{
    if s.len() > 0 {
        lemma_split_eq_none(s.drop_first());
    }
}

/// A line whose first `=` stands at position `i` splits there.
pub proof fn lemma_split_eq_at(s: Seq<char>, i: int)
    requires
        0 <= i < s.len(),
        s[i] == '=',
        forall|k: int| 0 <= k < i ==> s[k] != '=',
    ensures
        split_eq_spec(s) == Some((s.take(i), s.skip(i + 1))),
    decreases i,
{
    if i == 0 {
        assert(s.take(0) =~= Seq::<char>::empty());
        assert(s.skip(1) =~= s.drop_first());
    } else {
        lemma_split_eq_at(s.drop_first(), i - 1);
        assert(seq![s[0]] + s.drop_first().take(i - 1) =~= s.take(i));
        assert(s.drop_first().skip(i) =~= s.skip(i + 1));
    }
}

/// Splitting a line that was built as `k + "=" + v`, with no `=` in `k`,
/// recovers `k` and `v` exactly.
pub proof fn lemma_split_eq_of_join(k: Seq<char>, v: Seq<char>)
    requires
        forall|n: int| 0 <= n < k.len() ==> k[n] != '=',
    ensures
        split_eq_spec(k + seq!['='] + v) == Some((k, v)),
{
    let s = k + seq!['='] + v;
    lemma_split_eq_at(s, k.len() as int);
    assert(s.take(k.len() as int) =~= k);
    assert(s.skip(k.len() as int + 1) =~= v);
}

/// Splits at the first `=`, as [`split_eq_spec`] describes.
pub fn split_first_eq<'a>(s: &'a str) -> (r: Option<(&'a str, &'a str)>)
    ensures
        (match r {
            Some((k, v)) => split_eq_spec(s@) == Some((k@, v@)),
            None => split_eq_spec(s@) is None,
        }),
{
    let len = s.unicode_len();
    let mut i: usize = 0;
    while i < len && s.get_char(i) != '='
        invariant
            0 <= i <= len,
            len == s@.len(),
            forall|k: int| 0 <= k < i ==> s@[k] != '=',
        decreases len - i,
    {
        i += 1;
    }
    if i == len {
        proof {
            lemma_split_eq_none(s@);
        }
        None
    } else {
        proof {
            lemma_split_eq_at(s@, i as int);
            assert(s@.take(i as int) =~= s@.subrange(0, i as int));
            assert(s@.skip(i + 1) =~= s@.subrange(i + 1, len as int));
        }
        Some((s.substring_char(0, i), s.substring_char(i + 1, len)))
    }
}

/// Length of the leading run of non-whitespace characters.
pub open spec fn token_len(s: Seq<char>) -> nat
    decreases s.len(),
{
    if s.len() == 0 || is_space(s[0]) {
        0
    } else {
        1 + token_len(s.drop_first())
    }
}

proof fn lemma_token_len_bound(s: Seq<char>)
    ensures
        token_len(s) <= s.len(),
    decreases s.len(),
{
    if s.len() > 0 && !is_space(s[0]) {
        lemma_token_len_bound(s.drop_first());
    }
}

proof fn lemma_token_len_at(s: Seq<char>, m: int)
    requires
        0 <= m <= s.len(),
        forall|k: int| 0 <= k < m ==> !is_space(s[k]),
        m == s.len() || is_space(s[m]),
    ensures
        token_len(s) == m,
    decreases m,
{
    if m == 0 {
    } else {
        lemma_token_len_at(s.drop_first(), m - 1);
    }
}

/// The whitespace-separated tokens of a line, in order, with no empty
/// tokens.
pub open spec fn tokens(s: Seq<char>) -> Seq<Seq<char>>
    decreases s.len(),
    via tokens_decreases
{
    if s.len() == 0 {
        Seq::empty()
    } else if is_space(s[0]) {
        tokens(s.drop_first())
    } else {
        seq![s.take(token_len(s) as int)] + tokens(s.skip(token_len(s) as int))
    }
}

#[via_fn]
proof fn tokens_decreases(s: Seq<char>) {
    if s.len() > 0 && !is_space(s[0]) {
        assert(token_len(s) == 1 + token_len(s.drop_first()));
        lemma_token_len_bound(s);
    }
}

/// What follows the first token of a line: the line after its leading
/// whitespace and first non-whitespace run, untrimmed.
pub open spec fn rest_after_cmd(s: Seq<char>) -> Seq<char>
    decreases s.len(),
{
    if s.len() == 0 {
        s
    } else if is_space(s[0]) {
        rest_after_cmd(s.drop_first())
    } else {
        s.skip(token_len(s) as int)
    }
}

proof fn lemma_skip_leading_spaces(s: Seq<char>, i: int)
    requires
        0 <= i <= s.len(),
        forall|k: int| 0 <= k < i ==> is_space(s[k]),
    ensures
        tokens(s) == tokens(s.skip(i)),
        rest_after_cmd(s) == rest_after_cmd(s.skip(i)),
    decreases i,
{
    if i == 0 {
        assert(s.skip(0) =~= s);
    } else {
        lemma_skip_leading_spaces(s.drop_first(), i - 1);
        assert(s.drop_first().skip(i - 1) =~= s.skip(i));
    }
}

/// Finds the first token of `s`: `i` is the end of the leading whitespace,
/// `j` the end of the token (`i == j == s@.len()` when there is none).
pub fn first_token_bounds(s: &str) -> (r: (usize, usize))
    ensures
        0 <= r.0 <= r.1 <= s@.len(),
        r.0 == s@.len() ==> r.1 == s@.len() && tokens(s@) == Seq::<Seq<char>>::empty()
            && rest_after_cmd(s@) == s@.skip(r.1 as int),
        r.0 < s@.len() ==> r.0 < r.1 && tokens(s@) == seq![s@.subrange(r.0 as int, r.1 as int)]
            + tokens(s@.skip(r.1 as int)) && rest_after_cmd(s@) == s@.skip(r.1 as int),
{
    let len = s.unicode_len();
    let mut i: usize = 0;
    while i < len && space_char(s.get_char(i))
        invariant
            0 <= i <= len,
            len == s@.len(),
            forall|k: int| 0 <= k < i ==> is_space(s@[k]),
        decreases len - i,
    {
        i += 1;
    }
    proof {
        lemma_skip_leading_spaces(s@, i as int);
    }
    if i == len {
        proof {
            assert(s@.skip(len as int) =~= Seq::<char>::empty());
        }
        (len, len)
    } else {
        let mut j: usize = i;
        while j < len && !space_char(s.get_char(j))
            invariant
                i <= j <= len,
                len == s@.len(),
                forall|k: int| i <= k < j ==> !is_space(s@[k]),
            decreases len - j,
        {
            j += 1;
        }
        proof {
            let t = s@.skip(i as int);
            assert(forall|k: int| 0 <= k < j - i ==> !is_space(t[k]));
            lemma_token_len_at(t, j - i);
            assert(!is_space(t[0]));
            assert(t.take(j - i) =~= s@.subrange(i as int, j as int));
            assert(t.skip(j - i) =~= s@.skip(j as int));
        }
        (i, j)
    }
}

/// Splits a line into its whitespace-separated tokens.
pub fn tokenize(s: &str) -> (v: Vec<String>)
    ensures
        v@.map_values(|t: String| t@) == tokens(s@),
{
    let len = s.unicode_len();
    let mut v: Vec<String> = Vec::new();
    let mut pos: usize = 0;
    proof {
        assert(s@.skip(0) =~= s@);
        assert(v@.map_values(|t: String| t@) + tokens(s@) =~= tokens(s@));
    }
    while pos < len
        invariant
            0 <= pos <= len,
            len == s@.len(),
            tokens(s@) == v@.map_values(|t: String| t@) + tokens(s@.skip(pos as int)),
        decreases len - pos,
    {
        let suffix = s.substring_char(pos, len);
        proof {
            assert(suffix@ =~= s@.skip(pos as int));
        }
        let (i, j) = first_token_bounds(suffix);
        if i == len - pos {
            proof {
                assert(v@.map_values(|t: String| t@) + tokens(s@.skip(pos as int)) =~= v@
                    .map_values(|t: String| t@));
            }
            pos = len;
            proof {
                assert(tokens(s@.skip(pos as int)) =~= Seq::<Seq<char>>::empty());
            }
        } else {
            let tok = String::from_str(suffix.substring_char(i, j));
            let ghost old_map = v@.map_values(|t: String| t@);
            v.push(tok);
            proof {
                assert(v@.map_values(|t: String| t@) =~= old_map + seq![tok@]);
                assert(suffix@.skip(j as int) =~= s@.skip(pos + j));
                assert(old_map + (seq![suffix@.subrange(i as int, j as int)] + tokens(
                    s@.skip(pos + j),
                )) =~= (old_map + seq![tok@]) + tokens(s@.skip(pos + j)));
            }
            pos = pos + j;
        }
    }
    proof {
        assert(s@.skip(len as int) =~= Seq::<char>::empty());
        assert(v@.map_values(|t: String| t@) + tokens(s@.skip(len as int)) =~= v@.map_values(
            |t: String| t@,
        ));
    }
    v
}

/// Compares two strings character by character.
pub fn str_eq(a: &str, b: &str) -> (r: bool)
    ensures
        r == (a@ == b@),
{
    let alen = a.unicode_len();
    let blen = b.unicode_len();
    if alen != blen {
        return false;
    }
    let mut i: usize = 0;
    while i < alen
        invariant
            0 <= i <= alen,
            alen == a@.len(),
            alen == b@.len(),
            forall|k: int| 0 <= k < i ==> a@[k] == b@[k],
        decreases alen - i,
    {
        if a.get_char(i) != b.get_char(i) {
            return false;
        }
        i += 1;
    }
    proof {
        assert(a@ =~= b@);
    }
    true
}

/// The character for one decimal digit.
pub open spec fn digit_char(d: int) -> char {
    if d == 0 { '0' }
    else if d == 1 { '1' }
    else if d == 2 { '2' }
    else if d == 3 { '3' }
    else if d == 4 { '4' }
    else if d == 5 { '5' }
    else if d == 6 { '6' }
    else if d == 7 { '7' }
    else if d == 8 { '8' }
    else { '9' }
}

/// Executable form of [`digit_char`].
pub fn digit_char_x(d: u64) -> (c: char)
    requires
        d < 10,
    ensures
        c == digit_char(d as int),
{
    if d == 0 { '0' }
    else if d == 1 { '1' }
    else if d == 2 { '2' }
    else if d == 3 { '3' }
    else if d == 4 { '4' }
    else if d == 5 { '5' }
    else if d == 6 { '6' }
    else if d == 7 { '7' }
    else if d == 8 { '8' }
    else { '9' }
}

/// The decimal rendering of a number, without leading zeros (`0` renders
/// as `"0"`).
pub open spec fn dec_spec(n: int) -> Seq<char>
    decreases n,
{
    if n < 10 {
        seq![digit_char(n)]
    } else {
        dec_spec(n / 10).push(digit_char(n % 10))
    }
}

/// Relies on `String::push`: appends the given character to the end of the
/// string.
#[verifier::external_body]
pub(crate) fn push_char(s: &mut String, c: char)
    ensures
        final(s)@ == old(s)@.push(c),
{
    s.push(c);
}

/// Renders a number in decimal.
pub fn u64_to_string(n: u64) -> (r: String)
    ensures
        r@ == dec_spec(n as int),
{
    let mut digits: Vec<char> = Vec::new();
    let mut m: u64 = n;
    loop
        invariant_except_break
            dec_spec(n as int) == dec_spec(m as int) + digits@.reverse(),
        invariant
            dec_spec(n as int).len() >= digits@.len(),
        ensures
            dec_spec(n as int) == digits@.reverse(),
        decreases m,
    {
        let d = m % 10;
        let ghost old_digits = digits@;
        digits.push(digit_char_x(d));
        proof {
            assert(digits@.reverse() =~= seq![digit_char(d as int)] + old_digits.reverse());
            if m >= 10 {
                assert(dec_spec(m as int) == dec_spec(m as int / 10).push(digit_char(
                    m as int % 10,
                )));
                assert(dec_spec(m as int / 10) + (seq![digit_char(d as int)]
                    + old_digits.reverse()) =~= dec_spec(m as int) + old_digits.reverse());
            } else {
                assert(dec_spec(m as int) =~= seq![digit_char(d as int)]);
                assert(Seq::<char>::empty() + digits@.reverse() =~= digits@.reverse());
            }
        }
        if m < 10 {
            break;
        }
        m = m / 10;
        proof {
            assert(dec_spec(n as int) =~= dec_spec(m as int) + digits@.reverse());
        }
    }
    let mut r = String::new();
    let count = digits.len();
    let mut k: usize = count;
    while k > 0
        invariant
            0 <= k <= count,
            count == digits@.len(),
            r@.len() == count - k,
            forall|idx: int| 0 <= idx < r@.len() ==> r@[idx] == digits@[count - 1 - idx],
        decreases k,
    {
        push_char(&mut r, digits[k - 1]);
        k -= 1;
    }
    proof {
        assert(r@ =~= digits@.reverse());
    }
    r
}

} // verus!
