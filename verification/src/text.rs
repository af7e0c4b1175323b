//! Character-level text utilities shared by the parsers: whitespace,
//! trimming, searching, tokenizing and decimal integer parsing.
//!
//! Everything here works on characters (`Seq<char>` in specifications,
//! `&[char]` in code); positions are character positions.
use vstd::prelude::*;

verus! {

broadcast use vstd::string::group_string_axioms;

// ---------------------------------------------------------------------------
// Specifications
// ---------------------------------------------------------------------------

/// Unicode `White_Space` property, the set of characters that
/// `char::is_whitespace` accepts.
pub open spec fn is_ws(c: char) -> bool {
    let u = c as u32;
    ||| (0x9 <= u && u <= 0xD)
    ||| u == 0x20
    ||| u == 0x85
    ||| u == 0xA0
    ||| u == 0x1680
    ||| (0x2000 <= u && u <= 0x200A)
    ||| u == 0x2028
    ||| u == 0x2029
    ||| u == 0x202F
    ||| u == 0x205F
    ||| u == 0x3000
}

/// ASCII decimal digit.
pub open spec fn is_digit(c: char) -> bool {
    '0' <= c && c <= '9'
}

/// Numeric value of an ASCII digit.
pub open spec fn digit_value(c: char) -> int {
    (c as u32) - ('0' as u32)
}

/// Removes leading whitespace.
pub open spec fn trim_start(s: Seq<char>) -> Seq<char>
    decreases s.len(),
{
    if s.len() > 0 && is_ws(s[0]) {
        trim_start(s.drop_first())
    } else {
        s
    }
}

/// Removes trailing whitespace.
pub open spec fn trim_end(s: Seq<char>) -> Seq<char>
    decreases s.len(),
{
    if s.len() > 0 && is_ws(s.last()) {
        trim_end(s.drop_last())
    } else {
        s
    }
}

/// Removes leading and trailing whitespace.
pub open spec fn trim(s: Seq<char>) -> Seq<char> {
    trim_end(trim_start(s))
}

/// `pat` occurs in `s` at position `i`.
pub open spec fn matches_at(s: Seq<char>, pat: Seq<char>, i: int) -> bool {
    0 <= i && i + pat.len() <= s.len() && s.subrange(i, i + pat.len()) == pat
}

/// First occurrence of `pat` in `s` at or after position `i`.
pub open spec fn find_from(s: Seq<char>, pat: Seq<char>, i: int) -> Option<int>
    decreases s.len() + 1 - i,
{
    if i < 0 || i + pat.len() > s.len() {
        None
    } else if matches_at(s, pat, i) {
        Some(i)
    } else {
        find_from(s, pat, i + 1)
    }
}

/// First occurrence of `pat` in `s`.
pub open spec fn find(s: Seq<char>, pat: Seq<char>) -> Option<int> {
    find_from(s, pat, 0)
}

/// Last occurrence of `pat` in `s` at or before position `i`.
pub open spec fn rfind_from(s: Seq<char>, pat: Seq<char>, i: int) -> Option<int>
    decreases i + 1,
{
    if i < 0 {
        None
    } else if matches_at(s, pat, i) {
        Some(i)
    } else {
        rfind_from(s, pat, i - 1)
    }
}

/// Last occurrence of `pat` in `s`.
pub open spec fn rfind(s: Seq<char>, pat: Seq<char>) -> Option<int> {
    rfind_from(s, pat, s.len() - pat.len())
}

/// `pat` occurs somewhere in `s`.
pub open spec fn contains(s: Seq<char>, pat: Seq<char>) -> bool {
    find(s, pat) is Some
}

/// `s` begins with `p`.
pub open spec fn starts_with(s: Seq<char>, p: Seq<char>) -> bool {
    p.len() <= s.len() && s.take(p.len() as int) == p
}

/// `s` ends with `p`.
pub open spec fn ends_with(s: Seq<char>, p: Seq<char>) -> bool {
    p.len() <= s.len() && s.skip(s.len() - p.len()) == p
}

/// Number of leading characters of `s` that are not whitespace.
pub open spec fn word_len(s: Seq<char>) -> nat
    decreases s.len(),
{
    if s.len() > 0 && !is_ws(s[0]) {
        1 + word_len(s.drop_first())
    } else {
        0
    }
}

/// The next whitespace-separated token of `s` and the text after it,
/// as `split_whitespace` hands them out one at a time.
pub open spec fn next_token(s: Seq<char>) -> Option<(Seq<char>, Seq<char>)> {
    let t = trim_start(s);
    if t.len() == 0 {
        None
    } else {
        Some((t.take(word_len(t) as int), t.skip(word_len(t) as int)))
    }
}

/// The first whitespace-separated token of `s`, if any.
pub open spec fn first_token(s: Seq<char>) -> Option<Seq<char>> {
    match next_token(s) {
        Some((tok, _)) => Some(tok),
        None => None,
    }
}

/// The second whitespace-separated token of `s`, if any.
pub open spec fn second_token(s: Seq<char>) -> Option<Seq<char>> {
    match next_token(s) {
        Some((_, rest)) => first_token(rest),
        None => None,
    }
}

/// All characters are ASCII digits.
pub open spec fn all_digits(s: Seq<char>) -> bool {
    forall|i: int| 0 <= i < s.len() ==> is_digit(#[trigger] s[i])
}

/// Decimal value of a digit string.
pub open spec fn decimal_value(s: Seq<char>) -> int
    decreases s.len(),
{
    if s.len() == 0 {
        0
    } else {
        decimal_value(s.drop_last()) * 10 + digit_value(s.last())
    }
}

/// Parse of an unsigned decimal integer not exceeding `max`, as the
/// standard library's `FromStr` for unsigned integer types does it:
/// an optional `+` followed by one or more digits.
pub open spec fn parse_unsigned(s: Seq<char>, max: int) -> Option<int> {
    let d = if s.len() > 0 && s[0] == '+' {
        s.drop_first()
    } else {
        s
    };
    if d.len() > 0 && all_digits(d) && decimal_value(d) <= max {
        Some(decimal_value(d))
    } else {
        None
    }
}

/// Parse of a decimal `i32` as `FromStr` for `i32` does it: an optional
/// sign followed by one or more digits, within the range of `i32`.
pub open spec fn parse_i32_spec(s: Seq<char>) -> Option<int> {
    if s.len() > 0 && s[0] == '-' {
        let d = s.drop_first();
        if d.len() > 0 && all_digits(d) && decimal_value(d) <= 0x8000_0000 {
            Some(-decimal_value(d))
        } else {
            None
        }
    } else {
        parse_unsigned(s, 0x7fff_ffff)
    }
}

/// Parse of a `u64` as `FromStr` for `u64` does it.
pub open spec fn parse_u64_spec(s: Seq<char>) -> Option<u64> {
    match parse_unsigned(s, u64::MAX as int) {
        Some(v) => Some(v as u64),
        None => None,
    }
}

/// Parse of a `u32` as `FromStr` for `u32` does it.
pub open spec fn parse_u32_spec(s: Seq<char>) -> Option<u32> {
    match parse_unsigned(s, u32::MAX as int) {
        Some(v) => Some(v as u32),
        None => None,
    }
}

/// View of an optional string.
pub open spec fn opt_view(o: Option<String>) -> Option<Seq<char>> {
    match o {
        Some(s) => Some(s@),
        None => None,
    }
}

/// Contents of a sequence of character vectors.
pub open spec fn views(v: Seq<Vec<char>>) -> Seq<Seq<char>> {
    v.map_values(|x: Vec<char>| x@)
}

/// The pieces of `s` between occurrences of `sep`, as `str::split` with a
/// character pattern yields them (always at least one piece).
pub open spec fn split_on(s: Seq<char>, sep: char) -> Seq<Seq<char>>
    decreases s.len(),
{
    match find(s, seq![sep]) {
        None => seq![s],
        Some(k) => {
            proof {
                lemma_find_in_bounds(s, seq![sep], k);
            }
            seq![s.take(k)] + split_on(s.skip(k + 1), sep)
        },
    }
}

/// A line without the carriage return of a `\r\n` ending.
pub open spec fn strip_cr(l: Seq<char>) -> Seq<char> {
    if l.len() > 0 && l.last() == '\r' {
        l.drop_last()
    } else {
        l
    }
}

/// The lines of `s`, as `str::lines` yields them: split at `\n`, a `\r`
/// before the `\n` removed, and no empty line after a final `\n`.
pub open spec fn lines_spec(s: Seq<char>) -> Seq<Seq<char>> {
    let p = split_on(s, '\n');
    let n = p.len() - 1;
    let body = p.take(n).map_values(|l: Seq<char>| strip_cr(l));
    if p[n].len() == 0 {
        body
    } else {
        body.push(p[n])
    }
}

/// `s` with every leading repetition of `p` removed, as
/// `str::trim_start_matches` does with a non-empty string pattern.
pub open spec fn strip_all_prefix(s: Seq<char>, p: Seq<char>) -> Seq<char>
    decreases s.len(),
{
    if p.len() > 0 && starts_with(s, p) {
        strip_all_prefix(s.skip(p.len() as int), p)
    } else {
        s
    }
}

/// `s` with every trailing repetition of `p` removed, as
/// `str::trim_end_matches` does with a non-empty string pattern.
pub open spec fn strip_all_suffix(s: Seq<char>, p: Seq<char>) -> Seq<char>
    decreases s.len(),
{
    if p.len() > 0 && ends_with(s, p) {
        strip_all_suffix(s.take(s.len() - p.len()), p)
    } else {
        s
    }
}


/// The ASCII digit for `d` in `0..10`.
pub open spec fn digit_char(d: int) -> char {
    (48 + d) as char
}

/// Decimal representation of `n`, as `format!("{}")` writes an unsigned
/// integer: no sign, no leading zeros, `0` for zero.
pub open spec fn decimal_digits(n: nat) -> Seq<char>
    decreases n,
{
    if n < 10 {
        seq![digit_char(n as int)]
    } else {
        decimal_digits(n / 10).push(digit_char((n % 10) as int))
    }
}

// ---------------------------------------------------------------------------
// Lemmas
// ---------------------------------------------------------------------------

/// Dropping a whitespace character from the front of the window
/// `s[lo..hi]` does not change its leading-trim.
proof fn lemma_trim_start_step(s: Seq<char>, lo: int, hi: int)
    requires
        0 <= lo < hi <= s.len(),
        is_ws(s[lo]),
    ensures
        trim_start(s.subrange(lo, hi)) == trim_start(s.subrange(lo + 1, hi)),
{
    assert(s.subrange(lo, hi).drop_first() =~= s.subrange(lo + 1, hi));
}

proof fn lemma_trim_end_step(s: Seq<char>, lo: int, hi: int)
    requires
        0 <= lo < hi <= s.len(),
        is_ws(s[hi - 1]),
    ensures
        trim_end(s.subrange(lo, hi)) == trim_end(s.subrange(lo, hi - 1)),
{
    assert(s.subrange(lo, hi).drop_last() =~= s.subrange(lo, hi - 1));
}

/// The result of `trim_start` begins with a non-whitespace character or is empty.
pub proof fn lemma_trim_start_shape(s: Seq<char>)
    ensures
        trim_start(s).len() <= s.len(),
        trim_start(s) == s.skip(s.len() - trim_start(s).len()),
        trim_start(s).len() > 0 ==> !is_ws(trim_start(s)[0]),
    decreases s.len(),
{
    if s.len() > 0 && is_ws(s[0]) {
        lemma_trim_start_shape(s.drop_first());
        assert(s.drop_first().skip(s.drop_first().len() - trim_start(s).len()) =~= s.skip(
            s.len() - trim_start(s).len(),
        ));
    } else {
        assert(s.skip(0) =~= s);
    }
}

/// The token that `next_token` splits off is not empty, and what remains
/// is shorter than the text.
pub proof fn lemma_next_token_shorter(s: Seq<char>)
    ensures
        next_token(s) matches Some((t, rest)) ==> t.len() > 0 && rest.len() < s.len(),
{
    lemma_trim_start_shape(s);
    let t = trim_start(s);
    lemma_word_len_bound(t);
    if t.len() > 0 {
        assert(word_len(t) == 1 + word_len(t.drop_first()));
    }
}

proof fn lemma_word_len_bound(s: Seq<char>)
    ensures
        word_len(s) <= s.len(),
        forall|i: int| 0 <= i < word_len(s) ==> !is_ws(#[trigger] s[i]),
        word_len(s) < s.len() ==> is_ws(s[word_len(s) as int]),
    decreases s.len(),
{
    if s.len() > 0 && !is_ws(s[0]) {
        lemma_word_len_bound(s.drop_first());
        assert forall|i: int| 0 <= i < word_len(s) implies !is_ws(#[trigger] s[i]) by {
            if i > 0 {
                assert(s[i] == s.drop_first()[i - 1]);
            }
        }
    }
}

/// `find` reports the first position at which `pat` occurs.
pub proof fn lemma_find_is_first(s: Seq<char>, pat: Seq<char>, i: int)
    requires
        0 <= i,
    ensures
        find_from(s, pat, i) matches Some(k) ==> i <= k && matches_at(s, pat, k) && forall|j: int|
            i <= j < k ==> !matches_at(s, pat, j),
        find_from(s, pat, i) is None ==> forall|j: int| i <= j ==> !matches_at(s, pat, j),
    decreases s.len() + 1 - i,
{
    if i + pat.len() > s.len() {
    } else if matches_at(s, pat, i) {
    } else {
        lemma_find_is_first(s, pat, i + 1);
    }
}

/// Value of a digit string extended by one digit.
proof fn lemma_decimal_push(s: Seq<char>, c: char)
    ensures
        decimal_value(s.push(c)) == decimal_value(s) * 10 + digit_value(c),
{
    assert(s.push(c).drop_last() =~= s);
}

proof fn lemma_decimal_nonneg(s: Seq<char>)
    requires
        all_digits(s),
    ensures
        decimal_value(s) >= 0,
    decreases s.len(),
{
    if s.len() > 0 {
        assert(all_digits(s.drop_last())) by {
            assert forall|i: int| 0 <= i < s.drop_last().len() implies is_digit(
                #[trigger] s.drop_last()[i],
            ) by {
                assert(s.drop_last()[i] == s[i]);
            }
        }
        lemma_decimal_nonneg(s.drop_last());
        assert(is_digit(s[s.len() - 1]));
    }
}

/// Bounds of a position that `find` reports.
pub proof fn lemma_find_in_bounds(s: Seq<char>, pat: Seq<char>, p: int)
    requires
        find(s, pat) == Some(p),
    ensures
        0 <= p,
        p + pat.len() <= s.len(),
{
    lemma_find_is_first(s, pat, 0);
}

/// Bounds of a position that `rfind` reports.
pub proof fn lemma_rfind_in_bounds(s: Seq<char>, pat: Seq<char>, p: int)
    requires
        rfind(s, pat) == Some(p),
    ensures
        0 <= p,
        p + pat.len() <= s.len(),
{
    lemma_rfind_from_in_bounds(s, pat, s.len() - pat.len());
}

proof fn lemma_rfind_from_in_bounds(s: Seq<char>, pat: Seq<char>, i: int)
    ensures
        rfind_from(s, pat, i) matches Some(p) ==> 0 <= p && p + pat.len() <= s.len(),
    decreases i + 1,
{
    if i >= 0 && !matches_at(s, pat, i) {
        lemma_rfind_from_in_bounds(s, pat, i - 1);
    }
}

// ---------------------------------------------------------------------------
// Standard-library calls that vstd does not specify
// ---------------------------------------------------------------------------

/// `String::push`: appends the character `c` to the end of `s`
/// (as the standard library documents it).
#[verifier::external_body]
pub(crate) fn push_char(s: &mut String, c: char)
    ensures
        final(s)@ == old(s)@.push(c),
{
    s.push(c);
}

/// Name for the Unicode uppercase mapping of a string, as `str::to_uppercase`
/// computes it.
pub uninterp spec fn uppercase_of(s: Seq<char>) -> Seq<char>;

/// Name for the Unicode lowercase mapping of a string, as `str::to_lowercase`
/// computes it.
pub uninterp spec fn lowercase_of(s: Seq<char>) -> Seq<char>;

/// `str::to_uppercase`. Its result is the Unicode uppercase mapping of `s`,
/// a function of `s` alone; the mapping itself is named (`uppercase_of`),
/// not stated.
#[verifier::external_body]
pub(crate) fn to_uppercase(s: &str) -> (r: String)
    ensures
        r@ == uppercase_of(s@),
{
    s.to_uppercase()
}

/// `str::to_lowercase`. Its result is the Unicode lowercase mapping of `s`,
/// a function of `s` alone; the mapping itself is named (`lowercase_of`),
/// not stated.
#[verifier::external_body]
pub(crate) fn to_lowercase(s: &str) -> (r: String)
    ensures
        r@ == lowercase_of(s@),
{
    s.to_lowercase()
}

// ---------------------------------------------------------------------------
// Executable functions
// ---------------------------------------------------------------------------

/// Collects the characters of `s` into a vector.
pub fn chars_of(s: &str) -> (v: Vec<char>)
    ensures
        v@ == s@,
{
    let mut v: Vec<char> = Vec::new();
    for c in it: s.chars()
        invariant
            v.len() == it.index(),
            it.seq() == s@,
            v@ == s@.take(it.index() as int),
    {
        v.push(c);
    }
    v
}

/// Builds a string from characters.
pub fn string_from_chars(v: &[char]) -> (s: String)
    ensures
        s@ == v@,
{
    let mut s = String::new();
    let mut i: usize = 0;
    while i < v.len()
        invariant
            i <= v.len(),
            s@ == v@.take(i as int),
        decreases v.len() - i,
    {
        push_char(&mut s, v[i]);
        assert(v@.take(i as int).push(v@[i as int]) =~= v@.take(i + 1));
        i += 1;
    }
    assert(v@.take(v.len() as int) =~= v@);
    s
}

/// Copies `s[lo..hi]`.
pub fn subvec(s: &[char], lo: usize, hi: usize) -> (v: Vec<char>)
    requires
        lo <= hi <= s.len(),
    ensures
        v@ == s@.subrange(lo as int, hi as int),
{
    let mut v: Vec<char> = Vec::new();
    let mut i = lo;
    while i < hi
        invariant
            lo <= i <= hi <= s.len(),
            v@ == s@.subrange(lo as int, i as int),
        decreases hi - i,
    {
        v.push(s[i]);
        assert(s@.subrange(lo as int, i as int).push(s@[i as int]) =~= s@.subrange(
            lo as int,
            i + 1,
        ));
        i += 1;
    }
    v
}

/// The `String` holding `s[lo..hi]`.
pub fn substring(s: &[char], lo: usize, hi: usize) -> (r: String)
    requires
        lo <= hi <= s.len(),
    ensures
        r@ == s@.subrange(lo as int, hi as int),
{
    let v = subvec(s, lo, hi);
    string_from_chars(v.as_slice())
}

/// Unicode whitespace test, as `char::is_whitespace`.
pub fn is_whitespace(c: char) -> (b: bool)
    ensures
        b == is_ws(c),
{
    let u = c as u32;
    (0x9 <= u && u <= 0xD) || u == 0x20 || u == 0x85 || u == 0xA0 || u == 0x1680 || (0x2000 <= u
        && u <= 0x200A) || u == 0x2028 || u == 0x2029 || u == 0x202F || u == 0x205F || u == 0x3000
}

/// ASCII digit test.
pub fn is_ascii_digit(c: char) -> (b: bool)
    ensures
        b == is_digit(c),
{
    '0' <= c && c <= '9'
}

/// Bounds `[lo, hi)` of the trimmed window `s[from..to]`.
pub fn trim_bounds(s: &[char], from: usize, to: usize) -> (r: (usize, usize))
    requires
        from <= to <= s.len(),
    ensures
        from <= r.0 <= r.1 <= to,
        s@.subrange(r.0 as int, r.1 as int) == trim(s@.subrange(from as int, to as int)),
{
    let mut lo = from;
    while lo < to && is_whitespace(s[lo])
        invariant
            from <= lo <= to <= s.len(),
            trim_start(s@.subrange(from as int, to as int)) == trim_start(
                s@.subrange(lo as int, to as int),
            ),
        decreases to - lo,
    {
        proof {
            lemma_trim_start_step(s@, lo as int, to as int);
        }
        lo += 1;
    }
    assert(trim_start(s@.subrange(lo as int, to as int)) == s@.subrange(lo as int, to as int));
    let mut hi = to;
    while hi > lo && is_whitespace(s[hi - 1])
        invariant
            from <= lo <= hi <= to <= s.len(),
            trim_end(s@.subrange(lo as int, to as int)) == trim_end(
                s@.subrange(lo as int, hi as int),
            ),
        decreases hi - lo,
    {
        proof {
            lemma_trim_end_step(s@, lo as int, hi as int);
        }
        hi -= 1;
    }
    assert(trim_end(s@.subrange(lo as int, hi as int)) == s@.subrange(lo as int, hi as int));
    (lo, hi)
}

/// Leading and trailing whitespace removed.
pub fn trim_chars(s: &[char]) -> (t: Vec<char>)
    ensures
        t@ == trim(s@),
{
    let (lo, hi) = trim_bounds(s, 0, s.len());
    assert(s@.subrange(0, s@.len() as int) =~= s@);
    subvec(s, lo, hi)
}

/// Whether `pat` occurs in `s` at position `i`.
pub fn matches_at_exec(s: &[char], pat: &[char], i: usize) -> (b: bool)
    ensures
        b == matches_at(s@, pat@, i as int),
{
    if i > s.len() || pat.len() > s.len() - i {
        return false;
    }
    let mut k: usize = 0;
    while k < pat.len()
        invariant
            i + pat.len() <= s.len(),
            k <= pat.len(),
            forall|j: int| 0 <= j < k ==> s@[i + j] == pat@[j],
        decreases pat.len() - k,
    {
        if s[i + k] != pat[k] {
            assert(s@.subrange(i as int, i + pat.len())[k as int] != pat@[k as int]);
            return false;
        }
        k += 1;
    }
    assert(s@.subrange(i as int, i + pat.len()) =~= pat@);
    true
}

/// First occurrence of `pat` in `s`, at or after `from`.
pub fn find_from_exec(s: &[char], pat: &[char], from: usize) -> (r: Option<usize>)
    ensures
        r matches Some(i) ==> find_from(s@, pat@, from as int) == Some(i as int),
        r is None ==> find_from(s@, pat@, from as int) is None,
{
    if pat.len() > s.len() || from > s.len() - pat.len() {
        return None;
    }
    let last = s.len() - pat.len();
    let mut i = from;
    loop
        invariant
            pat.len() <= s.len(),
            last == s.len() - pat.len(),
            from <= i <= last,
            find_from(s@, pat@, from as int) == find_from(s@, pat@, i as int),
        decreases last - i,
    {
        if matches_at_exec(s, pat, i) {
            return Some(i);
        }
        if i == last {
            assert(find_from(s@, pat@, i + 1) is None);
            return None;
        }
        i += 1;
    }
}

/// First occurrence of `pat` in `s`.
pub fn find_exec(s: &[char], pat: &[char]) -> (r: Option<usize>)
    ensures
        r matches Some(i) ==> find(s@, pat@) == Some(i as int),
        r is None ==> find(s@, pat@) is None,
{
    find_from_exec(s, pat, 0)
}

/// Whether `pat` occurs in `s`.
pub fn contains_exec(s: &[char], pat: &[char]) -> (b: bool)
    ensures
        b == contains(s@, pat@),
{
    find_exec(s, pat).is_some()
}

/// Last occurrence of `pat` in `s`.
pub fn rfind_exec(s: &[char], pat: &[char]) -> (r: Option<usize>)
    ensures
        r matches Some(i) ==> rfind(s@, pat@) == Some(i as int),
        r is None ==> rfind(s@, pat@) is None,
{
    if pat.len() > s.len() {
        return None;
    }
    let mut i = s.len() - pat.len();
    loop
        invariant
            pat.len() <= s.len(),
            i <= s.len() - pat.len(),
            rfind(s@, pat@) == rfind_from(s@, pat@, i as int),
        decreases i,
    {
        if matches_at_exec(s, pat, i) {
            return Some(i);
        }
        if i == 0 {
            assert(rfind_from(s@, pat@, -1) is None);
            return None;
        }
        i -= 1;
    }
}

/// Whether `s` begins with `p`.
pub fn starts_with_exec(s: &[char], p: &[char]) -> (b: bool)
    ensures
        b == starts_with(s@, p@),
{
    let b = matches_at_exec(s, p, 0);
    proof {
        if p@.len() <= s@.len() {
            assert(s@.subrange(0, p@.len() as int) =~= s@.take(p@.len() as int));
        }
    }
    b
}

/// Whether `s` ends with `p`.
pub fn ends_with_exec(s: &[char], p: &[char]) -> (b: bool)
    ensures
        b == ends_with(s@, p@),
{
    if p.len() > s.len() {
        return false;
    }
    let b = matches_at_exec(s, p, s.len() - p.len());
    assert(s@.subrange(s.len() - p.len(), s.len() as int) =~= s@.skip(s.len() - p.len()));
    b
}

/// Bounds `[lo, hi)` of the next whitespace-separated token in `s[from..]`.
pub fn next_token_bounds(s: &[char], from: usize) -> (r: Option<(usize, usize)>)
    requires
        from <= s.len(),
    ensures
        match r {
            Some((lo, hi)) => {
                &&& from <= lo < hi <= s.len()
                &&& next_token(s@.skip(from as int)) == Some(
                    (s@.subrange(lo as int, hi as int), s@.skip(hi as int)),
                )
            },
            None => next_token(s@.skip(from as int)) is None,
        },
{
    let mut lo = from;
    while lo < s.len() && is_whitespace(s[lo])
        invariant
            from <= lo <= s.len(),
            trim_start(s@.skip(from as int)) == trim_start(s@.skip(lo as int)),
        decreases s.len() - lo,
    {
        assert(s@.skip(lo as int).drop_first() =~= s@.skip(lo + 1));
        lo += 1;
    }
    assert(trim_start(s@.skip(lo as int)) == s@.skip(lo as int));
    if lo == s.len() {
        return None;
    }
    let mut hi = lo;
    while hi < s.len() && !is_whitespace(s[hi])
        invariant
            lo <= hi <= s.len(),
            word_len(s@.skip(lo as int)) == (hi - lo) + word_len(s@.skip(hi as int)),
        decreases s.len() - hi,
    {
        assert(s@.skip(hi as int).drop_first() =~= s@.skip(hi + 1));
        hi += 1;
    }
    assert(word_len(s@.skip(hi as int)) == 0);
    let ghost t = s@.skip(lo as int);
    assert(t.take(word_len(t) as int) =~= s@.subrange(lo as int, hi as int));
    assert(t.skip(word_len(t) as int) =~= s@.skip(hi as int));
    Some((lo, hi))
}

/// Parses an unsigned decimal integer not exceeding `max`.
pub fn parse_unsigned_exec(s: &[char], max: u64) -> (r: Option<u64>)
    ensures
        r matches Some(v) ==> parse_unsigned(s@, max as int) == Some(v as int),
        r is None ==> parse_unsigned(s@, max as int) is None,
{
    let start: usize = if s.len() > 0 && s[0] == '+' {
        1
    } else {
        0
    };
    let ghost d = if s@.len() > 0 && s@[0] == '+' {
        s@.drop_first()
    } else {
        s@
    };
    assert(d =~= s@.skip(start as int));
    if start == s.len() {
        assert(d.len() == 0);
        return None;
    }
    let mut val: u64 = 0;
    let mut over = false;
    let mut i = start;
    while i < s.len()
        invariant
            start <= i <= s.len(),
            d == s@.skip(start as int),
            d == (if s@.len() > 0 && s@[0] == '+' {
                s@.drop_first()
            } else {
                s@
            }),
            all_digits(s@.subrange(start as int, i as int)),
            !over ==> val as int == decimal_value(s@.subrange(start as int, i as int)),
            !over ==> val <= max,
            over ==> decimal_value(s@.subrange(start as int, i as int)) > max,
        decreases s.len() - i,
    {
        let c = s[i];
        let ghost prev = s@.subrange(start as int, i as int);
        assert(s@.subrange(start as int, i + 1) =~= prev.push(c));
        if !is_ascii_digit(c) {
            assert(!all_digits(d)) by {
                assert(d[i - start] == c);
                assert(!is_digit(d[i - start]));
            }
            return None;
        }
        proof {
            lemma_decimal_push(prev, c);
            lemma_decimal_nonneg(prev);
        }
        let dv = (c as u32 - '0' as u32) as u64;
        if !over {
            if dv > max || val > (max - dv) / 10 {
                over = true;
                assert(val * 10 + dv > max) by (nonlinear_arith)
                    requires
                        dv > max || val > (max - dv) / 10,
                        dv <= 9,
                ;
            } else {
                assert(val * 10 + dv <= max) by (nonlinear_arith)
                    requires
                        dv <= max,
                        val <= (max - dv) / 10,
                        dv <= 9,
                ;
                val = val * 10 + dv;
            }
        }
        i += 1;
    }
    assert(s@.subrange(start as int, s.len() as int) =~= d);
    if over {
        None
    } else {
        Some(val)
    }
}

/// Parses a `u64` from `s` with surrounding whitespace removed.
pub fn parse_u64_trimmed(s: &[char]) -> (r: Option<u64>)
    ensures
        r == parse_u64_spec(trim(s@)),
{
    let t = trim_chars(s);
    parse_unsigned_exec(t.as_slice(), u64::MAX)
}

/// Parses a `u32` from `s` with surrounding whitespace removed.
pub fn parse_u32_trimmed(s: &[char]) -> (r: Option<u32>)
    ensures
        r == parse_u32_spec(trim(s@)),
{
    let t = trim_chars(s);
    match parse_unsigned_exec(t.as_slice(), u32::MAX as u64) {
        Some(v) => Some(v as u32),
        None => None,
    }
}

/// `s[from..]` as a vector.
pub fn tail_of(s: &[char], from: usize) -> (v: Vec<char>)
    requires
        from <= s.len(),
    ensures
        v@ == s@.skip(from as int),
{
    let v = subvec(s, from, s.len());
    assert(v@ =~= s@.skip(from as int));
    v
}

/// The first whitespace-separated token of `s`.
pub fn first_token_exec(s: &[char]) -> (r: Option<Vec<char>>)
    ensures
        match r {
            Some(v) => first_token(s@) == Some(v@),
            None => first_token(s@) is None,
        },
{
    assert(s@.skip(0) =~= s@);
    match next_token_bounds(s, 0) {
        Some((lo, hi)) => Some(subvec(s, lo, hi)),
        None => None,
    }
}

/// Character-wise equality.
pub fn seq_eq(a: &[char], b: &[char]) -> (r: bool)
    ensures
        r == (a@ == b@),
{
    if a.len() != b.len() {
        return false;
    }
    let mut i: usize = 0;
    while i < a.len()
        invariant
            a.len() == b.len(),
            i <= a.len(),
            forall|j: int| 0 <= j < i ==> a@[j] == b@[j],
        decreases a.len() - i,
    {
        if a[i] != b[i] {
            return false;
        }
        i += 1;
    }
    assert(a@ =~= b@);
    true
}


/// `split_on` of a list is never empty.
pub proof fn lemma_split_on_nonempty(s: Seq<char>, sep: char)
    ensures
        split_on(s, sep).len() >= 1,
    decreases s.len(),
{
    if let Some(k) = find(s, seq![sep]) {
        lemma_find_in_bounds(s, seq![sep], k);
        lemma_split_on_nonempty(s.skip(k + 1), sep);
    }
}

/// Splits `s` at every occurrence of `sep`.
pub fn split_on_exec(s: &[char], sep: char) -> (r: Vec<Vec<char>>)
    ensures
        views(r@) == split_on(s@, sep),
{
    let pat = vec![sep];
    let mut acc: Vec<Vec<char>> = Vec::new();
    let mut rest = tail_of(s, 0);
    assert(rest@ =~= s@);
    assert(views(acc@) =~= Seq::<Seq<char>>::empty());
    loop
        invariant
            pat@ == seq![sep],
            split_on(s@, sep) == views(acc@) + split_on(rest@, sep),
        decreases rest.len(),
    {
        let ghost prev = views(acc@);
        let found = find_exec(rest.as_slice(), pat.as_slice());
        match found {
            None => {
                let ghost last = rest@;
                acc.push(rest);
                assert(views(acc@) =~= prev + seq![last]);
                return acc;
            },
            Some(k) => {
                proof {
                    lemma_find_in_bounds(rest@, pat@, k as int);
                }
                let ghost old_rest = rest@;
                let piece = subvec(rest.as_slice(), 0, k);
                assert(piece@ =~= rest@.take(k as int));
                acc.push(piece);
                let next = tail_of(rest.as_slice(), k + 1);
                assert(views(acc@) + split_on(next@, sep) =~= prev + split_on(old_rest, sep));
                rest = next;
            },
        }
    }
}

/// `l` without the carriage return of a `\r\n` ending.
fn strip_cr_exec(l: Vec<char>) -> (r: Vec<char>)
    ensures
        r@ == strip_cr(l@),
{
    let mut l = l;
    if l.len() > 0 && l[l.len() - 1] == '\r' {
        l.pop();
    }
    l
}

/// The lines of `s`, as `str::lines` yields them.
pub fn lines_exec(s: &[char]) -> (r: Vec<Vec<char>>)
    ensures
        views(r@) == lines_spec(s@),
{
    let pieces = split_on_exec(s, '\n');
    proof {
        lemma_split_on_nonempty(s@, '\n');
    }
    let ghost p = split_on(s@, '\n');
    let n = pieces.len() - 1;
    let mut out: Vec<Vec<char>> = Vec::new();
    let mut i: usize = 0;
    while i < n
        invariant
            n == pieces.len() - 1,
            pieces.len() >= 1,
            views(pieces@) == p,
            i <= n,
            views(out@) == p.take(i as int).map_values(|l: Seq<char>| strip_cr(l)),
        decreases n - i,
    {
        let ghost prev = views(out@);
        let piece = pieces[i].clone();
        assert(piece@ == p[i as int]);
        let line = strip_cr_exec(piece);
        out.push(line);
        assert(views(out@) =~= prev.push(strip_cr(p[i as int])));
        assert(p.take(i + 1) =~= p.take(i as int).push(p[i as int]));
        assert(views(out@) =~= p.take(i + 1).map_values(|l: Seq<char>| strip_cr(l)));
        i += 1;
    }
    assert(p.len() == pieces.len());
    if pieces[n].len() > 0 {
        let last = pieces[n].clone();
        assert(last@ == p[n as int]);
        let ghost prev = views(out@);
        out.push(last);
        assert(views(out@) =~= prev.push(p[n as int]));
    }
    out
}

/// `s` with every leading repetition of `p` removed.
pub fn strip_all_prefix_exec(s: &[char], p: &[char]) -> (r: Vec<char>)
    ensures
        r@ == strip_all_prefix(s@, p@),
{
    let mut rest = tail_of(s, 0);
    assert(rest@ =~= s@);
    if p.len() == 0 {
        return rest;
    }
    while starts_with_exec(rest.as_slice(), p)
        invariant
            p.len() > 0,
            strip_all_prefix(s@, p@) == strip_all_prefix(rest@, p@),
        decreases rest.len(),
    {
        rest = tail_of(rest.as_slice(), p.len());
    }
    rest
}

/// `s` with every trailing repetition of `p` removed.
pub fn strip_all_suffix_exec(s: &[char], p: &[char]) -> (r: Vec<char>)
    ensures
        r@ == strip_all_suffix(s@, p@),
{
    let mut rest = tail_of(s, 0);
    assert(rest@ =~= s@);
    if p.len() == 0 {
        return rest;
    }
    while ends_with_exec(rest.as_slice(), p)
        invariant
            p.len() > 0,
            strip_all_suffix(s@, p@) == strip_all_suffix(rest@, p@),
        decreases rest.len(),
    {
        let k = rest.len() - p.len();
        let shorter = subvec(rest.as_slice(), 0, k);
        assert(shorter@ =~= rest@.take(k as int));
        rest = shorter;
    }
    rest
}


/// Appends the decimal representation of `n` to `out`.
pub fn push_decimal(out: &mut String, n: u64)
    ensures
        final(out)@ == old(out)@ + decimal_digits(n as nat),
    decreases n,
{
    if n >= 10 {
        push_decimal(out, n / 10);
    }
    let d = (n % 10) as u8;
    let c = (48u8 + d) as char;
    assert(c == digit_char((n % 10) as int));
    push_char(out, c);
}

/// The decimal representation of `n`.
pub fn decimal_string(n: u64) -> (r: String)
    ensures
        r@ == decimal_digits(n as nat),
{
    let mut out = String::new();
    push_decimal(&mut out, n);
    assert(out@ =~= decimal_digits(n as nat));
    out
}


/// Parses an `i32` as `FromStr` for `i32` does.
pub fn parse_i32_exec(s: &[char]) -> (r: Option<i32>)
    ensures
        match r {
            Some(v) => parse_i32_spec(s@) == Some(v as int),
            None => parse_i32_spec(s@) is None,
        },
{
    if s.len() > 0 && s[0] == '-' {
        let d = tail_of(s, 1);
        assert(d@ =~= s@.drop_first());
        if d.len() > 0 && d[0] == '+' {
            assert(!is_digit(d@[0]));
            return None;
        }
        match parse_unsigned_exec(d.as_slice(), 0x8000_0000) {
            Some(v) => {
                let neg: i64 = 0i64 - (v as i64);
                Some(neg as i32)
            },
            None => None,
        }
    } else {
        match parse_unsigned_exec(s, 0x7fff_ffff) {
            Some(v) => Some(v as i32),
            None => None,
        }
    }
}

/// Parses an `i32` from `s` with surrounding whitespace removed.
pub fn parse_i32_trimmed(s: &[char]) -> (r: Option<i32>)
    ensures
        match r {
            Some(v) => parse_i32_spec(trim(s@)) == Some(v as int),
            None => parse_i32_spec(trim(s@)) is None,
        },
{
    let t = trim_chars(s);
    parse_i32_exec(t.as_slice())
}

} // verus!
