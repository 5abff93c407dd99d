//! Character-level text handling: Unicode white space, words, trimming,
//! substring search, comma removal and decimal integer parsing.
use vstd::prelude::*;

verus! {

// ---------------------------------------------------------------------------
// White space
// ---------------------------------------------------------------------------

/// The Unicode `White_Space` property, which is what `char::is_whitespace`
/// tests: U+0009..U+000D, U+0020, U+0085, U+00A0, U+1680, U+2000..U+200A,
/// U+2028, U+2029, U+202F, U+205F and U+3000.
pub open spec fn white_space(c: char) -> bool {
    let u: u32 = c as u32;
    ||| 0x9 <= u <= 0xd
    ||| u == 0x20
    ||| u == 0x85
    ||| u == 0xa0
    ||| u == 0x1680
    ||| 0x2000 <= u <= 0x200a
    ||| u == 0x2028
    ||| u == 0x2029
    ||| u == 0x202f
    ||| u == 0x205f
    ||| u == 0x3000
}

/// Tells whether `c` is Unicode white space.
pub fn is_white_space(c: char) -> (b: bool)
    ensures
        b == white_space(c),
{
    let u: u32 = c as u32;
    (0x9 <= u && u <= 0xd) || u == 0x20 || u == 0x85 || u == 0xa0 || u == 0x1680 || (0x2000 <= u
        && u <= 0x200a) || u == 0x2028 || u == 0x2029 || u == 0x202f || u == 0x205f || u == 0x3000
}

/// The first position at or after `i` that does not hold white space
/// (the length of `s` when there is none).
pub open spec fn skip_white_space(s: Seq<char>, i: int) -> int
    decreases s.len() - i,
{
    if 0 <= i < s.len() && white_space(s[i]) {
        skip_white_space(s, i + 1)
    } else {
        i
    }
}

/// The first position at or after `i` that holds white space
/// (the length of `s` when there is none).
pub open spec fn skip_word(s: Seq<char>, i: int) -> int
    decreases s.len() - i,
{
    if 0 <= i < s.len() && !white_space(s[i]) {
        skip_word(s, i + 1)
    } else {
        i
    }
}

/// The position just after the last character before `j` that is not white
/// space (0 when there is none).
pub open spec fn trim_end(s: Seq<char>, j: int) -> int
    decreases j,
{
    if 0 < j <= s.len() && white_space(s[j - 1]) {
        trim_end(s, j - 1)
    } else {
        j
    }
}

/// The first whitespace-separated word of `s`, as the first item of
/// `str::split_whitespace` gives it: `None` when `s` holds only white space.
pub open spec fn first_word(s: Seq<char>) -> Option<Seq<char>> {
    let start: int = skip_white_space(s, 0);
    if start < s.len() {
        Some(s.subrange(start, skip_word(s, start)))
    } else {
        None
    }
}

/// `s` without its leading and trailing white space, as `str::trim` gives it.
pub open spec fn trimmed(s: Seq<char>) -> Seq<char> {
    let start: int = skip_white_space(s, 0);
    let end: int = trim_end(s, s.len() as int);
    if start < end {
        s.subrange(start, end)
    } else {
        Seq::empty()
    }
}

pub proof fn lemma_skip_white_space(s: Seq<char>, i: int)
    requires
        0 <= i <= s.len(),
    ensures
        i <= skip_white_space(s, i) <= s.len(),
        forall|k: int| i <= k < skip_white_space(s, i) ==> white_space(#[trigger] s[k]),
        skip_white_space(s, i) < s.len() ==> !white_space(s[skip_white_space(s, i)]),
    decreases s.len() - i,
{
    if i < s.len() && white_space(s[i]) {
        lemma_skip_white_space(s, i + 1);
    }
}

pub proof fn lemma_skip_word(s: Seq<char>, i: int)
    requires
        0 <= i <= s.len(),
    ensures
        i <= skip_word(s, i) <= s.len(),
        forall|k: int| i <= k < skip_word(s, i) ==> !white_space(#[trigger] s[k]),
        skip_word(s, i) < s.len() ==> white_space(s[skip_word(s, i)]),
    decreases s.len() - i,
{
    if i < s.len() && !white_space(s[i]) {
        lemma_skip_word(s, i + 1);
    }
}

pub proof fn lemma_trim_end(s: Seq<char>, j: int)
    requires
        0 <= j <= s.len(),
    ensures
        0 <= trim_end(s, j) <= j,
        forall|k: int| trim_end(s, j) <= k < j ==> white_space(#[trigger] s[k]),
        trim_end(s, j) > 0 ==> !white_space(s[trim_end(s, j) - 1]),
    decreases j,
{
    if 0 < j && white_space(s[j - 1]) {
        lemma_trim_end(s, j - 1);
    }
}

/// The first word is the first maximal run of characters that are not white
/// space: it is not empty, holds no white space, only white space comes before
/// it, and white space or the end of the text comes after it.  There is no
/// first word exactly when the text is all white space.
pub proof fn lemma_first_word_is_first_run(s: Seq<char>)
    ensures
        first_word(s) is None <==> (forall|k: int| 0 <= k < s.len() ==> white_space(#[trigger] s[k])),
        first_word(s) matches Some(w) ==> {
            let start: int = skip_white_space(s, 0);
            &&& w.len() > 0
            &&& forall|k: int| 0 <= k < w.len() ==> !white_space(#[trigger] w[k])
            &&& forall|k: int| 0 <= k < start ==> white_space(#[trigger] s[k])
            &&& s.subrange(start, start + w.len()) == w
            &&& (start + w.len() == s.len() || white_space(s[start + w.len()]))
        },
{
    lemma_skip_white_space(s, 0);
    let start: int = skip_white_space(s, 0);
    if start < s.len() {
        lemma_skip_word(s, start);
        let w = s.subrange(start, skip_word(s, start));
        assert forall|k: int| 0 <= k < w.len() implies !white_space(#[trigger] w[k]) by {
            assert(w[k] == s[start + k]);
        }
        assert(!white_space(s[start]));
    }
}

/// Trimming leaves no white space at either end, and trimming twice is
/// trimming once.
pub proof fn lemma_trimmed(s: Seq<char>)
    ensures
        trimmed(s).len() > 0 ==> !white_space(trimmed(s)[0]) && !white_space(trimmed(s).last()),
        trimmed(trimmed(s)) == trimmed(s),
{
    lemma_skip_white_space(s, 0);
    lemma_trim_end(s, s.len() as int);
    let t = trimmed(s);
    lemma_skip_white_space(t, 0);
    lemma_trim_end(t, t.len() as int);
    let start: int = skip_white_space(s, 0);
    let end: int = trim_end(s, s.len() as int);
    if start < end {
        assert(!white_space(t[0]));
        assert(!white_space(t.last()));
        assert(skip_white_space(t, 0) == 0);
        assert(trim_end(t, t.len() as int) == t.len());
        assert(t.subrange(0, t.len() as int) =~= t);
    } else {
        assert(t.len() == 0);
    }
}

// ---------------------------------------------------------------------------
// Views of strings as character vectors
// ---------------------------------------------------------------------------

/// The characters of an optional string.
pub open spec fn string_option_view(o: Option<String>) -> Option<Seq<char>> {
    match o {
        Some(s) => Some(s@),
        None => None,
    }
}

/// The characters of `s`, in order.
pub fn chars_of(s: &str) -> (v: Vec<char>)
    ensures
        v@ == s@,
{
    let mut v: Vec<char> = Vec::new();
    for c in it: s.chars()
        invariant
            v@ == it.seq().take(it.index() as int),
            it.seq() == s@,
    {
        v.push(c);
    }
    v
}

/// The bounds of the first word of `s`: its first position and the position
/// just after it.
pub fn first_word_bounds(s: &Vec<char>) -> (res: Option<(usize, usize)>)
    ensures
        match res {
            Some((a, b)) => {
                &&& a < s@.len()
                &&& a as int == skip_white_space(s@, 0)
                &&& b as int == skip_word(s@, a as int)
                &&& first_word(s@) == Some(s@.subrange(a as int, b as int))
            },
            None => first_word(s@) is None,
        },
{
    let n: usize = s.len();
    let mut i: usize = 0;
    while i < n && is_white_space(s[i])
        invariant
            i <= n == s@.len(),
            skip_white_space(s@, 0) == skip_white_space(s@, i as int),
        decreases n - i,
    {
        i = i + 1;
    }
    if i >= n {
        return None;
    }
    let mut j: usize = i;
    while j < n && !is_white_space(s[j])
        invariant
            i <= j <= n == s@.len(),
            skip_word(s@, i as int) == skip_word(s@, j as int),
        decreases n - j,
    {
        j = j + 1;
    }
    Some((i, j))
}

/// `s` without its leading and trailing white space (`str::trim`).
pub fn trim(s: &str) -> (res: String)
    ensures
        res@ == trimmed(s@),
{
    let v = chars_of(s);
    let n: usize = v.len();
    let mut i: usize = 0;
    while i < n && is_white_space(v[i])
        invariant
            i <= n == v@.len(),
            v@ == s@,
            skip_white_space(s@, 0) == skip_white_space(s@, i as int),
        decreases n - i,
    {
        i = i + 1;
    }
    let mut j: usize = n;
    while j > 0 && is_white_space(v[j - 1])
        invariant
            j <= n == v@.len(),
            v@ == s@,
            trim_end(s@, n as int) == trim_end(s@, j as int),
        decreases j,
    {
        j = j - 1;
    }
    if i < j {
        s.substring_char(i, j).to_owned()
    } else {
        String::new()
    }
}

// ---------------------------------------------------------------------------
// Substring search
// ---------------------------------------------------------------------------

/// `needle` occurs in `hay` as a run of consecutive characters (an empty
/// needle occurs everywhere), as `str::contains` with a string pattern tests.
pub open spec fn occurs_in(hay: Seq<char>, needle: Seq<char>) -> bool {
    exists|i: int|
        0 <= i && i + needle.len() <= hay.len() && #[trigger] hay.subrange(i, i + needle.len())
            == needle
}

/// Tells whether `needle` occurs in `hay`.
pub fn contains_chars(hay: &Vec<char>, needle: &Vec<char>) -> (b: bool)
    ensures
        b == occurs_in(hay@, needle@),
{
    let n: usize = hay.len();
    let m: usize = needle.len();
    if m > n {
        assert forall|i: int| 0 <= i && i + m <= n implies #[trigger] hay@.subrange(i, i + m)
            != needle@ by {}
        return false;
    }
    let mut i: usize = 0;
    while i <= n - m
        invariant
            m == needle@.len(),
            n == hay@.len(),
            m <= n,
            i <= n - m + 1,
            forall|k: int| 0 <= k < i ==> #[trigger] hay@.subrange(k, k + m) != needle@,
        decreases n - m + 1 - i,
    {
        let mut j: usize = 0;
        while j < m && hay[i + j] == needle[j]
            invariant
                m == needle@.len(),
                n == hay@.len(),
                i + m <= n,
                j <= m,
                forall|k: int| 0 <= k < j ==> hay@[i + k] == needle@[k],
            decreases m - j,
        {
            j = j + 1;
        }
        if j == m {
            assert(hay@.subrange(i as int, i + m) =~= needle@);
            return true;
        }
        assert(hay@.subrange(i as int, i + m)[j as int] != needle@[j as int]);
        i = i + 1;
    }
    assert forall|k: int| 0 <= k && k + m <= n implies #[trigger] hay@.subrange(k, k + m)
        != needle@ by {}
    false
}

// ---------------------------------------------------------------------------
// Comma removal and decimal integers
// ---------------------------------------------------------------------------

/// `s` with every `,` removed (`str::replace(',', "")`).
pub open spec fn without_commas(s: Seq<char>) -> Seq<char>
    decreases s.len(),
{
    if s.len() == 0 {
        Seq::empty()
    } else if s.last() == ',' {
        without_commas(s.drop_last())
    } else {
        without_commas(s.drop_last()).push(s.last())
    }
}

/// The characters of `s` from position `a` up to `b`, without commas.
pub fn remove_commas(s: &Vec<char>, a: usize, b: usize) -> (res: Vec<char>)
    requires
        a <= b <= s@.len(),
    ensures
        res@ == without_commas(s@.subrange(a as int, b as int)),
{
    let mut res: Vec<char> = Vec::new();
    let mut k: usize = a;
    assert(s@.subrange(a as int, a as int) =~= Seq::<char>::empty());
    while k < b
        invariant
            a <= k <= b <= s@.len(),
            res@ == without_commas(s@.subrange(a as int, k as int)),
        decreases b - k,
    {
        let c = s[k];
        assert(s@.subrange(a as int, k + 1).drop_last() =~= s@.subrange(a as int, k as int));
        if c != ',' {
            res.push(c);
        }
        k = k + 1;
    }
    res
}

pub open spec fn is_ascii_digit(c: char) -> bool {
    '0' <= c <= '9'
}

pub open spec fn all_digits(s: Seq<char>) -> bool {
    forall|i: int| 0 <= i < s.len() ==> is_ascii_digit(#[trigger] s[i])
}

/// The number that the decimal digits `s` write.
pub open spec fn digits_value(s: Seq<char>) -> int
    decreases s.len(),
{
    if s.len() == 0 {
        0
    } else {
        digits_value(s.drop_last()) * 10 + (s.last() as int - '0' as int)
    }
}

/// What `str::parse::<i32>` gives for `s`: an optional `+` or `-` sign
/// followed by at least one ASCII digit and nothing else, with a value that
/// fits in an `i32`.
pub open spec fn parsed_i32(s: Seq<char>) -> Option<i32> {
    let negative = s.len() > 0 && s[0] == '-';
    let digits = if s.len() > 0 && (s[0] == '-' || s[0] == '+') {
        s.drop_first()
    } else {
        s
    };
    let value: int = if negative {
        -digits_value(digits)
    } else {
        digits_value(digits)
    };
    if digits.len() > 0 && all_digits(digits) && i32::MIN <= value <= i32::MAX {
        Some(value as i32)
    } else {
        None
    }
}

pub proof fn lemma_digits_value_nonneg(s: Seq<char>)
    requires
        all_digits(s),
    ensures
        digits_value(s) >= 0,
    decreases s.len(),
{
    if s.len() > 0 {
        lemma_digits_value_nonneg(s.drop_last());
    }
}

/// Digits written after a prefix never make its value smaller.
pub proof fn lemma_digits_value_prefix(s: Seq<char>, k: int)
    requires
        all_digits(s),
        0 <= k <= s.len(),
    ensures
        digits_value(s.take(k)) <= digits_value(s),
    decreases s.len(),
{
    if k < s.len() {
        lemma_digits_value_prefix(s.drop_last(), k);
        assert(s.drop_last().take(k) =~= s.take(k));
        lemma_digits_value_nonneg(s.drop_last());
    } else {
        assert(s.take(k) =~= s);
    }
}

/// Parses `s` as `str::parse::<i32>` does, telling only whether it succeeded.
pub fn parse_i32(s: &Vec<char>) -> (res: Option<i32>)
    ensures
        res == parsed_i32(s@),
{
    let n: usize = s.len();
    if n == 0 {
        return None;
    }
    let negative = s[0] == '-';
    let start: usize = if s[0] == '-' || s[0] == '+' {
        1
    } else {
        0
    };
    let ghost digits = s@.subrange(start as int, n as int);
    assert(digits =~= if s@[0] == '-' || s@[0] == '+' {
        s@.drop_first()
    } else {
        s@
    });
    if start == n {
        return None;
    }
    let limit: i64 = 2147483648;
    let mut acc: i64 = 0;
    let mut k: usize = start;
    assert(digits.take(0) =~= Seq::<char>::empty());
    while k < n
        invariant
            start < n,
            start <= k <= n == s@.len(),
            negative == (s@[0] == '-'),
            digits == s@.subrange(start as int, n as int),
            digits == (if s@[0] == '-' || s@[0] == '+' {
                s@.drop_first()
            } else {
                s@
            }),
            all_digits(digits.take(k - start)),
            acc == digits_value(digits.take(k - start)),
            0 <= acc <= limit,
            limit == 2147483648,
        decreases n - k,
    {
        let c = s[k];
        if !('0' <= c && c <= '9') {
            assert(digits[k - start] == c);
            return None;
        }
        let d: i64 = (c as u32 - '0' as u32) as i64;
        assert(digits.take(k + 1 - start).drop_last() =~= digits.take(k - start));
        acc = acc * 10 + d;
        assert(all_digits(digits.take(k + 1 - start)));
        if acc > limit {
            proof {
                if all_digits(digits) {
                    lemma_digits_value_prefix(digits, k + 1 - start);
                }
            }
            return None;
        }
        k = k + 1;
    }
    assert(digits.take(n - start) =~= digits);
    if negative {
        Some((0 - acc) as i32)
    } else if acc <= 2147483647 {
        Some(acc as i32)
    } else {
        None
    }
}

/// Removing commas keeps every other character, in order: it is the filter
/// that drops exactly the commas.
pub proof fn lemma_without_commas_is_filter(s: Seq<char>)
    ensures
        without_commas(s) == s.filter(|c: char| c != ','),
    decreases s.len(),
{
    reveal_with_fuel(Seq::filter, 1);
    if s.len() > 0 {
        lemma_without_commas_is_filter(s.drop_last());
    }
}

/// Every character left after removing commas is a character of the text,
/// and none is a comma; a text without commas is left as it is.
pub proof fn lemma_without_commas_chars(s: Seq<char>)
    ensures
        forall|k: int|
            0 <= k < without_commas(s).len() ==> #[trigger] without_commas(s)[k] != ',' && exists|m: int|
                0 <= m < s.len() && s[m] == without_commas(s)[k],
        (forall|k: int| 0 <= k < s.len() ==> #[trigger] s[k] != ',') ==> without_commas(s) == s,
    decreases s.len(),
{
    if s.len() > 0 {
        let p = s.drop_last();
        lemma_without_commas_chars(p);
        let w = without_commas(s);
        let wp = without_commas(p);
        assert forall|k: int| 0 <= k < w.len() implies #[trigger] w[k] != ',' && exists|m: int|
            0 <= m < s.len() && s[m] == w[k] by {
            if k < wp.len() {
                assert(w[k] == wp[k]);
                let m: int = choose|m: int| 0 <= m < p.len() && p[m] == wp[k];
                assert(s[m] == w[k]);
            } else {
                assert(w[k] == s.last());
                assert(s[s.len() - 1] == w[k]);
            }
        }
        if forall|k: int| 0 <= k < s.len() ==> #[trigger] s[k] != ',' {
            assert forall|k: int| 0 <= k < p.len() implies #[trigger] p[k] != ',' by {
                assert(p[k] == s[k]);
            }
            assert(w =~= p.push(s.last()));
            assert(p.push(s.last()) =~= s);
        }
    }
}

/// A non-empty run of ASCII digits whose value fits in an `i32` parses to
/// that value, whatever the value (zero included).
pub proof fn lemma_parsed_i32_of_digits(s: Seq<char>)
    requires
        s.len() > 0,
        all_digits(s),
        digits_value(s) <= i32::MAX,
    ensures
        parsed_i32(s) == Some(digits_value(s) as i32),
{
    assert(is_ascii_digit(s[0]));
    lemma_digits_value_nonneg(s);
}

/// A `-` followed by a non-empty run of ASCII digits whose value is at most
/// 2^31 parses to the negated value.
pub proof fn lemma_parsed_i32_of_negative_digits(s: Seq<char>)
    requires
        s.len() > 1,
        s[0] == '-',
        all_digits(s.drop_first()),
        digits_value(s.drop_first()) <= 0x8000_0000,
    ensures
        parsed_i32(s) == Some((-digits_value(s.drop_first())) as i32),
{
    lemma_digits_value_nonneg(s.drop_first());
}

pub proof fn lemma_skip_white_space_reaches(s: Seq<char>, k: int, i: int)
    requires
        0 <= k <= i <= s.len(),
        forall|m: int| k <= m < i ==> white_space(#[trigger] s[m]),
        i == s.len() || !white_space(s[i]),
    ensures
        skip_white_space(s, k) == i,
    decreases i - k,
{
    if k < i {
        lemma_skip_white_space_reaches(s, k + 1, i);
    }
}

pub proof fn lemma_skip_word_reaches(s: Seq<char>, k: int, j: int)
    requires
        0 <= k <= j <= s.len(),
        forall|m: int| k <= m < j ==> !white_space(#[trigger] s[m]),
        j == s.len() || white_space(s[j]),
    ensures
        skip_word(s, k) == j,
    decreases j - k,
{
    if k < j {
        lemma_skip_word_reaches(s, k + 1, j);
    }
}

/// The first word of a text that holds only white space before position
/// `i`, no white space from `i` up to `j`, and white space or its end at `j`
/// is the text from `i` up to `j`.
pub proof fn lemma_first_word_at(s: Seq<char>, i: int, j: int)
    requires
        0 <= i < j <= s.len(),
        forall|m: int| 0 <= m < i ==> white_space(#[trigger] s[m]),
        forall|m: int| i <= m < j ==> !white_space(#[trigger] s[m]),
        j == s.len() || white_space(s[j]),
    ensures
        first_word(s) == Some(s.subrange(i, j)),
{
    lemma_skip_white_space_reaches(s, 0, i);
    lemma_skip_word_reaches(s, i, j);
}

// ---------------------------------------------------------------------------
// Lower case
// ---------------------------------------------------------------------------

/// The lower-case form of `s` that `str::to_lowercase` gives (full Unicode
/// case mapping, with the final-sigma rule).
pub uninterp spec fn lowercase(s: Seq<char>) -> Seq<char>;

/// Calls `str::to_lowercase`.  Its result depends on `s` alone; the contract
/// names it and states nothing more of the Unicode case mapping.
#[verifier::external_body]
pub fn to_lowercase(s: &str) -> (res: String)
    ensures
        res@ == lowercase(s@),
{
    s.to_lowercase()
}

} // verus!
