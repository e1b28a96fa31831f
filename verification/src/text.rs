//! Character-level text handling: trimming, ASCII case folding, substring
//! search, line splitting and decimal numbers, each stated over the string's
//! sequence of characters.
use vstd::prelude::*;
use vstd::string::*;

verus! {

broadcast use vstd::string::group_string_axioms;

/// Appends one character to a string (`String::push`, which appends the given
/// `char` to the end of the string).
#[verifier::external_body]
fn push_char(s: &mut String, c: char)
    ensures
        final(s)@ == old(s)@.push(c),
{
    s.push(c)
}

/// The characters of a string slice, in order.
pub fn chars_of(s: &str) -> (r: Vec<char>)
    ensures
        r@ == s@,
{
    let mut out: Vec<char> = Vec::new();
    for c in it: s.chars()
        invariant
            out@ == it.seq().take(it.index() as int),
    {
        out.push(c);
    }
    out
}

/// The string made of `v[from..to]`.
pub fn string_of_range(v: &[char], from: usize, to: usize) -> (r: String)
    requires
        from <= to <= v@.len(),
    ensures
        r@ == v@.subrange(from as int, to as int),
{
    let mut out = String::new();
    let mut i: usize = from;
    while i < to
        invariant
            from <= i <= to <= v@.len(),
            out@ == v@.subrange(from as int, i as int),
        decreases to - i,
    {
        push_char(&mut out, v[i]);
        assert(v@.subrange(from as int, i + 1) == v@.subrange(from as int, i as int).push(
            v@[i as int],
        ));
        i += 1;
    }
    out
}

/// The string made of all of `v`.
pub fn string_of(v: &[char]) -> (r: String)
    ensures
        r@ == v@,
{
    let r = string_of_range(v, 0, v.len());
    assert(v@.subrange(0, v@.len() as int) == v@);
    r
}

/// A string holding exactly the characters of `s`.
pub fn owned(s: &str) -> (r: String)
    ensures
        r@ == s@,
{
    String::from_str(s)
}

/// `s` followed by `t`.
pub fn concat_str(s: String, t: &str) -> (r: String)
    ensures
        r@ == s@ + t@,
{
    let mut s = s;
    s.append(t);
    s
}

/// Whether two string slices hold the same characters.
pub fn str_eq(a: &str, b: &str) -> (r: bool)
    ensures
        r == (a@ == b@),
{
    let x = chars_of(a);
    let y = chars_of(b);
    seq_eq(&x, &y)
}

/// Whether two character slices are equal.
pub fn seq_eq(a: &[char], b: &[char]) -> (r: bool)
    ensures
        r == (a@ == b@),
{
    if a.len() != b.len() {
        return false;
    }
    let mut i: usize = 0;
    while i < a.len()
        invariant
            a@.len() == b@.len(),
            i <= a@.len(),
            forall|k: int| 0 <= k < i ==> a@[k] == b@[k],
        decreases a.len() - i,
    {
        if a[i] != b[i] {
            return false;
        }
        i += 1;
    }
    assert(a@ =~= b@);
    true
}

/// Whether the characters of `a` are exactly those of the string `b`.
pub fn chars_eq_str(a: &[char], b: &str) -> (r: bool)
    ensures
        r == (a@ == b@),
{
    let y = chars_of(b);
    seq_eq(a, &y)
}

// ---------------------------------------------------------------- whitespace
/// The characters with the Unicode `White_Space` property.
pub open spec fn is_whitespace(c: char) -> bool {
    let u = c as u32;
    ||| 0x9 <= u <= 0xD
    ||| u == 0x20
    ||| u == 0x85
    ||| u == 0xA0
    ||| u == 0x1680
    ||| 0x2000 <= u <= 0x200A
    ||| u == 0x2028
    ||| u == 0x2029
    ||| u == 0x202F
    ||| u == 0x205F
    ||| u == 0x3000
}

pub fn char_is_whitespace(c: char) -> (r: bool)
    ensures
        r == is_whitespace(c),
{
    let u = c as u32;
    (0x9 <= u && u <= 0xD) || u == 0x20 || u == 0x85 || u == 0xA0 || u == 0x1680 || (0x2000 <= u
        && u <= 0x200A) || u == 0x2028 || u == 0x2029 || u == 0x202F || u == 0x205F || u == 0x3000
}

/// `s` without its leading whitespace.
pub open spec fn trim_start(s: Seq<char>) -> Seq<char>
    decreases s.len(),
{
    if s.len() > 0 && is_whitespace(s[0]) {
        trim_start(s.drop_first())
    } else {
        s
    }
}

/// `s` without its trailing whitespace.
pub open spec fn trim_end(s: Seq<char>) -> Seq<char>
    decreases s.len(),
{
    if s.len() > 0 && is_whitespace(s.last()) {
        trim_end(s.drop_last())
    } else {
        s
    }
}

/// `s` without leading and trailing whitespace.
pub open spec fn trim(s: Seq<char>) -> Seq<char> {
    trim_end(trim_start(s))
}

/// The bounds of `trim(v)` within `v`.
pub fn trim_bounds(v: &[char]) -> (r: (usize, usize))
    ensures
        r.0 <= r.1 <= v@.len(),
        v@.subrange(r.0 as int, r.1 as int) == trim(v@),
{
    let n = v.len();
    let mut i: usize = 0;
    assert(v@.subrange(0, n as int) == v@);
    while i < n && char_is_whitespace(v[i])
        invariant
            i <= n == v@.len(),
            trim_start(v@) == trim_start(v@.subrange(i as int, n as int)),
        decreases n - i,
    {
        assert(v@.subrange(i as int, n as int).drop_first() == v@.subrange(i + 1, n as int));
        i += 1;
    }
    let mut j: usize = n;
    while j > i && char_is_whitespace(v[j - 1])
        invariant
            i <= j <= n == v@.len(),
            trim_start(v@) == v@.subrange(i as int, n as int),
            trim(v@) == trim_end(v@.subrange(i as int, j as int)),
        decreases j - i,
    {
        assert(v@.subrange(i as int, j as int).drop_last() == v@.subrange(i as int, j - 1));
        j -= 1;
    }
    (i, j)
}

/// A copy of `s` without leading and trailing whitespace.
pub fn trim_str(s: &str) -> (r: String)
    ensures
        r@ == trim(s@),
{
    let v = chars_of(s);
    let (a, b) = trim_bounds(&v);
    string_of_range(&v, a, b)
}

/// The characters of `s` without leading and trailing whitespace.
pub fn trim_chars(v: &[char]) -> (r: Vec<char>)
    ensures
        r@ == trim(v@),
{
    let (a, b) = trim_bounds(v);
    let mut out: Vec<char> = Vec::new();
    let mut i: usize = a;
    while i < b
        invariant
            a <= i <= b <= v@.len(),
            out@ == v@.subrange(a as int, i as int),
        decreases b - i,
    {
        out.push(v[i]);
        assert(v@.subrange(a as int, i + 1) == v@.subrange(a as int, i as int).push(v@[i as int]));
        i += 1;
    }
    out
}

// ---------------------------------------------------------------- ASCII case
/// The ASCII lower-case form of a character: `A`..=`Z` map to `a`..=`z`,
/// everything else stays.
pub open spec fn ascii_lower_char(c: char) -> char {
    if 'A' <= c <= 'Z' {
        ((c as u32) + 32) as char
    } else {
        c
    }
}

pub open spec fn ascii_lower(s: Seq<char>) -> Seq<char> {
    s.map_values(|c: char| ascii_lower_char(c))
}

/// The ASCII upper-case form of a character: `a`..=`z` map to `A`..=`Z`,
/// everything else stays.
pub open spec fn ascii_upper_char(c: char) -> char {
    if 'a' <= c <= 'z' {
        ((c as u32) - 32) as char
    } else {
        c
    }
}

pub open spec fn ascii_upper(s: Seq<char>) -> Seq<char> {
    s.map_values(|c: char| ascii_upper_char(c))
}

pub fn to_ascii_lower_char(c: char) -> (r: char)
    ensures
        r == ascii_lower_char(c),
{
    if 'A' <= c && c <= 'Z' {
        let b = (c as u8) + 32;
        b as char
    } else {
        c
    }
}

/// The ASCII lower-case form of `v`.
pub fn to_ascii_lower(v: &[char]) -> (r: Vec<char>)
    ensures
        r@ == ascii_lower(v@),
{
    let mut out: Vec<char> = Vec::new();
    let mut i: usize = 0;
    while i < v.len()
        invariant
            i <= v@.len(),
            out@ == ascii_lower(v@.take(i as int)),
        decreases v.len() - i,
    {
        let c = to_ascii_lower_char(v[i]);
        out.push(c);
        assert(ascii_lower(v@.take(i + 1)) == ascii_lower(v@.take(i as int)).push(c));
        i += 1;
    }
    assert(v@.take(v.len() as int) == v@);
    out
}

// ---------------------------------------------------------------- search
/// Whether `pat` occurs in `s` at index `i`.
pub open spec fn matches_at(s: Seq<char>, pat: Seq<char>, i: int) -> bool {
    0 <= i && i + pat.len() <= s.len() && s.subrange(i, i + pat.len()) == pat
}

/// The first index at or after `i` at which `pat` occurs in `s`.
pub open spec fn find_from(s: Seq<char>, pat: Seq<char>, i: int) -> Option<int>
    decreases s.len() + 1 - i,
{
    if i < 0 || i + pat.len() > s.len() {
        None
    } else if matches_at(s, pat, i) {
        Some(i)
    } else {
        find_from(s, pat, i + 1)
    }
}

/// The first index at which `pat` occurs in `s`.
pub open spec fn find(s: Seq<char>, pat: Seq<char>) -> Option<int> {
    find_from(s, pat, 0)
}

/// Whether `pat` occurs anywhere in `s`.
pub open spec fn contains(s: Seq<char>, pat: Seq<char>) -> bool {
    find(s, pat) is Some
}

pub proof fn lemma_find_from_bounds(s: Seq<char>, pat: Seq<char>, i: int)
    ensures
        find_from(s, pat, i) matches Some(k) ==> i <= k && matches_at(s, pat, k),
    decreases s.len() + 1 - i,
{
    if !(i < 0 || i + pat.len() > s.len()) && !matches_at(s, pat, i) {
        lemma_find_from_bounds(s, pat, i + 1);
    }
}

/// Whether `pat` occurs in `s` at index `i`.
pub fn matches_at_exec(s: &[char], pat: &[char], i: usize) -> (r: bool)
    ensures
        r == matches_at(s@, pat@, i as int),
{
    if i > s.len() || pat.len() > s.len() - i {
        return false;
    }
    let mut k: usize = 0;
    while k < pat.len()
        invariant
            i + pat@.len() <= s@.len(),
            s@.len() == s.len(),
            k <= pat@.len(),
            forall|t: int| 0 <= t < k ==> s@[i + t] == pat@[t],
        decreases pat.len() - k,
    {
        if s[i + k] != pat[k] {
            assert(s@.subrange(i as int, i + pat@.len())[k as int] != pat@[k as int]);
            return false;
        }
        k += 1;
    }
    assert(s@.subrange(i as int, i + pat@.len()) =~= pat@);
    true
}

/// The first index at or after `from` at which `pat` occurs in `s`.
pub fn find_from_exec(s: &[char], pat: &[char], from: usize) -> (r: Option<usize>)
    ensures
        r matches Some(k) ==> find_from(s@, pat@, from as int) == Some(k as int),
        r is None ==> find_from(s@, pat@, from as int) is None,
{
    if pat.len() > s.len() {
        assert(from + pat@.len() > s@.len());
        return None;
    }
    let last = s.len() - pat.len();
    let mut i: usize = from;
    while i <= last
        invariant
            last + pat@.len() == s@.len(),
            from <= i,
            find_from(s@, pat@, from as int) == find_from(s@, pat@, i as int),
        decreases last + 1 - i,
    {
        if matches_at_exec(s, pat, i) {
            return Some(i);
        }
        if i == last {
            assert(find_from(s@, pat@, i + 1) is None);
            return None;
        }
        i += 1;
    }
    None
}

/// Whether `pat` occurs anywhere in `s`.
pub fn contains_exec(s: &[char], pat: &[char]) -> (r: bool)
    ensures
        r == contains(s@, pat@),
{
    find_from_exec(s, pat, 0).is_some()
}

/// Whether the characters of the string `pat` occur anywhere in `s`.
pub fn contains_str(s: &[char], pat: &str) -> (r: bool)
    ensures
        r == contains(s@, pat@),
{
    let p = chars_of(pat);
    contains_exec(s, &p)
}

/// Whether `s` begins with `prefix`.
pub open spec fn starts_with(s: Seq<char>, prefix: Seq<char>) -> bool {
    prefix.len() <= s.len() && s.take(prefix.len() as int) == prefix
}

pub fn starts_with_str(s: &[char], prefix: &str) -> (r: bool)
    ensures
        r == starts_with(s@, prefix@),
{
    let p = chars_of(prefix);
    let r = matches_at_exec(s, &p, 0);
    assert(s@.subrange(0, p@.len() as int) == s@.take(p@.len() as int));
    r
}

// ---------------------------------------------------------------- lines
/// The index of the first `'\n'` at or after `i`, or the length of `s`.
pub open spec fn line_end(s: Seq<char>, i: int) -> int
    decreases s.len() - i,
{
    if i >= s.len() {
        s.len() as int
    } else if s[i] == '\n' {
        i
    } else {
        line_end(s, i + 1)
    }
}

pub proof fn lemma_line_end_bounds(s: Seq<char>, i: int)
    requires
        0 <= i <= s.len(),
    ensures
        i <= line_end(s, i) <= s.len(),
        line_end(s, i) < s.len() ==> s[line_end(s, i)] == '\n',
        forall|k: int| i <= k < line_end(s, i) ==> s[k] != '\n',
    decreases s.len() - i,
{
    if i < s.len() && s[i] != '\n' {
        lemma_line_end_bounds(s, i + 1);
    }
}

/// The line that starts at `i`: up to the next `'\n'`, without it, and without
/// a `'\r'` right before it.
pub open spec fn line_at(s: Seq<char>, i: int) -> Seq<char> {
    let e = line_end(s, i);
    if e < s.len() && e > i && s[e - 1] == '\r' {
        s.subrange(i, e - 1)
    } else {
        s.subrange(i, e)
    }
}

/// The lines of `s` from index `i` on, split at `'\n'` (or `"\r\n"`); a final
/// line ending adds no empty line.
pub open spec fn lines_from(s: Seq<char>, i: int) -> Seq<Seq<char>>
    decreases s.len() + 1 - i,
{
    if i < 0 || i >= s.len() {
        Seq::empty()
    } else {
        let e = line_end(s, i);
        if e < i || e > s.len() {
            Seq::empty()
        } else {
            seq![line_at(s, i)] + lines_from(s, e + 1)
        }
    }
}

/// The lines of `s`.
pub open spec fn lines(s: Seq<char>) -> Seq<Seq<char>> {
    lines_from(s, 0)
}

/// The lines of `v`, each as its characters.
pub fn lines_of(v: &[char]) -> (r: Vec<Vec<char>>)
    ensures
        r@.len() == lines(v@).len(),
        forall|k: int| 0 <= k < r@.len() ==> #[trigger] r@[k]@ == lines(v@)[k],
{
    let n = v.len();
    let mut out: Vec<Vec<char>> = Vec::new();
    let ghost mut done: Seq<Seq<char>> = Seq::empty();
    let mut i: usize = 0;
    while i < n
        invariant
            i <= n == v@.len(),
            done.len() == out@.len(),
            forall|k: int| 0 <= k < out@.len() ==> #[trigger] out@[k]@ == done[k],
            lines(v@) == done + lines_from(v@, i as int),
        decreases n - i,
    {
        let mut e: usize = i;
        while e < n && v[e] != '\n'
            invariant
                i <= e <= n == v@.len(),
                line_end(v@, i as int) == line_end(v@, e as int),
            decreases n - e,
        {
            e += 1;
        }
        proof {
            lemma_line_end_bounds(v@, i as int);
        }
        let stop = if e < n && e > i && v[e - 1] == '\r' {
            e - 1
        } else {
            e
        };
        let mut line: Vec<char> = Vec::new();
        let mut k: usize = i;
        while k < stop
            invariant
                i <= k <= stop <= e <= n == v@.len(),
                line@ == v@.subrange(i as int, k as int),
            decreases stop - k,
        {
            line.push(v[k]);
            assert(v@.subrange(i as int, k + 1) == v@.subrange(i as int, k as int).push(
                v@[k as int],
            ));
            k += 1;
        }
        assert(line@ == line_at(v@, i as int));
        proof {
            let l = line_at(v@, i as int);
            assert(lines_from(v@, i as int) == seq![l] + lines_from(v@, e + 1));
            assert(done + lines_from(v@, i as int) == done.push(l) + lines_from(v@, e + 1));
            done = done.push(l);
        }
        out.push(line);
        if e < n {
            i = e + 1;
        } else {
            assert(lines_from(v@, n as int) == Seq::<Seq<char>>::empty());
            assert(done + lines_from(v@, n as int) == done);
            i = n;
        }
    }
    assert(lines_from(v@, i as int) == Seq::<Seq<char>>::empty());
    assert(lines(v@) == done);
    out
}

// ---------------------------------------------------------------- numbers
/// The character of a decimal digit.
pub open spec fn digit_char(d: nat) -> char {
    ((d + 48) as u32) as char
}

/// The decimal digits of `n`, without leading zeros.
pub open spec fn decimal(n: nat) -> Seq<char>
    decreases n,
{
    if n < 10 {
        seq![digit_char(n)]
    } else {
        decimal(n / 10).push(digit_char(n % 10))
    }
}

/// The decimal form of a signed number: a `'-'` before the digits of a
/// negative one.
pub open spec fn decimal_signed(n: int) -> Seq<char> {
    if n < 0 {
        seq!['-'] + decimal((-n) as nat)
    } else {
        decimal(n as nat)
    }
}

fn digit_of(d: u64) -> (c: char)
    requires
        d < 10,
    ensures
        c == digit_char(d as nat),
{
    let b = (d as u8) + 48;
    b as char
}

/// Appends the decimal digits of `n` to `out`.
pub fn push_decimal(out: &mut String, n: u64)
    ensures
        final(out)@ == old(out)@ + decimal(n as nat),
    decreases n,
{
    if n >= 10 {
        push_decimal(out, n / 10);
    }
    push_char(out, digit_of(n % 10));
    assert(old(out)@ + decimal(n as nat) == if n >= 10 {
        old(out)@ + decimal((n / 10) as nat) + seq![digit_char((n % 10) as nat)]
    } else {
        old(out)@ + seq![digit_char((n % 10) as nat)]
    });
}

/// The decimal form of `n`.
pub fn u64_to_decimal(n: u64) -> (r: String)
    ensures
        r@ == decimal(n as nat),
{
    let mut out = String::new();
    push_decimal(&mut out, n);
    assert(Seq::<char>::empty() + decimal(n as nat) == decimal(n as nat));
    out
}

/// The decimal form of `n`, with a `'-'` where it is negative.
pub fn i64_to_decimal(n: i64) -> (r: String)
    ensures
        r@ == decimal_signed(n as int),
{
    let mut out = String::new();
    if n < 0 {
        push_char(&mut out, '-');
        let m: u64 = if n == i64::MIN {
            9_223_372_036_854_775_808u64
        } else {
            (-n) as u64
        };
        push_decimal(&mut out, m);
    } else {
        push_decimal(&mut out, n as u64);
        assert(Seq::<char>::empty() + decimal(n as nat) == decimal(n as nat));
    }
    out
}

/// Whether every character of `s` is an ASCII digit.
pub open spec fn all_digits(s: Seq<char>) -> bool {
    forall|k: int| 0 <= k < s.len() ==> 48 <= #[trigger] (s[k] as u32) <= 57
}

/// The number the decimal digits of `s` spell.
pub open spec fn digits_value(s: Seq<char>) -> int
    decreases s.len(),
{
    if s.len() == 0 {
        0
    } else {
        digits_value(s.drop_last()) * 10 + ((s.last() as u32) - 48)
    }
}

/// What `str::parse::<i64>` gives for `s`: an optional `'+'` or `'-'`, then
/// one or more ASCII digits, and a value in range; otherwise nothing.
pub open spec fn parse_i64(s: Seq<char>) -> Option<i64> {
    let signed = s.len() > 0 && (s[0] == '-' || s[0] == '+');
    let digits = if signed { s.drop_first() } else { s };
    let magnitude = digits_value(digits);
    let value = if signed && s[0] == '-' { -magnitude } else { magnitude };
    if digits.len() == 0 || !all_digits(digits) || value < i64::MIN || value > i64::MAX {
        None
    } else {
        Some(value as i64)
    }
}

proof fn lemma_digits_value_nonneg(s: Seq<char>)
    requires
        all_digits(s),
    ensures
        digits_value(s) >= 0,
    decreases s.len(),
{
    if s.len() > 0 {
        assert(all_digits(s.drop_last()));
        lemma_digits_value_nonneg(s.drop_last());
    }
}

/// Parses `v` as `str::parse::<i64>` does.
pub fn parse_i64_exec(v: &[char]) -> (r: Option<i64>)
    ensures
        r == parse_i64(v@),
{
    let n = v.len();
    let signed = n > 0 && (v[0] == '-' || v[0] == '+');
    let negative = signed && v[0] == '-';
    let start: usize = if signed { 1 } else { 0 };
    let ghost digits = if signed { v@.drop_first() } else { v@ };
    if start == n {
        return None;
    }
    // the magnitude, saturated at one past the largest one in range
    let limit: u128 = 9_223_372_036_854_775_809;
    let mut acc: u128 = 0;
    let mut i: usize = start;
    assert(digits == v@.subrange(start as int, n as int));
    while i < n
        invariant
            start <= i <= n == v@.len(),
            start == 0 || start == 1,
            limit == 9_223_372_036_854_775_809,
            signed == (v@.len() > 0 && (v@[0] == '-' || v@[0] == '+')),
            start == (if signed { 1int } else { 0int }),
            digits == (if signed { v@.drop_first() } else { v@ }),
            digits == v@.subrange(start as int, n as int),
            all_digits(v@.subrange(start as int, i as int)),
            acc == if digits_value(v@.subrange(start as int, i as int)) < limit {
                digits_value(v@.subrange(start as int, i as int))
            } else {
                limit as int
            },
        decreases n - i,
    {
        let c = v[i];
        let cu = c as u32;
        if !(48 <= cu && cu <= 57) {
            assert(!all_digits(digits)) by {
                assert(digits[(i - start) as int] == c);
            }
            return None;
        }
        let d = (cu - 48) as u128;
        let ghost pre = v@.subrange(start as int, i as int);
        let ghost next = v@.subrange(start as int, i + 1);
        assert(next.drop_last() == pre);
        assert(all_digits(next));
        proof {
            lemma_digits_value_nonneg(pre);
        }
        if acc >= limit {
            acc = limit;
        } else {
            let t = acc * 10 + d;
            acc = if t < limit { t } else { limit };
        }
        i += 1;
    }
    assert(v@.subrange(start as int, n as int) == digits);
    if negative {
        if acc > 9_223_372_036_854_775_808 {
            None
        } else if acc == 9_223_372_036_854_775_808 {
            Some(i64::MIN)
        } else {
            Some(-(acc as i64))
        }
    } else {
        if acc > 9_223_372_036_854_775_807 {
            None
        } else {
            Some(acc as i64)
        }
    }
}

// ---------------------------------------------------------------- trim laws
proof fn lemma_trim_end_prefix(s: Seq<char>)
    ensures
        trim_end(s).len() <= s.len(),
        trim_end(s) == s.take(trim_end(s).len() as int),
        trim_end(s).len() == 0 || !is_whitespace(trim_end(s).last()),
    decreases s.len(),
{
    if s.len() > 0 && is_whitespace(s.last()) {
        lemma_trim_end_prefix(s.drop_last());
        let t = trim_end(s.drop_last());
        assert(s.drop_last().take(t.len() as int) == s.take(t.len() as int));
    } else {
        assert(s.take(s.len() as int) == s);
    }
}

proof fn lemma_trim_start_suffix(s: Seq<char>)
    ensures
        trim_start(s).len() == 0 || !is_whitespace(trim_start(s)[0]),
    decreases s.len(),
{
    if s.len() > 0 && is_whitespace(s[0]) {
        lemma_trim_start_suffix(s.drop_first());
    }
}

/// `trim` leaves a trimmed text as it is.
pub proof fn lemma_trim_idempotent(s: Seq<char>)
    ensures
        trim(trim(s)) == trim(s),
        trim(s).len() == 0 || (!is_whitespace(trim(s)[0]) && !is_whitespace(trim(s).last())),
{
    let u = trim_start(s);
    lemma_trim_start_suffix(s);
    lemma_trim_end_prefix(u);
    let w = trim_end(u);
    if w.len() > 0 {
        assert(w[0] == u[0]);
    }
    assert(trim_start(w) == w);
    assert(trim_end(w) == w);
}

/// Lower-casing changes no whitespace, so a trimmed text stays trimmed.
pub proof fn lemma_lower_keeps_trimmed(s: Seq<char>)
    requires
        trim(s) == s,
    ensures
        trim(ascii_lower(s)) == ascii_lower(s),
        ascii_lower(ascii_lower(s)) == ascii_lower(s),
{
    lemma_trim_idempotent(s);
    let l = ascii_lower(s);
    if l.len() > 0 {
        assert(!is_whitespace(l[0]));
        assert(!is_whitespace(l.last()));
    }
    assert(trim_start(l) == l);
    assert(trim_end(l) == l);
    assert(ascii_lower(l) =~= l);
}

/// Trimming the start of `x + t` trims `x`, and reaches into `t` only where `x`
/// is all whitespace.
proof fn lemma_trim_start_append(x: Seq<char>, t: Seq<char>)
    ensures
        trim_start(x + t) == if trim_start(x).len() > 0 {
            trim_start(x) + t
        } else {
            trim_start(t)
        },
    decreases x.len(),
{
    if x.len() == 0 {
        assert(x + t =~= t);
    } else {
        assert((x + t)[0] == x[0]);
        if is_whitespace(x[0]) {
            assert((x + t).drop_first() =~= x.drop_first() + t);
            lemma_trim_start_append(x.drop_first(), t);
        }
    }
}

/// A whitespace character at the end changes nothing once trimmed.
pub proof fn lemma_trim_drops_trailing_space(x: Seq<char>, c: char)
    requires
        is_whitespace(c),
    ensures
        trim(x.push(c)) == trim(x),
{
    lemma_trim_start_append(x, seq![c]);
    assert(x.push(c) =~= x + seq![c]);
    if trim_start(x).len() > 0 {
        let u = trim_start(x);
        assert((u + seq![c]).drop_last() =~= u);
    } else {
        assert(seq![c].drop_first() =~= Seq::<char>::empty());
        assert(trim_start(seq![c]) == trim_start(Seq::<char>::empty()));
    }
}

/// A whitespace character at the start changes nothing once trimmed.
pub proof fn lemma_trim_drops_leading_space(x: Seq<char>, c: char)
    requires
        is_whitespace(c),
    ensures
        trim(seq![c] + x) == trim(x),
{
    assert((seq![c] + x).drop_first() =~= x);
}

proof fn lemma_upper_keeps_whitespace(c: char)
    ensures
        is_whitespace(ascii_upper_char(c)) == is_whitespace(c),
        ascii_lower_char(ascii_upper_char(c)) == ascii_lower_char(c),
{
    if 'a' <= c <= 'z' {
        let u = ((c as u32) - 32) as char;
        assert(u as u32 == (c as u32) - 32);
        assert('A' <= u <= 'Z');
        assert((((u as u32) + 32) as char) == c);
    }
}

proof fn lemma_trim_start_upper(s: Seq<char>)
    ensures
        trim_start(ascii_upper(s)) == ascii_upper(trim_start(s)),
    decreases s.len(),
{
    if s.len() > 0 {
        lemma_upper_keeps_whitespace(s[0]);
        assert(ascii_upper(s).drop_first() =~= ascii_upper(s.drop_first()));
        lemma_trim_start_upper(s.drop_first());
    }
}

proof fn lemma_trim_end_upper(s: Seq<char>)
    ensures
        trim_end(ascii_upper(s)) == ascii_upper(trim_end(s)),
    decreases s.len(),
{
    if s.len() > 0 {
        lemma_upper_keeps_whitespace(s.last());
        assert(ascii_upper(s).drop_last() =~= ascii_upper(s.drop_last()));
        lemma_trim_end_upper(s.drop_last());
    }
}

/// Trimming and then ASCII lower-casing a text ignores whitespace around it
/// and the ASCII case of its letters: a space on each side and upper-casing
/// give the same result.
pub proof fn lemma_lower_trim_ignores_case_and_spaces(s: Seq<char>)
    ensures
        ascii_lower(trim(seq![' '] + ascii_upper(s) + seq![' '])) == ascii_lower(trim(s)),
{
    let u = ascii_upper(s);
    assert(is_whitespace(' '));
    assert((seq![' '] + u + seq![' ']) =~= (seq![' '] + u).push(' '));
    lemma_trim_drops_trailing_space(seq![' '] + u, ' ');
    lemma_trim_drops_leading_space(u, ' ');
    lemma_trim_start_upper(s);
    lemma_trim_end_upper(trim_start(s));
    let t = trim(s);
    assert forall|i: int| 0 <= i < t.len() implies #[trigger] ascii_lower(ascii_upper(t))[i]
        == ascii_lower(t)[i] by {
        lemma_upper_keeps_whitespace(t[i]);
    }
    assert(ascii_lower(ascii_upper(t)) =~= ascii_lower(t));
}

// ---------------------------------------------------------------- line laws
proof fn lemma_line_end_in_prefix(p: Seq<char>, q: Seq<char>, i: int)
    requires
        0 <= i < p.len(),
        p.last() == '\n',
    ensures
        line_end(p + q, i) == line_end(p, i),
        line_end(p, i) < p.len(),
    decreases p.len() - i,
{
    assert((p + q)[i] == p[i]);
    if p[i] != '\n' {
        assert(i + 1 < p.len());
        lemma_line_end_in_prefix(p, q, i + 1);
    }
}

proof fn lemma_line_end_in_suffix(p: Seq<char>, q: Seq<char>, j: int)
    requires
        0 <= j <= q.len(),
    ensures
        line_end(p + q, p.len() + j) == p.len() + line_end(q, j),
    decreases q.len() - j,
{
    if j < q.len() {
        assert((p + q)[p.len() + j] == q[j]);
        if q[j] != '\n' {
            lemma_line_end_in_suffix(p, q, j + 1);
        }
    }
}

proof fn lemma_lines_from_suffix(p: Seq<char>, q: Seq<char>, j: int)
    requires
        0 <= j,
    ensures
        lines_from(p + q, p.len() + j) == lines_from(q, j),
    decreases q.len() + 1 - j,
{
    if j < q.len() {
        let s = p + q;
        lemma_line_end_in_suffix(p, q, j);
        lemma_line_end_bounds(q, j);
        let e = line_end(q, j);
        if e > j {
            assert(s[p.len() + e - 1] == q[e - 1]);
        }
        assert(s.subrange(p.len() + j, p.len() + e) =~= q.subrange(j, e));
        if e > j {
            assert(s.subrange(p.len() + j, p.len() + e - 1) =~= q.subrange(j, e - 1));
        }
        assert(line_at(s, p.len() + j) == line_at(q, j));
        lemma_lines_from_suffix(p, q, e + 1);
    }
}

proof fn lemma_lines_from_concat(p: Seq<char>, q: Seq<char>, i: int)
    requires
        0 <= i <= p.len(),
        p.len() == 0 || p.last() == '\n',
    ensures
        lines_from(p + q, i) == lines_from(p, i) + lines_from(q, 0),
    decreases p.len() - i,
{
    if i == p.len() {
        lemma_lines_from_suffix(p, q, 0);
        assert(lines_from(p, i) + lines_from(q, 0) =~= lines_from(q, 0));
    } else {
        let s = p + q;
        lemma_line_end_in_prefix(p, q, i);
        lemma_line_end_bounds(p, i);
        let e = line_end(p, i);
        if e > i {
            assert(s[e - 1] == p[e - 1]);
        }
        assert(s.subrange(i, e) =~= p.subrange(i, e));
        if e > i {
            assert(s.subrange(i, e - 1) =~= p.subrange(i, e - 1));
        }
        assert(line_at(s, i) == line_at(p, i));
        lemma_lines_from_concat(p, q, e + 1);
        assert(seq![line_at(p, i)] + lines_from(p, e + 1) + lines_from(q, 0) =~= seq![
            line_at(p, i),
        ] + (lines_from(p, e + 1) + lines_from(q, 0)));
    }
}

/// The lines of a text that ends a line, followed by another text, are the
/// lines of the first followed by those of the second.
pub proof fn lemma_lines_concat(p: Seq<char>, q: Seq<char>)
    requires
        p.len() == 0 || p.last() == '\n',
    ensures
        lines(p + q) == lines(p) + lines(q),
{
    lemma_lines_from_concat(p, q, 0);
}

/// A text of one line with its line ending has that one line, without a
/// `'\r'` before the ending.
pub proof fn lemma_lines_single(l: Seq<char>)
    requires
        forall|k: int| 0 <= k < l.len() ==> l[k] != '\n',
    ensures
        lines(l.push('\n')) == seq![
            if l.len() > 0 && l.last() == '\r' {
                l.drop_last()
            } else {
                l
            },
        ],
{
    let s = l.push('\n');
    lemma_line_end_bounds(s, 0);
    assert(s[l.len() as int] == '\n');
    if line_end(s, 0) < l.len() {
        assert(s[line_end(s, 0)] == l[line_end(s, 0)]);
    }
    assert(line_end(s, 0) == l.len());
    assert(s.subrange(0, l.len() as int) =~= l);
    if l.len() > 0 {
        assert(s.subrange(0, l.len() - 1) =~= l.drop_last());
    }
    assert(lines_from(s, (l.len() + 1) as int) =~= Seq::<Seq<char>>::empty());
}

/// A text splits into the part up to and including its last `'\n'` (empty
/// where it has none) and its unended last line.
pub proof fn lemma_split_last_line(p: Seq<char>) -> (r: (Seq<char>, Seq<char>))
    ensures
        p == r.0 + r.1,
        r.0.len() == 0 || r.0.last() == '\n',
        forall|k: int| 0 <= k < r.1.len() ==> r.1[k] != '\n',
    decreases p.len(),
{
    if p.len() == 0 {
        assert(p =~= Seq::<char>::empty() + Seq::<char>::empty());
        (Seq::empty(), Seq::empty())
    } else if p.last() == '\n' {
        assert(p =~= p + Seq::<char>::empty());
        (p, Seq::empty())
    } else {
        let (a, b) = lemma_split_last_line(p.drop_last());
        let b2 = b.push(p.last());
        assert(p =~= p.drop_last().push(p.last()));
        assert((a + b).push(p.last()) =~= a + b2);
        assert forall|k: int| 0 <= k < b2.len() implies b2[k] != '\n' by {
            if k < b.len() {
                assert(b2[k] == b[k]);
            }
        }
        (a, b2)
    }
}

/// A text with no `'\n'` is one line, or none where it is empty.
pub proof fn lemma_lines_unended(l: Seq<char>)
    requires
        forall|k: int| 0 <= k < l.len() ==> l[k] != '\n',
    ensures
        lines(l) == if l.len() == 0 {
            Seq::<Seq<char>>::empty()
        } else {
            seq![l]
        },
{
    if l.len() > 0 {
        lemma_line_end_bounds(l, 0);
        assert(line_end(l, 0) == l.len());
        assert(l.subrange(0, l.len() as int) =~= l);
        assert(lines_from(l, (l.len() + 1) as int) =~= Seq::<Seq<char>>::empty());
        assert(seq![l] + Seq::<Seq<char>>::empty() =~= seq![l]);
    }
}

// ---------------------------------------------------------------- search laws
proof fn lemma_find_from_reaches(s: Seq<char>, pat: Seq<char>, i: int, k: int)
    requires
        0 <= i <= k,
        matches_at(s, pat, k),
    ensures
        find_from(s, pat, i) is Some,
    decreases k - i,
{
    if !matches_at(s, pat, i) {
        lemma_find_from_reaches(s, pat, i + 1, k);
    }
}

/// A text that holds `pat` between two other texts contains it.
pub proof fn lemma_contains_embedded(a: Seq<char>, pat: Seq<char>, b: Seq<char>)
    ensures
        contains(a + pat + b, pat),
{
    let s = a + pat + b;
    assert(s.subrange(a.len() as int, (a.len() + pat.len()) as int) =~= pat);
    lemma_find_from_reaches(s, pat, 0, a.len() as int);
}

/// ASCII lower-casing works character by character, so it distributes over
/// joining texts.
pub proof fn lemma_ascii_lower_concat(x: Seq<char>, y: Seq<char>)
    ensures
        ascii_lower(x + y) == ascii_lower(x) + ascii_lower(y),
{
    assert(ascii_lower(x + y) =~= ascii_lower(x) + ascii_lower(y));
}

// ---------------------------------------------------------------- number laws
proof fn lemma_decimal_digits(n: nat)
    ensures
        decimal(n).len() > 0,
        all_digits(decimal(n)),
        digits_value(decimal(n)) == n,
    decreases n,
{
    if n < 10 {
        let c = digit_char(n);
        assert(c as u32 == n + 48);
        assert(seq![c].drop_last() =~= Seq::<char>::empty());
        assert(digits_value(seq![c]) == digits_value(Seq::<char>::empty()) * 10 + ((c as u32) - 48));
    } else {
        lemma_decimal_digits(n / 10);
        let c = digit_char(n % 10);
        assert(c as u32 == n % 10 + 48);
        let d = decimal(n / 10);
        assert(d.push(c).drop_last() =~= d);
        assert(forall|k: int| 0 <= k < d.len() ==> #[trigger] d.push(c)[k] == d[k]);
        assert((n / 10) * 10 + n % 10 == n) by (nonlinear_arith);
        assert(decimal(n) == d.push(c));
        assert(digits_value(d.push(c)) == digits_value(d) * 10 + ((c as u32) - 48));
    }
}

/// The decimal form of a number reads back, trimmed and parsed as an `i64`,
/// as that number.
pub proof fn lemma_decimal_parses_back(n: i64)
    ensures
        parse_i64(trim(decimal_signed(n as int))) == Some(n),
{
    let s = decimal_signed(n as int);
    if n < 0 {
        let m = (-(n as int)) as nat;
        lemma_decimal_digits(m);
        let d = decimal(m);
        assert(s.drop_first() =~= d);
        assert(s.last() == d.last());
        assert(48 <= (d.last() as u32) <= 57);
        assert(s[0] == '-');
    } else {
        lemma_decimal_digits(n as nat);
        assert(48 <= (s[0] as u32) <= 57);
        assert(48 <= (s.last() as u32) <= 57);
        assert(s[0] != '-' && s[0] != '+');
    }
    assert(!is_whitespace(s[0]));
    assert(!is_whitespace(s.last()));
    assert(trim_start(s) == s);
    assert(trim_end(s) == s);
}

} // verus!
