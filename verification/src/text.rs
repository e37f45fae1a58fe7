//! Character and string helpers, each tied to a spec function that states its
//! meaning over `Seq<char>`.

use vstd::prelude::*;

verus! {

/// ASCII lowercase of one character; every other character is unchanged.
pub open spec fn ascii_lower(c: char) -> char {
    if 'A' <= c && c <= 'Z' {
        ((c as u32) + 32) as char
    } else {
        c
    }
}

/// A sequence of characters lowercased in the ASCII range only.
pub open spec fn lower_seq(s: Seq<char>) -> Seq<char> {
    s.map_values(|c: char| ascii_lower(c))
}

/// Equality up to ASCII case (`str::eq_ignore_ascii_case`).
pub open spec fn eq_ignore_ascii_case(a: Seq<char>, b: Seq<char>) -> bool {
    &&& a.len() == b.len()
    &&& forall|i: int| 0 <= i < a.len() ==> ascii_lower(#[trigger] a[i]) == ascii_lower(b[i])
}

/// `p` occurs in `s` as a contiguous run.
pub open spec fn has_substring(s: Seq<char>, p: Seq<char>) -> bool {
    exists|i: int| 0 <= i && i + p.len() <= s.len() && #[trigger] s.subrange(i, i + p.len()) == p
}

/// `s` begins with `p`.
pub open spec fn starts_with(s: Seq<char>, p: Seq<char>) -> bool {
    p.len() <= s.len() && s.subrange(0, p.len() as int) == p
}

/// `s` ends with `p`.
pub open spec fn ends_with(s: Seq<char>, p: Seq<char>) -> bool {
    p.len() <= s.len() && s.subrange(s.len() - p.len(), s.len() as int) == p
}

/// `s` with every trailing repetition of a non-empty `p` removed
/// (`str::trim_end_matches` with a string pattern).
pub open spec fn trim_end_matches(s: Seq<char>, p: Seq<char>) -> Seq<char>
    decreases s.len(),
{
    if p.len() > 0 && ends_with(s, p) {
        trim_end_matches(s.subrange(0, s.len() - p.len()), p)
    } else {
        s
    }
}

/// An ASCII decimal digit.
pub open spec fn is_digit(c: char) -> bool {
    '0' <= c && c <= '9'
}

/// The value of one decimal digit character.
pub open spec fn digit_value(c: char) -> nat {
    ((c as u32) - ('0' as u32)) as nat
}

/// Every character of `s` is a decimal digit.
pub open spec fn all_digits(s: Seq<char>) -> bool {
    forall|i: int| 0 <= i < s.len() ==> is_digit(#[trigger] s[i])
}

/// The number a string of decimal digits denotes (most significant first).
pub open spec fn digits_value(s: Seq<char>) -> nat
    decreases s.len(),
{
    if s.len() == 0 {
        0
    } else {
        digits_value(s.drop_last()) * 10 + digit_value(s.last())
    }
}

/// The character of a single decimal digit.
pub open spec fn digit_char(d: nat) -> char {
    (('0' as u32) + d) as char
}

/// The shortest decimal spelling of `n`.
pub open spec fn decimal(n: nat) -> Seq<char>
    decreases n,
{
    if n < 10 {
        seq![digit_char(n)]
    } else {
        decimal(n / 10).push(digit_char(n % 10))
    }
}

/// The decimal spelling of a signed integer, with `-` before negatives.
pub open spec fn signed_decimal(n: int) -> Seq<char> {
    if n < 0 {
        seq!['-'] + decimal((-n) as nat)
    } else {
        decimal(n as nat)
    }
}

/// What `str::parse::<u32>` accepts: an optional `+`, then at least one
/// decimal digit and nothing else, denoting a value that fits in `u32`.
pub open spec fn parse_u32(s: Seq<char>) -> Option<u32> {
    let d = if s.len() > 0 && s[0] == '+' { s.drop_first() } else { s };
    if d.len() > 0 && all_digits(d) && digits_value(d) <= u32::MAX {
        Some(digits_value(d) as u32)
    } else {
        None
    }
}

/// Lowercases one character the way `char::to_ascii_lowercase` does.
pub fn char_to_ascii_lower(c: char) -> (r: char)
    ensures
        r == ascii_lower(c),
{
    if 'A' <= c && c <= 'Z' {
        let u: u32 = c as u32;
        let l: u8 = (u + 32) as u8;
        l as char
    } else {
        c
    }
}

/// Appends one character to a string: a call of `String::push`. Trusted: the
/// string's characters afterwards are the old ones followed by `c`.
#[verifier::external_body]
pub(crate) fn push_char(s: &mut String, c: char)
    ensures
        final(s)@ == old(s)@.push(c),
{
    s.push(c);
}

/// The characters of a string slice, in order.
pub fn chars_of(s: &str) -> (v: Vec<char>)
    ensures
        v@ == s@,
{
    let n = s.unicode_len();
    let mut v: Vec<char> = Vec::new();
    let mut i: usize = 0;
    while i < n
        invariant
            n == s@.len(),
            i <= n,
            v@ == s@.subrange(0, i as int),
        decreases n - i,
    {
        v.push(s.get_char(i));
        i = i + 1;
    }
    assert(v@ == s@);
    v
}

/// A string holding exactly the characters `v[from..to]`.
pub fn string_from_chars(v: &Vec<char>, from: usize, to: usize) -> (s: String)
    requires
        from <= to <= v@.len(),
    ensures
        s@ == v@.subrange(from as int, to as int),
{
    let mut s = String::new();
    let mut i: usize = from;
    while i < to
        invariant
            from <= i <= to <= v@.len(),
            s@ == v@.subrange(from as int, i as int),
        decreases to - i,
    {
        push_char(&mut s, v[i]);
        i = i + 1;
        assert(s@ == v@.subrange(from as int, i as int));
    }
    s
}

/// An owned copy of a string slice.
pub fn owned(s: &str) -> (r: String)
    ensures
        r@ == s@,
{
    String::from_str(s)
}

/// An owned copy of a string.
pub fn copy_string(s: &String) -> (r: String)
    ensures
        r@ == s@,
{
    s.clone()
}

/// `s` followed by `t`.
pub fn concat(s: &str, t: &str) -> (r: String)
    ensures
        r@ == s@ + t@,
{
    let mut r = String::from_str(s);
    r.append(t);
    r
}

/// Exact equality of two string slices.
pub fn str_eq(a: &str, b: &str) -> (r: bool)
    ensures
        r == (a@ == b@),
{
    let x = String::from_str(a);
    let y = String::from_str(b);
    x == y
}

/// ASCII case-insensitive equality (`str::eq_ignore_ascii_case`).
pub fn str_eq_ignore_ascii_case(a: &str, b: &str) -> (r: bool)
    ensures
        r == eq_ignore_ascii_case(a@, b@),
{
    let x = chars_of(a);
    let y = chars_of(b);
    if x.len() != y.len() {
        return false;
    }
    let mut i: usize = 0;
    while i < x.len()
        invariant
            x@ == a@,
            y@ == b@,
            x@.len() == y@.len(),
            i <= x@.len(),
            forall|j: int| 0 <= j < i ==> ascii_lower(#[trigger] x@[j]) == ascii_lower(y@[j]),
        decreases x@.len() - i,
    {
        if char_to_ascii_lower(x[i]) != char_to_ascii_lower(y[i]) {
            return false;
        }
        i = i + 1;
    }
    true
}

/// The ASCII-lowercased copy of a string (`str::to_ascii_lowercase`).
pub fn to_ascii_lowercase(s: &str) -> (r: String)
    ensures
        r@ == lower_seq(s@),
{
    let v = chars_of(s);
    let mut r = String::new();
    let mut i: usize = 0;
    while i < v.len()
        invariant
            v@ == s@,
            i <= v@.len(),
            r@ == lower_seq(s@.subrange(0, i as int)),
        decreases v@.len() - i,
    {
        let c = char_to_ascii_lower(v[i]);
        push_char(&mut r, c);
        i = i + 1;
        assert(lower_seq(s@.subrange(0, i as int)) == lower_seq(s@.subrange(0, (i - 1) as int)).push(c));
    }
    assert(s@.subrange(0, v@.len() as int) == s@);
    r
}

/// Whether `p` occurs in `s` (`str::contains` with a string pattern).
pub fn contains(s: &Vec<char>, p: &Vec<char>) -> (r: bool)
    ensures
        r == has_substring(s@, p@),
{
    if p.len() > s.len() {
        return false;
    }
    if p.len() == 0 {
        assert(s@.subrange(0int, 0int + p@.len()) =~= p@);
        return true;
    }
    let n = s.len();
    let last = n - p.len();
    let mut i: usize = 0;
    while i <= last
        invariant
            n == s@.len(),
            p@.len() > 0,
            last == s@.len() - p@.len(),
            i <= last + 1,
            forall|k: int| 0 <= k < i ==> #[trigger] s@.subrange(k, k + p@.len()) != p@,
        decreases last + 1 - i,
    {
        if matches_at(s, p, i) {
            assert(s@.subrange(i as int, i + p@.len()) == p@);
            return true;
        }
        i = i + 1;
    }
    assert forall|k: int| 0 <= k && k + p@.len() <= s@.len() implies #[trigger] s@.subrange(k, k + p@.len()) != p@ by {
        assert(k < i);
    }
    false
}

/// Whether `p` occurs in `s` starting at index `at`.
pub fn matches_at(s: &Vec<char>, p: &Vec<char>, at: usize) -> (r: bool)
    requires
        at + p@.len() <= s@.len(),
    ensures
        r == (s@.subrange(at as int, at + p@.len()) == p@),
{
    let n = s.len();
    let mut j: usize = 0;
    while j < p.len()
        invariant
            n == s@.len(),
            at + p@.len() <= s@.len(),
            j <= p@.len(),
            forall|k: int| 0 <= k < j ==> s@[at + k] == #[trigger] p@[k],
        decreases p@.len() - j,
    {
        assert(at + j < s@.len());
        if s[at + j] != p[j] {
            assert(s@.subrange(at as int, at + p@.len())[j as int] != p@[j as int]);
            return false;
        }
        j = j + 1;
    }
    assert(s@.subrange(at as int, at + p@.len()) =~= p@);
    true
}

/// Whether `s` begins with `p`.
pub fn has_prefix(s: &Vec<char>, p: &Vec<char>) -> (r: bool)
    ensures
        r == starts_with(s@, p@),
{
    if p.len() > s.len() {
        return false;
    }
    matches_at(s, p, 0)
}

/// Whether `s[..len]` ends with `p`.
pub fn has_suffix_within(s: &Vec<char>, len: usize, p: &Vec<char>) -> (r: bool)
    requires
        len <= s@.len(),
    ensures
        r == ends_with(s@.subrange(0, len as int), p@),
{
    if p.len() > len {
        return false;
    }
    let r = matches_at(s, p, len - p.len());
    assert(s@.subrange(0, len as int).subrange(len - p@.len(), len as int) =~= s@.subrange(
        len - p@.len(),
        len as int,
    ));
    r
}

/// `s` without every trailing repetition of `p` (`str::trim_end_matches`).
pub fn trim_end_matches_str(s: &str, p: &str) -> (r: String)
    ensures
        r@ == trim_end_matches(s@, p@),
{
    let v = chars_of(s);
    let q = chars_of(p);
    let mut len: usize = v.len();
    assert(v@.subrange(0, len as int) =~= s@);
    if q.len() > 0 {
        while has_suffix_within(&v, len, &q)
            invariant
                v@ == s@,
                q@ == p@,
                q@.len() > 0,
                len <= v@.len(),
                trim_end_matches(s@, p@) == trim_end_matches(v@.subrange(0, len as int), p@),
            decreases len,
        {
            assert(v@.subrange(0, len as int).subrange(0, len - q@.len()) =~= v@.subrange(
                0,
                len - q@.len(),
            ));
            len = len - q.len();
        }
    }
    string_from_chars(&v, 0, len)
}

/// The rest of `s` after a leading `p`, if `s` begins with `p`
/// (`str::strip_prefix`).
pub fn strip_prefix_str(s: &str, p: &str) -> (r: Option<String>)
    ensures
        r is Some <==> starts_with(s@, p@),
        r matches Some(t) ==> t@ == s@.subrange(p@.len() as int, s@.len() as int),
{
    let v = chars_of(s);
    let q = chars_of(p);
    if has_prefix(&v, &q) {
        Some(string_from_chars(&v, q.len(), v.len()))
    } else {
        None
    }
}

/// Appends the decimal spelling of `n` to `s`.
pub fn push_decimal(s: &mut String, n: u64)
    ensures
        final(s)@ == old(s)@ + decimal(n as nat),
    decreases n,
{
    if n >= 10 {
        push_decimal(s, n / 10);
    }
    let d: u64 = n % 10;
    let c: char = ((d as u8) + 48u8) as char;
    push_char(s, c);
    assert(c == digit_char((n % 10) as nat));
    if n < 10 {
        assert(decimal(n as nat) == seq![digit_char(n as nat)]);
        assert(old(s)@ + decimal(n as nat) =~= old(s)@.push(c));
    } else {
        assert(old(s)@ + decimal(n as nat) =~= (old(s)@ + decimal((n / 10) as nat)).push(c));
    }
}

/// The decimal spelling of an unsigned integer (`u64::to_string`).
pub fn u64_to_decimal(n: u64) -> (r: String)
    ensures
        r@ == decimal(n as nat),
{
    let mut s = String::new();
    push_decimal(&mut s, n);
    assert(s@ =~= decimal(n as nat));
    s
}

/// The decimal spelling of a signed integer (`i32::to_string`).
pub fn i32_to_decimal(n: i32) -> (r: String)
    ensures
        r@ == signed_decimal(n as int),
{
    let mut s = String::new();
    if n < 0 {
        push_char(&mut s, '-');
        let m: u64 = (0i64 - (n as i64)) as u64;
        push_decimal(&mut s, m);
    } else {
        push_decimal(&mut s, n as u64);
        assert(s@ =~= decimal(n as nat));
    }
    s
}

/// Parses a decimal `u32` exactly as `str::parse::<u32>` does.
pub fn parse_u32_str(s: &str) -> (r: Option<u32>)
    ensures
        r == parse_u32(s@),
{
    let v = chars_of(s);
    let start: usize = if v.len() > 0 && v[0] == '+' { 1 } else { 0 };
    let ghost d = if s@.len() > 0 && s@[0] == '+' { s@.drop_first() } else { s@ };
    assert(d =~= v@.subrange(start as int, v@.len() as int));
    if start >= v.len() {
        assert(d.len() == 0);
        return None;
    }
    let cap: u64 = 0x1_0000_0000;
    let mut acc: u64 = 0;
    let mut i: usize = start;
    while i < v.len()
        invariant
            v@ == s@,
            start <= i <= v@.len(),
            d == v@.subrange(start as int, v@.len() as int),
            d == (if s@.len() > 0 && s@[0] == '+' { s@.drop_first() } else { s@ }),
            cap == 0x1_0000_0000u64,
            all_digits(v@.subrange(start as int, i as int)),
            acc as int == if digits_value(v@.subrange(start as int, i as int)) < cap {
                digits_value(v@.subrange(start as int, i as int)) as int
            } else {
                cap as int
            },
        decreases v@.len() - i,
    {
        let c = v[i];
        if !('0' <= c && c <= '9') {
            assert(d[i - start] == c);
            assert(!is_digit(d[i - start]));
            return None;
        }
        let dv: u64 = ((c as u32) - 48u32) as u64;
        let ghost prev = v@.subrange(start as int, i as int);
        let ghost next = v@.subrange(start as int, i + 1);
        assert(next.drop_last() =~= prev);
        assert(next.last() == c);
        assert(digits_value(next) == digits_value(prev) * 10 + digit_value(c));
        let ghost pv = digits_value(prev) as int;
        let t: u64 = acc * 10 + dv;
        assert(dv as int == digit_value(c));
        assert(if pv < cap { t == pv * 10 + dv } else { t == cap * 10 + dv }) by (nonlinear_arith)
            requires
                acc as int == (if pv < cap { pv } else { cap as int }),
                t == acc * 10 + dv;
        assert(pv * 10 + dv >= cap <==> (if pv < cap { t >= cap } else { true })) by (nonlinear_arith)
            requires
                pv >= 0,
                dv >= 0,
                cap > 0,
                if pv < cap { t == pv * 10 + dv } else { t == cap * 10 + dv };
        acc = if t >= cap { cap } else { t };
        i = i + 1;
        assert(all_digits(next)) by {
            assert forall|k: int| 0 <= k < next.len() implies is_digit(#[trigger] next[k]) by {
                if k < prev.len() {
                    assert(next[k] == prev[k]);
                }
            }
        }
    }
    assert(v@.subrange(start as int, i as int) == d);
    if acc >= cap {
        None
    } else {
        Some(acc as u32)
    }
}

/// A Unicode `White_Space` character (`char::is_whitespace`).
pub open spec fn is_whitespace(c: char) -> bool {
    ||| ('\u{9}' <= c && c <= '\u{d}')
    ||| c == ' '
    ||| c == '\u{85}'
    ||| c == '\u{a0}'
    ||| c == '\u{1680}'
    ||| ('\u{2000}' <= c && c <= '\u{200a}')
    ||| c == '\u{2028}'
    ||| c == '\u{2029}'
    ||| c == '\u{202f}'
    ||| c == '\u{205f}'
    ||| c == '\u{3000}'
}

/// `s` without its leading whitespace.
pub open spec fn trim_start(s: Seq<char>) -> Seq<char>
    decreases s.len(),
{
    if s.len() > 0 && is_whitespace(s[0]) {
        trim_start(s.drop_first())
    } else {
        s
    }
}

/// `s` without its trailing whitespace.
pub open spec fn trim_end(s: Seq<char>) -> Seq<char>
    decreases s.len(),
{
    if s.len() > 0 && is_whitespace(s.last()) {
        trim_end(s.drop_last())
    } else {
        s
    }
}

/// `s` without leading and trailing whitespace (`str::trim`).
pub open spec fn trim(s: Seq<char>) -> Seq<char> {
    trim_end(trim_start(s))
}

/// Whether a character is Unicode white space.
pub fn char_is_whitespace(c: char) -> (r: bool)
    ensures
        r == is_whitespace(c),
{
    ('\u{9}' <= c && c <= '\u{d}') || c == ' ' || c == '\u{85}' || c == '\u{a0}' || c == '\u{1680}'
        || ('\u{2000}' <= c && c <= '\u{200a}') || c == '\u{2028}' || c == '\u{2029}' || c
        == '\u{202f}' || c == '\u{205f}' || c == '\u{3000}'
}

/// The bounds `[a, b)` of `trim(v)` inside `v`.
pub fn trim_bounds(v: &Vec<char>) -> (r: (usize, usize))
    ensures
        r.0 <= r.1 <= v@.len(),
        v@.subrange(r.0 as int, r.1 as int) == trim(v@),
{
    let n = v.len();
    let mut a: usize = 0;
    assert(v@.subrange(0, n as int) =~= v@);
    while a < n && char_is_whitespace(v[a])
        invariant
            n == v@.len(),
            a <= n,
            trim_start(v@) == trim_start(v@.subrange(a as int, n as int)),
        decreases n - a,
    {
        assert(v@.subrange(a as int, n as int).drop_first() =~= v@.subrange(a + 1, n as int));
        a = a + 1;
    }
    if a == n {
        assert(v@.subrange(a as int, n as int) =~= Seq::<char>::empty());
    }
    let ghost t = v@.subrange(a as int, n as int);
    assert(trim_start(v@) == t);
    let mut b: usize = n;
    while b > a && char_is_whitespace(v[b - 1])
        invariant
            n == v@.len(),
            a <= b <= n,
            t == v@.subrange(a as int, n as int),
            trim_end(t) == trim_end(v@.subrange(a as int, b as int)),
        decreases b,
    {
        assert(v@.subrange(a as int, b as int).drop_last() =~= v@.subrange(a as int, b - 1));
        b = b - 1;
    }
    (a, b)
}

/// An owned copy of `s` without leading and trailing whitespace.
pub fn trim_str(s: &str) -> (r: String)
    ensures
        r@ == trim(s@),
{
    let v = chars_of(s);
    let (a, b) = trim_bounds(&v);
    string_from_chars(&v, a, b)
}

/// The views of a list of strings.
pub open spec fn views(v: Seq<String>) -> Seq<Seq<char>> {
    v.map_values(|s: String| s@)
}

/// `parts` joined with `sep` between neighbours (`[String]::join`).
pub open spec fn join(parts: Seq<Seq<char>>, sep: Seq<char>) -> Seq<char>
    decreases parts.len(),
{
    if parts.len() == 0 {
        Seq::empty()
    } else if parts.len() == 1 {
        parts[0]
    } else {
        join(parts.drop_last(), sep) + sep + parts.last()
    }
}

/// The strings of `parts` joined with `sep` between neighbours.
pub fn join_strings(parts: &Vec<String>, sep: &str) -> (r: String)
    ensures
        r@ == join(views(parts@), sep@),
{
    let mut r = String::new();
    let mut i: usize = 0;
    while i < parts.len()
        invariant
            i <= parts@.len(),
            r@ == join(views(parts@.subrange(0, i as int)), sep@),
        decreases parts@.len() - i,
    {
        let ghost prev = views(parts@.subrange(0, i as int));
        let ghost next = views(parts@.subrange(0, i + 1));
        assert(next.drop_last() =~= prev);
        assert(next.last() == parts@[i as int]@);
        if i > 0 {
            r.append(sep);
        } else {
            assert(next =~= seq![parts@[0]@]);
        }
        r.append(parts[i].as_str());
        i = i + 1;
    }
    assert(parts@.subrange(0, i as int) =~= parts@);
    r
}

/// Lexicographic order of character sequences by code point, the order of
/// `str`'s `Ord` (UTF-8 keeps code point order byte for byte).
pub open spec fn seq_lt(a: Seq<char>, b: Seq<char>) -> bool
    decreases a.len(),
{
    if a.len() == 0 {
        b.len() > 0
    } else if b.len() == 0 {
        false
    } else if a[0] != b[0] {
        (a[0] as int) < (b[0] as int)
    } else {
        seq_lt(a.drop_first(), b.drop_first())
    }
}

/// `seq_lt` is a strict total order.
pub proof fn lemma_seq_lt_strict_total(a: Seq<char>, b: Seq<char>)
    ensures
        !seq_lt(a, a),
        seq_lt(a, b) ==> !seq_lt(b, a),
        a != b ==> seq_lt(a, b) || seq_lt(b, a),
    decreases a.len(),
{
    if a.len() > 0 {
        lemma_seq_lt_strict_total(a.drop_first(), a.drop_first());
        if b.len() > 0 {
            lemma_seq_lt_strict_total(a.drop_first(), b.drop_first());
            if a[0] == b[0] && a.drop_first() == b.drop_first() {
                assert(a =~= seq![a[0]] + a.drop_first());
                assert(b =~= seq![b[0]] + b.drop_first());
            }
        }
    } else if b.len() == 0 {
        assert(a =~= b);
    }
}

/// `seq_lt` is transitive.
pub proof fn lemma_seq_lt_transitive(a: Seq<char>, b: Seq<char>, c: Seq<char>)
    requires
        seq_lt(a, b),
        seq_lt(b, c),
    ensures
        seq_lt(a, c),
    decreases a.len(),
{
    if a.len() > 0 && b.len() > 0 && c.len() > 0 && a[0] == b[0] && b[0] == c[0] {
        lemma_seq_lt_transitive(a.drop_first(), b.drop_first(), c.drop_first());
    }
}

/// Whether `a` comes strictly before `b` in lexicographic order.
pub fn str_lt(a: &str, b: &str) -> (r: bool)
    ensures
        r == seq_lt(a@, b@),
{
    let x = chars_of(a);
    let y = chars_of(b);
    let mut i: usize = 0;
    assert(x@.subrange(0, x@.len() as int) =~= x@);
    assert(y@.subrange(0, y@.len() as int) =~= y@);
    while i < x.len() && i < y.len() && x[i] == y[i]
        invariant
            x@ == a@,
            y@ == b@,
            i <= x@.len(),
            i <= y@.len(),
            seq_lt(a@, b@) == seq_lt(x@.subrange(i as int, x@.len() as int), y@.subrange(
                i as int,
                y@.len() as int,
            )),
        decreases x@.len() - i,
    {
        let ghost xs = x@.subrange(i as int, x@.len() as int);
        let ghost ys = y@.subrange(i as int, y@.len() as int);
        assert(xs.drop_first() =~= x@.subrange(i + 1, x@.len() as int));
        assert(ys.drop_first() =~= y@.subrange(i + 1, y@.len() as int));
        i = i + 1;
    }
    let ghost xs = x@.subrange(i as int, x@.len() as int);
    let ghost ys = y@.subrange(i as int, y@.len() as int);
    if i == x.len() {
        i < y.len()
    } else if i == y.len() {
        false
    } else {
        assert(xs[0] == x@[i as int] && ys[0] == y@[i as int]);
        x[i] < y[i]
    }
}

/// Whether every character of `v[from..]` is a decimal digit.
pub fn all_digits_from(v: &Vec<char>, from: usize) -> (r: bool)
    requires
        from <= v@.len(),
    ensures
        r == all_digits(v@.subrange(from as int, v@.len() as int)),
{
    let mut i: usize = from;
    while i < v.len()
        invariant
            from <= i <= v@.len(),
            all_digits(v@.subrange(from as int, i as int)),
        decreases v@.len() - i,
    {
        if !('0' <= v[i] && v[i] <= '9') {
            assert(v@.subrange(from as int, v@.len() as int)[i - from] == v@[i as int]);
            return false;
        }
        i = i + 1;
        assert forall|k: int| 0 <= k < i - from implies is_digit(
            #[trigger] v@.subrange(from as int, i as int)[k],
        ) by {
            if k < i - from - 1 {
                assert(v@.subrange(from as int, i as int)[k] == v@.subrange(from as int, i - 1)[k]);
            }
        }
    }
    true
}

/// Whether every character of `s` is a decimal digit (true for "").
pub fn is_all_digits(s: &str) -> (r: bool)
    ensures
        r == all_digits(s@),
{
    let v = chars_of(s);
    assert(v@.subrange(0, v@.len() as int) =~= s@);
    all_digits_from(&v, 0)
}

} // verus!
