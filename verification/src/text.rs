//! Character-level text utilities with their mathematical meaning.
//!
//! Strings are handled as `Vec<char>` inside the library and converted at the
//! edges; every function here states its result as an exact `Seq<char>`.
use vstd::prelude::*;

verus! {

pub assume_specification[ String::push ](s: &mut String, ch: char)
    ensures
        final(s)@ == old(s)@.push(ch),
;

// ---------------------------------------------------------------------------
// Character classes
// ---------------------------------------------------------------------------
/// `char::is_whitespace`: the Unicode `White_Space` property.
pub open spec fn is_space(c: char) -> bool {
    ||| ('\u{9}' <= c && c <= '\u{d}')
    ||| c == ' '
    ||| c == '\u{85}'
    ||| c == '\u{a0}'
    ||| c == '\u{1680}'
    ||| ('\u{2000}' <= c && c <= '\u{200a}')
    ||| c == '\u{2028}'
    ||| c == '\u{2029}'
    ||| c == '\u{202f}'
    ||| c == '\u{205f}'
    ||| c == '\u{3000}'
}

pub open spec fn is_digit(c: char) -> bool {
    '0' <= c && c <= '9'
}

pub open spec fn is_lower_letter(c: char) -> bool {
    'a' <= c && c <= 'z'
}

pub open spec fn is_upper_letter(c: char) -> bool {
    'A' <= c && c <= 'Z'
}

pub open spec fn is_hex_digit(c: char) -> bool {
    is_digit(c) || ('a' <= c && c <= 'f') || ('A' <= c && c <= 'F')
}

pub fn space(c: char) -> (r: bool)
    ensures
        r == is_space(c),
{
    ('\u{9}' <= c && c <= '\u{d}') || c == ' ' || c == '\u{85}' || c == '\u{a0}' || c == '\u{1680}'
        || ('\u{2000}' <= c && c <= '\u{200a}') || c == '\u{2028}' || c == '\u{2029}' || c
        == '\u{202f}' || c == '\u{205f}' || c == '\u{3000}'
}

pub fn digit(c: char) -> (r: bool)
    ensures
        r == is_digit(c),
{
    '0' <= c && c <= '9'
}

pub fn hex_digit(c: char) -> (r: bool)
    ensures
        r == is_hex_digit(c),
{
    ('0' <= c && c <= '9') || ('a' <= c && c <= 'f') || ('A' <= c && c <= 'F')
}

/// `char::to_ascii_lowercase`.
pub open spec fn lower(c: char) -> char {
    if is_upper_letter(c) {
        ((c as u32) + 32) as char
    } else {
        c
    }
}

pub fn ascii_lower(c: char) -> (r: char)
    ensures
        r == lower(c),
{
    if 'A' <= c && c <= 'Z' {
        ((c as u8) + 32) as char
    } else {
        c
    }
}

/// `str::to_ascii_lowercase`.
pub open spec fn lower_seq(s: Seq<char>) -> Seq<char> {
    s.map_values(|c: char| lower(c))
}

// ---------------------------------------------------------------------------
// Conversions
// ---------------------------------------------------------------------------
/// The characters of `s`, in order.
pub fn chars_of(s: &str) -> (out: Vec<char>)
    ensures
        out@ == s@,
{
    let mut out: Vec<char> = Vec::new();
    for c in it: s.chars()
        invariant
            out@ == it.seq().take(it.index() as int),
    {
        out.push(c);
    }
    out
}

pub fn string_of(v: &Vec<char>) -> (s: String)
    ensures
        s@ == v@,
{
    let mut s = String::new();
    let mut i: usize = 0;
    while i < v.len()
        invariant
            i <= v.len(),
            s@ == v@.take(i as int),
        decreases v.len() - i,
    {
        s.push(v[i]);
        assert(v@.take(i + 1) == v@.take(i as int).push(v@[i as int]));
        i = i + 1;
    }
    assert(v@.take(v.len() as int) == v@);
    s
}

pub fn owned(s: &str) -> (r: String)
    ensures
        r@ == s@,
{
    s.to_string()
}

pub fn copy_string(s: &String) -> (r: String)
    ensures
        r@ == s@,
{
    s.clone()
}

pub fn copy_chars(v: &Vec<char>) -> (r: Vec<char>)
    ensures
        r@ == v@,
{
    let mut r: Vec<char> = Vec::new();
    let mut i: usize = 0;
    while i < v.len()
        invariant
            i <= v.len(),
            r@ == v@.take(i as int),
        decreases v.len() - i,
    {
        r.push(v[i]);
        assert(v@.take(i + 1) == v@.take(i as int).push(v@[i as int]));
        i = i + 1;
    }
    assert(v@.take(v.len() as int) == v@);
    r
}

/// Copies of all strings of `v`, in order.
pub fn copy_strings(v: &Vec<String>) -> (r: Vec<String>)
    ensures
        r.len() == v.len(),
        forall|i: int| 0 <= i < v.len() ==> #[trigger] r@[i]@ == v@[i]@,
{
    let mut r: Vec<String> = Vec::new();
    let mut i: usize = 0;
    while i < v.len()
        invariant
            i <= v.len(),
            r.len() == i,
            forall|k: int| 0 <= k < i ==> #[trigger] r@[k]@ == v@[k]@,
        decreases v.len() - i,
    {
        r.push(v[i].clone());
        i = i + 1;
    }
    r
}

/// `s` followed by `t`.
pub fn join2(s: &str, t: &str) -> (r: String)
    ensures
        r@ == s@ + t@,
{
    let mut r = s.to_string();
    r.append(t);
    r
}

pub fn join3(s: &str, t: &str, u: &str) -> (r: String)
    ensures
        r@ == s@ + t@ + u@,
{
    let mut r = s.to_string();
    r.append(t);
    r.append(u);
    r
}

// ---------------------------------------------------------------------------
// Comparisons
// ---------------------------------------------------------------------------
pub fn chars_eq(a: &Vec<char>, b: &Vec<char>) -> (r: bool)
    ensures
        r == (a@ == b@),
{
    if a.len() != b.len() {
        return false;
    }
    let mut i: usize = 0;
    while i < a.len()
        invariant
            i <= a.len(),
            a.len() == b.len(),
            forall|k: int| 0 <= k < i ==> a@[k] == b@[k],
        decreases a.len() - i,
    {
        if a[i] != b[i] {
            return false;
        }
        i = i + 1;
    }
    assert(a@ =~= b@);
    true
}

/// Whether the characters of `a` are those of `b`.
pub fn eq_text(a: &Vec<char>, b: &str) -> (r: bool)
    ensures
        r == (a@ == b@),
{
    let bc = chars_of(b);
    chars_eq(a, &bc)
}

pub fn str_eq(a: &str, b: &str) -> (r: bool)
    ensures
        r == (a@ == b@),
{
    let ac = chars_of(a);
    eq_text(&ac, b)
}

pub open spec fn ends_with(s: Seq<char>, suffix: Seq<char>) -> bool {
    suffix.len() <= s.len() && s.subrange(s.len() - suffix.len(), s.len() as int) == suffix
}

pub open spec fn starts_with(s: Seq<char>, prefix: Seq<char>) -> bool {
    prefix.len() <= s.len() && s.subrange(0, prefix.len() as int) == prefix
}

pub fn chars_end_with(s: &Vec<char>, suffix: &Vec<char>) -> (r: bool)
    ensures
        r == ends_with(s@, suffix@),
{
    if suffix.len() > s.len() {
        return false;
    }
    let off = s.len() - suffix.len();
    let mut i: usize = 0;
    while i < suffix.len()
        invariant
            i <= suffix.len(),
            off + suffix.len() == s.len(),
            forall|k: int| 0 <= k < i ==> s@[off + k] == suffix@[k],
        decreases suffix.len() - i,
    {
        if s[off + i] != suffix[i] {
            assert(s@.subrange(off as int, s.len() as int)[i as int] == s@[off + i]);
            return false;
        }
        i = i + 1;
    }
    assert(s@.subrange(off as int, s.len() as int) =~= suffix@);
    true
}

pub fn ends_with_text(s: &Vec<char>, suffix: &str) -> (r: bool)
    ensures
        r == ends_with(s@, suffix@),
{
    let sc = chars_of(suffix);
    chars_end_with(s, &sc)
}

pub fn chars_start_with(s: &Vec<char>, prefix: &Vec<char>) -> (r: bool)
    ensures
        r == starts_with(s@, prefix@),
{
    if prefix.len() > s.len() {
        return false;
    }
    let mut i: usize = 0;
    while i < prefix.len()
        invariant
            i <= prefix.len(),
            prefix.len() <= s.len(),
            forall|k: int| 0 <= k < i ==> s@[k] == prefix@[k],
        decreases prefix.len() - i,
    {
        if s[i] != prefix[i] {
            assert(s@.subrange(0, prefix.len() as int)[i as int] == s@[i as int]);
            return false;
        }
        i = i + 1;
    }
    assert(s@.subrange(0, prefix.len() as int) =~= prefix@);
    true
}

pub fn starts_with_text(s: &Vec<char>, prefix: &str) -> (r: bool)
    ensures
        r == starts_with(s@, prefix@),
{
    let pc = chars_of(prefix);
    chars_start_with(s, &pc)
}

pub fn contains_char(s: &Vec<char>, c: char) -> (r: bool)
    ensures
        r == s@.contains(c),
{
    let mut i: usize = 0;
    while i < s.len()
        invariant
            i <= s.len(),
            forall|k: int| 0 <= k < i ==> s@[k] != c,
        decreases s.len() - i,
    {
        if s[i] == c {
            return true;
        }
        i = i + 1;
    }
    false
}

/// `str::eq_ignore_ascii_case`.
pub open spec fn eq_ignore_case(a: Seq<char>, b: Seq<char>) -> bool {
    lower_seq(a) == lower_seq(b)
}

pub fn chars_eq_ignore_case(a: &Vec<char>, b: &Vec<char>) -> (r: bool)
    ensures
        r == eq_ignore_case(a@, b@),
{
    let la = lower_chars(a);
    let lb = lower_chars(b);
    chars_eq(&la, &lb)
}

// ---------------------------------------------------------------------------
// Transformations
// ---------------------------------------------------------------------------
pub fn lower_chars(s: &Vec<char>) -> (r: Vec<char>)
    ensures
        r@ == lower_seq(s@),
{
    let mut r: Vec<char> = Vec::new();
    let mut i: usize = 0;
    while i < s.len()
        invariant
            i <= s.len(),
            r@ == lower_seq(s@.take(i as int)),
        decreases s.len() - i,
    {
        r.push(ascii_lower(s[i]));
        assert(s@.take(i + 1) == s@.take(i as int).push(s@[i as int]));
        assert(lower_seq(s@.take(i + 1)) =~= lower_seq(s@.take(i as int)).push(lower(s@[i as int])));
        i = i + 1;
    }
    assert(s@.take(s.len() as int) == s@);
    r
}

/// Every occurrence of `from` replaced by `to`.
pub open spec fn replace_char(s: Seq<char>, from: char, to: char) -> Seq<char> {
    s.map_values(|c: char| if c == from { to } else { c })
}

pub fn replace_chars(s: &Vec<char>, from: char, to: char) -> (r: Vec<char>)
    ensures
        r@ == replace_char(s@, from, to),
{
    let mut r: Vec<char> = Vec::new();
    let mut i: usize = 0;
    while i < s.len()
        invariant
            i <= s.len(),
            r@ == replace_char(s@.take(i as int), from, to),
        decreases s.len() - i,
    {
        let c = s[i];
        r.push(if c == from { to } else { c });
        assert(s@.take(i + 1) == s@.take(i as int).push(s@[i as int]));
        assert(replace_char(s@.take(i + 1), from, to) =~= replace_char(s@.take(i as int), from, to).push(
            if c == from { to } else { c }));
        i = i + 1;
    }
    assert(s@.take(s.len() as int) == s@);
    r
}

/// Whether `c` is stripped: whitespace when `t` is `None`, else `c == t`.
pub open spec fn strips(c: char, t: Option<char>) -> bool {
    match t {
        None => is_space(c),
        Some(x) => c == x,
    }
}

pub fn stripped(c: char, t: Option<char>) -> (r: bool)
    ensures
        r == strips(c, t),
{
    match t {
        None => space(c),
        Some(x) => c == x,
    }
}

/// `trim_start` (for `None`) or `trim_start_matches(t)`.
pub open spec fn strip_start(s: Seq<char>, t: Option<char>) -> Seq<char>
    decreases s.len(),
{
    if s.len() > 0 && strips(s[0], t) {
        strip_start(s.drop_first(), t)
    } else {
        s
    }
}

/// `trim_end` (for `None`) or `trim_end_matches(t)`.
pub open spec fn strip_end(s: Seq<char>, t: Option<char>) -> Seq<char>
    decreases s.len(),
{
    if s.len() > 0 && strips(s.last(), t) {
        strip_end(s.drop_last(), t)
    } else {
        s
    }
}

/// `str::trim`.
pub open spec fn trim(s: Seq<char>) -> Seq<char> {
    strip_end(strip_start(s, None), None)
}

proof fn lemma_strip_start_skip(s: Seq<char>, t: Option<char>, i: int)
    requires
        0 <= i <= s.len(),
        forall|k: int| 0 <= k < i ==> strips(#[trigger] s[k], t),
    ensures
        strip_start(s, t) == strip_start(s.skip(i), t),
    decreases i,
{
    if i > 0 {
        assert(strips(s[0], t));
        lemma_strip_start_skip(s.drop_first(), t, i - 1);
        assert(s.drop_first().skip(i - 1) =~= s.skip(i));
    } else {
        assert(s.skip(0) =~= s);
    }
}

proof fn lemma_strip_end_take(s: Seq<char>, t: Option<char>, j: int)
    requires
        0 <= j <= s.len(),
        forall|k: int| j <= k < s.len() ==> strips(#[trigger] s[k], t),
    ensures
        strip_end(s, t) == strip_end(s.take(j), t),
    decreases s.len() - j,
{
    if j < s.len() {
        assert(strips(s.last(), t));
        lemma_strip_end_take(s.drop_last(), t, j);
        assert(s.drop_last().take(j) =~= s.take(j));
    } else {
        assert(s.take(j) =~= s);
    }
}

pub fn strip_start_chars(s: &Vec<char>, t: Option<char>) -> (r: Vec<char>)
    ensures
        r@ == strip_start(s@, t),
{
    let mut i: usize = 0;
    while i < s.len() && stripped(s[i], t)
        invariant
            i <= s.len(),
            forall|k: int| 0 <= k < i ==> strips(#[trigger] s@[k], t),
        decreases s.len() - i,
    {
        i = i + 1;
    }
    proof {
        lemma_strip_start_skip(s@, t, i as int);
    }
    let mut r: Vec<char> = Vec::new();
    let mut k: usize = i;
    while k < s.len()
        invariant
            i <= k <= s.len(),
            r@ == s@.subrange(i as int, k as int),
        decreases s.len() - k,
    {
        r.push(s[k]);
        assert(s@.subrange(i as int, k + 1) == s@.subrange(i as int, k as int).push(s@[k as int]));
        k = k + 1;
    }
    assert(r@ == s@.skip(i as int));
    r
}

pub fn strip_end_chars(s: &Vec<char>, t: Option<char>) -> (r: Vec<char>)
    ensures
        r@ == strip_end(s@, t),
{
    let mut j: usize = s.len();
    while j > 0 && stripped(s[j - 1], t)
        invariant
            j <= s.len(),
            forall|k: int| j <= k < s.len() ==> strips(#[trigger] s@[k], t),
        decreases j,
    {
        j = j - 1;
    }
    proof {
        lemma_strip_end_take(s@, t, j as int);
        let u = s@.take(j as int);
        if u.len() > 0 {
            assert(u.last() == s@[j - 1]);
        }
    }
    let mut r: Vec<char> = Vec::new();
    let mut k: usize = 0;
    while k < j
        invariant
            k <= j <= s.len(),
            r@ == s@.take(k as int),
        decreases j - k,
    {
        r.push(s[k]);
        assert(s@.take(k + 1) == s@.take(k as int).push(s@[k as int]));
        k = k + 1;
    }
    r
}

proof fn lemma_strip_start_len(s: Seq<char>, t: Option<char>)
    ensures
        strip_start(s, t).len() <= s.len(),
    decreases s.len(),
{
    if s.len() > 0 && strips(s[0], t) {
        lemma_strip_start_len(s.drop_first(), t);
    }
}

proof fn lemma_strip_end_len(s: Seq<char>, t: Option<char>)
    ensures
        strip_end(s, t).len() <= s.len(),
    decreases s.len(),
{
    if s.len() > 0 && strips(s.last(), t) {
        lemma_strip_end_len(s.drop_last(), t);
    }
}

/// Stripping the start leaves a suffix that does not start with a stripped
/// character; a text that does not start with one is left as it is.
pub proof fn lemma_strip_start_shape(s: Seq<char>, t: Option<char>)
    ensures
        exists|k: int| 0 <= k <= s.len() && strip_start(s, t) == s.skip(k),
        strip_start(s, t).len() > 0 ==> !strips(strip_start(s, t)[0], t),
        !(s.len() > 0 && strips(s[0], t)) ==> strip_start(s, t) == s,
    decreases s.len(),
{
    if s.len() > 0 && strips(s[0], t) {
        lemma_strip_start_shape(s.drop_first(), t);
        let k = choose|k: int| 0 <= k <= s.drop_first().len() && strip_start(s.drop_first(), t) == s.drop_first().skip(k);
        assert(s.drop_first().skip(k) =~= s.skip(k + 1));
    } else {
        assert(s.skip(0) =~= s);
    }
}

/// Stripping the end leaves a prefix that does not end with a stripped
/// character; a text that does not end with one is left as it is.
pub proof fn lemma_strip_end_shape(s: Seq<char>, t: Option<char>)
    ensures
        exists|k: int| 0 <= k <= s.len() && strip_end(s, t) == s.take(k),
        strip_end(s, t).len() > 0 ==> !strips(strip_end(s, t).last(), t),
        !(s.len() > 0 && strips(s.last(), t)) ==> strip_end(s, t) == s,
    decreases s.len(),
{
    if s.len() > 0 && strips(s.last(), t) {
        lemma_strip_end_shape(s.drop_last(), t);
        let k = choose|k: int| 0 <= k <= s.drop_last().len() && strip_end(s.drop_last(), t) == s.drop_last().take(k);
        assert(s.drop_last().take(k) =~= s.take(k));
    } else {
        assert(s.take(s.len() as int) =~= s);
    }
}

/// Trimming never lengthens a text.
pub proof fn lemma_trim_len(s: Seq<char>)
    ensures
        trim(s).len() <= s.len(),
{
    lemma_strip_start_len(s, None);
    lemma_strip_end_len(strip_start(s, None), None);
}

pub fn trim_chars(s: &Vec<char>) -> (r: Vec<char>)
    ensures
        r@ == trim(s@),
{
    let a = strip_start_chars(s, None);
    strip_end_chars(&a, None)
}

/// The part of `s` before its first `c` (all of `s` without one):
/// `s.split(c).next()`.
pub open spec fn before_first(s: Seq<char>, c: char) -> Seq<char>
    decreases s.len(),
{
    if s.len() == 0 {
        s
    } else if s[0] == c {
        Seq::empty()
    } else {
        seq![s[0]] + before_first(s.drop_first(), c)
    }
}

/// The part of `s` after its last `c` (all of `s` without one):
/// `s.split(c).next_back()`.
pub open spec fn after_last(s: Seq<char>, c: char) -> Seq<char>
    decreases s.len(),
{
    if s.len() == 0 {
        s
    } else if s.last() == c {
        Seq::empty()
    } else {
        after_last(s.drop_last(), c).push(s.last())
    }
}

pub proof fn lemma_before_first(s: Seq<char>, c: char, i: int)
    requires
        0 <= i <= s.len(),
        forall|k: int| 0 <= k < i ==> s[k] != c,
        i == s.len() || s[i] == c,
    ensures
        before_first(s, c) == s.take(i),
    decreases i,
{
    if i == 0 {
        if s.len() > 0 {
            assert(s[0] == c);
        }
        assert(s.take(0) =~= Seq::<char>::empty());
    } else {
        lemma_before_first(s.drop_first(), c, i - 1);
        assert(s.take(i) =~= seq![s[0]] + s.drop_first().take(i - 1));
    }
}

proof fn lemma_after_last(s: Seq<char>, c: char, j: int)
    requires
        0 <= j <= s.len(),
        forall|k: int| j <= k < s.len() ==> s[k] != c,
        j == 0 || s[j - 1] == c,
    ensures
        after_last(s, c) == s.skip(j),
    decreases s.len() - j,
{
    if j == s.len() {
        if s.len() > 0 {
            assert(s.last() == c);
        }
        assert(s.skip(j) =~= Seq::<char>::empty());
    } else {
        assert(s.last() != c);
        lemma_after_last(s.drop_last(), c, j);
        assert(s.skip(j) =~= s.drop_last().skip(j).push(s.last()));
    }
}

pub fn before_first_chars(s: &Vec<char>, c: char) -> (r: Vec<char>)
    ensures
        r@ == before_first(s@, c),
        r@ == s@.take(r@.len() as int),
{
    let mut r: Vec<char> = Vec::new();
    let mut i: usize = 0;
    while i < s.len() && s[i] != c
        invariant
            i <= s.len(),
            forall|k: int| 0 <= k < i ==> s@[k] != c,
            r@ == s@.take(i as int),
        decreases s.len() - i,
    {
        r.push(s[i]);
        assert(s@.take(i + 1) == s@.take(i as int).push(s@[i as int]));
        i = i + 1;
    }
    proof {
        lemma_before_first(s@, c, i as int);
    }
    r
}

pub fn after_last_chars(s: &Vec<char>, c: char) -> (r: Vec<char>)
    ensures
        r@ == after_last(s@, c),
{
    let mut j: usize = s.len();
    while j > 0 && s[j - 1] != c
        invariant
            j <= s.len(),
            forall|k: int| j <= k < s.len() ==> s@[k] != c,
        decreases j,
    {
        j = j - 1;
    }
    proof {
        lemma_after_last(s@, c, j as int);
    }
    let mut r: Vec<char> = Vec::new();
    let mut k: usize = j;
    while k < s.len()
        invariant
            j <= k <= s.len(),
            r@ == s@.subrange(j as int, k as int),
        decreases s.len() - k,
    {
        r.push(s[k]);
        assert(s@.subrange(j as int, k + 1) == s@.subrange(j as int, k as int).push(s@[k as int]));
        k = k + 1;
    }
    r
}

// ---------------------------------------------------------------------------
// Numbers
// ---------------------------------------------------------------------------
pub open spec fn digit_char(d: nat) -> char {
    (('0' as u32) + d) as char
}

/// The decimal representation of `n`, as `Display` writes it.
pub open spec fn decimal(n: nat) -> Seq<char>
    decreases n,
{
    if n < 10 {
        seq![digit_char(n)]
    } else {
        decimal(n / 10).push(digit_char(n % 10))
    }
}

pub fn decimal_string(n: u64) -> (r: String)
    ensures
        r@ == decimal(n as nat),
    decreases n,
{
    if n < 10 {
        let mut r = String::new();
        r.push(((n as u8) + 48) as char);
        r
    } else {
        let mut r = decimal_string(n / 10);
        r.push((((n % 10) as u8) + 48) as char);
        r
    }
}

/// Appends the characters of `t` to `r`.
pub fn append_chars(r: &mut Vec<char>, t: &Vec<char>)
    ensures
        final(r)@ == old(r)@ + t@,
{
    let mut i: usize = 0;
    let ghost start = r@;
    while i < t.len()
        invariant
            i <= t.len(),
            r@ == start + t@.take(i as int),
        decreases t.len() - i,
    {
        r.push(t[i]);
        assert(t@.take(i + 1) == t@.take(i as int).push(t@[i as int]));
        i = i + 1;
    }
    assert(t@.take(t.len() as int) == t@);
}

/// Appends the characters of `t` to `r`.
pub fn append_text(r: &mut Vec<char>, t: &str)
    ensures
        final(r)@ == old(r)@ + t@,
{
    let v = chars_of(t);
    append_chars(r, &v);
}

// ---------------------------------------------------------------------------
// Unicode case and substrings
// ---------------------------------------------------------------------------
/// What `str::to_lowercase` gives for a text (Unicode lowercase mapping).
pub uninterp spec fn unicode_lowercase(s: Seq<char>) -> Seq<char>;

/// `str::to_lowercase`: the text in Unicode lowercase. The full mapping is
/// the standard library's and is named here, not restated; on ASCII text it
/// is the ASCII lowercase (`A`..`Z` to `a`..`z`, every other character
/// kept), which is what Unicode's mapping gives for those characters.
#[verifier::external_body]
pub(crate) fn to_lowercase_text(s: &str) -> (r: String)
    ensures
        r@ == unicode_lowercase(s@),
        (forall|i: int| 0 <= i < s@.len() ==> (#[trigger] s@[i] as u32) < 128) ==> r@ == lower_seq(
            s@,
        ),
{
    s.to_lowercase()
}

/// Whether `t` occurs in `s` as a contiguous run.
pub open spec fn contains_text(s: Seq<char>, t: Seq<char>) -> bool {
    exists|i: int| 0 <= i && i + t.len() <= s.len() && #[trigger] s.subrange(i, i + t.len()) == t
}

fn occurs_at(s: &Vec<char>, t: &Vec<char>, i: usize) -> (r: bool)
    requires
        i + t.len() <= s.len(),
    ensures
        r == (s@.subrange(i as int, i + t.len()) == t@),
{
    let mut k: usize = 0;
    while k < t.len()
        invariant
            k <= t.len(),
            i + t.len() <= s.len(),
            forall|j: int| 0 <= j < k ==> s@[i + j] == t@[j],
        decreases t.len() - k,
    {
        if s[i + k] != t[k] {
            assert(s@.subrange(i as int, i + t.len())[k as int] != t@[k as int]);
            return false;
        }
        k = k + 1;
    }
    assert(s@.subrange(i as int, i + t.len()) =~= t@);
    true
}

/// Whether `t` occurs in `s`.
pub fn chars_contain(s: &Vec<char>, t: &Vec<char>) -> (r: bool)
    ensures
        r == contains_text(s@, t@),
{
    if t.len() > s.len() {
        return false;
    }
    if t.len() == 0 {
        assert(s@.subrange(0, 0 + t@.len() as int) =~= t@);
        return true;
    }
    let last = s.len() - t.len();
    let mut i: usize = 0;
    while i <= last
        invariant
            0 < t.len() <= s.len(),
            last == s.len() - t.len(),
            i <= last + 1,
            forall|j: int| 0 <= j < i ==> #[trigger] s@.subrange(j, j + t.len()) != t@,
        decreases last + 1 - i,
    {
        if occurs_at(s, t, i) {
            return true;
        }
        i = i + 1;
    }
    false
}

/// The view of an optional borrowed text.
pub open spec fn opt_str(o: Option<&str>) -> Option<Seq<char>> {
    match o {
        Some(s) => Some(s@),
        None => None,
    }
}

/// Every character is an ASCII hexadecimal digit.
pub open spec fn all_hex(s: Seq<char>) -> bool {
    forall|i: int| 0 <= i < s.len() ==> is_hex_digit(#[trigger] s[i])
}

pub fn chars_all_hex(s: &Vec<char>) -> (r: bool)
    ensures
        r == all_hex(s@),
{
    let mut i: usize = 0;
    while i < s.len()
        invariant
            i <= s.len(),
            forall|k: int| 0 <= k < i ==> is_hex_digit(#[trigger] s@[k]),
        decreases s.len() - i,
    {
        if !hex_digit(s[i]) {
            assert(!is_hex_digit(s@[i as int]));
            return false;
        }
        i = i + 1;
    }
    true
}

/// What a sequence holds after a push.
pub proof fn lemma_push_contains<A>(s: Seq<A>, a: A, x: A)
    ensures
        s.push(a).contains(x) <==> (s.contains(x) || x == a),
{
    if s.contains(x) {
        let i = choose|i: int| 0 <= i < s.len() && s[i] == x;
        assert(s.push(a)[i] == x);
    }
    if x == a {
        assert(s.push(a)[s.len() as int] == x);
    }
    if s.push(a).contains(x) {
        let i = choose|i: int| 0 <= i < s.push(a).len() && s.push(a)[i] == x;
        if i < s.len() {
            assert(s[i] == x);
        }
    }
}

// ---------------------------------------------------------------------------
// Order
// ---------------------------------------------------------------------------
/// Lexicographic order of texts by character code (the order of `String`,
/// whose UTF-8 bytes compare as the characters do).
pub open spec fn text_less(a: Seq<char>, b: Seq<char>) -> bool
    decreases a.len(),
{
    if a.len() == 0 {
        b.len() > 0
    } else if b.len() == 0 {
        false
    } else if a[0] != b[0] {
        (a[0] as int) < (b[0] as int)
    } else {
        text_less(a.drop_first(), b.drop_first())
    }
}

pub proof fn lemma_text_less_irreflexive(a: Seq<char>)
    ensures
        !text_less(a, a),
    decreases a.len(),
{
    if a.len() > 0 {
        lemma_text_less_irreflexive(a.drop_first());
    }
}

pub proof fn lemma_text_less_total(a: Seq<char>, b: Seq<char>)
    ensures
        a != b ==> text_less(a, b) || text_less(b, a),
        !(text_less(a, b) && text_less(b, a)),
    decreases a.len(),
{
    if a.len() > 0 && b.len() > 0 {
        if a[0] == b[0] {
            lemma_text_less_total(a.drop_first(), b.drop_first());
            if a != b {
                assert(a =~= seq![a[0]] + a.drop_first());
                assert(b =~= seq![b[0]] + b.drop_first());
            }
        } else {
            assert((a[0] as int) != (b[0] as int));
        }
    } else if a.len() == 0 && b.len() == 0 {
        assert(a =~= b);
    }
}

pub proof fn lemma_text_less_transitive(a: Seq<char>, b: Seq<char>, c: Seq<char>)
    requires
        text_less(a, b),
        text_less(b, c),
    ensures
        text_less(a, c),
    decreases a.len(),
{
    if a.len() > 0 && b.len() > 0 && c.len() > 0 {
        if a[0] == b[0] && b[0] == c[0] {
            lemma_text_less_transitive(a.drop_first(), b.drop_first(), c.drop_first());
        } else {
            assert((a[0] as int) != (c[0] as int) || (a[0] == b[0] && b[0] == c[0]));
        }
    }
}

/// Whether `a` comes before `b`.
pub fn chars_less(a: &Vec<char>, b: &Vec<char>) -> (r: bool)
    ensures
        r == text_less(a@, b@),
{
    let mut i: usize = 0;
    assert(a@.skip(0) =~= a@ && b@.skip(0) =~= b@);
    while i < a.len() && i < b.len() && a[i] == b[i]
        invariant
            i <= a.len(),
            i <= b.len(),
            text_less(a@, b@) == text_less(a@.skip(i as int), b@.skip(i as int)),
        decreases a.len() - i,
    {
        proof {
            let x = a@.skip(i as int);
            let y = b@.skip(i as int);
            assert(x.drop_first() =~= a@.skip(i + 1));
            assert(y.drop_first() =~= b@.skip(i + 1));
            assert(x[0] == a@[i as int]);
            assert(y[0] == b@[i as int]);
        }
        i = i + 1;
    }
    let ghost x = a@.skip(i as int);
    let ghost y = b@.skip(i as int);
    if i == a.len() {
        assert(x.len() == 0);
        i < b.len()
    } else if i == b.len() {
        assert(y.len() == 0 && x.len() > 0);
        false
    } else {
        assert(x[0] == a@[i as int] && y[0] == b@[i as int]);
        a[i] < b[i]
    }
}

// ---------------------------------------------------------------------------
// Splitting
// ---------------------------------------------------------------------------
/// The pieces of `s` between occurrences of `sep`, empty ones included
/// (`str::split`).
pub open spec fn split_char(s: Seq<char>, sep: char) -> Seq<Seq<char>>
    decreases s.len(),
{
    if s.len() == 0 {
        seq![Seq::<char>::empty()]
    } else {
        let q = split_char(s.drop_last(), sep);
        if s.last() == sep {
            q.push(Seq::<char>::empty())
        } else {
            q.update(q.len() - 1, q.last().push(s.last()))
        }
    }
}

pub proof fn lemma_split_char_nonempty(s: Seq<char>, sep: char)
    ensures
        split_char(s, sep).len() >= 1,
    decreases s.len(),
{
    if s.len() > 0 {
        lemma_split_char_nonempty(s.drop_last(), sep);
    }
}

/// The texts held by a list of character vectors.
pub open spec fn texts(v: Seq<Vec<char>>) -> Seq<Seq<char>> {
    v.map_values(|x: Vec<char>| x@)
}

/// The pieces of `s` between occurrences of `sep`.
pub fn split_chars(s: &Vec<char>, sep: char) -> (r: Vec<Vec<char>>)
    ensures
        texts(r@) == split_char(s@, sep),
{
    let mut out: Vec<Vec<char>> = Vec::new();
    let mut cur: Vec<char> = Vec::new();
    let mut i: usize = 0;
    assert(s@.take(0) =~= Seq::<char>::empty());
    while i < s.len()
        invariant
            i <= s.len(),
            split_char(s@.take(i as int), sep).len() >= 1,
            texts(out@) == split_char(s@.take(i as int), sep).drop_last(),
            split_char(s@.take(i as int), sep).last() == cur@,
        decreases s.len() - i,
    {
        let ghost q = split_char(s@.take(i as int), sep);
        let c = s[i];
        assert(s@.take(i + 1).drop_last() =~= s@.take(i as int));
        assert(s@.take(i + 1).last() == c);
        if c == sep {
            let ghost before = texts(out@);
            let done = cur;
            out.push(done);
            assert(texts(out@) =~= before.push(q.last()));
            assert(q.push(Seq::<char>::empty()).drop_last() =~= q);
            assert(q =~= q.drop_last().push(q.last()));
            cur = Vec::new();
        } else {
            cur.push(c);
            proof {
                let q2 = q.update(q.len() - 1, q.last().push(c));
                assert(q2.drop_last() =~= q.drop_last());
            }
        }
        i = i + 1;
    }
    assert(s@.take(s.len() as int) =~= s@);
    let ghost q = split_char(s@, sep);
    let ghost before = texts(out@);
    out.push(cur);
    assert(texts(out@) =~= before.push(q.last()));
    assert(q =~= q.drop_last().push(q.last()));
    out
}

/// Text before the first `c` and after it, when `s` holds a `c`
/// (`str::split_once`).
pub open spec fn split_once(s: Seq<char>, c: char) -> Option<(Seq<char>, Seq<char>)> {
    let k = before_first(s, c);
    if k.len() < s.len() {
        Some((k, s.skip(k.len() + 1int)))
    } else {
        None
    }
}

pub fn split_once_chars(s: &Vec<char>, c: char) -> (r: Option<(Vec<char>, Vec<char>)>)
    ensures
        match (r, split_once(s@, c)) {
            (Some((a, b)), Some((x, y))) => a@ == x && b@ == y,
            (None, None) => true,
            _ => false,
        },
{
    let k = before_first_chars(s, c);
    if k.len() < s.len() {
        let mut v: Vec<char> = Vec::new();
        let mut i: usize = k.len() + 1;
        let start = i;
        while i < s.len()
            invariant
                start <= i <= s.len(),
                start == k.len() + 1,
                v@ == s@.subrange(start as int, i as int),
            decreases s.len() - i,
        {
            v.push(s[i]);
            assert(s@.subrange(start as int, i + 1) == s@.subrange(start as int, i as int).push(
                s@[i as int],
            ));
            i = i + 1;
        }
        Some((k, v))
    } else {
        None
    }
}

// ---------------------------------------------------------------------------
// Decimal numbers
// ---------------------------------------------------------------------------
pub open spec fn digit_value(c: char) -> nat {
    ((c as u32) - ('0' as u32)) as nat
}

/// The value of a string of decimal digits.
pub open spec fn digits_value(d: Seq<char>) -> nat
    decreases d.len(),
{
    if d.len() == 0 {
        0
    } else {
        digits_value(d.drop_last()) * 10 + digit_value(d.last())
    }
}

pub open spec fn all_digits(d: Seq<char>) -> bool {
    forall|i: int| 0 <= i < d.len() ==> is_digit(#[trigger] d[i])
}

/// The digits of an unsigned number: without a leading `+`.
pub open spec fn unsigned_digits(s: Seq<char>) -> Seq<char> {
    if s.len() > 0 && s[0] == '+' {
        s.drop_first()
    } else {
        s
    }
}

/// What `str::parse::<usize>` gives: a `+` may lead, then at least one
/// digit, and the value must fit.
pub open spec fn parsed_usize(s: Seq<char>) -> Option<usize> {
    let d = unsigned_digits(s);
    if d.len() > 0 && all_digits(d) && digits_value(d) <= usize::MAX {
        Some(digits_value(d) as usize)
    } else {
        None
    }
}

pub fn parse_u64(s: &Vec<char>) -> (r: Option<u64>)
    ensures
        r == parsed_u64(s@),
{
    let start: usize = if s.len() > 0 && s[0] == '+' {
        1
    } else {
        0
    };
    let ghost d = unsigned_digits(s@);
    assert(d =~= s@.skip(start as int));
    if start >= s.len() {
        return None;
    }
    let mut acc: u64 = 0;
    let mut overflow = false;
    let mut i: usize = start;
    assert(s@.subrange(start as int, start as int) =~= Seq::<char>::empty());
    while i < s.len()
        invariant
            start <= i <= s.len(),
            d == s@.skip(start as int),
            d == unsigned_digits(s@),
            forall|k: int| start <= k < i ==> is_digit(#[trigger] s@[k]),
            overflow ==> digits_value(s@.subrange(start as int, i as int)) > u64::MAX,
            !overflow ==> acc == digits_value(s@.subrange(start as int, i as int)),
        decreases s.len() - i,
    {
        let c = s[i];
        if !digit(c) {
            assert(d[i - start] == c);
            assert(!is_digit(d[i - start]));
            assert(!all_digits(d));
            return None;
        }
        let ghost prev = s@.subrange(start as int, i as int);
        let ghost next = s@.subrange(start as int, i + 1);
        assert(next.drop_last() =~= prev);
        assert(next.last() == c);
        let dv = ((c as u32) - ('0' as u32)) as u64;
        if !overflow {
            match acc.checked_mul(10) {
                Some(m) => match m.checked_add(dv) {
                    Some(a) => {
                        acc = a;
                    },
                    None => {
                        overflow = true;
                    },
                },
                None => {
                    overflow = true;
                },
            }
        }
        i = i + 1;
    }
    assert(s@.subrange(start as int, s.len() as int) =~= d);
    assert(all_digits(d)) by {
        assert forall|k: int| 0 <= k < d.len() implies is_digit(#[trigger] d[k]) by {
            assert(d[k] == s@[start + k]);
        }
    }
    if overflow {
        None
    } else {
        Some(acc)
    }
}

/// What `str::parse::<u64>` gives: a `+` may lead, then at least one digit,
/// and the value must fit.
pub open spec fn parsed_u64(s: Seq<char>) -> Option<u64> {
    let d = unsigned_digits(s);
    if d.len() > 0 && all_digits(d) && digits_value(d) <= u64::MAX {
        Some(digits_value(d) as u64)
    } else {
        None
    }
}

pub fn parse_usize(s: &Vec<char>) -> (r: Option<usize>)
    ensures
        r == parsed_usize(s@),
{
    match parse_u64(s) {
        Some(v) => if v <= usize::MAX as u64 {
            Some(v as usize)
        } else {
            None
        },
        None => None,
    }
}

} // verus!
