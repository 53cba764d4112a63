//! Character-level string helpers shared by the rest of the library.
//!
//! Strings are specified through their view, a `Seq<char>`.

use vstd::prelude::*;

verus! {

// ---------------------------------------------------------------------------
// Conversions
// ---------------------------------------------------------------------------

/// The characters of `s`, in order.
pub fn chars_of(s: &str) -> (r: Vec<char>)
    ensures
        r@ == s@,
{
    let mut out: Vec<char> = Vec::new();
    for c in it: s.chars()
        invariant
            out@ == it.seq().take(it.index() as int),
    {
        out.push(c);
    }
    out
}

/// Appends one character to a `String` (std `String::push`).
#[verifier::external_body]
pub(crate) fn push_char(s: &mut String, c: char)
    ensures
        final(s)@ == old(s)@.push(c),
{
    s.push(c);
}

/// A fresh `String` holding `s`.
pub fn owned(s: &str) -> (r: String)
    ensures
        r@ == s@,
{
    String::from_str(s)
}

/// Appends `t` to `s`.
pub fn append(s: &mut String, t: &str)
    ensures
        final(s)@ == old(s)@ + t@,
{
    s.append(t);
}

/// The `String` made of the characters `v[from..to]`.
pub fn string_of_range(v: &Vec<char>, from: usize, to: usize) -> (r: String)
    requires
        from <= to <= v@.len(),
    ensures
        r@ == v@.subrange(from as int, to as int),
{
    let mut out = String::new();
    let mut i = from;
    while i < to
        invariant
            from <= i <= to <= v@.len(),
            out@ == v@.subrange(from as int, i as int),
        decreases to - i,
    {
        push_char(&mut out, v[i]);
        assert(v@.subrange(from as int, i + 1) =~= v@.subrange(from as int, i as int).push(
            v@[i as int],
        ));
        i += 1;
    }
    out
}

/// The `String` made of all the characters of `v`.
pub fn string_of(v: &Vec<char>) -> (r: String)
    ensures
        r@ == v@,
{
    let r = string_of_range(v, 0, v.len());
    assert(v@.subrange(0, v@.len() as int) =~= v@);
    r
}

// ---------------------------------------------------------------------------
// Substring search
// ---------------------------------------------------------------------------

/// `pat` occurs in `hay` starting at position `i`.
pub open spec fn matches_at(hay: Seq<char>, pat: Seq<char>, i: int) -> bool {
    &&& 0 <= i
    &&& i + pat.len() <= hay.len()
    &&& hay.subrange(i, i + pat.len()) == pat
}

/// `pat` occurs somewhere in `hay` (std `str::contains` with a string pattern).
pub open spec fn seq_contains(hay: Seq<char>, pat: Seq<char>) -> bool {
    exists|i: int| #[trigger] matches_at(hay, pat, i)
}

/// Whether `pat` occurs in `hay` at position `i`.
pub fn matches_at_exec(hay: &Vec<char>, pat: &Vec<char>, i: usize) -> (r: bool)
    requires
        i <= hay@.len(),
    ensures
        r == matches_at(hay@, pat@, i as int),
{
    if pat.len() > hay.len() - i {
        return false;
    }
    let mut j: usize = 0;
    while j < pat.len()
        invariant
            j <= pat@.len(),
            i + pat@.len() <= hay@.len(),
            hay@.len() <= usize::MAX,
            forall|k: int| 0 <= k < j ==> hay@[i + k] == pat@[k],
        decreases pat@.len() - j,
    {
        if hay[i + j] != pat[j] {
            assert(hay@.subrange(i as int, i + pat@.len())[j as int] != pat@[j as int]);
            return false;
        }
        j += 1;
    }
    assert(hay@.subrange(i as int, i + pat@.len()) =~= pat@);
    true
}

/// The first position at which `pat` occurs in `hay`, if any.
pub fn find_chars(hay: &Vec<char>, pat: &Vec<char>) -> (r: Option<usize>)
    ensures
        match r {
            Some(i) => matches_at(hay@, pat@, i as int) && forall|k: int|
                0 <= k < i ==> !#[trigger] matches_at(hay@, pat@, k),
            None => !seq_contains(hay@, pat@),
        },
{
    if pat.len() > hay.len() {
        assert forall|k: int| !#[trigger] matches_at(hay@, pat@, k) by {}
        return None;
    }
    let last = hay.len() - pat.len();
    let mut i: usize = 0;
    while i < last
        invariant
            last + pat@.len() == hay@.len(),
            i <= last,
            forall|k: int| 0 <= k < i ==> !#[trigger] matches_at(hay@, pat@, k),
        decreases last - i,
    {
        if matches_at_exec(hay, pat, i) {
            return Some(i);
        }
        i += 1;
    }
    if matches_at_exec(hay, pat, i) {
        return Some(i);
    }
    assert forall|k: int| !#[trigger] matches_at(hay@, pat@, k) by {
        if 0 <= k && k + pat@.len() <= hay@.len() {
            assert(k <= i);
        }
    }
    None
}

/// Whether `pat` occurs in `hay`.
pub fn contains_chars(hay: &Vec<char>, pat: &Vec<char>) -> (r: bool)
    ensures
        r == seq_contains(hay@, pat@),
{
    match find_chars(hay, pat) {
        Some(_) => true,
        None => false,
    }
}

/// Whether `pat` occurs in `hay`.
pub fn str_contains(hay: &str, pat: &str) -> (r: bool)
    ensures
        r == seq_contains(hay@, pat@),
{
    let h = chars_of(hay);
    let p = chars_of(pat);
    contains_chars(&h, &p)
}

/// `s` starts with `p`.
pub open spec fn seq_starts_with(s: Seq<char>, p: Seq<char>) -> bool {
    p.len() <= s.len() && s.subrange(0, p.len() as int) == p
}

/// Whether `s` starts with `p`.
pub fn str_starts_with(s: &str, p: &str) -> (r: bool)
    ensures
        r == seq_starts_with(s@, p@),
{
    let sv = chars_of(s);
    let pv = chars_of(p);
    matches_at_exec(&sv, &pv, 0)
}

/// Whether the strings are equal.
pub fn str_eq(a: &str, b: &str) -> (r: bool)
    ensures
        r == (a@ == b@),
{
    let av = chars_of(a);
    let bv = chars_of(b);
    if av.len() != bv.len() {
        return false;
    }
    let r = matches_at_exec(&av, &bv, 0);
    assert(av@.subrange(0, bv@.len() as int) =~= av@);
    r
}

// ---------------------------------------------------------------------------
// Case and whitespace
// ---------------------------------------------------------------------------

/// The lowercase form of a string, as std `str::to_lowercase` computes it.
pub uninterp spec fn spec_to_lowercase(s: Seq<char>) -> Seq<char>;

/// std `str::to_lowercase`: the Unicode lowercase mapping of `s`.
#[verifier::external_body]
pub(crate) fn to_lowercase(s: &str) -> (r: String)
    ensures
        r@ == spec_to_lowercase(s@),
{
    s.to_lowercase()
}

/// The Unicode `White_Space` property, which std `char::is_whitespace` tests.
pub open spec fn is_ws(c: char) -> bool {
    let u = c as u32;
    ||| 0x09 <= u <= 0x0D
    ||| u == 0x20
    ||| u == 0x85
    ||| u == 0xA0
    ||| u == 0x1680
    ||| 0x2000 <= u <= 0x200A
    ||| u == 0x2028
    ||| u == 0x2029
    ||| u == 0x202F
    ||| u == 0x205F
    ||| u == 0x3000
}

/// Whether `c` is white space.
pub fn is_ws_exec(c: char) -> (r: bool)
    ensures
        r == is_ws(c),
{
    let u = c as u32;
    (0x09 <= u && u <= 0x0D) || u == 0x20 || u == 0x85 || u == 0xA0 || u == 0x1680 || (0x2000
        <= u && u <= 0x200A) || u == 0x2028 || u == 0x2029 || u == 0x202F || u == 0x205F || u
        == 0x3000
}

/// Every character of `s` is white space (so `s.trim()` is empty).
pub open spec fn all_ws(s: Seq<char>) -> bool {
    forall|i: int| 0 <= i < s.len() ==> is_ws(#[trigger] s[i])
}

/// Whether `s` holds only white space.
pub fn is_blank(s: &str) -> (r: bool)
    ensures
        r == all_ws(s@),
{
    let v = chars_of(s);
    let mut i: usize = 0;
    while i < v.len()
        invariant
            i <= v@.len(),
            v@ == s@,
            forall|k: int| 0 <= k < i ==> is_ws(#[trigger] v@[k]),
        decreases v@.len() - i,
    {
        if !is_ws_exec(v[i]) {
            return false;
        }
        i += 1;
    }
    true
}

/// `s` without its leading white space.
pub open spec fn trim_start(s: Seq<char>) -> Seq<char>
    decreases s.len(),
{
    if s.len() > 0 && is_ws(s[0]) {
        trim_start(s.drop_first())
    } else {
        s
    }
}

/// `s` without its trailing white space.
pub open spec fn trim_end(s: Seq<char>) -> Seq<char>
    decreases s.len(),
{
    if s.len() > 0 && is_ws(s.last()) {
        trim_end(s.drop_last())
    } else {
        s
    }
}

/// `s` without leading and trailing white space (std `str::trim`).
pub open spec fn trim(s: Seq<char>) -> Seq<char> {
    trim_end(trim_start(s))
}

/// The first index of `v` at or after which no leading white space remains.
fn trim_start_index(v: &Vec<char>) -> (r: usize)
    ensures
        r <= v@.len(),
        trim_start(v@) == v@.subrange(r as int, v@.len() as int),
{
    let mut i: usize = 0;
    assert(v@.subrange(0, v@.len() as int) =~= v@);
    while i < v.len() && is_ws_exec(v[i])
        invariant
            i <= v@.len(),
            trim_start(v@) == trim_start(v@.subrange(i as int, v@.len() as int)),
        decreases v@.len() - i,
    {
        assert(v@.subrange(i as int, v@.len() as int).drop_first() =~= v@.subrange(
            i + 1,
            v@.len() as int,
        ));
        i += 1;
    }
    i
}

/// The end index (exclusive) of `v[from..]` once its trailing white space is removed.
fn trim_end_index(v: &Vec<char>, from: usize) -> (r: usize)
    requires
        from <= v@.len(),
    ensures
        from <= r <= v@.len(),
        trim_end(v@.subrange(from as int, v@.len() as int)) == v@.subrange(from as int, r as int),
{
    let mut j: usize = v.len();
    while j > from && is_ws_exec(v[j - 1])
        invariant
            from <= j <= v@.len(),
            trim_end(v@.subrange(from as int, v@.len() as int)) == trim_end(
                v@.subrange(from as int, j as int),
            ),
        decreases j,
    {
        assert(v@.subrange(from as int, j as int).drop_last() =~= v@.subrange(
            from as int,
            j - 1,
        ));
        j -= 1;
    }
    j
}

/// std `str::trim`, as a new `String`.
pub fn trim_str(s: &str) -> (r: String)
    ensures
        r@ == trim(s@),
{
    let v = chars_of(s);
    let a = trim_start_index(&v);
    let b = trim_end_index(&v, a);
    string_of_range(&v, a, b)
}

/// The first white-space-separated word of `s`, if any (std
/// `s.split_whitespace().next()`).
pub open spec fn first_word(s: Seq<char>) -> Option<Seq<char>> {
    let t = trim_start(s);
    if t.len() == 0 {
        None
    } else {
        Some(t.take(word_len(t)))
    }
}

/// The length of the longest prefix of `s` free of white space.
pub open spec fn word_len(s: Seq<char>) -> int
    decreases s.len(),
{
    if s.len() > 0 && !is_ws(s[0]) {
        1 + word_len(s.drop_first())
    } else {
        0
    }
}

proof fn lemma_word_len_bounds(s: Seq<char>)
    ensures
        0 <= word_len(s) <= s.len(),
    decreases s.len(),
{
    if s.len() > 0 && !is_ws(s[0]) {
        lemma_word_len_bounds(s.drop_first());
    }
}

/// The first white-space-separated word of `s`, if any.
pub fn first_word_of(s: &str) -> (r: Option<String>)
    ensures
        match r {
            Some(w) => first_word(s@) == Some(w@),
            None => first_word(s@) is None,
        },
{
    let v = chars_of(s);
    let a = trim_start_index(&v);
    if a == v.len() {
        return None;
    }
    let mut b = a;
    while b < v.len() && !is_ws_exec(v[b])
        invariant
            a <= b <= v@.len(),
            word_len(v@.subrange(a as int, v@.len() as int)) == (b - a) + word_len(
                v@.subrange(b as int, v@.len() as int),
            ),
        decreases v@.len() - b,
    {
        assert(v@.subrange(b as int, v@.len() as int).drop_first() =~= v@.subrange(
            b + 1,
            v@.len() as int,
        ));
        b += 1;
    }
    proof {
        let t = v@.subrange(a as int, v@.len() as int);
        assert(word_len(v@.subrange(b as int, v@.len() as int)) == 0);
        assert(t.take(word_len(t)) =~= v@.subrange(a as int, b as int));
    }
    Some(string_of_range(&v, a, b))
}

// ---------------------------------------------------------------------------
// Taking, replacing, joining
// ---------------------------------------------------------------------------

/// The first `n` characters of `s` (std `s.chars().take(n).collect()`).
pub open spec fn take_chars(s: Seq<char>, n: nat) -> Seq<char> {
    if n < s.len() {
        s.take(n as int)
    } else {
        s
    }
}

/// The first `n` characters of `s`.
pub fn take_chars_of(s: &str, n: usize) -> (r: String)
    ensures
        r@ == take_chars(s@, n as nat),
{
    let v = chars_of(s);
    if n < v.len() {
        string_of_range(&v, 0, n)
    } else {
        string_of(&v)
    }
}

/// The number of characters of `s` (std `s.chars().count()`).
pub fn char_count(s: &str) -> (r: usize)
    ensures
        r == s@.len(),
{
    s.unicode_len()
}

/// `s` with every character that `bad` holds replaced by `with`.
pub open spec fn replace_chars(s: Seq<char>, bad: Seq<char>, with: char) -> Seq<char> {
    Seq::new(s.len(), |i: int| if bad.contains(s[i]) { with } else { s[i] })
}

/// std `s.replace([..], "_")`-style replacement of single characters.
pub fn replace_chars_of(s: &str, bad: &Vec<char>, with: char) -> (r: String)
    ensures
        r@ == replace_chars(s@, bad@, with),
{
    let v = chars_of(s);
    let mut out = String::new();
    let mut i: usize = 0;
    while i < v.len()
        invariant
            i <= v@.len(),
            v@ == s@,
            out@ == replace_chars(s@, bad@, with).take(i as int),
        decreases v@.len() - i,
    {
        let c = v[i];
        let mut hit = false;
        let mut k: usize = 0;
        while k < bad.len()
            invariant
                k <= bad@.len(),
                hit == (exists|m: int| 0 <= m < k && bad@[m] == c),
            decreases bad@.len() - k,
        {
            if bad[k] == c {
                hit = true;
            }
            k += 1;
        }
        proof {
            if hit {
                let m = choose|m: int| 0 <= m < k && bad@[m] == c;
                assert(bad@.contains(c)) by {
                    assert(bad@[m] == c);
                }
            } else {
                assert(!bad@.contains(c));
            }
        }
        if hit {
            push_char(&mut out, with);
        } else {
            push_char(&mut out, c);
        }
        assert(out@ =~= replace_chars(s@, bad@, with).take(i + 1));
        i += 1;
    }
    assert(replace_chars(s@, bad@, with).take(v@.len() as int) =~= replace_chars(
        s@,
        bad@,
        with,
    ));
    out
}

/// The parts joined with `sep` between consecutive parts (std `join`).
pub open spec fn join(parts: Seq<Seq<char>>, sep: Seq<char>) -> Seq<char>
    decreases parts.len(),
{
    if parts.len() == 0 {
        Seq::empty()
    } else if parts.len() == 1 {
        parts[0]
    } else {
        join(parts.drop_last(), sep) + sep + parts.last()
    }
}

/// The views of a vector of strings.
pub open spec fn views(v: Seq<String>) -> Seq<Seq<char>> {
    v.map_values(|s: String| s@)
}

/// Joins the strings of `parts` with `sep`.
pub fn join_strings(parts: &Vec<String>, sep: &str) -> (r: String)
    ensures
        r@ == join(views(parts@), sep@),
{
    let mut out = String::new();
    let mut i: usize = 0;
    while i < parts.len()
        invariant
            i <= parts@.len(),
            out@ == join(views(parts@).take(i as int), sep@),
        decreases parts@.len() - i,
    {
        if i > 0 {
            out.append(sep);
        }
        out.append(parts[i].as_str());
        assert(views(parts@).take(i + 1).drop_last() =~= views(parts@).take(i as int));
        i += 1;
    }
    assert(views(parts@).take(parts@.len() as int) =~= views(parts@));
    out
}

/// The UTF-8 length of a text in bytes (std `str::len`).
pub open spec fn byte_len(s: Seq<char>) -> nat {
    vstd::utf8::encode_utf8(s).len()
}

/// The UTF-8 length of `s` in bytes.
pub fn str_byte_len(s: &str) -> (r: usize)
    ensures
        r == byte_len(s@),
{
    s.as_bytes().len()
}

// ---------------------------------------------------------------------------
// Decimal numbers
// ---------------------------------------------------------------------------

/// The decimal digits of `n`, as std's `Display` for integers prints them.
pub open spec fn decimal(n: nat) -> Seq<char>
    decreases n,
{
    if n < 10 {
        seq![digit_char(n)]
    } else {
        decimal(n / 10).push(digit_char(n % 10))
    }
}

/// The digit character of `d` (for `d < 10`).
pub open spec fn digit_char(d: nat) -> char {
    if d == 0 {
        '0'
    } else if d == 1 {
        '1'
    } else if d == 2 {
        '2'
    } else if d == 3 {
        '3'
    } else if d == 4 {
        '4'
    } else if d == 5 {
        '5'
    } else if d == 6 {
        '6'
    } else if d == 7 {
        '7'
    } else if d == 8 {
        '8'
    } else {
        '9'
    }
}

pub fn digit_char_exec(d: u64) -> (c: char)
    requires
        d < 10,
    ensures
        c == digit_char(d as nat),
{
    if d == 0 {
        '0'
    } else if d == 1 {
        '1'
    } else if d == 2 {
        '2'
    } else if d == 3 {
        '3'
    } else if d == 4 {
        '4'
    } else if d == 5 {
        '5'
    } else if d == 6 {
        '6'
    } else if d == 7 {
        '7'
    } else if d == 8 {
        '8'
    } else {
        '9'
    }
}

/// The decimal text of `n`.
pub fn decimal_string(n: u64) -> (r: String)
    ensures
        r@ == decimal(n as nat),
    decreases n,
{
    if n < 10 {
        let mut s = String::new();
        push_char(&mut s, digit_char_exec(n));
        assert(s@ =~= seq![digit_char(n as nat)]);
        s
    } else {
        let mut s = decimal_string(n / 10);
        push_char(&mut s, digit_char_exec(n % 10));
        s
    }
}

// ---------------------------------------------------------------------------
// Ordering
// ---------------------------------------------------------------------------

/// `a` sorts strictly before `b`: std's string order, which compares UTF-8
/// bytes and so agrees with comparing code points one by one.
pub open spec fn seq_lt(a: Seq<char>, b: Seq<char>) -> bool
    decreases a.len(),
{
    if a.len() == 0 {
        b.len() > 0
    } else if b.len() == 0 {
        false
    } else if a[0] != b[0] {
        a[0] < b[0]
    } else {
        seq_lt(a.drop_first(), b.drop_first())
    }
}

/// The order is transitive.
pub proof fn lemma_seq_lt_transitive(a: Seq<char>, b: Seq<char>, c: Seq<char>)
    requires
        seq_lt(a, b),
        seq_lt(b, c),
    ensures
        seq_lt(a, c),
    decreases a.len(),
{
    if a.len() > 0 && b.len() > 0 && c.len() > 0 && a[0] == b[0] && b[0] == c[0] {
        lemma_seq_lt_transitive(a.drop_first(), b.drop_first(), c.drop_first());
    }
}

/// The order is total and irreflexive.
pub proof fn lemma_seq_lt_total(a: Seq<char>, b: Seq<char>)
    ensures
        a != b ==> (seq_lt(a, b) || seq_lt(b, a)),
        !(seq_lt(a, b) && seq_lt(b, a)),
        !seq_lt(a, a),
    decreases a.len(),
{
    if a.len() > 0 && b.len() > 0 && a[0] == b[0] {
        lemma_seq_lt_total(a.drop_first(), b.drop_first());
        if a.drop_first() == b.drop_first() {
            assert(a =~= seq![a[0]] + a.drop_first());
            assert(b =~= seq![b[0]] + b.drop_first());
        }
    }
    if a.len() > 0 {
        lemma_seq_lt_total(a.drop_first(), a.drop_first());
    }
    if a.len() == 0 && b.len() == 0 {
        assert(a =~= b);
    }
    if a.len() > 0 && b.len() > 0 && a[0] != b[0] {
    }
}

/// Whether `a` sorts strictly before `b`.
pub fn str_lt(a: &str, b: &str) -> (r: bool)
    ensures
        r == seq_lt(a@, b@),
{
    let av = chars_of(a);
    let bv = chars_of(b);
    let mut i: usize = 0;
    assert(av@.skip(0) =~= av@);
    assert(bv@.skip(0) =~= bv@);
    while i < av.len() && i < bv.len() && av[i] == bv[i]
        invariant
            i <= av@.len(),
            i <= bv@.len(),
            seq_lt(a@, b@) == seq_lt(av@.skip(i as int), bv@.skip(i as int)),
            av@ == a@,
            bv@ == b@,
        decreases av@.len() - i,
    {
        assert(av@.skip(i as int).drop_first() =~= av@.skip(i + 1));
        assert(bv@.skip(i as int).drop_first() =~= bv@.skip(i + 1));
        i += 1;
    }
    if i == av.len() {
        i < bv.len()
    } else if i == bv.len() {
        false
    } else {
        assert(av@.skip(i as int)[0] == av@[i as int]);
        assert(bv@.skip(i as int)[0] == bv@[i as int]);
        let x = av[i];
        let y = bv[i];
        x < y
    }
}

} // verus!

verus! {

// ---------------------------------------------------------------------------
// Stripping characters of a set, suffixes, first occurrences
// ---------------------------------------------------------------------------

/// `s` without its leading characters that `set` holds (std
/// `trim_start_matches` with a character set).
pub open spec fn strip_leading(s: Seq<char>, set: Seq<char>) -> Seq<char>
    decreases s.len(),
{
    if s.len() > 0 && set.contains(s[0]) {
        strip_leading(s.drop_first(), set)
    } else {
        s
    }
}

/// `s` without its trailing characters that `set` holds (std
/// `trim_end_matches` with a character set).
pub open spec fn strip_trailing(s: Seq<char>, set: Seq<char>) -> Seq<char>
    decreases s.len(),
{
    if s.len() > 0 && set.contains(s.last()) {
        strip_trailing(s.drop_last(), set)
    } else {
        s
    }
}

fn in_set(set: &Vec<char>, c: char) -> (r: bool)
    ensures
        r == set@.contains(c),
{
    let mut i: usize = 0;
    while i < set.len()
        invariant
            i <= set@.len(),
            forall|k: int| 0 <= k < i ==> set@[k] != c,
        decreases set@.len() - i,
    {
        if set[i] == c {
            assert(set@[i as int] == c);
            return true;
        }
        i += 1;
    }
    false
}

/// `s` without its leading characters that `set` holds.
pub fn strip_leading_of(s: &str, set: &Vec<char>) -> (r: String)
    ensures
        r@ == strip_leading(s@, set@),
{
    let v = chars_of(s);
    let mut i: usize = 0;
    assert(v@.subrange(0, v@.len() as int) =~= v@);
    while i < v.len() && in_set(set, v[i])
        invariant
            i <= v@.len(),
            v@ == s@,
            strip_leading(s@, set@) == strip_leading(v@.subrange(i as int, v@.len() as int), set@),
        decreases v@.len() - i,
    {
        assert(v@.subrange(i as int, v@.len() as int).drop_first() =~= v@.subrange(i + 1, v@.len() as int));
        i += 1;
    }
    string_of_range(&v, i, v.len())
}

/// `s` without its trailing characters that `set` holds.
pub fn strip_trailing_of(s: &str, set: &Vec<char>) -> (r: String)
    ensures
        r@ == strip_trailing(s@, set@),
{
    let v = chars_of(s);
    let mut j: usize = v.len();
    assert(v@.subrange(0, v@.len() as int) =~= v@);
    while j > 0 && in_set(set, v[j - 1])
        invariant
            j <= v@.len(),
            v@ == s@,
            strip_trailing(s@, set@) == strip_trailing(v@.subrange(0, j as int), set@),
        decreases j,
    {
        assert(v@.subrange(0, j as int).drop_last() =~= v@.subrange(0, j - 1));
        j -= 1;
    }
    string_of_range(&v, 0, j)
}

/// `s` ends with `p`.
pub open spec fn seq_ends_with(s: Seq<char>, p: Seq<char>) -> bool {
    p.len() <= s.len() && s.subrange(s.len() - p.len(), s.len() as int) == p
}

/// Whether `s` ends with `p`.
pub fn str_ends_with(s: &str, p: &str) -> (r: bool)
    ensures
        r == seq_ends_with(s@, p@),
{
    let sv = chars_of(s);
    let pv = chars_of(p);
    if pv.len() > sv.len() {
        return false;
    }
    matches_at_exec(&sv, &pv, sv.len() - pv.len())
}

/// The first position at which `pat` occurs in `hay` (meaningful when it
/// occurs).
pub open spec fn first_match(hay: Seq<char>, pat: Seq<char>) -> int {
    choose|i: int| matches_at(hay, pat, i) && forall|k: int| 0 <= k < i ==> !#[trigger] matches_at(hay, pat, k)
}

/// A first occurrence is the first occurrence.
pub proof fn lemma_first_match(hay: Seq<char>, pat: Seq<char>, i: int)
    requires
        matches_at(hay, pat, i),
        forall|k: int| 0 <= k < i ==> !#[trigger] matches_at(hay, pat, k),
    ensures
        first_match(hay, pat) == i,
{
    let c = first_match(hay, pat);
    assert(matches_at(hay, pat, c) && forall|k: int| 0 <= k < c ==> !#[trigger] matches_at(hay, pat, k));
    if c < i {
        assert(!matches_at(hay, pat, c));
    }
    if c > i {
        assert(!matches_at(hay, pat, i));
    }
}

} // verus!

verus! {

/// The decimal text of a signed number (a `-` before a negative one).
pub open spec fn signed_decimal(n: int) -> Seq<char> {
    if n < 0 {
        "-"@ + decimal((-n) as nat)
    } else {
        decimal(n as nat)
    }
}

/// The decimal text of `n`.
pub fn int_string(n: i64) -> (r: String)
    ensures
        r@ == signed_decimal(n as int),
{
    if n < 0 {
        let m: i128 = -(n as i128);
        let mut s = owned("-");
        let d = decimal_string(m as u64);
        append(&mut s, d.as_str());
        s
    } else {
        decimal_string(n as u64)
    }
}

} // verus!

verus! {

/// std `str::trim_end`, as a new `String`.
pub fn trim_end_of(s: &str) -> (r: String)
    ensures
        r@ == trim_end(s@),
{
    let v = chars_of(s);
    let b = trim_end_index(&v, 0);
    assert(v@.subrange(0, v@.len() as int) =~= v@);
    string_of_range(&v, 0, b)
}

/// std `str::trim_start`, as a new `String`.
pub fn trim_start_of(s: &str) -> (r: String)
    ensures
        r@ == trim_start(s@),
{
    let v = chars_of(s);
    let a = trim_start_index(&v);
    string_of_range(&v, a, v.len())
}

} // verus!

verus! {

// ---------------------------------------------------------------------------
// Lines
// ---------------------------------------------------------------------------

/// The position of the first line break of `s`, or its length.
pub open spec fn nl_index(s: Seq<char>) -> nat
    decreases s.len(),
{
    if s.len() == 0 {
        0
    } else if s[0] == '\n' {
        0
    } else {
        1 + nl_index(s.drop_first())
    }
}

proof fn lemma_nl_index(s: Seq<char>)
    ensures
        nl_index(s) <= s.len(),
        nl_index(s) < s.len() ==> s[nl_index(s) as int] == '\n',
        forall|k: int| 0 <= k < nl_index(s) ==> s[k] != '\n',
    decreases s.len(),
{
    if s.len() > 0 && s[0] != '\n' {
        lemma_nl_index(s.drop_first());
        assert forall|k: int| 0 <= k < nl_index(s) implies s[k] != '\n' by {
            if k > 0 {
                assert(s[k] == s.drop_first()[k - 1]);
            }
        }
    }
}

/// A line without the `\r` of a `\r\n` ending.
pub open spec fn strip_cr(l: Seq<char>) -> Seq<char> {
    if l.len() > 0 && l.last() == '\r' {
        l.drop_last()
    } else {
        l
    }
}

/// The lines of a text (std `str::lines`): split at `\n`, a final `\r`
/// dropped from each, and no empty line after a final line break.
pub open spec fn text_lines(s: Seq<char>) -> Seq<Seq<char>>
    decreases s.len(),
{
    if s.len() == 0 {
        Seq::empty()
    } else {
        let i = nl_index(s);
        seq![strip_cr(s.take(i as int))] + if i < s.len() {
            text_lines(s.skip(i as int + 1))
        } else {
            Seq::empty()
        }
    }
}

/// The lines of a text.
pub fn lines_of(s: &str) -> (r: Vec<String>)
    ensures
        views(r@) == text_lines(s@),
{
    let v = chars_of(s);
    let mut out: Vec<String> = Vec::new();
    let mut pos: usize = 0;
    assert(v@.skip(0) =~= v@);
    while pos < v.len()
        invariant
            pos <= v@.len(),
            v@ == s@,
            text_lines(s@) == views(out@) + text_lines(v@.skip(pos as int)),
        decreases v@.len() - pos,
    {
        let ghost rest = v@.skip(pos as int);
        proof {
            lemma_nl_index(rest);
        }
        let mut j = pos;
        while j < v.len() && v[j] != '\n'
            invariant
                pos <= j <= v@.len(),
                rest == v@.skip(pos as int),
                j - pos <= nl_index(rest),
                forall|k: int| 0 <= k < nl_index(rest) ==> rest[k] != '\n',
                nl_index(rest) < rest.len() ==> rest[nl_index(rest) as int] == '\n',
                nl_index(rest) <= rest.len(),
            decreases v@.len() - j,
        {
            assert(rest[j - pos] == v@[j as int]);
            j += 1;
        }
        proof {
            if j < v@.len() {
                assert(rest[j - pos] == v@[j as int]);
            }
            assert(j - pos == nl_index(rest));
        }
        let end = if j > pos && v[j - 1] == '\r' {
            j - 1
        } else {
            j
        };
        let line = string_of_range(&v, pos, end);
        assert(line@ =~= strip_cr(rest.take((j - pos) as int)));
        let ghost prev = out@;
        out.push(line);
        assert(views(out@) =~= views(prev).push(line@));
        if j < v.len() {
            assert(rest.skip(j - pos + 1) =~= v@.skip(j + 1));
            pos = j + 1;
        } else {
            assert(v@.skip(j as int) =~= Seq::<char>::empty());
            pos = j;
        }
    }
    assert(v@.skip(pos as int) =~= Seq::<char>::empty());
    out
}

} // verus!

verus! {

// ---------------------------------------------------------------------------
// Words
// ---------------------------------------------------------------------------

/// The white-space-separated words of a text (std `split_whitespace`).
pub open spec fn words(s: Seq<char>) -> Seq<Seq<char>>
    decreases s.len(),
{
    if s.len() == 0 {
        Seq::empty()
    } else {
        let rest = words(s.drop_first());
        if is_ws(s[0]) {
            rest
        } else if s.len() > 1 && !is_ws(s[1]) && rest.len() > 0 {
            rest.update(0, seq![s[0]] + rest[0])
        } else {
            seq![seq![s[0]]] + rest
        }
    }
}

proof fn lemma_words_nonempty(s: Seq<char>)
    requires
        s.len() > 0,
        !is_ws(s[0]),
    ensures
        words(s).len() > 0,
    decreases s.len(),
{
    let rest = words(s.drop_first());
    if s.len() > 1 && !is_ws(s[1]) {
        lemma_words_nonempty(s.drop_first());
    }
}

/// The views of a list of character vectors.
pub open spec fn char_vecs(v: Seq<Vec<char>>) -> Seq<Seq<char>> {
    v.map_values(|w: Vec<char>| w@)
}

/// The white-space-separated words of a text.
pub fn split_words(s: &str) -> (r: Vec<String>)
    ensures
        views(r@) == words(s@),
{
    let v = chars_of(s);
    let mut acc: Vec<Vec<char>> = Vec::new();
    let mut i: usize = v.len();
    assert(v@.skip(v@.len() as int) =~= Seq::<char>::empty());
    while i > 0
        invariant
            i <= v@.len(),
            v@ == s@,
            char_vecs(acc@) == words(v@.skip(i as int)),
        decreases i,
    {
        let c = v[i - 1];
        let ghost suffix = v@.skip(i - 1);
        assert(suffix.drop_first() =~= v@.skip(i as int));
        assert(suffix[0] == c);
        if is_ws_exec(c) {
        } else if i < v.len() && !is_ws_exec(v[i]) {
            proof {
                assert(suffix[1] == v@[i as int]);
                lemma_words_nonempty(v@.skip(i as int));
            }
            let ghost prev = char_vecs(acc@);
            let mut first = vec![c];
            let old_first = acc[0].clone();
            let mut k: usize = 0;
            while k < old_first.len()
                invariant
                    k <= old_first@.len(),
                    first@ == seq![c] + old_first@.take(k as int),
                decreases old_first@.len() - k,
            {
                first.push(old_first[k]);
                assert(old_first@.take(k + 1) =~= old_first@.take(k as int).push(old_first@[k as int]));
                k += 1;
            }
            assert(old_first@.take(old_first@.len() as int) =~= old_first@);
            acc.set(0, first);
            assert(char_vecs(acc@) =~= prev.update(0, seq![c] + prev[0]));
        } else {
            let ghost prev = char_vecs(acc@);
            let ghost old_acc = acc@;
            let single = vec![c];
            assert(single@ =~= seq![c]);
            acc.insert(0, single);
            assert forall|k: int| 0 <= k < acc@.len() implies #[trigger] char_vecs(acc@)[k] == (seq![seq![c]] + prev)[k] by {
                if k > 0 {
                    assert(acc@[k] == old_acc[k - 1]);
                }
            }
            assert(char_vecs(acc@) =~= seq![seq![c]] + prev);
        }
        i -= 1;
    }
    assert(v@.skip(0) =~= v@);
    let mut out: Vec<String> = Vec::new();
    let mut j: usize = 0;
    while j < acc.len()
        invariant
            j <= acc@.len(),
            views(out@) == char_vecs(acc@).take(j as int),
        decreases acc@.len() - j,
    {
        let ghost prev = out@;
        out.push(string_of(&acc[j]));
        assert(views(out@) =~= views(prev).push(acc@[j as int]@));
        assert(views(out@) =~= char_vecs(acc@).take(j + 1));
        j += 1;
    }
    assert(char_vecs(acc@).take(acc@.len() as int) =~= char_vecs(acc@));
    out
}

} // verus!
