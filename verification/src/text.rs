//! Text primitives. A string is modelled by its sequence of characters; the
//! number of bytes that it takes is the length of its UTF-8 encoding.

pub mod laws;

use vstd::prelude::*;
use vstd::string::*;
use vstd::utf8::*;

verus! {

/// `String::push`: the character is appended to the string.
pub assume_specification[ String::push ](s: &mut String, c: char)
    ensures
        final(s)@ == old(s)@.push(c),
;

/// The characters with the Unicode `White_Space` property.
pub open spec fn is_white(c: char) -> bool {
    ||| ('\u{9}' <= c && c <= '\u{d}')
    ||| c == ' '
    ||| c == '\u{85}'
    ||| c == '\u{a0}'
    ||| c == '\u{1680}'
    ||| ('\u{2000}' <= c && c <= '\u{200a}')
    ||| c == '\u{2028}'
    ||| c == '\u{2029}'
    ||| c == '\u{202f}'
    ||| c == '\u{205f}'
    ||| c == '\u{3000}'
}

/// `s` without the whitespace that it starts with.
pub open spec fn trim_start(s: Seq<char>) -> Seq<char>
    decreases s.len(),
{
    if s.len() > 0 && is_white(s[0]) {
        trim_start(s.skip(1))
    } else {
        s
    }
}

/// `s` without the whitespace that it ends with.
pub open spec fn trim_end(s: Seq<char>) -> Seq<char>
    decreases s.len(),
{
    if s.len() > 0 && is_white(s.last()) {
        trim_end(s.drop_last())
    } else {
        s
    }
}

/// `s` without the whitespace at its two ends.
pub open spec fn trimmed(s: Seq<char>) -> Seq<char> {
    trim_end(trim_start(s))
}

/// `s` without the copies of `c` that it ends with.
pub open spec fn trim_end_char(s: Seq<char>, c: char) -> Seq<char>
    decreases s.len(),
{
    if s.len() > 0 && s.last() == c {
        trim_end_char(s.drop_last(), c)
    } else {
        s
    }
}

/// `s` without the copies of `c` that it starts with.
pub open spec fn trim_start_char(s: Seq<char>, c: char) -> Seq<char>
    decreases s.len(),
{
    if s.len() > 0 && s[0] == c {
        trim_start_char(s.skip(1), c)
    } else {
        s
    }
}

/// Whether `p` stands at the start of `s`.
pub open spec fn starts_with<T>(s: Seq<T>, p: Seq<T>) -> bool {
    p.len() <= s.len() && s.take(p.len() as int) == p
}

/// Where `p` first occurs in `s`.
pub open spec fn find<T>(s: Seq<T>, p: Seq<T>) -> Option<nat>
    decreases s.len(),
{
    if starts_with(s, p) {
        Some(0nat)
    } else if s.len() == 0 {
        None
    } else {
        match find(s.skip(1), p) {
            Some(k) => Some(k + 1),
            None => None,
        }
    }
}

/// `s` with the first occurrence of `p` replaced by `r`.
pub open spec fn replace_first(s: Seq<char>, p: Seq<char>, r: Seq<char>) -> Seq<char> {
    match find(s, p) {
        Some(k) => s.take(k as int) + r + s.skip((k + p.len()) as int),
        None => s,
    }
}

/// A line without the carriage return that it ends with.
pub open spec fn strip_cr(s: Seq<char>) -> Seq<char> {
    if s.len() > 0 && s.last() == '\r' {
        s.drop_last()
    } else {
        s
    }
}

/// The lines of `s`. A line ends at a line feed, or at a carriage return
/// followed by one; what follows the last line feed is a line if it is not
/// empty.
pub open spec fn lines(s: Seq<char>) -> Seq<Seq<char>>
    decreases s.len(),
{
    if s.len() == 0 {
        Seq::empty()
    } else {
        match find(s, seq!['\n']) {
            Some(k) => if k < s.len() {
                seq![strip_cr(s.take(k as int))] + lines(s.skip((k + 1) as int))
            } else {
                Seq::empty()
            },
            None => seq![s],
        }
    }
}

/// The parts of `s` between the copies of `c`.
pub open spec fn split(s: Seq<char>, c: char) -> Seq<Seq<char>>
    decreases s.len(),
{
    match find(s, seq![c]) {
        Some(k) => if k < s.len() {
            seq![s.take(k as int)] + split(s.skip((k + 1) as int), c)
        } else {
            seq![s]
        },
        None => seq![s],
    }
}

/// The maximal runs of `s` without whitespace, in order.
pub open spec fn words(s: Seq<char>) -> Seq<Seq<char>>
    decreases s.len(),
{
    if s.len() == 0 {
        Seq::empty()
    } else if is_white(s.last()) {
        words(s.drop_last())
    } else if s.len() == 1 || is_white(s[s.len() - 2]) {
        words(s.drop_last()).push(seq![s.last()])
    } else {
        let before = words(s.drop_last());
        before.drop_last().push(before.last().push(s.last()))
    }
}

/// The parts one after the other, with `sep` between each two.
pub open spec fn join(parts: Seq<Seq<char>>, sep: Seq<char>) -> Seq<char>
    decreases parts.len(),
{
    if parts.len() == 0 {
        Seq::empty()
    } else if parts.len() == 1 {
        parts[0]
    } else {
        join(parts.drop_last(), sep) + sep + parts.last()
    }
}

/// The views of a sequence of strings.
pub open spec fn views(v: Seq<String>) -> Seq<Seq<char>> {
    v.map_values(|s: String| s@)
}

/// The view of an optional string.
pub open spec fn opt_view(s: Option<String>) -> Option<Seq<char>> {
    match s {
        Some(t) => Some(t@),
        None => None,
    }
}

/// The digit for `d`.
pub open spec fn digit(d: nat) -> char {
    (48 + d % 10) as char
}

/// `n` in decimal notation.
pub open spec fn decimal(n: nat) -> Seq<char>
    decreases n,
{
    if n < 10 {
        seq![digit(n)]
    } else {
        decimal(n / 10).push(digit(n % 10))
    }
}

/// `n` in decimal notation, with its sign where it is negative.
pub open spec fn signed_decimal(n: int) -> Seq<char> {
    if n < 0 {
        "-"@ + decimal((-n) as nat)
    } else {
        decimal(n as nat)
    }
}

/// How many bytes `s` takes.
pub open spec fn byte_len(s: Seq<char>) -> nat {
    encode_utf8(s).len()
}

/// Whether `a` comes before `b`, or is equal to it, in the order of their
/// characters.
pub open spec fn before_or_same(a: Seq<char>, b: Seq<char>) -> bool
    decreases a.len(),
{
    if a.len() == 0 {
        true
    } else if b.len() == 0 {
        false
    } else if a[0] != b[0] {
        a[0] < b[0]
    } else {
        before_or_same(a.skip(1), b.skip(1))
    }
}

/// Whether each text comes before the next or is equal to it.
pub open spec fn is_sorted(v: Seq<Seq<char>>) -> bool {
    forall|i: int, j: int|
        0 <= i < j < v.len() ==> before_or_same(#[trigger] v[i], #[trigger] v[j])
}

proof fn lemma_order_total(a: Seq<char>, b: Seq<char>)
    ensures
        before_or_same(a, b) || before_or_same(b, a),
    decreases a.len(),
{
    if a.len() > 0 && b.len() > 0 && a[0] == b[0] {
        lemma_order_total(a.skip(1), b.skip(1));
    }
}

proof fn lemma_order_transitive(a: Seq<char>, b: Seq<char>, c: Seq<char>)
    requires
        before_or_same(a, b),
        before_or_same(b, c),
    ensures
        before_or_same(a, c),
    decreases a.len(),
{
    if a.len() > 0 && b.len() > 0 && c.len() > 0 && a[0] == b[0] && b[0] == c[0] {
        lemma_order_transitive(a.skip(1), b.skip(1), c.skip(1));
    }
}

/// The longest prefix of `s` that takes at most `max` bytes.
pub open spec fn truncated(s: Seq<char>, max: nat) -> Seq<char>
    decreases s.len(),
{
    if s.len() == 0 || byte_len(s) <= max {
        s
    } else {
        truncated(s.drop_last(), max)
    }
}

/// The encoding of a concatenation is the concatenation of the encodings.
pub proof fn lemma_encode_concat(a: Seq<char>, b: Seq<char>)
    ensures
        encode_utf8(a + b) == encode_utf8(a) + encode_utf8(b),
    decreases a.len(),
{
    if a.len() == 0 {
        assert(a + b =~= b);
        assert(encode_utf8(a) + encode_utf8(b) =~= encode_utf8(b));
    } else {
        lemma_encode_concat(a.drop_first(), b);
        assert((a + b).drop_first() =~= a.drop_first() + b);
        assert(encode_utf8(a + b) =~= encode_utf8(a) + encode_utf8(b));
    }
}

proof fn lemma_encoded_prefix_ends_at_boundary(a: Seq<char>, b: Seq<char>)
    ensures
        is_char_boundary(encode_utf8(a + b), encode_utf8(a).len() as int),
    decreases a.len(),
{
    encode_utf8_valid_utf8(a + b);
    if a.len() == 0 {
    } else {
        encode_utf8_first_scalar(a + b);
        lemma_encode_concat(a, b);
        lemma_encoded_prefix_ends_at_boundary(a.drop_first(), b);
        assert((a + b).drop_first() =~= a.drop_first() + b);
        assert(pop_first_scalar(encode_utf8(a + b)) =~= encode_utf8(a.drop_first() + b));
        encode_utf8_first_scalar(a);
    }
}

proof fn lemma_truncated_at(s: Seq<char>, max: nat, k: int)
    requires
        0 <= k <= s.len(),
        byte_len(s.take(k)) <= max,
        k < s.len() ==> byte_len(s.take(k + 1)) > max,
    ensures
        truncated(s, max) == s.take(k),
    decreases s.len(),
{
    if k == s.len() {
        assert(s.take(k) =~= s);
    } else {
        assert(s.take(k + 1) + s.skip(k + 1) =~= s);
        lemma_encode_concat(s.take(k + 1), s.skip(k + 1));
        assert(s.drop_last().take(k) =~= s.take(k));
        if k + 1 < s.len() {
            assert(s.drop_last().take(k + 1) =~= s.take(k + 1));
        }
        lemma_truncated_at(s.drop_last(), max, k);
    }
}

/// The first `n` bytes of a text, where `n` is the last character boundary up
/// to `max`, are the longest prefix that fits into `max` bytes.
pub proof fn lemma_truncated_at_boundary(s: Seq<char>, r: Seq<char>, max: nat, n: int)
    requires
        0 <= n <= max < byte_len(s),
        is_char_boundary(encode_utf8(s), n),
        encode_utf8(r) == encode_utf8(s).subrange(0, n),
        forall|j: int| n < j <= max ==> !is_char_boundary(encode_utf8(s), j),
    ensures
        r == truncated(s, max),
{
    let bytes = encode_utf8(s);
    encode_utf8_valid_utf8(s);
    encode_utf8_decode_utf8(s);
    encode_utf8_decode_utf8(r);
    decode_utf8_split(bytes, n);
    let k = r.len() as int;
    assert(s.take(k) =~= r);
    if k < s.len() {
        assert(s.take(k + 1) + s.skip(k + 1) =~= s);
        lemma_encoded_prefix_ends_at_boundary(s.take(k + 1), s.skip(k + 1));
        assert(s.take(k + 1) =~= r + seq![s[k]]);
        lemma_encode_concat(r, seq![s[k]]);
        assert(byte_len(seq![s[k]]) > 0) by {
            encode_utf8_first_scalar(seq![s[k]]);
        }
    }
    lemma_truncated_at(s, max, k);
}

/// A truncated text is a prefix of the text and takes at most `max` bytes, and
/// every longer prefix takes more.
pub proof fn lemma_truncated(s: Seq<char>, max: nat)
    ensures
        truncated(s, max).len() <= s.len(),
        truncated(s, max) == s.take(truncated(s, max).len() as int),
        byte_len(truncated(s, max)) <= max,
        forall|k: int|
            truncated(s, max).len() < k <= s.len() ==> byte_len(#[trigger] s.take(k)) > max,
    decreases s.len(),
{
    if s.len() == 0 || byte_len(s) <= max {
        assert(s.take(s.len() as int) =~= s);
        if s.len() == 0 {
            assert(encode_utf8(s) =~= Seq::empty());
        }
    } else {
        lemma_truncated(s.drop_last(), max);
        let t = truncated(s, max);
        assert(s.drop_last().take(t.len() as int) =~= s.take(t.len() as int));
        assert forall|k: int| t.len() < k <= s.len() implies byte_len(#[trigger] s.take(k))
            > max by {
            if k == s.len() {
                assert(s.take(k) =~= s);
            } else {
                assert(s.drop_last().take(k) =~= s.take(k));
            }
        }
    }
}

// ---- executable functions ----

pub fn is_white_char(c: char) -> (b: bool)
    ensures
        b == is_white(c),
{
    ('\u{9}' <= c && c <= '\u{d}') || c == ' ' || c == '\u{85}' || c == '\u{a0}' || c == '\u{1680}'
        || ('\u{2000}' <= c && c <= '\u{200a}') || c == '\u{2028}' || c == '\u{2029}' || c
        == '\u{202f}' || c == '\u{205f}' || c == '\u{3000}'
}

/// The characters of a string.
pub fn chars_of(s: &str) -> (v: Vec<char>)
    ensures
        v@ == s@,
{
    broadcast use axiom_spec_iter;

    let mut v: Vec<char> = Vec::new();
    for c in it: s.chars()
        invariant
            it.seq() == s@,
            v@ == it.seq().take(it.index()),
    {
        v.push(c);
        assert(it.seq().take(it.index() + 1) =~= it.seq().take(it.index()).push(c));
    }
    assert(s@.take(s@.len() as int) =~= s@);
    v
}

/// The string with the characters `from..to` of `v`.
pub fn string_range(v: &Vec<char>, from: usize, to: usize) -> (s: String)
    requires
        from <= to <= v.len(),
    ensures
        s@ == v@.subrange(from as int, to as int),
{
    let mut s = String::new();
    let mut i: usize = from;
    while i < to
        invariant
            from <= i <= to <= v.len(),
            s@ == v@.subrange(from as int, i as int),
        decreases to - i,
    {
        s.push(v[i]);
        i += 1;
        assert(v@.subrange(from as int, i as int) =~= v@.subrange(from as int, i - 1).push(
            v@[i - 1],
        ));
    }
    s
}

/// Whether the two strings hold the same characters.
pub fn same(a: &str, b: &str) -> (r: bool)
    ensures
        r == (a@ == b@),
{
    let x = a.to_owned();
    let y = b.to_owned();
    x == y
}

/// The number of bytes of a string.
pub fn len_bytes(s: &str) -> (n: usize)
    ensures
        n == byte_len(s@),
{
    s.as_bytes().len()
}

/// The concatenation of two strings.
pub fn cat2(a: &str, b: &str) -> (s: String)
    ensures
        s@ == a@ + b@,
{
    let mut s = a.to_owned();
    s.append(b);
    s
}

/// The concatenation of three strings.
pub fn cat3(a: &str, b: &str, c: &str) -> (s: String)
    ensures
        s@ == a@ + b@ + c@,
{
    let mut s = a.to_owned();
    s.append(b);
    s.append(c);
    s
}

/// A copy of an optional string.
pub fn clone_opt(s: &Option<String>) -> (r: Option<String>)
    ensures
        opt_view(r) == opt_view(*s),
{
    match s {
        Some(t) => Some(t.clone()),
        None => None,
    }
}

/// A copy of a list of strings.
pub fn clone_strs(v: &Vec<String>) -> (r: Vec<String>)
    ensures
        views(r@) == views(v@),
{
    let mut r: Vec<String> = Vec::new();
    let mut i: usize = 0;
    while i < v.len()
        invariant
            i <= v.len(),
            r.len() == i,
            forall|k: int| 0 <= k < i ==> (#[trigger] r@[k])@ == v@[k]@,
        decreases v.len() - i,
    {
        r.push(v[i].clone());
        i += 1;
    }
    assert(views(r@) =~= views(v@));
    r
}

/// The model of a result with texts.
pub open spec fn result_view(r: Result<String, String>) -> Result<Seq<char>, Seq<char>> {
    match r {
        Ok(s) => Ok(s@),
        Err(e) => Err(e@),
    }
}

/// Whether a text stands in a list.
pub fn lists(v: &Vec<String>, s: &str) -> (b: bool)
    ensures
        b == views(v@).contains(s@),
{
    let mut i: usize = 0;
    while i < v.len()
        invariant
            i <= v.len(),
            forall|k: int| 0 <= k < i ==> #[trigger] v@[k]@ != s@,
        decreases v.len() - i,
    {
        if same(v[i].as_str(), s) {
            assert(views(v@)[i as int] == s@);
            return true;
        }
        i += 1;
    }
    assert forall|k: int| 0 <= k < views(v@).len() implies views(v@)[k] != s@ by {
        assert(views(v@)[k] == v@[k]@);
    }
    false
}

/// `s` without the whitespace at its start.
pub fn trim_start_str(s: &str) -> (r: String)
    ensures
        r@ == trim_start(s@),
{
    let v = chars_of(s);
    let i = white_prefix(&v);
    let r = string_range(&v, i, v.len());
    assert(v@.subrange(i as int, v@.len() as int) =~= v@.skip(i as int));
    r
}

/// How many characters of whitespace `v` starts with.
fn white_prefix(v: &Vec<char>) -> (i: usize)
    ensures
        i <= v.len(),
        trim_start(v@) == v@.skip(i as int),
{
    let mut i: usize = 0;
    assert(v@.skip(0) =~= v@);
    while i < v.len() && is_white_char(v[i])
        invariant
            i <= v.len(),
            trim_start(v@) == trim_start(v@.skip(i as int)),
        decreases v.len() - i,
    {
        assert(v@.skip(i as int).skip(1) =~= v@.skip(i + 1));
        i += 1;
    }
    i
}

/// `s` without the whitespace at its two ends.
pub fn trim_str(s: &str) -> (r: String)
    ensures
        r@ == trimmed(s@),
{
    let v = chars_of(s);
    let i = white_prefix(&v);
    let mut j: usize = v.len();
    assert(v@.subrange(i as int, j as int) =~= v@.skip(i as int));
    while i < j && is_white_char(v[j - 1])
        invariant
            i <= j <= v.len(),
            trimmed(v@) == trim_end(v@.subrange(i as int, j as int)),
        decreases j,
    {
        assert(v@.subrange(i as int, j as int).drop_last() =~= v@.subrange(i as int, j - 1));
        j -= 1;
    }
    string_range(&v, i, j)
}

/// `s` without the copies of `c` at its end.
pub fn trim_end_char_str(s: &str, c: char) -> (r: String)
    ensures
        r@ == trim_end_char(s@, c),
{
    let v = chars_of(s);
    let mut j: usize = v.len();
    assert(v@.subrange(0, j as int) =~= v@);
    while 0 < j && v[j - 1] == c
        invariant
            j <= v.len(),
            trim_end_char(v@, c) == trim_end_char(v@.subrange(0, j as int), c),
        decreases j,
    {
        assert(v@.subrange(0, j as int).drop_last() =~= v@.subrange(0, j - 1));
        j -= 1;
    }
    string_range(&v, 0, j)
}

/// `s` without the copies of `c` at its start.
pub fn trim_start_char_str(s: &str, c: char) -> (r: String)
    ensures
        r@ == trim_start_char(s@, c),
{
    let v = chars_of(s);
    let mut i: usize = 0;
    assert(v@.skip(0) =~= v@);
    while i < v.len() && v[i] == c
        invariant
            i <= v.len(),
            trim_start_char(v@, c) == trim_start_char(v@.skip(i as int), c),
        decreases v.len() - i,
    {
        assert(v@.skip(i as int).skip(1) =~= v@.skip(i + 1));
        i += 1;
    }
    let r = string_range(&v, i, v.len());
    assert(v@.subrange(i as int, v@.len() as int) =~= v@.skip(i as int));
    r
}

/// Whether `p` stands in `v` at index `at`.
fn matches_at(v: &Vec<char>, p: &Vec<char>, at: usize) -> (b: bool)
    requires
        at <= v.len(),
    ensures
        b == starts_with(v@.skip(at as int), p@),
{
    if p.len() > v.len() - at {
        return false;
    }
    let mut i: usize = 0;
    while i < p.len()
        invariant
            at <= v.len(),
            p.len() <= v.len() - at,
            i <= p.len(),
            v@.skip(at as int).take(i as int) == p@.take(i as int),
        decreases p.len() - i,
    {
        if v[at + i] != p[i] {
            assert(v@.skip(at as int).take(p@.len() as int)[i as int] == v@[at + i]);
            return false;
        }
        assert(v@.skip(at as int).take(i + 1) =~= v@.skip(at as int).take(i as int).push(
            v@[at + i],
        ));
        assert(p@.take(i + 1) =~= p@.take(i as int).push(p@[i as int]));
        i += 1;
    }
    assert(p@.take(p@.len() as int) =~= p@);
    true
}

/// Where `p` first occurs in `v` at or after `from`.
pub fn find_from(v: &Vec<char>, p: &Vec<char>, from: usize) -> (r: Option<usize>)
    requires
        from <= v.len(),
    ensures
        match r {
            Some(k) => from <= k && k + p.len() <= v.len() && find(v@.skip(from as int), p@) == Some(
                (k - from) as nat,
            ),
            None => find(v@.skip(from as int), p@) is None,
        },
{
    let mut i: usize = from;
    loop
        invariant
            from <= i <= v.len(),
            find(v@.skip(from as int), p@) == match find(v@.skip(i as int), p@) {
                Some(k) => Some((k + (i - from)) as nat),
                None => None,
            },
        decreases v.len() - i,
    {
        if matches_at(v, p, i) {
            return Some(i);
        }
        if i == v.len() {
            return None;
        }
        assert(v@.skip(i as int).skip(1) =~= v@.skip(i + 1));
        i += 1;
    }
}

/// Whether `char::is_alphanumeric` takes a character for a letter or a number.
pub uninterp spec fn alphanumeric(c: char) -> bool;

/// The letters and digits of ASCII.
pub open spec fn ascii_alphanumeric(c: char) -> bool {
    ('0' <= c && c <= '9') || ('A' <= c && c <= 'Z') || ('a' <= c && c <= 'z')
}

/// Calls `char::is_alphanumeric`. Of the characters of ASCII it takes the
/// letters and the digits; which others it takes is left open.
#[verifier::external_body]
pub(crate) fn is_alphanumeric_char(c: char) -> (b: bool)
    ensures
        b == alphanumeric(c),
        c <= '\u{7f}' ==> b == ascii_alphanumeric(c),
{
    c.is_alphanumeric()
}

/// Whether a text consists of letters, numbers and the characters of `extra`.
pub open spec fn plain_name(s: Seq<char>, extra: Seq<char>) -> bool {
    forall|i: int| 0 <= i < s.len() ==> alphanumeric(#[trigger] s[i]) || extra.contains(s[i])
}

/// Whether a text has no character of ASCII but letters, digits and those of
/// `extra`.
pub open spec fn no_other_ascii(s: Seq<char>, extra: Seq<char>) -> bool {
    forall|i: int|
        0 <= i < s.len() && #[trigger] s[i] <= '\u{7f}' ==> ascii_alphanumeric(s[i])
            || extra.contains(s[i])
}

/// Whether `s` consists of letters, numbers and the characters of `extra`.
pub fn is_plain_name(s: &str, extra: &str) -> (b: bool)
    ensures
        b == plain_name(s@, extra@),
        b ==> no_other_ascii(s@, extra@),
{
    let v = chars_of(s);
    let allowed = chars_of(extra);
    let mut i: usize = 0;
    while i < v.len()
        invariant
            i <= v.len(),
            v@ == s@,
            allowed@ == extra@,
            forall|k: int|
                0 <= k < i ==> alphanumeric(#[trigger] v@[k]) || extra@.contains(v@[k]),
            forall|k: int|
                0 <= k < i && #[trigger] v@[k] <= '\u{7f}' ==> ascii_alphanumeric(v@[k])
                    || extra@.contains(v@[k]),
        decreases v.len() - i,
    {
        let c = v[i];
        if !is_alphanumeric_char(c) {
            let mut found = false;
            let mut j: usize = 0;
            while j < allowed.len() && !found
                invariant
                    j <= allowed.len(),
                    found ==> allowed@.contains(c),
                    !found ==> forall|k: int| 0 <= k < j ==> #[trigger] allowed@[k] != c,
                decreases allowed.len() - j + (if found {
                    0int
                } else {
                    1int
                }),
            {
                if allowed[j] == c {
                    found = true;
                } else {
                    j += 1;
                }
            }
            if !found {
                assert(!extra@.contains(c));
                return false;
            }
        }
        i += 1;
    }
    true
}

/// Calls `std::str::from_utf8`: the text that the bytes encode, or `None`
/// where they are not valid UTF-8.
#[verifier::external_body]
pub(crate) fn utf8_text(bytes: &Vec<u8>) -> (r: Option<String>)
    ensures
        match r {
            Some(s) => valid_utf8(bytes@) && s@ == decode_utf8(bytes@),
            None => !valid_utf8(bytes@),
        },
{
    match std::str::from_utf8(bytes) {
        Ok(s) => Some(s.to_owned()),
        Err(_) => None,
    }
}

/// Where `p` first occurs in `s`, counted in characters.
pub fn find_str(s: &str, p: &str) -> (r: Option<usize>)
    ensures
        match r {
            Some(k) => find(s@, p@) == Some(k as nat) && k + p@.len() <= s@.len(),
            None => find(s@, p@) is None,
        },
{
    let v = chars_of(s);
    let q = chars_of(p);
    assert(v@.skip(0) =~= v@);
    find_from(&v, &q, 0)
}

/// Whether `p` occurs in `s`.
pub fn contains_str(s: &str, p: &str) -> (b: bool)
    ensures
        b == (find(s@, p@) is Some),
{
    match find_str(s, p) {
        Some(_) => true,
        None => false,
    }
}

/// Whether `s` starts with `p`.
pub fn starts_with_str(s: &str, p: &str) -> (b: bool)
    ensures
        b == starts_with(s@, p@),
{
    let v = chars_of(s);
    let q = chars_of(p);
    assert(v@.skip(0) =~= v@);
    matches_at(&v, &q, 0)
}

/// What follows `p` in `s`, if `s` starts with it.
pub fn strip_prefix_str(s: &str, p: &str) -> (r: Option<String>)
    ensures
        match r {
            Some(t) => starts_with(s@, p@) && t@ == s@.skip(p@.len() as int),
            None => !starts_with(s@, p@),
        },
{
    let v = chars_of(s);
    let q = chars_of(p);
    assert(v@.skip(0) =~= v@);
    if matches_at(&v, &q, 0) {
        let t = string_range(&v, q.len(), v.len());
        assert(v@.subrange(q@.len() as int, v@.len() as int) =~= v@.skip(q@.len() as int));
        Some(t)
    } else {
        None
    }
}

/// What stands before and what after the first `p` in `s`.
pub fn split_once_str(s: &str, p: &str) -> (r: Option<(String, String)>)
    ensures
        match r {
            Some(t) => find(s@, p@) is Some && t.0@ == s@.take(find(s@, p@)->0 as int) && t.1@
                == s@.skip((find(s@, p@)->0 + p@.len()) as int),
            None => find(s@, p@) is None,
        },
{
    let v = chars_of(s);
    let q = chars_of(p);
    assert(v@.skip(0) =~= v@);
    match find_from(&v, &q, 0) {
        Some(k) => {
            let a = string_range(&v, 0, k);
            let b = string_range(&v, k + q.len(), v.len());
            assert(v@.subrange(0, k as int) =~= v@.take(k as int));
            assert(v@.subrange(k + q@.len(), v@.len() as int) =~= v@.skip(k + q@.len()));
            Some((a, b))
        },
        None => None,
    }
}

/// `s` with the first `p` replaced by `r`.
pub fn replace_first_str(s: &str, p: &str, r: &str) -> (t: String)
    ensures
        t@ == replace_first(s@, p@, r@),
{
    match split_once_str(s, p) {
        Some((a, b)) => cat3(a.as_str(), r, b.as_str()),
        None => s.to_owned(),
    }
}

/// Where `find` finds something, it stands.
pub proof fn lemma_find_bounds<T>(s: Seq<T>, p: Seq<T>)
    ensures
        find(s, p) matches Some(k) ==> k + p.len() <= s.len() && starts_with(s.skip(k as int), p),
    decreases s.len(),
{
    assert(s.skip(0) =~= s);
    if !starts_with(s, p) && s.len() > 0 {
        lemma_find_bounds(s.skip(1), p);
        if let Some(k) = find(s.skip(1), p) {
            assert(s.skip(1).skip(k as int) =~= s.skip((k + 1) as int));
        }
    }
}

/// The lines of a string.
pub fn lines_of(s: &str) -> (out: Vec<String>)
    ensures
        views(out@) == lines(s@),
{
    let v = chars_of(s);
    let mut nl: Vec<char> = Vec::new();
    nl.push('\n');
    assert(nl@ =~= seq!['\n']);
    let mut out: Vec<String> = Vec::new();
    let mut i: usize = 0;
    assert(v@.skip(0) =~= v@);
    while i < v.len()
        invariant
            i <= v.len(),
            nl@ == seq!['\n'],
            lines(v@) == views(out@) + lines(v@.skip(i as int)),
        decreases v.len() - i,
    {
        let ghost rest = v@.skip(i as int);
        match find_from(&v, &nl, i) {
            Some(k) => {
                let cut: usize = if i < k && v[k - 1] == '\r' {
                    k - 1
                } else {
                    k
                };
                let line = string_range(&v, i, cut);
                assert(line@ =~= strip_cr(rest.take(k - i)));
                assert(rest.skip(k - i + 1) =~= v@.skip(k + 1));
                let ghost before = out@;
                out.push(line);
                assert(views(out@) =~= views(before).push(line@));
                assert(views(before) + (seq![line@] + lines(v@.skip(k + 1))) =~= views(out@)
                    + lines(v@.skip(k + 1)));
                i = k + 1;
            },
            None => {
                let line = string_range(&v, i, v.len());
                assert(line@ =~= rest);
                let ghost before = out@;
                out.push(line);
                assert(views(out@) =~= views(before).push(line@));
                i = v.len();
                assert(lines(v@.skip(i as int)) =~= Seq::empty());
                assert(views(before) + seq![line@] =~= views(out@) + lines(v@.skip(i as int)));
            },
        }
    }
    assert(views(out@) + lines(v@.skip(i as int)) =~= views(out@));
    out
}

/// The parts of a string between the copies of `c`.
pub fn split_char(s: &str, c: char) -> (out: Vec<String>)
    ensures
        views(out@) == split(s@, c),
{
    let v = chars_of(s);
    let mut sep: Vec<char> = Vec::new();
    sep.push(c);
    assert(sep@ =~= seq![c]);
    let mut out: Vec<String> = Vec::new();
    let mut i: usize = 0;
    assert(v@.skip(0) =~= v@);
    assert(views(out@) + split(v@, c) =~= split(v@, c));
    loop
        invariant
            i <= v.len(),
            v@ == s@,
            sep@ == seq![c],
            split(v@, c) == views(out@) + split(v@.skip(i as int), c),
        decreases v.len() - i,
    {
        let ghost rest = v@.skip(i as int);
        let ghost before = out@;
        match find_from(&v, &sep, i) {
            Some(k) => {
                let part = string_range(&v, i, k);
                assert(part@ =~= rest.take(k - i));
                assert(rest.skip(k - i + 1) =~= v@.skip(k + 1));
                out.push(part);
                assert(views(out@) =~= views(before).push(part@));
                assert(views(before) + (seq![part@] + split(v@.skip(k + 1), c)) =~= views(out@)
                    + split(v@.skip(k + 1), c));
                i = k + 1;
            },
            None => {
                let part = string_range(&v, i, v.len());
                assert(part@ =~= rest);
                out.push(part);
                assert(views(out@) =~= views(before) + seq![part@]);
                return out;
            },
        }
    }
}

/// The words of a string.
pub fn words_of(s: &str) -> (out: Vec<String>)
    ensures
        views(out@) == words(s@),
{
    let v = chars_of(s);
    let mut out: Vec<String> = Vec::new();
    let mut i: usize = 0;
    assert(views(out@) =~= words(v@.take(0)));
    while i < v.len()
        invariant
            i <= v.len(),
            views(out@) == words(v@.take(i as int)),
            i > 0 && !is_white(v@[i - 1]) ==> out@.len() > 0,
        decreases v.len() - i,
    {
        let c = v[i];
        let ghost before = out@;
        assert(v@.take(i + 1).drop_last() =~= v@.take(i as int));
        if !is_white_char(c) {
            if i == 0 || is_white_char(v[i - 1]) {
                let mut w = String::new();
                w.push(c);
                assert(w@ =~= seq![c]);
                out.push(w);
                assert(views(out@) =~= views(before).push(w@));
            } else {
                let mut w = out.pop().unwrap();
                let ghost w0 = w@;
                w.push(c);
                out.push(w);
                assert(views(out@) =~= views(before).drop_last().push(w0.push(c)));
                assert(views(before).last() == w0);
            }
        }
        i += 1;
    }
    assert(v@.take(v@.len() as int) =~= v@);
    out
}

/// Whether `a` comes before `b` or is equal to it.
pub fn in_order(a: &str, b: &str) -> (r: bool)
    ensures
        r == before_or_same(a@, b@),
{
    let x = chars_of(a);
    let y = chars_of(b);
    let mut i: usize = 0;
    assert(x@.skip(0) =~= x@);
    assert(y@.skip(0) =~= y@);
    loop
        invariant
            x@ == a@,
            y@ == b@,
            i <= x.len(),
            i <= y.len(),
            before_or_same(x@, y@) == before_or_same(x@.skip(i as int), y@.skip(i as int)),
        decreases x.len() - i,
    {
        if i == x.len() {
            return true;
        }
        if i == y.len() {
            return false;
        }
        if x[i] != y[i] {
            return x[i] < y[i];
        }
        assert(x@.skip(i as int).skip(1) =~= x@.skip(i + 1));
        assert(y@.skip(i as int).skip(1) =~= y@.skip(i + 1));
        i += 1;
    }
}

/// Puts `s` into its place in a sorted list.
fn insert_sorted(v: &mut Vec<String>, s: String)
    requires
        is_sorted(views(old(v)@)),
    ensures
        is_sorted(views(final(v)@)),
        views(final(v)@).to_multiset() == views(old(v)@).to_multiset().insert(s@),
{
    let ghost before = views(v@);
    let mut i: usize = v.len();
    while i > 0 && !in_order(v[i - 1].as_str(), s.as_str())
        invariant
            i <= v.len(),
            before == views(v@),
            forall|k: int| i <= k < v.len() ==> !before_or_same(#[trigger] before[k], s@),
        decreases i,
    {
        assert(before[i - 1] == v@[i - 1]@);
        i -= 1;
    }
    v.insert(i, s);
    proof {
        let after = views(v@);
        assert(after =~= before.insert(i as int, s@));
        vstd::seq_lib::to_multiset_insert(before, i as int, s@);
        assert forall|a: int, b: int| 0 <= a < b < after.len() implies before_or_same(
            #[trigger] after[a],
            #[trigger] after[b],
        ) by {
            if a == i {
                assert(after[b] == before[b - 1]);
                lemma_order_total(s@, before[b - 1]);
            } else if b == i {
                assert(after[a] == before[a]);
                assert(before[i - 1] == v@[i - 1]@);
                if a < i - 1 {
                    lemma_order_transitive(before[a], before[i - 1], s@);
                }
            } else {
                let x = if a < i {
                    a
                } else {
                    a - 1
                };
                let y = if b < i {
                    b
                } else {
                    b - 1
                };
                assert(after[a] == before[x]);
                assert(after[b] == before[y]);
            }
        }
    }
}

/// The same strings in order.
pub fn sorted_strings(v: Vec<String>) -> (out: Vec<String>)
    ensures
        is_sorted(views(out@)),
        views(out@).to_multiset() == views(v@).to_multiset(),
{
    let ghost all = views(v@);
    let mut out: Vec<String> = Vec::new();
    let mut i: usize = 0;
    assert(views(out@) =~= all.take(0));
    while i < v.len()
        invariant
            i <= v.len(),
            all == views(v@),
            is_sorted(views(out@)),
            views(out@).to_multiset() == all.take(i as int).to_multiset(),
        decreases v.len() - i,
    {
        insert_sorted(&mut out, v[i].clone());
        proof {
            let prior = all.take(i as int);
            assert(all.take(i + 1) =~= prior.push(v@[i as int]@));
            vstd::seq_lib::to_multiset_build(prior, v@[i as int]@);
        }
        i += 1;
    }
    assert(all.take(all.len() as int) =~= all);
    out
}

/// A list in another order has the same texts, and each of them once where
/// that was so before.
pub proof fn lemma_reordered(a: Seq<Seq<char>>, b: Seq<Seq<char>>)
    requires
        a.to_multiset() == b.to_multiset(),
    ensures
        b.no_duplicates() ==> a.no_duplicates(),
        forall|x: Seq<char>| #[trigger] a.contains(x) <==> b.contains(x),
{
    broadcast use vstd::seq_lib::group_to_multiset_ensures;

    if b.no_duplicates() {
        b.lemma_multiset_has_no_duplicates();
        a.lemma_multiset_has_no_duplicates_conv();
    }
    assert forall|x: Seq<char>| #[trigger] a.contains(x) <==> b.contains(x) by {
        vstd::seq_lib::to_multiset_contains(a, x);
        vstd::seq_lib::to_multiset_contains(b, x);
    }
}

/// The parts with `sep` between each two.
pub fn join_strs(parts: &Vec<String>, sep: &str) -> (s: String)
    ensures
        s@ == join(views(parts@), sep@),
{
    let mut s = String::new();
    let mut i: usize = 0;
    assert(views(parts@).take(0) =~= Seq::empty());
    while i < parts.len()
        invariant
            i <= parts.len(),
            s@ == join(views(parts@).take(i as int), sep@),
        decreases parts.len() - i,
    {
        if i > 0 {
            s.append(sep);
        }
        s.append(parts[i].as_str());
        assert(views(parts@).take(i + 1).drop_last() =~= views(parts@).take(i as int));
        assert(views(parts@).take(i + 1).last() == parts@[i as int]@);
        if i == 0 {
            assert(s@ =~= parts@[0]@);
        }
        i += 1;
    }
    assert(views(parts@).take(parts@.len() as int) =~= views(parts@));
    s
}

/// `n` in decimal notation.
pub fn decimal_of(n: u64) -> (s: String)
    ensures
        s@ == decimal(n as nat),
    decreases n,
{
    let d: u8 = (n % 10) as u8;
    let c: char = (48u8 + d) as char;
    assert(c == digit(n as nat));
    if n < 10 {
        let mut s = String::new();
        s.push(c);
        assert(s@ =~= seq![c]);
        s
    } else {
        let mut s = decimal_of(n / 10);
        s.push(c);
        s
    }
}

/// `n` in decimal notation.
pub fn signed_decimal_of(n: i32) -> (s: String)
    ensures
        s@ == signed_decimal(n as int),
{
    let wide: i64 = n as i64;
    if wide < 0 {
        cat2("-", decimal_of((-wide) as u64).as_str())
    } else {
        decimal_of(wide as u64)
    }
}

/// Where a character first occurs.
pub proof fn lemma_find_char(s: Seq<char>, c: char, k: int)
    requires
        0 <= k < s.len(),
        s[k] == c,
        forall|i: int| 0 <= i < k ==> s[i] != c,
    ensures
        find(s, seq![c]) == Some(k as nat),
    decreases k,
{
    if k == 0 {
        assert(s.take(1) =~= seq![c]);
    } else {
        assert(s.take(1)[0] == s[0]);
        assert(seq![c][0] == c);
        lemma_find_char(s.skip(1), c, k - 1);
    }
}

/// What it means that a character is found.
pub proof fn lemma_found_char(s: Seq<char>, c: char)
    ensures
        match find(s, seq![c]) {
            Some(k) => k < s.len() && s[k as int] == c && forall|i: int| 0 <= i < k ==> s[i] != c,
            None => !s.contains(c),
        },
    decreases s.len(),
{
    if s.len() > 0 {
        if starts_with(s, seq![c]) {
            assert(s.take(1)[0] == c);
        } else {
            assert(s[0] != c) by {
                if s[0] == c {
                    assert(s.take(1) =~= seq![c]);
                }
            }
            lemma_found_char(s.skip(1), c);
            match find(s.skip(1), seq![c]) {
                Some(k) => {
                    assert forall|i: int| 0 <= i < k + 1 implies s[i] != c by {
                        if i > 0 {
                            assert(s.skip(1)[i - 1] == s[i]);
                        }
                    }
                },
                None => {
                    if s.contains(c) {
                        let i = choose|i: int| 0 <= i < s.len() && s[i] == c;
                        assert(s.skip(1)[i - 1] == c);
                    }
                },
            }
        }
    }
}

/// Where `p` stands at `j`, its first occurrence is not behind that.
pub proof fn lemma_find_not_behind(s: Seq<char>, p: Seq<char>, j: int)
    requires
        0 <= j <= s.len(),
        starts_with(s.skip(j), p),
    ensures
        find(s, p) matches Some(k) && k <= j,
    decreases j,
{
    if !starts_with(s, p) {
        assert(s.skip(0) =~= s);
        assert(s.skip(1).skip(j - 1) =~= s.skip(j));
        lemma_find_not_behind(s.skip(1), p, j - 1);
    }
}

/// A text is found behind one that does not hold its first character.
pub proof fn lemma_find_after(a: Seq<char>, p: Seq<char>, b: Seq<char>)
    requires
        p.len() > 0,
        forall|i: int| 0 <= i < a.len() ==> a[i] != p[0],
    ensures
        find(a + p + b, p) == Some(a.len()),
    decreases a.len(),
{
    let s = a + p + b;
    if a.len() == 0 {
        assert(s.take(p.len() as int) =~= p);
    } else {
        assert(s.take(p.len() as int)[0] == a[0]);
        assert(s.skip(1) =~= a.skip(1) + p + b);
        lemma_find_after(a.skip(1), p, b);
    }
}

/// Trimming leaves no more than there was.
pub proof fn lemma_trim_lengths(s: Seq<char>)
    ensures
        trim_start(s).len() <= s.len(),
        trim_end(s).len() <= s.len(),
    decreases s.len(),
{
    if s.len() > 0 {
        lemma_trim_lengths(s.skip(1));
        lemma_trim_lengths(s.drop_last());
    }
}

/// A text is trimmed where it has no white space at its two ends.
pub proof fn lemma_trimmed_ends(s: Seq<char>)
    requires
        s.len() > 0,
    ensures
        trimmed(s) == s <==> !is_white(s[0]) && !is_white(s.last()),
{
    lemma_trim_lengths(s.skip(1));
    lemma_trim_lengths(s.drop_last());
    lemma_trim_lengths(trim_start(s));
}

/// Line feeds.
pub proof fn lemma_line_feed()
    ensures
        "\n"@ == seq!['\n'],
        "\n\n"@ == seq!['\n', '\n'],
        is_white('\n'),
{
    reveal_strlit("\n");
    reveal_strlit("\n\n");
    assert("\n"@ =~= seq!['\n']);
    assert("\n\n"@ =~= seq!['\n', '\n']);
}

/// A first line and the lines behind it.
pub proof fn lemma_first_line(line: Seq<char>, rest: Seq<char>)
    requires
        !line.contains('\n'),
        line.len() > 0 ==> line.last() != '\r',
    ensures
        lines(line + "\n"@ + rest) == seq![line] + lines(rest),
{
    lemma_line_feed();
    let s = line + "\n"@ + rest;
    assert forall|i: int| 0 <= i < line.len() implies s[i] != '\n' by {
        assert(line.contains(line[i]));
    }
    lemma_find_char(s, '\n', line.len() as int);
    assert(s.take(line.len() as int) =~= line);
    assert(s.skip((line.len() + 1) as int) =~= rest);
}

} // verus!
