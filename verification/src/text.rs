//! Character-level text handling shared by the parsers and formatters:
//! Unicode whitespace, trimming, splitting at a separator, hexadecimal
//! numbers and the building of `String`s.

use vstd::prelude::*;
use vstd::std_specs::iter::IteratorSpec;

verus! {

broadcast use vstd::string::group_string_axioms;

/// Unicode `White_Space`, the property that `char::is_whitespace` reports.
pub open spec fn is_ws(c: char) -> bool {
    let v = c as u32;
    ||| 0x09 <= v <= 0x0d
    ||| v == 0x20
    ||| v == 0x85
    ||| v == 0xa0
    ||| v == 0x1680
    ||| 0x2000 <= v <= 0x200a
    ||| v == 0x2028
    ||| v == 0x2029
    ||| v == 0x202f
    ||| v == 0x205f
    ||| v == 0x3000
}

/// The first index at or after `from` that holds `c`, or the length of `s`.
pub open spec fn find_from(s: Seq<char>, c: char, from: int) -> int
    decreases s.len() - from,
{
    if from >= s.len() {
        s.len() as int
    } else if s[from] == c {
        from
    } else {
        find_from(s, c, from + 1)
    }
}

/// The first index at or after `from` that holds no whitespace, or the length of `s`.
pub open spec fn skip_ws_from(s: Seq<char>, from: int) -> int
    decreases s.len() - from,
{
    if from >= s.len() {
        s.len() as int
    } else if !is_ws(s[from]) {
        from
    } else {
        skip_ws_from(s, from + 1)
    }
}

/// One past the last index below `to` that holds no whitespace, or 0.
pub open spec fn trim_end_at(s: Seq<char>, to: int) -> int
    decreases to,
{
    if to <= 0 {
        0
    } else if !is_ws(s[to - 1]) {
        to
    } else {
        trim_end_at(s, to - 1)
    }
}

/// `s` without its leading and trailing whitespace, as `str::trim` gives it.
pub open spec fn trim(s: Seq<char>) -> Seq<char> {
    let a = skip_ws_from(s, 0);
    let b = trim_end_at(s, s.len() as int);
    if a < b {
        s.subrange(a, b)
    } else {
        Seq::empty()
    }
}

/// `find_from` gives the first `c` at or after `from`, or the end.
pub proof fn lemma_find_from(s: Seq<char>, c: char, from: int)
    requires
        0 <= from <= s.len(),
    ensures
        from <= find_from(s, c, from) <= s.len(),
        forall|k: int| from <= k < find_from(s, c, from) ==> s[k] != c,
        find_from(s, c, from) < s.len() ==> s[find_from(s, c, from)] == c,
    decreases s.len() - from,
{
    if from < s.len() && s[from] != c {
        lemma_find_from(s, c, from + 1);
    }
}

/// The pieces of `s` between the occurrences of `sep`, from index `from` on.
pub open spec fn segments_from(s: Seq<char>, sep: char, from: int) -> Seq<Seq<char>>
    decreases s.len() - from,
{
    if from < 0 || from > s.len() {
        Seq::empty()
    } else {
        let e = find_from(s, sep, from);
        proof {
            lemma_find_from(s, sep, from);
        }
        if e >= s.len() {
            seq![s.subrange(from, s.len() as int)]
        } else {
            seq![s.subrange(from, e)] + segments_from(s, sep, e + 1)
        }
    }
}

/// No piece between the separators holds the separator.
pub proof fn lemma_segments_free_of_sep(s: Seq<char>, sep: char, from: int)
    ensures
        forall|k: int, j: int|
            0 <= k < segments_from(s, sep, from).len() && 0 <= j < segments_from(
                s,
                sep,
                from,
            )[k].len() ==> #[trigger] segments_from(s, sep, from)[k][j] != sep,
    decreases s.len() - from,
{
    if 0 <= from <= s.len() {
        lemma_find_from(s, sep, from);
        let e = find_from(s, sep, from);
        let segs = segments_from(s, sep, from);
        if e < s.len() {
            lemma_segments_free_of_sep(s, sep, e + 1);
            let rest = segments_from(s, sep, e + 1);
            assert forall|k: int, j: int|
                0 <= k < segs.len() && 0 <= j < segs[k].len() implies #[trigger] segs[k][j]
                != sep by {
                if k == 0 {
                    assert(segs[0] == s.subrange(from, e));
                    assert(segs[0][j] == s[from + j]);
                } else {
                    assert(segs[k] == rest[k - 1]);
                }
            }
        } else {
            assert forall|k: int, j: int|
                0 <= k < segs.len() && 0 <= j < segs[k].len() implies #[trigger] segs[k][j]
                != sep by {
                assert(segs[0] == s.subrange(from, s.len() as int));
                assert(segs[0][j] == s[from + j]);
            }
        }
    }
}

/// One past the last non-whitespace character below `to` is at most `to`,
/// and the character before it is no whitespace.
pub proof fn lemma_trim_end_at(s: Seq<char>, to: int)
    requires
        0 <= to <= s.len(),
    ensures
        0 <= trim_end_at(s, to) <= to,
        trim_end_at(s, to) > 0 ==> !is_ws(s[trim_end_at(s, to) - 1]),
    decreases to,
{
    if to > 0 && is_ws(s[to - 1]) {
        lemma_trim_end_at(s, to - 1);
    }
}

/// The first non-whitespace index at or after `from` lies between `from` and
/// the end.
pub proof fn lemma_skip_ws_from(s: Seq<char>, from: int)
    requires
        0 <= from <= s.len(),
    ensures
        from <= skip_ws_from(s, from) <= s.len(),
    decreases s.len() - from,
{
    if from < s.len() && is_ws(s[from]) {
        lemma_skip_ws_from(s, from + 1);
    }
}

/// A trimmed text is a piece of the text, and a non-empty one ends in a
/// character that is no whitespace.
pub proof fn lemma_trim_shape(s: Seq<char>)
    ensures
        trim(s).len() <= s.len(),
        forall|j: int| 0 <= j < trim(s).len() ==> exists|k: int| 0 <= k < s.len() && #[trigger] trim(s)[j] == s[k],
        trim(s).len() > 0 ==> !is_ws(trim(s).last()),
{
    lemma_skip_ws_from(s, 0);
    lemma_trim_end_at(s, s.len() as int);
    let a = skip_ws_from(s, 0);
    let b = trim_end_at(s, s.len() as int);
    if a < b {
        assert forall|j: int| 0 <= j < trim(s).len() implies exists|k: int|
            0 <= k < s.len() && #[trigger] trim(s)[j] == s[k] by {
            assert(trim(s)[j] == s[a + j]);
        }
        assert(trim(s).last() == s[b - 1]);
    }
}

/// The pieces of `s` between the occurrences of `sep`.
pub open spec fn split_all(s: Seq<char>, sep: char) -> Seq<Seq<char>> {
    segments_from(s, sep, 0)
}

/// The value of a hexadecimal digit, or -1 for any other character.
pub open spec fn hex_digit_value(c: char) -> int {
    let v = c as u32;
    if 0x30 <= v <= 0x39 {
        v - 0x30
    } else if 0x61 <= v <= 0x66 {
        v - 0x61 + 10
    } else if 0x41 <= v <= 0x46 {
        v - 0x41 + 10
    } else {
        -1
    }
}

/// The number that a sequence of hexadecimal digits writes.
pub open spec fn hex_number(s: Seq<char>) -> int
    decreases s.len(),
{
    if s.len() == 0 {
        0
    } else {
        hex_number(s.drop_last()) * 16 + hex_digit_value(s.last())
    }
}

pub open spec fn all_hex_digits(s: Seq<char>) -> bool {
    forall|i: int| 0 <= i < s.len() ==> hex_digit_value(#[trigger] s[i]) >= 0
}

/// What `u64::from_str_radix(s, 16)` accepts: an optional `+`, then one or
/// more hexadecimal digits whose value fits in 64 bits.
pub open spec fn parse_hex_u64(s: Seq<char>) -> Option<u64> {
    let d = if s.len() > 0 && s[0] == '+' {
        s.drop_first()
    } else {
        s
    };
    if d.len() > 0 && all_hex_digits(d) && hex_number(d) <= u64::MAX {
        Some(hex_number(d) as u64)
    } else {
        None
    }
}

/// The first byte of the UTF-8 encoding of `c`.
pub open spec fn utf8_lead_byte(c: char) -> u8 {
    let v = c as u32;
    if v < 0x80 {
        v as u8
    } else if v < 0x800 {
        (0xc0 + v / 64) as u8
    } else if v < 0x10000 {
        (0xe0 + v / 4096) as u8
    } else {
        (0xf0 + v / 262144) as u8
    }
}

/// A lowercase hexadecimal digit.
pub open spec fn hex_char(d: nat) -> char {
    if d < 10 {
        (0x30 + d) as char
    } else {
        (0x61 + d - 10) as char
    }
}

/// The last `n` hexadecimal digits of `v`, zero-padded, as `{:0nx}` writes
/// a value below `16^n`.
pub open spec fn hex_lower(v: nat, n: nat) -> Seq<char>
    decreases n,
{
    if n == 0 {
        Seq::empty()
    } else {
        hex_lower(v / 16, (n - 1) as nat).push(hex_char(v % 16))
    }
}

/// `16^n`.
pub open spec fn pow16(n: nat) -> nat
    decreases n,
{
    if n == 0 {
        1
    } else {
        16 * pow16((n - 1) as nat)
    }
}

proof fn lemma_hex_char(d: nat)
    requires
        d < 16,
    ensures
        hex_digit_value(hex_char(d)) == d,
        hex_char(d) != ' ',
        hex_char(d) != '+',
        hex_char(d) != '\n',
        !is_ws(hex_char(d)),
{
}

/// `hex_lower` writes `n` hexadecimal digits, none of them a space, a sign
/// or whitespace, and they read back as `v` when `v` fits in `n` digits.
pub proof fn lemma_hex_lower(v: nat, n: nat)
    ensures
        hex_lower(v, n).len() == n,
        forall|i: int|
            0 <= i < n ==> {
                let c = #[trigger] hex_lower(v, n)[i];
                &&& hex_digit_value(c) >= 0
                &&& c != ' '
                &&& c != '+'
                &&& c != '\n'
                &&& !is_ws(c)
            },
        v < pow16(n) ==> hex_number(hex_lower(v, n)) == v,
    decreases n,
{
    if n > 0 {
        let q = v / 16;
        let r = v % 16;
        lemma_hex_lower(q, (n - 1) as nat);
        lemma_hex_char(r);
        let h = hex_lower(v, n);
        let prev = hex_lower(q, (n - 1) as nat);
        assert(h == prev.push(hex_char(r)));
        assert(h.drop_last() =~= prev);
        assert forall|i: int| 0 <= i < n implies {
            let c = #[trigger] h[i];
            &&& hex_digit_value(c) >= 0
            &&& c != ' '
            &&& c != '+'
            &&& c != '\n'
            &&& !is_ws(c)
        } by {
            if i < n - 1 {
                assert(h[i] == prev[i]);
            }
        }
        if v < pow16(n) {
            assert(q < pow16((n - 1) as nat)) by (nonlinear_arith)
                requires
                    v < 16 * pow16((n - 1) as nat),
                    q == v / 16,
            ;
            assert(hex_number(h) == hex_number(prev) * 16 + r);
            assert(q * 16 + r == v) by (nonlinear_arith)
                requires
                    q == v / 16,
                    r == v % 16,
            ;
        }
    }
}

/// No occurrence of `c` in `s[from..e]`, and `c` at `e` unless `e` is the end:
/// then `e` is the first `c` from `from` on.
pub proof fn lemma_find_from_at(s: Seq<char>, c: char, from: int, e: int)
    requires
        0 <= from <= e <= s.len(),
        forall|k: int| from <= k < e ==> s[k] != c,
        e < s.len() ==> s[e] == c,
    ensures
        find_from(s, c, from) == e,
    decreases e - from,
{
    if from < e {
        lemma_find_from_at(s, c, from + 1, e);
    }
}

/// Searching a longer text finds the same first occurrence when the
/// shorter one already holds it.
pub proof fn lemma_find_from_concat(f: Seq<char>, x: Seq<char>, c: char, from: int)
    requires
        0 <= from <= f.len(),
        find_from(f, c, from) < f.len(),
    ensures
        find_from(f + x, c, from) == find_from(f, c, from),
{
    lemma_find_from(f, c, from);
    let e = find_from(f, c, from);
    assert forall|k: int| from <= k < e implies (f + x)[k] != c by {
        assert((f + x)[k] == f[k]);
    }
    assert((f + x)[e] == f[e]);
    lemma_find_from_at(f + x, c, from, e);
}

/// Splitting `f + x` from a position of `f` splits `f` up to its end, then
/// goes on in `x`; `f` must end with the separator, unless the split starts
/// at its end.
pub proof fn lemma_segments_concat(f: Seq<char>, x: Seq<char>, sep: char, from: int)
    requires
        0 <= from <= f.len(),
        from == f.len() || f[f.len() - 1] == sep,
    ensures
        segments_from(f, sep, from).len() > 0,
        segments_from(f + x, sep, from) == segments_from(f, sep, from).drop_last()
            + segments_from(f + x, sep, f.len() as int),
    decreases f.len() - from,
{
    lemma_find_from(f, sep, from);
    let e = find_from(f, sep, from);
    if e < f.len() {
        lemma_find_from_concat(f, x, sep, from);
        lemma_segments_concat(f, x, sep, e + 1);
        let rest = segments_from(f, sep, e + 1);
        assert(segments_from(f, sep, from) == seq![f.subrange(from, e)] + rest);
        assert((f + x).subrange(from, e) =~= f.subrange(from, e));
        assert(segments_from(f + x, sep, from) == seq![f.subrange(from, e)] + segments_from(
            f + x,
            sep,
            e + 1,
        ));
        assert((seq![f.subrange(from, e)] + rest).drop_last() =~= seq![f.subrange(from, e)]
            + rest.drop_last());
        assert(seq![f.subrange(from, e)] + (rest.drop_last() + segments_from(
            f + x,
            sep,
            f.len() as int,
        )) =~= seq![f.subrange(from, e)] + rest.drop_last() + segments_from(
            f + x,
            sep,
            f.len() as int,
        ));
    } else {
        if from < f.len() {
            assert(f[f.len() - 1] != sep);
        }
        assert(from == f.len());
        assert(segments_from(f, sep, from) == seq![f.subrange(from, f.len() as int)]);
        assert(seq![f.subrange(from, f.len() as int)].drop_last() =~= Seq::<Seq<char>>::empty());
        assert(Seq::<Seq<char>>::empty() + segments_from(f + x, sep, f.len() as int)
            =~= segments_from(f + x, sep, f.len() as int));
    }
}

/// Appending a line `c` (without separator) and a separator to a text that
/// ends with a separator (or is empty) replaces the empty last piece with
/// `c` and starts a new empty one.
pub proof fn lemma_split_append_line(f: Seq<char>, c: Seq<char>, sep: char)
    requires
        f.len() == 0 || f[f.len() - 1] == sep,
        forall|k: int| 0 <= k < c.len() ==> c[k] != sep,
    ensures
        split_all(f, sep).len() > 0,
        split_all(f + (c + seq![sep]), sep) == split_all(f, sep).drop_last() + seq![
            c,
            Seq::<char>::empty(),
        ],
{
    let x = c + seq![sep];
    let s = f + x;
    lemma_segments_concat(f, x, sep, 0);
    let n = f.len() as int;
    let e = n + c.len();
    assert forall|k: int| n <= k < e implies s[k] != sep by {
        assert(s[k] == c[k - n]);
    }
    assert(s[e] == sep);
    lemma_find_from_at(s, sep, n, e);
    assert(s.subrange(n, e) =~= c);
    assert(s.len() == e + 1);
    lemma_find_from_at(s, sep, e + 1, e + 1);
    assert(segments_from(s, sep, e + 1) == seq![s.subrange(e + 1, e + 1)]);
    assert(s.subrange(e + 1, e + 1) =~= Seq::<char>::empty());
    assert(segments_from(s, sep, n) == seq![c] + seq![Seq::<char>::empty()]);
    assert(seq![c] + seq![Seq::<char>::empty()] =~= seq![c, Seq::<char>::empty()]);
}

/// A decimal digit.
pub open spec fn dec_char(d: nat) -> char {
    (0x30 + d) as char
}

/// The decimal digits of `v`, as `{}` writes an unsigned integer.
pub open spec fn decimal(v: nat) -> Seq<char>
    decreases v,
{
    if v < 10 {
        seq![dec_char(v)]
    } else {
        decimal(v / 10).push(dec_char(v % 10))
    }
}

/// The decimal form of a signed integer, as `{}` writes it: a minus sign
/// before the digits of a negative value.
pub open spec fn signed_decimal(v: int) -> Seq<char> {
    if v < 0 {
        seq!['-'] + decimal((-v) as nat)
    } else {
        decimal(v as nat)
    }
}

/// The character sequences of a sequence of strings.
pub open spec fn string_views(v: Seq<String>) -> Seq<Seq<char>> {
    v.map_values(|s: String| s@)
}

/// Whether `c` is whitespace in the sense of `char::is_whitespace`.
pub fn is_whitespace(c: char) -> (b: bool)
    ensures
        b == is_ws(c),
{
    let v = c as u32;
    (0x09 <= v && v <= 0x0d) || v == 0x20 || v == 0x85 || v == 0xa0 || v == 0x1680 || (0x2000
        <= v && v <= 0x200a) || v == 0x2028 || v == 0x2029 || v == 0x202f || v == 0x205f || v
        == 0x3000
}

/// The characters of `s`, in order.
pub fn chars_of(s: &str) -> (v: Vec<char>)
    ensures
        v@ == s@,
{
    let mut it = s.chars();
    let mut v: Vec<char> = Vec::new();
    loop
        invariant
            it.remaining() == s@.skip(v.len() as int),
            v@ == s@.take(v.len() as int),
            v.len() <= s@.len(),
        decreases s@.len() - v.len(),
    {
        let next = it.next();
        match next {
            Some(c) => {
                proof {
                    assert(s@.skip(v.len() as int)[0] == s@[v.len() as int]);
                    assert(s@.skip(v.len() as int).drop_first() =~= s@.skip(v.len() + 1));
                }
                v.push(c);
                proof {
                    assert(v@ =~= s@.take(v.len() as int));
                }
            },
            None => {
                proof {
                    assert(v@ =~= s@);
                }
                return v;
            },
        }
    }
}

/// The first index at or after `from` that holds `c`, or the length of `v`.
pub fn find_char(v: &Vec<char>, c: char, from: usize) -> (r: usize)
    requires
        from <= v.len(),
    ensures
        r as int == find_from(v@, c, from as int),
        from <= r <= v.len(),
{
    let mut i = from;
    while i < v.len() && v[i] != c
        invariant
            from <= i <= v.len(),
            find_from(v@, c, i as int) == find_from(v@, c, from as int),
        decreases v.len() - i,
    {
        i = i + 1;
    }
    i
}

/// The first index at or after `from` that holds no whitespace, or the length of `v`.
pub fn skip_whitespace(v: &Vec<char>, from: usize) -> (r: usize)
    requires
        from <= v.len(),
    ensures
        r as int == skip_ws_from(v@, from as int),
        from <= r <= v.len(),
{
    let mut i = from;
    while i < v.len() && is_whitespace(v[i])
        invariant
            from <= i <= v.len(),
            skip_ws_from(v@, i as int) == skip_ws_from(v@, from as int),
        decreases v.len() - i,
    {
        i = i + 1;
    }
    i
}

/// One past the last index below `to` that holds no whitespace, or 0.
pub fn trim_end_index(v: &Vec<char>, to: usize) -> (r: usize)
    requires
        to <= v.len(),
    ensures
        r as int == trim_end_at(v@, to as int),
        r <= to,
{
    let mut j = to;
    while j > 0 && is_whitespace(v[j - 1])
        invariant
            j <= to <= v.len(),
            trim_end_at(v@, j as int) == trim_end_at(v@, to as int),
        decreases j,
    {
        j = j - 1;
    }
    j
}

/// Whether two character vectors hold the same characters.
pub fn same_chars(a: &Vec<char>, b: &Vec<char>) -> (r: bool)
    ensures
        r == (a@ == b@),
{
    if a.len() != b.len() {
        return false;
    }
    let mut i: usize = 0;
    while i < a.len()
        invariant
            a.len() == b.len(),
            i <= a.len(),
            forall|k: int| 0 <= k < i ==> a@[k] == b@[k],
        decreases a.len() - i,
    {
        if a[i] != b[i] {
            return false;
        }
        i = i + 1;
    }
    proof {
        assert(a@ =~= b@);
    }
    true
}

/// Whether two strings hold the same characters.
pub fn str_eq(a: &str, b: &str) -> (r: bool)
    ensures
        r == (a@ == b@),
{
    let x = chars_of(a);
    let y = chars_of(b);
    same_chars(&x, &y)
}

/// Appends `c` to `s` (`String::push`).
#[verifier::external_body]
pub fn push_char(s: &mut String, c: char)
    ensures
        final(s)@ == old(s)@.push(c),
{
    s.push(c);
}

/// A `String` holding the characters `v[from..to]`.
pub fn string_from_chars(v: &Vec<char>, from: usize, to: usize) -> (s: String)
    requires
        from <= to <= v.len(),
    ensures
        s@ == v@.subrange(from as int, to as int),
{
    let mut s = String::new();
    let mut i = from;
    while i < to
        invariant
            from <= i <= to <= v.len(),
            s@ == v@.subrange(from as int, i as int),
        decreases to - i,
    {
        push_char(&mut s, v[i]);
        i = i + 1;
        proof {
            assert(s@ =~= v@.subrange(from as int, i as int));
        }
    }
    s
}

/// Parses `v[from..to]` as `u64::from_str_radix(_, 16)` does.
pub fn parse_hex_range(v: &Vec<char>, from: usize, to: usize) -> (r: Option<u64>)
    requires
        from <= to <= v.len(),
    ensures
        r == parse_hex_u64(v@.subrange(from as int, to as int)),
{
    let ghost s = v@.subrange(from as int, to as int);
    let mut start = from;
    if from < to && v[from] == '+' {
        start = from + 1;
    }
    let ghost d = v@.subrange(start as int, to as int);
    proof {
        if from < to && v@[from as int] == '+' {
            assert(d =~= s.drop_first());
        } else {
            assert(d =~= s);
        }
    }
    if start == to {
        return None;
    }
    let mut acc: u64 = 0;
    let mut overflow = false;
    let mut i = start;
    while i < to
        invariant
            start <= i <= to <= v.len(),
            d == v@.subrange(start as int, to as int),
            s == v@.subrange(from as int, to as int),
            d == (if s.len() > 0 && s[0] == '+' {
                s.drop_first()
            } else {
                s
            }),
            all_hex_digits(v@.subrange(start as int, i as int)),
            !overflow ==> acc as int == hex_number(v@.subrange(start as int, i as int)),
            overflow ==> hex_number(v@.subrange(start as int, i as int)) > u64::MAX,
        decreases to - i,
    {
        let c = v[i];
        let cv = c as u32;
        let digit: u64 = if 0x30 <= cv && cv <= 0x39 {
            (cv - 0x30) as u64
        } else if 0x61 <= cv && cv <= 0x66 {
            (cv - 0x61 + 10) as u64
        } else if 0x41 <= cv && cv <= 0x46 {
            (cv - 0x41 + 10) as u64
        } else {
            proof {
                assert(d[i - start] == c);
                assert(hex_digit_value(d[i - start]) < 0);
                assert(!all_hex_digits(d));
            }
            return None;
        };
        assert(digit as int == hex_digit_value(c));
        let ghost prev = v@.subrange(start as int, i as int);
        let ghost next = v@.subrange(start as int, i + 1);
        proof {
            assert(next.drop_last() =~= prev);
            assert(next.last() == c);
            assert(hex_number(next) == hex_number(prev) * 16 + digit);
            assert forall|k: int| 0 <= k < next.len() implies hex_digit_value(
                #[trigger] next[k],
            ) >= 0 by {
                if k < prev.len() {
                    assert(next[k] == prev[k]);
                }
            }
        }
        if overflow || acc >= 0x1000_0000_0000_0000 {
            overflow = true;
        } else {
            acc = acc * 16 + digit;
        }
        i = i + 1;
    }
    proof {
        assert(v@.subrange(start as int, i as int) =~= d);
    }
    if overflow {
        None
    } else {
        Some(acc)
    }
}

/// The first byte of the UTF-8 encoding of `c`.
pub fn utf8_first_byte(c: char) -> (b: u8)
    ensures
        b == utf8_lead_byte(c),
{
    let v = c as u32;
    if v < 0x80 {
        v as u8
    } else if v < 0x800 {
        (0xc0 + v / 64) as u8
    } else if v < 0x10000 {
        (0xe0 + v / 4096) as u8
    } else {
        (0xf0 + v / 262144) as u8
    }
}

/// Appends the last `n` hexadecimal digits of `v` to `out`, zero-padded.
pub fn push_hex(out: &mut String, v: u64, n: usize)
    ensures
        final(out)@ == old(out)@ + hex_lower(v as nat, n as nat),
    decreases n,
{
    if n > 0 {
        push_hex(out, v / 16, n - 1);
        let d = v % 16;
        let c = if d < 10 {
            (0x30 + d) as u8 as char
        } else {
            (0x61 + d - 10) as u8 as char
        };
        assert(c == hex_char((v % 16) as nat));
        push_char(out, c);
        proof {
            assert(final(out)@ =~= old(out)@ + hex_lower(v as nat, n as nat));
        }
    }
}

/// Appends the decimal digits of `v` to `out`.
pub fn push_decimal(out: &mut String, v: u64)
    ensures
        final(out)@ == old(out)@ + decimal(v as nat),
    decreases v,
{
    if v >= 10 {
        push_decimal(out, v / 10);
    }
    let d = v % 10;
    let c = (0x30 + d) as u8 as char;
    assert(c == dec_char((v % 10) as nat));
    push_char(out, c);
    proof {
        assert(final(out)@ =~= old(out)@ + decimal(v as nat));
    }
}

/// Appends `t` to `out`.
pub fn push_str(out: &mut String, t: &str)
    ensures
        final(out)@ == old(out)@ + t@,
{
    let cs = chars_of(t);
    let mut i: usize = 0;
    while i < cs.len()
        invariant
            i <= cs.len(),
            cs@ == t@,
            out@ == old(out)@ + t@.take(i as int),
        decreases cs.len() - i,
    {
        push_char(out, cs[i]);
        i = i + 1;
        proof {
            assert(out@ =~= old(out)@ + t@.take(i as int));
        }
    }
    proof {
        assert(t@.take(i as int) =~= t@);
    }
}

/// Appends the decimal form of the signed value `v` to `out`.
pub fn push_signed_decimal(out: &mut String, v: i32)
    ensures
        final(out)@ == old(out)@ + signed_decimal(v as int),
{
    if v < 0 {
        push_char(out, '-');
        let m: u64 = (-(v as i64)) as u64;
        push_decimal(out, m);
        proof {
            assert(final(out)@ =~= old(out)@ + signed_decimal(v as int));
        }
    } else {
        push_decimal(out, v as u64);
    }
}

} // verus!
