use vstd::prelude::*;

verus! {

/// The views of a sequence of character vectors.
pub open spec fn views(v: Seq<Vec<char>>) -> Seq<Seq<char>> {
    v.map_values(|x: Vec<char>| x@)
}

/// Collects the characters of `s` into a vector.
pub fn chars_of(s: &str) -> (v: Vec<char>)
    ensures
        v@ == s@,
{
    let mut v: Vec<char> = Vec::new();
    for c in it: s.chars()
        invariant
            v@ == it.seq().take(it.index()),
    {
        v.push(c);
    }
    v
}

/// Whether two character sequences are equal.
pub fn chars_eq(a: &[char], b: &[char]) -> (r: bool)
    ensures
        r == (a@ == b@),
{
    if a.len() != b.len() {
        return false;
    }
    let mut i: usize = 0;
    while i < a.len()
        invariant
            a@.len() == b@.len(),
            i <= a@.len(),
            forall|j: int| 0 <= j < i ==> a@[j] == b@[j],
        decreases a@.len() - i,
    {
        if a[i] != b[i] {
            return false;
        }
        i = i + 1;
    }
    assert(a@ =~= b@);
    true
}

/// Whether two strings hold the same characters.
pub fn str_eq(a: &str, b: &str) -> (r: bool)
    ensures
        r == (a@ == b@),
{
    let va = chars_of(a);
    let vb = chars_of(b);
    chars_eq(va.as_slice(), vb.as_slice())
}

/// `s` ends with `suffix`.
pub open spec fn has_suffix(s: Seq<char>, suffix: Seq<char>) -> bool {
    s.len() >= suffix.len() && s.subrange(s.len() - suffix.len(), s.len() as int) == suffix
}

/// Whether `s` ends with `suffix`.
pub fn ends_with(s: &str, suffix: &str) -> (r: bool)
    ensures
        r == has_suffix(s@, suffix@),
{
    let vs = chars_of(s);
    let vt = chars_of(suffix);
    if vs.len() < vt.len() {
        return false;
    }
    let off = vs.len() - vt.len();
    let mut i: usize = 0;
    while i < vt.len()
        invariant
            vs@ == s@,
            vt@ == suffix@,
            off + vt.len() == vs.len(),
            i <= vt@.len(),
            forall|j: int| 0 <= j < i ==> vs@[off + j] == vt@[j],
        decreases vt@.len() - i,
    {
        if vs[off + i] != vt[i] {
            assert(s@.subrange(s@.len() - suffix@.len(), s@.len() as int)[i as int] != suffix@[i as int]);
            return false;
        }
        i = i + 1;
    }
    assert(s@.subrange(s@.len() - suffix@.len(), s@.len() as int) =~= suffix@);
    true
}

/// ASCII whitespace as `u8::is_ascii_whitespace` defines it.
pub open spec fn is_ascii_ws(c: char) -> bool {
    c == ' ' || c == '\t' || c == '\n' || c == '\x0C' || c == '\r'
}

fn ascii_ws(c: char) -> (r: bool)
    ensures
        r == is_ascii_ws(c),
{
    c == ' ' || c == '\t' || c == '\n' || c == '\x0C' || c == '\r'
}

/// The maximal runs of characters that are not ASCII whitespace, in order:
/// the pieces that `str::split_ascii_whitespace` yields.
pub open spec fn ascii_tokens(s: Seq<char>) -> Seq<Seq<char>>
    decreases s.len(),
{
    if s.len() == 0 {
        seq![]
    } else {
        let prev = ascii_tokens(s.drop_last());
        let c = s.last();
        if is_ascii_ws(c) {
            prev
        } else if s.len() >= 2 && !is_ascii_ws(s[s.len() - 2]) {
            prev.update(prev.len() - 1, prev.last().push(c))
        } else {
            prev.push(seq![c])
        }
    }
}

/// Splits `s` at ASCII whitespace, dropping empty pieces.
pub fn split_ascii_whitespace(s: &[char]) -> (r: Vec<Vec<char>>)
    ensures
        views(r@) == ascii_tokens(s@),
{
    let mut out: Vec<Vec<char>> = Vec::new();
    let mut cur: Vec<char> = Vec::new();
    let mut open = false;
    let mut i: usize = 0;
    while i < s.len()
        invariant
            i <= s@.len(),
            open == (i > 0 && !is_ascii_ws(s@[i - 1])),
            !open ==> cur@.len() == 0,
            open ==> ascii_tokens(s@.take(i as int)) == views(out@).push(cur@),
            !open ==> ascii_tokens(s@.take(i as int)) == views(out@),
        decreases s@.len() - i,
    {
        let c = s[i];
        proof {
            assert(s@.take(i + 1).drop_last() =~= s@.take(i as int));
            assert(s@.take(i + 1).last() == c);
            if i > 0 {
                assert(s@.take(i + 1)[i - 1] == s@[i - 1]);
            }
        }
        if ascii_ws(c) {
            if open {
                let ghost before = out@;
                let done = cur;
                out.push(done);
                cur = Vec::new();
                assert(views(out@) =~= views(before).push(done@));
                open = false;
            }
        } else {
            proof {
                if open {
                    assert(views(out@).push(cur@).update(views(out@).len() as int, cur@.push(c))
                        =~= views(out@).push(cur@.push(c)));
                } else {
                    assert(cur@.push(c) =~= seq![c]);
                }
            }
            cur.push(c);
            open = true;
        }
        i = i + 1;
    }
    proof {
        assert(s@.take(s@.len() as int) =~= s@);
    }
    if open {
        let ghost before = out@;
        let done = cur;
        out.push(done);
        assert(views(out@) =~= views(before).push(done@));
    }
    out
}

/// The pieces of `s` between occurrences of `sep`, as `str::split` with a
/// single-character pattern yields them (empty pieces included).
pub open spec fn split_on(s: Seq<char>, sep: char) -> Seq<Seq<char>>
    decreases s.len(),
{
    if s.len() == 0 {
        seq![seq![]]
    } else {
        let prev = split_on(s.drop_last(), sep);
        if s.last() == sep {
            prev.push(seq![])
        } else {
            prev.update(prev.len() - 1, prev.last().push(s.last()))
        }
    }
}

/// Splits `s` at every occurrence of `sep`.
pub fn split_char(s: &[char], sep: char) -> (r: Vec<Vec<char>>)
    ensures
        views(r@) == split_on(s@, sep),
{
    let mut out: Vec<Vec<char>> = Vec::new();
    let mut cur: Vec<char> = Vec::new();
    let mut i: usize = 0;
    proof {
        assert(s@.take(0) =~= Seq::<char>::empty());
        assert(views(out@).push(cur@) =~= seq![seq![]]);
    }
    while i < s.len()
        invariant
            i <= s@.len(),
            split_on(s@.take(i as int), sep) == views(out@).push(cur@),
        decreases s@.len() - i,
    {
        let c = s[i];
        proof {
            assert(s@.take(i + 1).drop_last() =~= s@.take(i as int));
            assert(s@.take(i + 1).last() == c);
        }
        if c == sep {
            let ghost before = out@;
            let done = cur;
            out.push(done);
            cur = Vec::new();
            assert(views(out@).push(cur@) =~= views(before).push(done@).push(seq![]));
        } else {
            assert(views(out@).push(cur@).update(views(out@).len() as int, cur@.push(c))
                =~= views(out@).push(cur@.push(c)));
            cur.push(c);
        }
        i = i + 1;
    }
    proof {
        assert(s@.take(s@.len() as int) =~= s@);
    }
    let ghost before = out@;
    let done = cur;
    out.push(done);
    assert(views(out@) =~= views(before).push(done@));
    out
}

/// Whitespace as `char::is_whitespace` defines it (the Unicode `White_Space`
/// property).
pub open spec fn is_unicode_ws(c: char) -> bool {
    ('\t' <= c && c <= '\r') || c == ' ' || c == '\u{85}' || c == '\u{A0}' || c == '\u{1680}'
        || ('\u{2000}' <= c && c <= '\u{200A}') || c == '\u{2028}' || c == '\u{2029}'
        || c == '\u{202F}' || c == '\u{205F}' || c == '\u{3000}'
}

fn unicode_ws(c: char) -> (r: bool)
    ensures
        r == is_unicode_ws(c),
{
    ('\t' <= c && c <= '\r') || c == ' ' || c == '\u{85}' || c == '\u{A0}' || c == '\u{1680}'
        || ('\u{2000}' <= c && c <= '\u{200A}') || c == '\u{2028}' || c == '\u{2029}'
        || c == '\u{202F}' || c == '\u{205F}' || c == '\u{3000}'
}

/// `s` without leading and trailing whitespace, as `str::trim` gives it.
pub open spec fn trim_ws(s: Seq<char>) -> Seq<char>
    decreases s.len(),
{
    if s.len() > 0 && is_unicode_ws(s[0]) {
        trim_ws(s.drop_first())
    } else if s.len() > 0 && is_unicode_ws(s.last()) {
        trim_ws(s.drop_last())
    } else {
        s
    }
}

proof fn lemma_trim_bounds(s: Seq<char>, a: int, b: int)
    requires
        0 <= a <= b <= s.len(),
        forall|j: int| 0 <= j < a ==> is_unicode_ws(#[trigger] s[j]),
        forall|j: int| b <= j < s.len() ==> is_unicode_ws(#[trigger] s[j]),
        a < b ==> !is_unicode_ws(s[a]) && !is_unicode_ws(s[b - 1]),
    ensures
        trim_ws(s) == s.subrange(a, b),
    decreases s.len(),
{
    if s.len() > 0 && is_unicode_ws(s[0]) {
        let t = s.drop_first();
        if a == 0 {
            assert(b == 0);
            lemma_trim_bounds(t, 0, 0);
            assert(s.subrange(a, b) =~= t.subrange(0, 0));
        } else {
            lemma_trim_bounds(t, a - 1, b - 1);
            assert(s.subrange(a, b) =~= t.subrange(a - 1, b - 1));
        }
    } else if s.len() > 0 && is_unicode_ws(s.last()) {
        let t = s.drop_last();
        if b == s.len() {
            assert(a == b);
            lemma_trim_bounds(t, a - 1, a - 1);
            assert(s.subrange(a, b) =~= t.subrange(a - 1, a - 1));
        } else {
            lemma_trim_bounds(t, a, b);
            assert(s.subrange(a, b) =~= t.subrange(a, b));
        }
    } else {
        if s.len() > 0 {
            if a > 0 {
                assert(is_unicode_ws(s[0]));
            }
            if b < s.len() {
                assert(is_unicode_ws(s[s.len() - 1]));
            }
        }
        assert(s.subrange(a, b) =~= s);
    }
}

/// Removes leading and trailing whitespace.
pub fn trim(s: &[char]) -> (r: Vec<char>)
    ensures
        r@ == trim_ws(s@),
{
    let n = s.len();
    let mut a: usize = 0;
    while a < n && unicode_ws(s[a])
        invariant
            n == s@.len(),
            a <= n,
            forall|j: int| 0 <= j < a ==> is_unicode_ws(#[trigger] s@[j]),
        decreases n - a,
    {
        a = a + 1;
    }
    let mut b: usize = n;
    while b > a && unicode_ws(s[b - 1])
        invariant
            n == s@.len(),
            a <= b <= n,
            forall|j: int| b <= j < n ==> is_unicode_ws(#[trigger] s@[j]),
        decreases b - a,
    {
        b = b - 1;
    }
    let mut r: Vec<char> = Vec::new();
    let mut i: usize = a;
    while i < b
        invariant
            a <= i <= b <= n,
            n == s@.len(),
            r@ == s@.subrange(a as int, i as int),
        decreases b - i,
    {
        r.push(s[i]);
        assert(r@ =~= s@.subrange(a as int, i + 1));
        i = i + 1;
    }
    proof {
        lemma_trim_bounds(s@, a as int, b as int);
    }
    r
}

/// A decimal digit.
pub open spec fn is_digit(c: char) -> bool {
    '0' <= c && c <= '9'
}

/// The value of a decimal digit.
pub open spec fn digit_value(c: char) -> int {
    (c as int) - ('0' as int)
}

/// The value of a string of decimal digits, most significant first.
pub open spec fn decimal_value(d: Seq<char>) -> nat
    decreases d.len(),
{
    if d.len() == 0 {
        0
    } else {
        (decimal_value(d.drop_last()) * 10 + digit_value(d.last())) as nat
    }
}

/// The digits that `u64::from_str` reads: the text after an optional `+`.
pub open spec fn unsigned_digits(t: Seq<char>) -> Seq<char> {
    if t.len() > 0 && t[0] == '+' {
        t.drop_first()
    } else {
        t
    }
}

/// What `u64::from_str` gives: the value of an optional `+` followed by one or
/// more decimal digits, when it fits in 64 bits; nothing otherwise.
pub open spec fn parse_u64_spec(t: Seq<char>) -> Option<u64> {
    let d = unsigned_digits(t);
    if d.len() > 0 && (forall|i: int| 0 <= i < d.len() ==> is_digit(#[trigger] d[i]))
        && decimal_value(d) <= u64::MAX {
        Some(decimal_value(d) as u64)
    } else {
        None
    }
}

/// The value that `parse().unwrap_or_default()` gives for `t`.
pub open spec fn parse_or_zero(t: Seq<char>) -> u64 {
    match parse_u64_spec(t) {
        Some(v) => v,
        None => 0,
    }
}

proof fn lemma_decimal_prefix_le(d: Seq<char>, i: int)
    requires
        0 <= i <= d.len(),
        forall|j: int| 0 <= j < d.len() ==> is_digit(#[trigger] d[j]),
    ensures
        decimal_value(d.take(i)) <= decimal_value(d),
    decreases d.len(),
{
    if i < d.len() {
        let p = d.drop_last();
        assert(d.take(i) =~= p.take(i));
        assert(forall|j: int| 0 <= j < p.len() ==> is_digit(#[trigger] p[j])) by {
            assert(forall|j: int| 0 <= j < p.len() ==> p[j] == d[j]);
        }
        lemma_decimal_prefix_le(p, i);
        assert(is_digit(d[d.len() - 1]));
    } else {
        assert(d.take(i) =~= d);
    }
}

/// Parses an unsigned decimal number as `u64::from_str` does.
pub fn parse_u64(t: &[char]) -> (r: Option<u64>)
    ensures
        r == parse_u64_spec(t@),
{
    let n = t.len();
    let mut start: usize = 0;
    if n > 0 && t[0] == '+' {
        start = 1;
    }
    let ghost d = unsigned_digits(t@);
    assert(d =~= t@.skip(start as int));
    if start == n {
        return None;
    }
    let mut acc: u64 = 0;
    let mut i: usize = start;
    while i < n
        invariant
            start <= i <= n,
            n == t@.len(),
            start < n,
            d == t@.skip(start as int),
            d == unsigned_digits(t@),
            forall|j: int| 0 <= j < i - start ==> is_digit(#[trigger] d[j]),
            acc as int == decimal_value(d.take(i - start)),
        decreases n - i,
    {
        let c = t[i];
        if !('0' <= c && c <= '9') {
            assert(!is_digit(d[i - start]));
            return None;
        }
        let dv: u64 = ((c as u32) - ('0' as u32)) as u64;
        proof {
            assert(d.take(i + 1 - start).drop_last() =~= d.take(i - start));
            assert(d.take(i + 1 - start).last() == c);
            assert(dv as int == digit_value(c));
            assert(decimal_value(d.take(i + 1 - start)) == acc * 10 + dv);
        }
        let m = acc.checked_mul(10);
        match m {
            None => {
                proof {
                    assert(forall|j: int| 0 <= j < i + 1 - start ==> is_digit(#[trigger] d[j]));
                    if forall|j: int| 0 <= j < d.len() ==> is_digit(#[trigger] d[j]) {
                        lemma_decimal_prefix_le(d, i + 1 - start);
                    }
                }
                return None;
            },
            Some(m) => {
                match m.checked_add(dv) {
                    None => {
                        proof {
                            if forall|j: int| 0 <= j < d.len() ==> is_digit(#[trigger] d[j]) {
                                lemma_decimal_prefix_le(d, i + 1 - start);
                            }
                        }
                        return None;
                    },
                    Some(v) => {
                        acc = v;
                    },
                }
            },
        }
        i = i + 1;
    }
    assert(d.take(n - start) =~= d);
    Some(acc)
}

/// Parses `t` as an unsigned number, giving 0 where it does not parse.
pub fn parse_u64_or_zero(t: &[char]) -> (r: u64)
    ensures
        r == parse_or_zero(t@),
{
    match parse_u64(t) {
        Some(v) => v,
        None => 0,
    }
}

/// The index of the first `c` in `s`, or the length of `s` where there is none.
pub open spec fn first_index(s: Seq<char>, c: char) -> int
    decreases s.len(),
{
    if s.len() == 0 {
        0
    } else if s[0] == c {
        0
    } else {
        1 + first_index(s.drop_first(), c)
    }
}

proof fn lemma_first_index(s: Seq<char>, c: char, i: int)
    requires
        0 <= i <= s.len(),
        forall|j: int| 0 <= j < i ==> s[j] != c,
        i < s.len() ==> s[i] == c,
    ensures
        first_index(s, c) == i,
    decreases s.len(),
{
    if s.len() > 0 && i > 0 {
        lemma_first_index(s.drop_first(), c, i - 1);
    }
}

/// Splits `s` at its first `c`, as `str::split_once` does.
pub fn split_once(s: &[char], c: char) -> (r: Option<(Vec<char>, Vec<char>)>)
    ensures
        match r {
            Some((k, v)) => first_index(s@, c) < s@.len() && k@ == s@.take(first_index(s@, c))
                && v@ == s@.skip(first_index(s@, c) + 1),
            None => first_index(s@, c) == s@.len(),
        },
{
    let n = s.len();
    let mut i: usize = 0;
    while i < n && s[i] != c
        invariant
            n == s@.len(),
            i <= n,
            forall|j: int| 0 <= j < i ==> s@[j] != c,
        decreases n - i,
    {
        i = i + 1;
    }
    proof {
        lemma_first_index(s@, c, i as int);
    }
    if i == n {
        return None;
    }
    let mut k: Vec<char> = Vec::new();
    let mut j: usize = 0;
    while j < i
        invariant
            i < n == s@.len(),
            j <= i,
            k@ == s@.take(j as int),
        decreases i - j,
    {
        k.push(s[j]);
        assert(k@ =~= s@.take(j + 1));
        j = j + 1;
    }
    let mut v: Vec<char> = Vec::new();
    let mut j: usize = i + 1;
    while j < n
        invariant
            i < n == s@.len(),
            i + 1 <= j <= n,
            v@ == s@.subrange(i + 1, j as int),
        decreases n - j,
    {
        v.push(s[j]);
        assert(v@ =~= s@.subrange(i + 1, j + 1));
        j = j + 1;
    }
    assert(v@ =~= s@.skip(i + 1));
    Some((k, v))
}

/// The character of a decimal digit.
pub open spec fn digit_char(d: int) -> char {
    if d == 0 { '0' } else if d == 1 { '1' } else if d == 2 { '2' } else if d == 3 { '3' }
    else if d == 4 { '4' } else if d == 5 { '5' } else if d == 6 { '6' } else if d == 7 { '7' }
    else if d == 8 { '8' } else { '9' }
}

/// The decimal text of `n`, as `Display` writes an unsigned integer.
pub open spec fn decimal_text(n: nat) -> Seq<char>
    decreases n,
{
    if n < 10 {
        seq![digit_char(n as int)]
    } else {
        decimal_text(n / 10).push(digit_char((n % 10) as int))
    }
}

fn digit_to_char(d: u32) -> (c: char)
    requires
        d < 10,
    ensures
        c == digit_char(d as int),
{
    if d == 0 { '0' } else if d == 1 { '1' } else if d == 2 { '2' } else if d == 3 { '3' }
    else if d == 4 { '4' } else if d == 5 { '5' } else if d == 6 { '6' } else if d == 7 { '7' }
    else if d == 8 { '8' } else { '9' }
}

/// The decimal text of a number reads back as that number.
pub proof fn lemma_decimal_text_value(n: nat)
    ensures
        decimal_value(decimal_text(n)) == n,
        decimal_text(n).len() > 0,
        forall|i: int| 0 <= i < decimal_text(n).len() ==> is_digit(#[trigger] decimal_text(n)[i]),
    decreases n,
{
    if n < 10 {
        let t = decimal_text(n);
        assert(t.drop_last() =~= Seq::<char>::empty());
        assert(digit_value(digit_char(n as int)) == n);
        assert(decimal_value(t) == decimal_value(t.drop_last()) * 10 + digit_value(t.last()));
    } else {
        lemma_decimal_text_value(n / 10);
        let p = decimal_text(n / 10);
        let c = digit_char((n % 10) as int);
        assert(decimal_text(n).drop_last() =~= p);
        assert(digit_value(c) == n % 10);
        assert((n / 10) * 10 + n % 10 == n) by (nonlinear_arith);
        assert forall|i: int| 0 <= i < decimal_text(n).len() implies is_digit(#[trigger] decimal_text(n)[i]) by {
            if i < p.len() {
                assert(decimal_text(n)[i] == p[i]);
            }
        }
    }
}

/// Appends a character to a string.
///
/// Trusted: calls `String::push`, which its documentation says appends the
/// given character to the end of the string; the contract says exactly that.
#[verifier::external_body]
pub(crate) fn push_char(s: &mut String, c: char)
    ensures
        final(s)@ == old(s)@.push(c),
{
    s.push(c)
}

/// Appends the decimal text of `n` to `s`.
pub fn push_decimal(s: &mut String, n: u32)
    ensures
        final(s)@ == old(s)@ + decimal_text(n as nat),
    decreases n,
{
    if n < 10 {
        push_char(s, digit_to_char(n));
        assert(old(s)@.push(digit_char(n as int)) =~= old(s)@ + seq![digit_char(n as int)]);
    } else {
        push_decimal(s, n / 10);
        push_char(s, digit_to_char(n % 10));
        assert((old(s)@ + decimal_text((n / 10) as nat)).push(digit_char((n % 10) as int))
            =~= old(s)@ + decimal_text((n / 10) as nat).push(digit_char((n % 10) as int)));
    }
}

} // verus!
