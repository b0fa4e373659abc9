//! Character-level text handling: trimming, splitting, decimal numbers and
//! padding, each stated over the characters of a string.
use vstd::prelude::*;
use vstd::utf8::encode_utf8;

verus! {

/// Appends one character to a string.
#[verifier::external_body]
pub(crate) fn push_char(s: &mut String, c: char)
    ensures
        final(s)@ == old(s)@.push(c),
{
    s.push(c);
}

/// The characters of `s`, in order.
pub fn chars_of(s: &str) -> (res: Vec<char>)
    ensures
        res@ == s@,
{
    let mut res: Vec<char> = Vec::new();
    for c in it: s.chars()
        invariant
            res@ == it.seq().take(it.index() as int),
            it.seq() == s@,
    {
        res.push(c);
    }
    res
}

/// The string made of the characters `v[from..to]`.
pub fn string_of_range(v: &Vec<char>, from: usize, to: usize) -> (res: String)
    requires
        from <= to <= v.len(),
    ensures
        res@ == v@.subrange(from as int, to as int),
{
    let mut res = String::new();
    let mut i = from;
    while i < to
        invariant
            from <= i <= to <= v.len(),
            res@ == v@.subrange(from as int, i as int),
        decreases to - i,
    {
        push_char(&mut res, v[i]);
        i = i + 1;
        assert(res@ =~= v@.subrange(from as int, i as int));
    }
    res
}

/// The string made of all the characters of `v`.
pub fn string_of(v: &Vec<char>) -> (res: String)
    ensures
        res@ == v@,
{
    let res = string_of_range(v, 0, v.len());
    assert(v@.subrange(0, v@.len() as int) =~= v@);
    res
}

/// A character with the Unicode `White_Space` property, the set that
/// `char::is_whitespace` and `str::trim` use.
pub open spec fn is_white(c: char) -> bool {
    ||| '\u{9}' <= c <= '\u{d}'
    ||| c == ' '
    ||| c == '\u{85}'
    ||| c == '\u{a0}'
    ||| c == '\u{1680}'
    ||| '\u{2000}' <= c <= '\u{200a}'
    ||| c == '\u{2028}'
    ||| c == '\u{2029}'
    ||| c == '\u{202f}'
    ||| c == '\u{205f}'
    ||| c == '\u{3000}'
}

/// Whether `c` is white space.
pub fn is_whitespace(c: char) -> (res: bool)
    ensures
        res == is_white(c),
{
    ('\u{9}' <= c && c <= '\u{d}') || c == ' ' || c == '\u{85}' || c == '\u{a0}' || c == '\u{1680}'
        || ('\u{2000}' <= c && c <= '\u{200a}') || c == '\u{2028}' || c == '\u{2029}' || c
        == '\u{202f}' || c == '\u{205f}' || c == '\u{3000}'
}

/// `s` without its leading white space.
pub open spec fn trim_start(s: Seq<char>) -> Seq<char>
    decreases s.len(),
{
    if s.len() > 0 && is_white(s[0]) {
        trim_start(s.drop_first())
    } else {
        s
    }
}

/// `s` without its trailing white space.
pub open spec fn trim_end(s: Seq<char>) -> Seq<char>
    decreases s.len(),
{
    if s.len() > 0 && is_white(s.last()) {
        trim_end(s.drop_last())
    } else {
        s
    }
}

/// `s` without leading and trailing white space, as `str::trim` gives it.
pub open spec fn trim(s: Seq<char>) -> Seq<char> {
    trim_end(trim_start(s))
}

/// Whether every character of `s` is white space.
pub open spec fn all_white(s: Seq<char>) -> bool {
    forall|i: int| 0 <= i < s.len() ==> is_white(#[trigger] s[i])
}

/// Leading white space is removed whatever follows it.
pub proof fn lemma_trim_start_white_prefix(pre: Seq<char>, x: Seq<char>)
    requires
        all_white(pre),
    ensures
        trim_start(pre + x) == trim_start(x),
    decreases pre.len(),
{
    if pre.len() > 0 {
        assert((pre + x)[0] == pre[0]);
        assert((pre + x).drop_first() =~= pre.drop_first() + x);
        assert(all_white(pre.drop_first())) by {
            assert forall|i: int| 0 <= i < pre.drop_first().len() implies is_white(
                #[trigger] pre.drop_first()[i],
            ) by {
                assert(pre.drop_first()[i] == pre[i + 1]);
            }
        }
        lemma_trim_start_white_prefix(pre.drop_first(), x);
    } else {
        assert(pre + x =~= x);
    }
}

/// Trailing white space is removed whatever comes before it.
pub proof fn lemma_trim_end_white_suffix(x: Seq<char>, post: Seq<char>)
    requires
        all_white(post),
    ensures
        trim_end(x + post) == trim_end(x),
    decreases post.len(),
{
    if post.len() > 0 {
        assert((x + post).last() == post.last());
        assert((x + post).drop_last() =~= x + post.drop_last());
        assert(all_white(post.drop_last())) by {
            assert forall|i: int| 0 <= i < post.drop_last().len() implies is_white(
                #[trigger] post.drop_last()[i],
            ) by {
                assert(post.drop_last()[i] == post[i]);
            }
        }
        lemma_trim_end_white_suffix(x, post.drop_last());
    } else {
        assert(x + post =~= x);
    }
}

/// Trimming white space around a text that neither starts nor ends with
/// white space gives that text.
pub proof fn lemma_trim_surrounded(pre: Seq<char>, x: Seq<char>, post: Seq<char>)
    requires
        all_white(pre),
        all_white(post),
        x.len() > 0,
        !is_white(x[0]),
        !is_white(x.last()),
    ensures
        trim(pre + x + post) == x,
{
    assert(pre + x + post =~= pre + (x + post));
    lemma_trim_start_white_prefix(pre, x + post);
    assert((x + post)[0] == x[0]);
    assert(trim_start(x + post) == x + post);
    lemma_trim_end_white_suffix(x, post);
}

/// The bounds `(a, b)` of the trimmed part of `v`: `v[a..b]` is `trim(v)`.
pub fn trim_bounds(v: &Vec<char>) -> (res: (usize, usize))
    ensures
        res.0 <= res.1 <= v.len(),
        v@.subrange(res.0 as int, res.1 as int) == trim(v@),
{
    let n = v.len();
    let mut i: usize = 0;
    assert(v@.skip(0) =~= v@);
    while i < n && is_whitespace(v[i])
        invariant
            i <= n == v.len(),
            trim_start(v@) == trim_start(v@.skip(i as int)),
        decreases n - i,
    {
        assert(v@.skip(i as int).drop_first() =~= v@.skip(i + 1));
        i = i + 1;
    }
    assert(trim_start(v@) == v@.skip(i as int));
    let mut j: usize = n;
    assert(v@.skip(i as int) =~= v@.subrange(i as int, j as int));
    while j > i && is_whitespace(v[j - 1])
        invariant
            i <= j <= n == v.len(),
            trim(v@) == trim_end(v@.subrange(i as int, j as int)),
        decreases j,
    {
        assert(v@.subrange(i as int, j as int).drop_last() =~= v@.subrange(i as int, j - 1));
        j = j - 1;
    }
    (i, j)
}

/// `s` with leading and trailing white space removed.
pub fn trimmed(s: &str) -> (res: String)
    ensures
        res@ == trim(s@),
{
    let v = chars_of(s);
    let (a, b) = trim_bounds(&v);
    string_of_range(&v, a, b)
}


/// The pieces of `s` between occurrences of `sep`, as `str::split` with a
/// one-character pattern gives them: `n` separators give `n + 1` pieces,
/// empty ones included.
pub open spec fn split_on(s: Seq<char>, sep: char) -> Seq<Seq<char>>
    decreases s.len(),
{
    if s.len() == 0 {
        seq![Seq::<char>::empty()]
    } else {
        let parts = split_on(s.drop_last(), sep);
        if s.last() == sep {
            parts.push(Seq::<char>::empty())
        } else {
            parts.update(parts.len() - 1, parts.last().push(s.last()))
        }
    }
}

/// Splitting always gives at least one piece.
pub proof fn lemma_split_on_nonempty(s: Seq<char>, sep: char)
    ensures
        split_on(s, sep).len() >= 1,
    decreases s.len(),
{
    if s.len() > 0 {
        lemma_split_on_nonempty(s.drop_last(), sep);
    }
}

/// A vector of characters is seen the same way by its view and its deep view.
pub proof fn lemma_chars_deep_view(v: &Vec<char>)
    ensures
        v.deep_view() == v@,
{
    assert(v.deep_view() =~= v@);
}

/// Splitting `a`, a separator, then `b` gives the pieces of `a` followed by
/// those of `b`.
pub proof fn lemma_split_on_concat(a: Seq<char>, b: Seq<char>, sep: char)
    ensures
        split_on(a.push(sep) + b, sep) == split_on(a, sep) + split_on(b, sep),
    decreases b.len(),
{
    let s = a.push(sep) + b;
    if b.len() == 0 {
        assert(s =~= a.push(sep));
        assert(s.drop_last() =~= a);
        assert(split_on(s, sep) =~= split_on(a, sep) + split_on(b, sep));
    } else {
        assert(s.drop_last() =~= a.push(sep) + b.drop_last());
        lemma_split_on_concat(a, b.drop_last(), sep);
        lemma_split_on_nonempty(b.drop_last(), sep);
        lemma_split_on_nonempty(a, sep);
        assert(s.last() == b.last());
        assert(split_on(s, sep) =~= split_on(a, sep) + split_on(b, sep));
    }
}

/// The pieces of `v` between occurrences of `sep`.
pub fn split_chars(v: &Vec<char>, sep: char) -> (res: Vec<Vec<char>>)
    ensures
        res.deep_view() == split_on(v@, sep),
{
    let mut parts: Vec<Vec<char>> = Vec::new();
    let mut cur: Vec<char> = Vec::new();
    let n = v.len();
    let mut i: usize = 0;
    assert(v@.take(0) =~= Seq::<char>::empty());
    assert(parts.deep_view().push(cur@) =~= split_on(v@.take(0), sep));
    while i < n
        invariant
            i <= n == v.len(),
            parts.deep_view().push(cur@) == split_on(v@.take(i as int), sep),
        decreases n - i,
    {
        let ghost before = parts.deep_view();
        let c = v[i];
        assert(v@.take(i + 1).drop_last() =~= v@.take(i as int));
        if c == sep {
            proof {
                lemma_chars_deep_view(&cur);
            }
            parts.push(cur);
            cur = Vec::new();
            assert(parts.deep_view() =~= before.push(split_on(v@.take(i as int), sep).last()));
        } else {
            cur.push(c);
        }
        i = i + 1;
        assert(parts.deep_view().push(cur@) =~= split_on(v@.take(i as int), sep));
    }
    assert(v@.take(n as int) =~= v@);
    let ghost before = parts.deep_view();
    proof {
        lemma_chars_deep_view(&cur);
    }
    parts.push(cur);
    assert(parts.deep_view() =~= before.push(cur@));
    parts
}

/// `p` without one trailing carriage return, if it has one.
pub open spec fn strip_cr(p: Seq<char>) -> Seq<char> {
    if p.len() > 0 && p.last() == '\r' {
        p.drop_last()
    } else {
        p
    }
}

/// The lines of `s`, as `str::lines` gives them: split at `\n`, a `\r`
/// right before a `\n` removed, and no empty line after a final `\n`.
pub open spec fn lines(s: Seq<char>) -> Seq<Seq<char>> {
    let parts = split_on(s, '\n');
    let n = parts.len();
    let count: int = if parts.last().len() == 0 { n - 1 } else { n as int };
    Seq::new(count as nat, |i: int| if i < n - 1 { strip_cr(parts[i]) } else { parts[i] })
}

/// The lines of `s`.
pub fn lines_of(s: &str) -> (res: Vec<String>)
    ensures
        res.deep_view() == lines(s@),
{
    let v = chars_of(s);
    let parts = split_chars(&v, '\n');
    proof {
        lemma_split_on_nonempty(v@, '\n');
    }
    let n = parts.len();
    let count = if parts[n - 1].len() == 0 {
        n - 1
    } else {
        n
    };
    let mut res: Vec<String> = Vec::new();
    let mut i: usize = 0;
    while i < count
        invariant
            count <= n == parts.len(),
            n >= 1,
            i <= count,
            parts.deep_view() == split_on(s@, '\n'),
            count == (if parts.deep_view().last().len() == 0 { n - 1 } else { n as int }),
            res.deep_view() =~= lines(s@).take(i as int),
        decreases count - i,
    {
        let part = &parts[i];
        assert(part@ == parts.deep_view()[i as int]);
        let mut end = part.len();
        if i + 1 < n && end > 0 && part[end - 1] == '\r' {
            end = end - 1;
        }
        let line = string_of_range(part, 0, end);
        proof {
            if i + 1 < n && part@.len() > 0 && part@.last() == '\r' {
                assert(line@ =~= strip_cr(part@));
            } else {
                assert(line@ =~= part@);
            }
        }
        let ghost before = res.deep_view();
        res.push(line);
        assert(res.deep_view() =~= before.push(line@));
        i = i + 1;
    }
    res
}

/// Whether `c` is an ASCII decimal digit.
pub open spec fn is_digit(c: char) -> bool {
    '0' <= c <= '9'
}

/// Whether every character of `s` is an ASCII decimal digit.
pub open spec fn all_digits(s: Seq<char>) -> bool {
    forall|i: int| 0 <= i < s.len() ==> is_digit(#[trigger] s[i])
}

/// The value of the digit `c`.
pub open spec fn digit_value(c: char) -> nat {
    (c as int - '0' as int) as nat
}

/// The character of the digit `d`, for `d < 10`.
pub open spec fn digit_char(d: nat) -> char {
    (d + '0' as int) as char
}

/// The value of the decimal numeral `s`.
pub open spec fn digits_value(s: Seq<char>) -> nat
    decreases s.len(),
{
    if s.len() == 0 {
        0
    } else {
        digits_value(s.drop_last()) * 10 + digit_value(s.last())
    }
}

/// The decimal numeral of `n`, with no leading zero, as `to_string` writes it.
pub open spec fn decimal(n: nat) -> Seq<char>
    decreases n,
{
    if n < 10 {
        seq![digit_char(n)]
    } else {
        decimal(n / 10).push(digit_char(n % 10))
    }
}

/// What `str::parse::<usize>` gives for `s`: an optional `+`, then one or
/// more ASCII digits whose value fits in a `usize`.
pub open spec fn parse_usize_spec(s: Seq<char>) -> Option<usize> {
    let d = if s.len() > 0 && s[0] == '+' {
        s.drop_first()
    } else {
        s
    };
    if d.len() > 0 && all_digits(d) && digits_value(d) <= usize::MAX {
        Some(digits_value(d) as usize)
    } else {
        None
    }
}

/// A longer prefix of a numeral is worth at least as much as a shorter one.
pub proof fn lemma_digits_value_prefix(s: Seq<char>, i: int, j: int)
    requires
        0 <= i <= j <= s.len(),
    ensures
        digits_value(s.take(i)) <= digits_value(s.take(j)),
    decreases j - i,
{
    if i < j {
        assert(s.take(j).drop_last() =~= s.take(j - 1));
        lemma_digits_value_prefix(s, i, j - 1);
    }
}

/// `s` read as an unsigned decimal number, as `str::parse::<usize>` reads it.
pub fn parse_usize(s: &str) -> (res: Option<usize>)
    ensures
        res == parse_usize_spec(s@),
{
    let v = chars_of(s);
    let n = v.len();
    let start: usize = if n > 0 && v[0] == '+' {
        1
    } else {
        0
    };
    let ghost d = if s@.len() > 0 && s@[0] == '+' {
        s@.drop_first()
    } else {
        s@
    };
    assert(d =~= v@.skip(start as int));
    if start >= n {
        return None;
    }
    let mut value: usize = 0;
    let mut i: usize = start;
    assert(d.take(0) =~= Seq::<char>::empty());
    while i < n
        invariant
            start <= i <= n == v.len(),
            v@ == s@,
            d == (if s@.len() > 0 && s@[0] == '+' {
                s@.drop_first()
            } else {
                s@
            }),
            d =~= v@.skip(start as int),
            value == digits_value(d.take(i - start)),
            all_digits(d.take(i - start)),
        decreases n - i,
    {
        let c = v[i];
        let k = i - start;
        assert(d.take(k + 1).drop_last() =~= d.take(k as int));
        assert(d.take(k + 1).last() == c);
        if !('0' <= c && c <= '9') {
            assert(!is_digit(d[k as int]));
            assert(!all_digits(d));
            return None;
        }
        let dv = (c as u32 - '0' as u32) as usize;
        let next = match value.checked_mul(10) {
            Some(m) => m.checked_add(dv),
            None => None,
        };
        match next {
            Some(x) => {
                value = x;
            },
            None => {
                proof {
                    lemma_digits_value_prefix(d, k + 1, d.len() as int);
                    assert(d.take(d.len() as int) =~= d);
                    assert(digits_value(d) > usize::MAX);
                }
                return None;
            },
        }
        i = i + 1;
        assert(all_digits(d.take(i - start)));
    }
    assert(d.take(n - start) =~= d);
    Some(value)
}

/// Appends the decimal numeral of `n` to `out`.
fn push_decimal(n: usize, out: &mut String)
    ensures
        final(out)@ == old(out)@ + decimal(n as nat),
    decreases n,
{
    if n >= 10 {
        push_decimal(n / 10, out);
    }
    let d = (n % 10) as u8;
    let c = (d + 48u8) as char;
    assert(c == digit_char((n % 10) as nat));
    push_char(out, c);
}

/// The decimal numeral of `n`, as `n.to_string()` gives it.
pub fn usize_to_string(n: usize) -> (res: String)
    ensures
        res@ == decimal(n as nat),
{
    let mut s = String::new();
    push_decimal(n, &mut s);
    assert(s@ =~= decimal(n as nat));
    s
}

/// The number of decimal digits of `n`: 1 for 0, else `ilog10(n) + 1`.
pub fn count_digits(n: usize) -> (res: usize)
    ensures
        res == decimal(n as nat).len(),
{
    let mut count: usize = 1;
    let mut m = n;
    while m >= 10
        invariant
            decimal(n as nat).len() == decimal(m as nat).len() + count - 1,
            1 <= count,
            m <= n,
            count - 1 <= n - m,
        decreases m,
    {
        m = m / 10;
        count = count + 1;
    }
    count
}


/// The numeral of `n` is made of digits and is worth `n`.
pub proof fn lemma_decimal_digits(n: nat)
    ensures
        decimal(n).len() >= 1,
        all_digits(decimal(n)),
        digits_value(decimal(n)) == n,
    decreases n,
{
    let d = n % 10;
    assert(digit_char(d) as int == d + '0' as int);
    assert(digit_value(digit_char(d)) == d);
    if n >= 10 {
        let s = decimal(n);
        lemma_decimal_digits(n / 10);
        assert(s.drop_last() =~= decimal(n / 10));
        assert(s.last() == digit_char(d));
        assert(digits_value(s) == digits_value(decimal(n / 10)) * 10 + d);
        assert((n / 10) * 10 + d == n);
        assert(digits_value(s) == n);
    } else {
        let s = decimal(n);
        assert(s.len() == 1);
        assert(digit_value(s.last()) == n);
        assert(s.drop_last() =~= Seq::<char>::empty());
        assert(digits_value(s.drop_last()) == 0);
        assert(digits_value(s) == n);
    }
}

/// Law: reading back the numeral that `usize_to_string` writes gives the
/// number again, so `parse_usize(&usize_to_string(n)) == Some(n)`.
pub proof fn decimal_parses_back(n: usize)
    ensures
        parse_usize_spec(decimal(n as nat)) == Some(n),
{
    lemma_decimal_digits(n as nat);
    assert(is_digit(decimal(n as nat)[0]));
}

/// Law: a number is written with no more digits than a larger one, so the
/// `count_digits(n)` digits of `n` are room enough for every number up to `n`.
pub proof fn count_digits_bounds_numerals(m: nat, n: nat)
    requires
        m <= n,
    ensures
        decimal(m).len() <= decimal(n).len(),
    decreases n,
{
    if m >= 10 {
        count_digits_bounds_numerals(m / 10, n / 10);
    } else {
        lemma_decimal_digits(n);
    }
}

/// `n` spaces.
pub open spec fn spaces(n: nat) -> Seq<char> {
    Seq::new(n, |i: int| ' ')
}

/// `s` centred in `width` characters, as the format `{:^width$}` writes a
/// string: of the missing spaces, the smaller half goes left.
pub open spec fn center(s: Seq<char>, width: nat) -> Seq<char> {
    if s.len() >= width {
        s
    } else {
        let p = (width - s.len()) as nat;
        spaces(p / 2) + s + spaces((p - p / 2) as nat)
    }
}

/// `s` left-aligned in `width` characters, as the format `{:<width$}` writes it.
pub open spec fn align_left(s: Seq<char>, width: nat) -> Seq<char> {
    if s.len() >= width {
        s
    } else {
        s + spaces((width - s.len()) as nat)
    }
}

/// `s` right-aligned in `width` characters, as the format `{:width$}`
/// writes a number.
pub open spec fn align_right(s: Seq<char>, width: nat) -> Seq<char> {
    if s.len() >= width {
        s
    } else {
        spaces((width - s.len()) as nat) + s
    }
}

/// Appends `n` spaces to `out`.
pub fn push_spaces(out: &mut String, n: usize)
    ensures
        final(out)@ == old(out)@ + spaces(n as nat),
{
    let mut i: usize = 0;
    while i < n
        invariant
            i <= n,
            out@ == old(out)@ + spaces(i as nat),
        decreases n - i,
    {
        push_char(out, ' ');
        i = i + 1;
        assert(out@ =~= old(out)@ + spaces(i as nat));
    }
}

/// Appends the characters of `s` to `out`.
pub fn push_str(out: &mut String, s: &str)
    ensures
        final(out)@ == old(out)@ + s@,
{
    let v = chars_of(s);
    let mut i: usize = 0;
    while i < v.len()
        invariant
            i <= v.len(),
            v@ == s@,
            out@ == old(out)@ + v@.take(i as int),
        decreases v.len() - i,
    {
        push_char(out, v[i]);
        i = i + 1;
        assert(out@ =~= old(out)@ + v@.take(i as int));
    }
    assert(v@.take(v.len() as int) =~= v@);
}

/// The number of characters of `s`.
pub fn char_count(s: &str) -> (res: usize)
    ensures
        res == s@.len(),
{
    chars_of(s).len()
}

/// `s` centred in `width` characters.
pub fn pad_center(s: &str, width: usize) -> (res: String)
    ensures
        res@ == center(s@, width as nat),
{
    let len = char_count(s);
    let mut out = String::new();
    if len >= width {
        push_str(&mut out, s);
    } else {
        let p = width - len;
        push_spaces(&mut out, p / 2);
        push_str(&mut out, s);
        push_spaces(&mut out, p - p / 2);
    }
    assert(out@ =~= center(s@, width as nat));
    out
}

/// `s` left-aligned in `width` characters.
pub fn pad_align_left(s: &str, width: usize) -> (res: String)
    ensures
        res@ == align_left(s@, width as nat),
{
    let len = char_count(s);
    let mut out = String::new();
    push_str(&mut out, s);
    if len < width {
        push_spaces(&mut out, width - len);
    }
    assert(out@ =~= align_left(s@, width as nat));
    out
}

/// `s` right-aligned in `width` characters.
pub fn pad_align_right(s: &str, width: usize) -> (res: String)
    ensures
        res@ == align_right(s@, width as nat),
{
    let len = char_count(s);
    let mut out = String::new();
    if len < width {
        push_spaces(&mut out, width - len);
    }
    push_str(&mut out, s);
    assert(out@ =~= align_right(s@, width as nat));
    out
}

/// What `str::len` gives for a string with the characters `s`: the length
/// of its UTF-8 encoding, in bytes.
pub open spec fn str_len(s: Seq<char>) -> usize {
    encode_utf8(s).len() as usize
}

/// The length of `s` in bytes.
pub fn byte_length(s: &str) -> (res: usize)
    ensures
        res == str_len(s@),
{
    s.len()
}

/// Whether `a` and `b` hold the same characters.
pub fn str_eq(a: &str, b: &str) -> (res: bool)
    ensures
        res == (a@ == b@),
{
    let va = chars_of(a);
    let vb = chars_of(b);
    if va.len() != vb.len() {
        return false;
    }
    let mut i: usize = 0;
    while i < va.len()
        invariant
            va.len() == vb.len(),
            va@ == a@,
            vb@ == b@,
            i <= va.len(),
            forall|j: int| 0 <= j < i ==> va@[j] == vb@[j],
        decreases va.len() - i,
    {
        if va[i] != vb[i] {
            return false;
        }
        i = i + 1;
    }
    assert(va@ =~= vb@);
    true
}

/// Whether `s` ends with `suffix`, as `str::ends_with` decides it.
pub open spec fn ends_with(s: Seq<char>, suffix: Seq<char>) -> bool {
    suffix.len() <= s.len() && s.skip(s.len() - suffix.len()) == suffix
}

/// Whether `s` ends with `suffix`.
pub fn str_ends_with(s: &str, suffix: &str) -> (res: bool)
    ensures
        res == ends_with(s@, suffix@),
{
    let vs = chars_of(s);
    let vx = chars_of(suffix);
    if vx.len() > vs.len() {
        return false;
    }
    let off = vs.len() - vx.len();
    let mut i: usize = 0;
    while i < vx.len()
        invariant
            vs@ == s@,
            vx@ == suffix@,
            off + vx.len() == vs.len(),
            i <= vx.len(),
            forall|j: int| 0 <= j < i ==> vs@[off + j] == vx@[j],
        decreases vx.len() - i,
    {
        if vs[off + i] != vx[i] {
            assert(s@.skip(s@.len() - suffix@.len())[i as int] != suffix@[i as int]);
            return false;
        }
        i = i + 1;
    }
    assert(s@.skip(s@.len() - suffix@.len()) =~= suffix@);
    true
}

} // verus!
