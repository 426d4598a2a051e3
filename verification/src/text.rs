//! Text helpers over the character view of strings: trimming, splitting,
//! number formatting and number parsing.

use vstd::prelude::*;
use vstd::utf8::{
    decode_utf8, encode_utf8, encode_utf8_decode_utf8, is_ascii_chars, valid_utf8,
};

verus! {

/// `String::push` appends one character to the end of the string.
pub assume_specification[ String::push ](s: &mut String, ch: char)
    ensures
        final(s)@ == old(s)@.push(ch),
;

// ---------------------------------------------------------------------------
// Equality and conversion
// ---------------------------------------------------------------------------

/// Whether two strings hold the same characters.
pub fn str_eq(a: &str, b: &str) -> (r: bool)
    ensures
        r == (a@ == b@),
{
    let x = a.as_bytes();
    let y = b.as_bytes();
    if x.len() != y.len() {
        return false;
    }
    let n: usize = x.len();
    let mut i: usize = 0;
    while i < n
        invariant
            i <= n,
            n == x@.len(),
            n == y@.len(),
            x@ == encode_utf8(a@),
            y@ == encode_utf8(b@),
            forall|j: int| 0 <= j < i ==> x@[j] == y@[j],
        decreases n - i,
    {
        if x[i] != y[i] {
            return false;
        }
        i += 1;
    }
    proof {
        assert(x@ =~= y@);
        encode_utf8_decode_utf8(a@);
        encode_utf8_decode_utf8(b@);
    }
    true
}

/// The characters of a string, in order.
pub fn chars_of(s: &str) -> (r: Vec<char>)
    ensures
        r@ == s@,
{
    let mut out: Vec<char> = Vec::new();
    for c in it: s.chars()
        invariant
            out@ == it.seq().take(it.index() as int),
    {
        out.push(c);
        assert(it.seq().take(it.index() as int + 1) =~= it.seq().take(it.index() as int).push(c));
    }
    assert(out@ =~= s@);
    out
}

/// The string made of the characters `from..to` of `cs`.
pub fn string_of(cs: &Vec<char>, from: usize, to: usize) -> (r: String)
    requires
        from <= to <= cs@.len(),
    ensures
        r@ == cs@.subrange(from as int, to as int),
{
    let mut out = String::new();
    let mut i: usize = from;
    while i < to
        invariant
            from <= i <= to <= cs@.len(),
            out@ == cs@.subrange(from as int, i as int),
        decreases to - i,
    {
        out.push(cs[i]);
        assert(cs@.subrange(from as int, i as int + 1) =~= cs@.subrange(from as int, i as int).push(
            cs@[i as int],
        ));
        i += 1;
    }
    out
}

// ---------------------------------------------------------------------------
// Trimming and splitting
// ---------------------------------------------------------------------------

/// The Unicode `White_Space` property.
pub open spec fn is_ws(c: char) -> bool {
    ||| '\u{9}' <= c <= '\u{d}'
    ||| c == ' '
    ||| c == '\u{85}'
    ||| c == '\u{a0}'
    ||| c == '\u{1680}'
    ||| '\u{2000}' <= c <= '\u{200a}'
    ||| c == '\u{2028}'
    ||| c == '\u{2029}'
    ||| c == '\u{202f}'
    ||| c == '\u{205f}'
    ||| c == '\u{3000}'
}

/// Whether a character is Unicode white space.
pub fn is_whitespace(c: char) -> (r: bool)
    ensures
        r == is_ws(c),
{
    ('\u{9}' <= c && c <= '\u{d}') || c == ' ' || c == '\u{85}' || c == '\u{a0}' || c == '\u{1680}'
        || ('\u{2000}' <= c && c <= '\u{200a}') || c == '\u{2028}' || c == '\u{2029}' || c
        == '\u{202f}' || c == '\u{205f}' || c == '\u{3000}'
}

/// `s` without its leading white space.
pub open spec fn trim_start(s: Seq<char>) -> Seq<char>
    decreases s.len(),
{
    if s.len() > 0 && is_ws(s[0]) {
        trim_start(s.skip(1))
    } else {
        s
    }
}

/// `s` without its trailing white space.
pub open spec fn trim_end(s: Seq<char>) -> Seq<char>
    decreases s.len(),
{
    if s.len() > 0 && is_ws(s.last()) {
        trim_end(s.drop_last())
    } else {
        s
    }
}

/// `s` without white space at either end.
pub open spec fn trimmed(s: Seq<char>) -> Seq<char> {
    trim_end(trim_start(s))
}

/// Removes white space at both ends.
pub fn trim(s: &str) -> (r: &str)
    ensures
        r@ == trimmed(s@),
{
    let cs = chars_of(s);
    let n: usize = cs.len();
    let mut i: usize = 0;
    assert(cs@.skip(0) =~= cs@);
    while i < n && is_whitespace(cs[i])
        invariant
            i <= n == cs@.len(),
            cs@ == s@,
            trim_start(s@) == trim_start(cs@.skip(i as int)),
        decreases n - i,
    {
        assert(cs@.skip(i as int).skip(1) =~= cs@.skip(i as int + 1));
        i += 1;
    }
    let mut j: usize = n;
    assert(trim_start(s@) == cs@.skip(i as int));
    assert(cs@.skip(i as int) =~= cs@.subrange(i as int, j as int));
    while j > i && is_whitespace(cs[j - 1])
        invariant
            i <= j <= n == cs@.len(),
            cs@ == s@,
            trimmed(s@) == trim_end(cs@.subrange(i as int, j as int)),
        decreases j,
    {
        assert(cs@.subrange(i as int, j as int).drop_last() =~= cs@.subrange(
            i as int,
            j as int - 1,
        ));
        j -= 1;
    }
    s.substring_char(i, j)
}

/// The pieces of `s` between occurrences of `sep`.
pub open spec fn split_on(s: Seq<char>, sep: char) -> Seq<Seq<char>>
    decreases s.len(),
{
    if s.len() == 0 {
        seq![Seq::<char>::empty()]
    } else {
        let init = split_on(s.drop_last(), sep);
        if s.last() == sep {
            init.push(Seq::<char>::empty())
        } else {
            init.update(init.len() - 1, init.last().push(s.last()))
        }
    }
}

/// The character views of a list of strings.
pub open spec fn views(v: Seq<String>) -> Seq<Seq<char>> {
    v.map_values(|s: String| s@)
}

/// A split has at least one piece.
pub proof fn lemma_split_nonempty(s: Seq<char>, sep: char)
    ensures
        split_on(s, sep).len() >= 1,
    decreases s.len(),
{
    if s.len() > 0 {
        lemma_split_nonempty(s.drop_last(), sep);
    }
}

/// Text without the separator is one piece.
pub proof fn lemma_split_single(t: Seq<char>, sep: char)
    requires
        !t.contains(sep),
    ensures
        split_on(t, sep) == seq![t],
    decreases t.len(),
{
    if t.len() > 0 {
        assert(t.contains(t.last()));
        assert(!t.drop_last().contains(sep)) by {
            if t.drop_last().contains(sep) {
                let k = t.drop_last().index_of(sep);
                assert(t[k] == sep);
            }
        }
        lemma_split_single(t.drop_last(), sep);
        assert(t.drop_last().push(t.last()) =~= t);
        assert(split_on(t, sep) =~= seq![t]);
    } else {
        assert(t =~= Seq::<char>::empty());
    }
}

/// A separator and text without it add that text as one more piece.
pub proof fn lemma_split_more(s: Seq<char>, t: Seq<char>, sep: char)
    requires
        !t.contains(sep),
    ensures
        split_on(s.push(sep) + t, sep) == split_on(s, sep).push(t),
    decreases t.len(),
{
    lemma_split_nonempty(s, sep);
    if t.len() > 0 {
        assert(t.contains(t.last()));
        assert(!t.drop_last().contains(sep)) by {
            if t.drop_last().contains(sep) {
                let k = t.drop_last().index_of(sep);
                assert(t[k] == sep);
            }
        }
        lemma_split_more(s, t.drop_last(), sep);
        assert((s.push(sep) + t).drop_last() =~= s.push(sep) + t.drop_last());
        assert(t.drop_last().push(t.last()) =~= t);
        assert(split_on(s.push(sep) + t, sep) =~= split_on(s, sep).push(t));
    } else {
        assert(s.push(sep) + t =~= s.push(sep));
        assert(s.push(sep).drop_last() =~= s);
        assert(t =~= Seq::<char>::empty());
    }
}

/// Splits at every occurrence of `sep`.
pub fn split(s: &str, sep: char) -> (r: Vec<String>)
    ensures
        views(r@) == split_on(s@, sep),
        r@.len() >= 1,
{
    let cs = chars_of(s);
    let n: usize = cs.len();
    let mut out: Vec<String> = Vec::new();
    let mut cur = String::new();
    let mut i: usize = 0;
    assert(cs@.take(0) =~= Seq::<char>::empty());
    assert(views(out@).push(cur@) =~= split_on(cs@.take(0), sep));
    while i < n
        invariant
            i <= n == cs@.len(),
            cs@ == s@,
            views(out@).push(cur@) == split_on(cs@.take(i as int), sep),
        decreases n - i,
    {
        let c = cs[i];
        proof {
            assert(cs@.take(i as int + 1).drop_last() =~= cs@.take(i as int));
            lemma_split_nonempty(cs@.take(i as int), sep);
        }
        let ghost before = views(out@);
        let ghost piece = cur@;
        if c == sep {
            out.push(cur);
            cur = String::new();
            assert(views(out@) =~= before.push(piece));
            assert(views(out@).push(cur@) =~= split_on(cs@.take(i as int + 1), sep));
        } else {
            cur.push(c);
            assert(views(out@).push(cur@) =~= split_on(cs@.take(i as int + 1), sep));
        }
        i += 1;
    }
    let ghost before = views(out@);
    let ghost piece = cur@;
    out.push(cur);
    assert(views(out@) =~= before.push(piece));
    assert(cs@.take(n as int) =~= s@);
    out
}

/// The words of `s`: its longest runs of characters that are no white space.
pub open spec fn words_of(s: Seq<char>) -> Seq<Seq<char>>
    decreases s.len(),
{
    if s.len() == 0 {
        Seq::empty()
    } else {
        let init = words_of(s.drop_last());
        if is_ws(s.last()) {
            init
        } else if s.len() == 1 || is_ws(s[s.len() - 2]) || init.len() == 0 {
            init.push(seq![s.last()])
        } else {
            init.update(init.len() - 1, init.last().push(s.last()))
        }
    }
}

/// Splits at white space, without empty pieces.
pub fn words(s: &str) -> (r: Vec<String>)
    ensures
        views(r@) == words_of(s@),
{
    let cs = chars_of(s);
    let n: usize = cs.len();
    let mut out: Vec<String> = Vec::new();
    let mut i: usize = 0;
    assert(cs@.take(0) =~= Seq::<char>::empty());
    assert(views(out@) =~= Seq::empty());
    while i < n
        invariant
            i <= n == cs@.len(),
            cs@ == s@,
            views(out@) == words_of(cs@.take(i as int)),
        decreases n - i,
    {
        let c = cs[i];
        let ghost before = views(out@);
        proof {
            let t = cs@.take(i as int + 1);
            assert(t.drop_last() =~= cs@.take(i as int));
            assert(t.last() == c);
            if i > 0 {
                assert(t[t.len() - 2] == cs@[i - 1]);
            }
        }
        if !is_whitespace(c) {
            if i == 0 || is_whitespace(cs[i - 1]) || out.len() == 0 {
                let mut w = String::new();
                w.push(c);
                assert(w@ =~= seq![c]);
                out.push(w);
                assert(views(out@) =~= before.push(seq![c]));
            } else {
                let k: usize = out.len() - 1;
                let mut w = out[k].clone();
                assert(w@ == before[k as int]);
                w.push(c);
                out.set(k, w);
                assert(views(out@) =~= before.update(k as int, before[k as int].push(c)));
            }
        }
        i += 1;
    }
    assert(cs@.take(n as int) =~= s@);
    out
}

/// The lines of `s`: the pieces between line feeds, without an empty piece at the end. (A carriage
/// return before a line feed stays; it is white space.)
pub open spec fn lines_of(s: Seq<char>) -> Seq<Seq<char>> {
    let parts = split_on(s, '\n');
    if parts.last().len() == 0 {
        parts.drop_last()
    } else {
        parts
    }
}

/// Splits into lines.
pub fn lines(s: &str) -> (r: Vec<String>)
    ensures
        views(r@) == lines_of(s@),
{
    let mut parts = split(s, '\n');
    let n: usize = parts.len();
    let ghost before = views(parts@);
    assert(before.last() == parts@[n - 1]@);
    if parts[n - 1].as_str().is_empty() {
        let _last = parts.pop();
        assert(views(parts@) =~= before.drop_last());
    }
    parts
}

/// `s` without leading characters `c`.
pub open spec fn without_leading(s: Seq<char>, c: char) -> Seq<char>
    decreases s.len(),
{
    if s.len() > 0 && s[0] == c {
        without_leading(s.skip(1), c)
    } else {
        s
    }
}

/// Removes leading characters `c`.
pub fn trim_leading(s: &str, c: char) -> (r: &str)
    ensures
        r@ == without_leading(s@, c),
{
    let cs = chars_of(s);
    let n: usize = cs.len();
    let mut i: usize = 0;
    assert(cs@.skip(0) =~= cs@);
    while i < n && cs[i] == c
        invariant
            i <= n == cs@.len(),
            cs@ == s@,
            without_leading(s@, c) == without_leading(cs@.skip(i as int), c),
        decreases n - i,
    {
        assert(cs@.skip(i as int).skip(1) =~= cs@.skip(i as int + 1));
        i += 1;
    }
    assert(s@.subrange(i as int, n as int) =~= cs@.skip(i as int));
    s.substring_char(i, n)
}

/// `s` without trailing characters `c`.
pub open spec fn without_trailing(s: Seq<char>, c: char) -> Seq<char>
    decreases s.len(),
{
    if s.len() > 0 && s.last() == c {
        without_trailing(s.drop_last(), c)
    } else {
        s
    }
}

/// Removes trailing characters `c`.
pub fn trim_trailing(s: &str, c: char) -> (r: &str)
    ensures
        r@ == without_trailing(s@, c),
{
    let cs = chars_of(s);
    let mut n: usize = cs.len();
    assert(cs@.take(n as int) =~= s@);
    while n > 0 && cs[n - 1] == c
        invariant
            n <= cs@.len(),
            cs@ == s@,
            without_trailing(s@, c) == without_trailing(cs@.take(n as int), c),
        decreases n,
    {
        assert(cs@.take(n as int).drop_last() =~= cs@.take(n as int - 1));
        n -= 1;
    }
    assert(s@.subrange(0, n as int) =~= cs@.take(n as int));
    s.substring_char(0, n)
}

/// The position of the first occurrence of `pat` in `s`, from position `i` on.
pub open spec fn pattern_from(s: Seq<char>, pat: Seq<char>, i: int) -> Option<int>
    decreases s.len() + 1 - i,
{
    if i < 0 || i + pat.len() > s.len() {
        None
    } else if starts_with(s.skip(i), pat) {
        Some(i)
    } else {
        pattern_from(s, pat, i + 1)
    }
}

/// What follows the first occurrence of `pat`; all of `s` where there is none.
pub open spec fn after_pattern(s: Seq<char>, pat: Seq<char>) -> Seq<char> {
    match pattern_from(s, pat, 0) {
        Some(i) => s.skip(i + pat.len()),
        None => s,
    }
}

/// What follows the first occurrence of `pat`; all of `s` where there is none.
pub fn skip_past<'a>(s: &'a str, pat: &str) -> (r: &'a str)
    ensures
        r@ == after_pattern(s@, pat@),
{
    let n: usize = s.unicode_len();
    let m: usize = pat.unicode_len();
    if m == 0 {
        assert(s@.skip(0) =~= s@);
        assert(s@.take(0) =~= pat@);
        return s;
    }
    let mut i: usize = 0;
    while m <= n && i <= n - m
        invariant
            i <= n,
            n == s@.len(),
            m == pat@.len(),
            m > 0,
            pattern_from(s@, pat@, 0) == pattern_from(s@, pat@, i as int),
        decreases n + 1 - i,
    {
        assert(s@.subrange(i as int, n as int) =~= s@.skip(i as int));
        let rest = s.substring_char(i, n);
        if has_prefix(rest, pat) {
            assert(rest@.subrange(m as int, n - i) =~= s@.skip(i + m));
            return rest.substring_char(m, n - i);
        }
        i += 1;
    }
    s
}

/// The position of the first `c` in `s`, from position `i` on.
pub open spec fn first_from(s: Seq<char>, c: char, i: int) -> Option<int>
    decreases s.len() - i,
{
    if i < 0 || i >= s.len() {
        None
    } else if s[i] == c {
        Some(i)
    } else {
        first_from(s, c, i + 1)
    }
}

/// What stands before and after the first `c`.
pub open spec fn cut_first(s: Seq<char>, c: char) -> Option<(Seq<char>, Seq<char>)> {
    match first_from(s, c, 0) {
        Some(i) => Some((s.take(i), s.skip(i + 1))),
        None => None,
    }
}

/// The position of the last `c` among the first `n` characters of `s`.
pub open spec fn last_before(s: Seq<char>, c: char, n: int) -> Option<int>
    decreases n,
{
    if n <= 0 || n > s.len() {
        None
    } else if s[n - 1] == c {
        Some(n - 1)
    } else {
        last_before(s, c, n - 1)
    }
}

/// What stands before and after the last `c`.
pub open spec fn cut_last(s: Seq<char>, c: char) -> Option<(Seq<char>, Seq<char>)> {
    match last_before(s, c, s.len() as int) {
        Some(i) => Some((s.take(i), s.skip(i + 1))),
        None => None,
    }
}

/// Splits at the first `c`.
pub fn split_once<'a>(s: &'a str, c: char) -> (r: Option<(&'a str, &'a str)>)
    ensures
        match r {
            Some((a, b)) => cut_first(s@, c) == Some((a@, b@)),
            None => cut_first(s@, c) is None,
        },
{
    let cs = chars_of(s);
    let n: usize = cs.len();
    let mut i: usize = 0;
    while i < n
        invariant
            i <= n == cs@.len(),
            cs@ == s@,
            first_from(s@, c, 0) == first_from(s@, c, i as int),
        decreases n - i,
    {
        if cs[i] == c {
            assert(s@.subrange(0, i as int) =~= s@.take(i as int));
            assert(s@.subrange(i as int + 1, n as int) =~= s@.skip(i as int + 1));
            return Some((s.substring_char(0, i), s.substring_char(i + 1, n)));
        }
        i += 1;
    }
    None
}

/// Splits at the last `c`.
pub fn rsplit_once<'a>(s: &'a str, c: char) -> (r: Option<(&'a str, &'a str)>)
    ensures
        match r {
            Some((a, b)) => cut_last(s@, c) == Some((a@, b@)),
            None => cut_last(s@, c) is None,
        },
{
    let cs = chars_of(s);
    let n: usize = cs.len();
    let mut i: usize = n;
    while i > 0
        invariant
            i <= n == cs@.len(),
            cs@ == s@,
            last_before(s@, c, n as int) == last_before(s@, c, i as int),
        decreases i,
    {
        if cs[i - 1] == c {
            assert(s@.subrange(0, i - 1) =~= s@.take(i - 1));
            assert(s@.subrange(i as int, n as int) =~= s@.skip(i as int));
            return Some((s.substring_char(0, i - 1), s.substring_char(i, n)));
        }
        i -= 1;
    }
    None
}

// ---------------------------------------------------------------------------
// Formatting numbers
// ---------------------------------------------------------------------------

/// The character of one decimal digit.
pub open spec fn dec_char(d: int) -> char {
    (d + 48) as char
}

/// The decimal form of `n`, without leading zeros.
pub open spec fn dec(n: nat) -> Seq<char>
    decreases n,
{
    if n < 10 {
        seq![dec_char(n as int)]
    } else {
        dec(n / 10).push(dec_char((n % 10) as int))
    }
}

/// The decimal form of an integer, with a minus sign if it is negative.
pub open spec fn dec_int(n: int) -> Seq<char> {
    if n < 0 {
        seq!['-'] + dec((-n) as nat)
    } else {
        dec(n as nat)
    }
}

fn push_dec(n: u64, out: &mut String)
    ensures
        final(out)@ == old(out)@ + dec(n as nat),
    decreases n,
{
    if n >= 10 {
        push_dec(n / 10, out);
    }
    let d: u8 = (n % 10) as u8;
    let c: char = (d + 48u8) as char;
    let ghost before = out@;
    out.push(c);
    assert(out@ =~= old(out)@ + dec(n as nat));
}

/// The decimal form of `n`.
pub fn dec_u64(n: u64) -> (r: String)
    ensures
        r@ == dec(n as nat),
{
    let mut out = String::new();
    push_dec(n, &mut out);
    assert(out@ =~= dec(n as nat));
    out
}

/// The decimal form of `n`, signed.
pub fn dec_i64(n: i64) -> (r: String)
    ensures
        r@ == dec_int(n as int),
{
    let mut out = String::new();
    if n < 0 {
        out.push('-');
        let m: u64 = (-(n as i128)) as u64;
        push_dec(m, &mut out);
        assert(out@ =~= dec_int(n as int));
    } else {
        push_dec(n as u64, &mut out);
        assert(out@ =~= dec_int(n as int));
    }
    out
}

/// The character of one hexadecimal digit, with letters in the given case.
pub open spec fn hex_char(d: int, upper: bool) -> char {
    if d < 10 {
        (d + 48) as char
    } else if upper {
        (d + 55) as char
    } else {
        (d + 87) as char
    }
}

/// The hexadecimal form of `n`, zero-padded on the left to `width` digits.
pub open spec fn hex(n: nat, width: nat, upper: bool) -> Seq<char>
    decreases n + width,
{
    if n < 16 && width <= 1 {
        seq![hex_char(n as int, upper)]
    } else {
        hex(n / 16, if width == 0 { 0 } else { (width - 1) as nat }, upper).push(
            hex_char((n % 16) as int, upper),
        )
    }
}

fn hex_digit(d: u8, upper: bool) -> (r: char)
    requires
        d < 16,
    ensures
        r == hex_char(d as int, upper),
{
    if d < 10 {
        (d + 48u8) as char
    } else if upper {
        (d + 55u8) as char
    } else {
        (d + 87u8) as char
    }
}

fn push_hex(n: u64, width: u8, upper: bool, out: &mut String)
    ensures
        final(out)@ == old(out)@ + hex(n as nat, width as nat, upper),
    decreases n + width,
{
    if !(n < 16 && width <= 1) {
        let w: u8 = if width == 0 { 0 } else { (width - 1) as u8 };
        push_hex(n / 16, w, upper, out);
    }
    let c = hex_digit((n % 16) as u8, upper);
    out.push(c);
    assert(out@ =~= old(out)@ + hex(n as nat, width as nat, upper));
}

/// The hexadecimal form of `n`, zero-padded to `width` digits.
pub fn hex_u64(n: u64, width: u8, upper: bool) -> (r: String)
    ensures
        r@ == hex(n as nat, width as nat, upper),
{
    let mut out = String::new();
    push_hex(n, width, upper, &mut out);
    assert(out@ =~= hex(n as nat, width as nat, upper));
    out
}

/// The form `0xNN`, with uppercase digits, that opcodes are shown in.
pub open spec fn hex_byte(b: u8) -> Seq<char> {
    "0x"@ + hex(b as nat, 2, true)
}

/// Formats a byte as `0xNN`, with uppercase digits.
pub fn hex_byte_string(b: u8) -> (r: String)
    ensures
        r@ == hex_byte(b),
{
    concat("0x", hex_u64(b as u64, 2, true).as_str())
}

/// The characters of `a` followed by those of `b`.
pub fn concat(a: &str, b: &str) -> (r: String)
    ensures
        r@ == a@ + b@,
{
    let mut out = a.to_owned();
    out.append(b);
    out
}

/// The characters of `a`, `b` and `c`, in this order.
pub fn concat3(a: &str, b: &str, c: &str) -> (r: String)
    ensures
        r@ == a@ + b@ + c@,
{
    let mut out = a.to_owned();
    out.append(b);
    out.append(c);
    out
}

/// The parts with `sep` between them.
pub open spec fn joined(parts: Seq<Seq<char>>, sep: Seq<char>) -> Seq<char>
    decreases parts.len(),
{
    if parts.len() == 0 {
        Seq::empty()
    } else if parts.len() == 1 {
        parts[0]
    } else {
        joined(parts.drop_last(), sep) + sep + parts.last()
    }
}

/// Puts `sep` between the parts.
pub fn join(parts: &Vec<String>, sep: &str) -> (r: String)
    ensures
        r@ == joined(views(parts@), sep@),
{
    let ghost all = views(parts@);
    let mut out = String::new();
    let mut i: usize = 0;
    assert(out@ =~= joined(all.take(0), sep@));
    while i < parts.len()
        invariant
            i <= parts@.len(),
            all == views(parts@),
            out@ == joined(all.take(i as int), sep@),
        decreases parts@.len() - i,
    {
        assert(all.take(i as int + 1).drop_last() =~= all.take(i as int));
        assert(all.take(i as int + 1).last() == parts@[i as int]@);
        if i == 0 {
            out = parts[0].clone();
        } else {
            out = concat3(out.as_str(), sep, parts[i].as_str());
        }
        i += 1;
    }
    assert(all.take(i as int) =~= all);
    out
}

// ---------------------------------------------------------------------------
// Parsing numbers
// ---------------------------------------------------------------------------

/// An ASCII decimal digit.
pub open spec fn is_digit(c: char) -> bool {
    '0' <= c <= '9'
}

/// One or more ASCII decimal digits and nothing else.
pub open spec fn all_digits(s: Seq<char>) -> bool {
    s.len() > 0 && forall|i: int| 0 <= i < s.len() ==> is_digit(#[trigger] s[i])
}

/// The number that a run of decimal digits writes down.
pub open spec fn dec_value(s: Seq<char>) -> nat
    decreases s.len(),
{
    if s.len() == 0 {
        0
    } else {
        (dec_value(s.drop_last()) * 10 + (s.last() as int - 48)) as nat
    }
}

/// The number that `s` writes down in decimal, with an optional plus sign, if it is at most `max`.
pub open spec fn parse_nat(s: Seq<char>, max: nat) -> Option<nat> {
    let body = if s.len() > 0 && s[0] == '+' {
        s.skip(1)
    } else {
        s
    };
    if all_digits(body) && dec_value(body) <= max {
        Some(dec_value(body))
    } else {
        None
    }
}

/// The number that `s` writes down in decimal, with an optional sign, if it lies in `min..=max`.
pub open spec fn parse_int(s: Seq<char>, min: int, max: int) -> Option<int> {
    if s.len() > 0 && s[0] == '-' {
        if all_digits(s.skip(1)) && -(dec_value(s.skip(1)) as int) >= min {
            Some(-(dec_value(s.skip(1)) as int))
        } else {
            None
        }
    } else {
        match parse_nat(s, max as nat) {
            Some(n) => Some(n as int),
            None => None,
        }
    }
}

proof fn lemma_dec_value_grows(s: Seq<char>, i: int)
    requires
        0 <= i <= s.len(),
        forall|j: int| 0 <= j < s.len() ==> is_digit(#[trigger] s[j]),
    ensures
        dec_value(s.take(i)) <= dec_value(s),
    decreases s.len() - i,
{
    if i < s.len() {
        lemma_dec_value_grows(s, i + 1);
        assert(s.take(i + 1).drop_last() =~= s.take(i));
        assert(s.take(i + 1).last() == s[i]);
        assert(dec_value(s.take(i + 1)) == (dec_value(s.take(i)) * 10 + (s[i] as int - 48)) as nat);
    } else {
        assert(s.take(i) =~= s);
    }
}

/// Reads the digits of `cs` from `from` on.
fn parse_digits(cs: &Vec<char>, from: usize, max: u64) -> (r: Option<u64>)
    requires
        from <= cs@.len(),
    ensures
        match r {
            Some(v) => all_digits(cs@.skip(from as int)) && v == dec_value(cs@.skip(from as int))
                && v <= max,
            None => !all_digits(cs@.skip(from as int)) || dec_value(cs@.skip(from as int)) > max,
        },
{
    let n: usize = cs.len();
    let ghost body = cs@.skip(from as int);
    if from == n {
        return None;
    }
    let mut k: usize = from;
    while k < n
        invariant
            from <= k <= n == cs@.len(),
            body == cs@.skip(from as int),
            forall|j: int| 0 <= j < k - from ==> is_digit(#[trigger] body[j]),
        decreases n - k,
    {
        let c = cs[k];
        if !('0' <= c && c <= '9') {
            assert(!is_digit(body[k - from]));
            return None;
        }
        k += 1;
    }
    let mut v: u64 = 0;
    let mut i: usize = from;
    assert(body.take(0) =~= Seq::<char>::empty());
    while i < n
        invariant
            from <= i <= n == cs@.len(),
            body == cs@.skip(from as int),
            forall|j: int| 0 <= j < body.len() ==> is_digit(#[trigger] body[j]),
            v == dec_value(body.take(i - from)),
            v <= max,
        decreases n - i,
    {
        let c = cs[i];
        assert(c == body[i - from]);
        assert(is_digit(c));
        let d: u64 = (c as u32 - 48) as u64;
        let w: u128 = (v as u128) * 10 + d as u128;
        proof {
            assert(body.take(i - from + 1).drop_last() =~= body.take(i - from));
            assert(body.take(i - from + 1).last() == c);
            assert(w == dec_value(body.take(i - from + 1)));
        }
        if w > max as u128 {
            proof {
                lemma_dec_value_grows(body, i - from + 1);
            }
            return None;
        }
        v = w as u64;
        i += 1;
    }
    assert(body.take(n - from) =~= body);
    Some(v)
}

/// Parses an unsigned decimal number that is at most `max`.
pub fn parse_u64(s: &str, max: u64) -> (r: Option<u64>)
    ensures
        match r {
            Some(v) => parse_nat(s@, max as nat) == Some(v as nat),
            None => parse_nat(s@, max as nat) is None,
        },
{
    let cs = chars_of(s);
    let from: usize = if cs.len() > 0 && cs[0] == '+' { 1 } else { 0 };
    assert(cs@.skip(0) =~= cs@);
    parse_digits(&cs, from, max)
}

/// Parses a signed decimal number in `min..=max`.
pub fn parse_i64(s: &str, min: i64, max: i64) -> (r: Option<i64>)
    requires
        min <= 0 <= max,
    ensures
        match r {
            Some(v) => parse_int(s@, min as int, max as int) == Some(v as int),
            None => parse_int(s@, min as int, max as int) is None,
        },
{
    let cs = chars_of(s);
    if cs.len() > 0 && cs[0] == '-' {
        let limit: u64 = (-(min as i128)) as u64;
        match parse_digits(&cs, 1, limit) {
            Some(v) => Some((-(v as i128)) as i64),
            None => None,
        }
    } else {
        match parse_u64(s, max as u64) {
            Some(v) => Some(v as i64),
            None => None,
        }
    }
}

/// Reading back the decimal form of a number gives the number.
pub proof fn lemma_dec_round_trip(n: nat)
    ensures
        all_digits(dec(n)),
        dec_value(dec(n)) == n,
        forall|max: nat| n <= max ==> #[trigger] parse_nat(dec(n), max) == Some(n),
    decreases n,
{
    if n >= 10 {
        lemma_dec_round_trip(n / 10);
        assert(dec(n).drop_last() =~= dec(n / 10));
        assert(dec(n).last() == dec_char((n % 10) as int));
        assert(dec_value(dec(n)) == (dec_value(dec(n / 10)) * 10 + (n % 10)) as nat);
        assert(is_digit(dec_char((n % 10) as int)));
        assert forall|i: int| 0 <= i < dec(n).len() implies is_digit(#[trigger] dec(n)[i]) by {
            if i < dec(n).len() - 1 {
                assert(dec(n)[i] == dec(n / 10)[i]);
            }
        }
    } else {
        assert(dec(n).drop_last() =~= Seq::<char>::empty());
        assert(dec_value(dec(n).drop_last()) == 0);
        assert(dec_value(dec(n)) == n);
        assert(is_digit(dec(n)[0]));
    }
    assert(is_digit(dec(n)[0]));
    assert(dec(n)[0] != '+');
}

/// The value of one hexadecimal digit.
pub open spec fn hex_digit_value(c: char) -> Option<nat> {
    if '0' <= c <= '9' {
        Some((c as int - 48) as nat)
    } else if 'a' <= c <= 'f' {
        Some((c as int - 87) as nat)
    } else if 'A' <= c <= 'F' {
        Some((c as int - 55) as nat)
    } else {
        None
    }
}

/// Reads one hexadecimal digit.
pub fn hex_value(c: char) -> (r: Option<u8>)
    ensures
        match r {
            Some(v) => hex_digit_value(c) == Some(v as nat) && v < 16,
            None => hex_digit_value(c) is None,
        },
{
    if '0' <= c && c <= '9' {
        Some((c as u32 - 48) as u8)
    } else if 'a' <= c && c <= 'f' {
        Some((c as u32 - 87) as u8)
    } else if 'A' <= c && c <= 'F' {
        Some((c as u32 - 55) as u8)
    } else {
        None
    }
}

/// One or more hexadecimal digits and nothing else.
pub open spec fn all_hex(s: Seq<char>) -> bool {
    s.len() > 0 && forall|i: int| 0 <= i < s.len() ==> hex_digit_value(#[trigger] s[i]) is Some
}

/// The number that a run of hexadecimal digits writes down.
pub open spec fn hex_run_value(s: Seq<char>) -> nat
    decreases s.len(),
{
    if s.len() == 0 {
        0
    } else {
        hex_run_value(s.drop_last()) * 16 + (match hex_digit_value(s.last()) {
            Some(d) => d,
            None => 0,
        })
    }
}

/// The number that `s` writes down in hexadecimal, with an optional plus sign, if it is at most
/// `max`.
pub open spec fn parse_hex_nat(s: Seq<char>, max: nat) -> Option<nat> {
    let body = if s.len() > 0 && s[0] == '+' {
        s.skip(1)
    } else {
        s
    };
    if all_hex(body) && hex_run_value(body) <= max {
        Some(hex_run_value(body))
    } else {
        None
    }
}

proof fn lemma_hex_value_grows(s: Seq<char>, i: int)
    requires
        0 <= i <= s.len(),
    ensures
        hex_run_value(s.take(i)) <= hex_run_value(s),
    decreases s.len() - i,
{
    if i < s.len() {
        lemma_hex_value_grows(s, i + 1);
        assert(s.take(i + 1).drop_last() =~= s.take(i));
    } else {
        assert(s.take(i) =~= s);
    }
}

/// Reads the hexadecimal digits of `cs` from `from` on.
fn parse_hex_digits(cs: &Vec<char>, from: usize, max: u64) -> (r: Option<u64>)
    requires
        from <= cs@.len(),
    ensures
        match r {
            Some(v) => all_hex(cs@.skip(from as int)) && v == hex_run_value(cs@.skip(from as int))
                && v <= max,
            None => !all_hex(cs@.skip(from as int)) || hex_run_value(cs@.skip(from as int)) > max,
        },
{
    let n: usize = cs.len();
    let ghost body = cs@.skip(from as int);
    if from == n {
        return None;
    }
    let mut k: usize = from;
    while k < n
        invariant
            from <= k <= n == cs@.len(),
            body == cs@.skip(from as int),
            forall|j: int| 0 <= j < k - from ==> hex_digit_value(#[trigger] body[j]) is Some,
        decreases n - k,
    {
        if hex_value(cs[k]).is_none() {
            assert(hex_digit_value(body[k - from]) is None);
            return None;
        }
        k += 1;
    }
    let mut v: u64 = 0;
    let mut i: usize = from;
    assert(body.take(0) =~= Seq::<char>::empty());
    while i < n
        invariant
            from <= i <= n == cs@.len(),
            body == cs@.skip(from as int),
            forall|j: int| 0 <= j < body.len() ==> hex_digit_value(#[trigger] body[j]) is Some,
            v == hex_run_value(body.take(i - from)),
            v <= max,
        decreases n - i,
    {
        assert(cs@[i as int] == body[i - from]);
        let d: u8 = match hex_value(cs[i]) {
            Some(d) => d,
            None => 0,
        };
        let w: u128 = (v as u128) * 16 + d as u128;
        proof {
            assert(body.take(i - from + 1).drop_last() =~= body.take(i - from));
            assert(body.take(i - from + 1).last() == cs@[i as int]);
            assert(w == hex_run_value(body.take(i - from + 1)));
        }
        if w > max as u128 {
            proof {
                lemma_hex_value_grows(body, i - from + 1);
            }
            return None;
        }
        v = w as u64;
        i += 1;
    }
    assert(body.take(n - from) =~= body);
    Some(v)
}

/// Parses an unsigned hexadecimal number that is at most `max`.
pub fn parse_hex_u64(s: &str, max: u64) -> (r: Option<u64>)
    ensures
        match r {
            Some(v) => parse_hex_nat(s@, max as nat) == Some(v as nat),
            None => parse_hex_nat(s@, max as nat) is None,
        },
{
    let cs = chars_of(s);
    let from: usize = if cs.len() > 0 && cs[0] == '+' { 1 } else { 0 };
    assert(cs@.skip(0) =~= cs@);
    parse_hex_digits(&cs, from, max)
}

/// The number that `s` writes down in hexadecimal, with an optional sign, if it lies in
/// `min..=max`.
pub open spec fn parse_hex_int(s: Seq<char>, min: int, max: int) -> Option<int> {
    if s.len() > 0 && s[0] == '-' {
        if all_hex(s.skip(1)) && -(hex_run_value(s.skip(1)) as int) >= min {
            Some(-(hex_run_value(s.skip(1)) as int))
        } else {
            None
        }
    } else {
        match parse_hex_nat(s, max as nat) {
            Some(n) => Some(n as int),
            None => None,
        }
    }
}

/// Parses a signed hexadecimal number in `min..=max`.
pub fn parse_hex_i64(s: &str, min: i64, max: i64) -> (r: Option<i64>)
    requires
        min <= 0 <= max,
    ensures
        match r {
            Some(v) => parse_hex_int(s@, min as int, max as int) == Some(v as int),
            None => parse_hex_int(s@, min as int, max as int) is None,
        },
{
    let cs = chars_of(s);
    if cs.len() > 0 && cs[0] == '-' {
        let limit: u64 = (-(min as i128)) as u64;
        match parse_hex_digits(&cs, 1, limit) {
            Some(v) => Some((-(v as i128)) as i64),
            None => None,
        }
    } else {
        match parse_hex_u64(s, max as u64) {
            Some(v) => Some(v as i64),
            None => None,
        }
    }
}

// ---------------------------------------------------------------------------
// Case
// ---------------------------------------------------------------------------

/// The lowercase form of an ASCII letter; any other character unchanged.
pub open spec fn ascii_lower(c: char) -> char {
    if 'A' <= c <= 'Z' {
        (c as int + 32) as char
    } else {
        c
    }
}

/// The uppercase form of an ASCII letter; any other character unchanged.
pub open spec fn ascii_upper(c: char) -> char {
    if 'a' <= c <= 'z' {
        (c as int - 32) as char
    } else {
        c
    }
}

/// The Unicode lowercase form of a string, as `str::to_lowercase` gives it.
pub uninterp spec fn unicode_lower(s: Seq<char>) -> Seq<char>;

/// The Unicode uppercase form of a character, as `char::to_uppercase` gives it.
pub uninterp spec fn unicode_upper(c: char) -> Seq<char>;

/// The lowercase form of a string: letter by letter on ASCII text.
pub open spec fn lower(s: Seq<char>) -> Seq<char> {
    if is_ascii_chars(s) {
        s.map_values(|c: char| ascii_lower(c))
    } else {
        unicode_lower(s)
    }
}

/// The uppercase form of a character: one character for an ASCII character.
pub open spec fn upper(c: char) -> Seq<char> {
    if (c as u32) < 128 {
        seq![ascii_upper(c)]
    } else {
        unicode_upper(c)
    }
}

/// `str::to_lowercase`: the result is a function of the characters alone, and on ASCII text it
/// lowers each letter in place.
#[verifier::external_body]
pub(crate) fn to_lowercase(s: &str) -> (r: String)
    ensures
        !is_ascii_chars(s@) ==> r@ == unicode_lower(s@),
        is_ascii_chars(s@) ==> r@ == lower(s@),
{
    s.to_lowercase()
}

/// `char::to_uppercase`: the result is a function of the character alone, and an ASCII character
/// gives one character, the letter raised.
#[verifier::external_body]
pub(crate) fn to_uppercase(c: char) -> (r: Vec<char>)
    ensures
        (c as u32) >= 128 ==> r@ == unicode_upper(c),
        (c as u32) < 128 ==> r@ == upper(c),
{
    c.to_uppercase().collect()
}

/// Whether two strings are equal when ASCII letters of either case are the same.
pub open spec fn eq_ascii_case(a: Seq<char>, b: Seq<char>) -> bool {
    a.map_values(|c: char| ascii_lower(c)) == b.map_values(|c: char| ascii_lower(c))
}

/// Lowers one ASCII letter.
pub fn lower_char(c: char) -> (r: char)
    ensures
        r == ascii_lower(c),
{
    if 'A' <= c && c <= 'Z' {
        ((c as u8) + 32) as char
    } else {
        c
    }
}

/// Lowers every ASCII letter of a string.
pub fn to_ascii_lowercase(s: &str) -> (r: String)
    ensures
        r@ == s@.map_values(|c: char| ascii_lower(c)),
{
    let cs = chars_of(s);
    let mut out = String::new();
    let mut i: usize = 0;
    while i < cs.len()
        invariant
            i <= cs@.len(),
            cs@ == s@,
            out@ == cs@.take(i as int).map_values(|c: char| ascii_lower(c)),
        decreases cs@.len() - i,
    {
        out.push(lower_char(cs[i]));
        i += 1;
        assert(out@ =~= cs@.take(i as int).map_values(|c: char| ascii_lower(c)));
    }
    assert(cs@.take(i as int) =~= s@);
    out
}

/// Compares two strings without regard to ASCII case.
pub fn eq_ignore_ascii_case(a: &str, b: &str) -> (r: bool)
    ensures
        r == eq_ascii_case(a@, b@),
{
    let x = to_ascii_lowercase(a);
    let y = to_ascii_lowercase(b);
    str_eq(x.as_str(), y.as_str())
}

// ---------------------------------------------------------------------------
// Searching
// ---------------------------------------------------------------------------

/// Whether `s` begins with `prefix`.
pub open spec fn starts_with(s: Seq<char>, prefix: Seq<char>) -> bool {
    prefix.len() <= s.len() && s.take(prefix.len() as int) == prefix
}

/// Whether `s` ends with `suffix`.
pub open spec fn ends_with(s: Seq<char>, suffix: Seq<char>) -> bool {
    suffix.len() <= s.len() && s.skip(s.len() - suffix.len()) == suffix
}

/// Whether a string begins with `prefix`.
pub fn has_prefix(s: &str, prefix: &str) -> (r: bool)
    ensures
        r == starts_with(s@, prefix@),
{
    let n: usize = prefix.unicode_len();
    if s.unicode_len() < n {
        return false;
    }
    assert(s@.subrange(0, n as int) =~= s@.take(n as int));
    str_eq(s.substring_char(0, n), prefix)
}

/// Whether a string ends with `suffix`.
pub fn has_suffix(s: &str, suffix: &str) -> (r: bool)
    ensures
        r == ends_with(s@, suffix@),
{
    let n: usize = suffix.unicode_len();
    let m: usize = s.unicode_len();
    if m < n {
        return false;
    }
    assert(s@.subrange(m - n, m as int) =~= s@.skip(m - n));
    str_eq(s.substring_char(m - n, m), suffix)
}

/// What follows `prefix` in a string that begins with it.
pub fn strip_prefix<'a>(s: &'a str, prefix: &str) -> (r: Option<&'a str>)
    ensures
        match r {
            Some(t) => starts_with(s@, prefix@) && t@ == s@.skip(prefix@.len() as int),
            None => !starts_with(s@, prefix@),
        },
{
    if has_prefix(s, prefix) {
        let n: usize = prefix.unicode_len();
        let m: usize = s.unicode_len();
        assert(s@.subrange(n as int, m as int) =~= s@.skip(n as int));
        Some(s.substring_char(n, m))
    } else {
        None
    }
}

/// The first position of a character.
pub fn find_char(cs: &Vec<char>, from: usize, c: char) -> (r: Option<usize>)
    requires
        from <= cs@.len(),
    ensures
        match r {
            Some(i) => from <= i < cs@.len() && cs@[i as int] == c && forall|j: int|
                from <= j < i ==> cs@[j] != c,
            None => forall|j: int| from <= j < cs@.len() ==> cs@[j] != c,
        },
{
    let mut i: usize = from;
    while i < cs.len()
        invariant
            from <= i <= cs@.len(),
            forall|j: int| from <= j < i ==> cs@[j] != c,
        decreases cs@.len() - i,
    {
        if cs[i] == c {
            return Some(i);
        }
        i += 1;
    }
    None
}

// ---------------------------------------------------------------------------
// Bytes and quoting
// ---------------------------------------------------------------------------

/// The text of a byte string with invalid sequences replaced, as `String::from_utf8_lossy` gives it.
pub uninterp spec fn utf8_lossy(bytes: Seq<u8>) -> Seq<char>;

/// A string in quotes with special characters escaped, as the `{:?}` format gives it.
pub uninterp spec fn quoted(s: Seq<char>) -> Seq<char>;

/// The text of a byte string: valid UTF-8 as it stands, anything else with replacements.
pub open spec fn lossy(bytes: Seq<u8>) -> Seq<char> {
    if valid_utf8(bytes) {
        decode_utf8(bytes)
    } else {
        utf8_lossy(bytes)
    }
}

/// `String::from_utf8_lossy`: the result is a function of the bytes alone, and valid UTF-8 is
/// decoded as it stands.
#[verifier::external_body]
pub(crate) fn from_utf8_lossy(bytes: &[u8]) -> (r: String)
    ensures
        !valid_utf8(bytes@) ==> r@ == utf8_lossy(bytes@),
        valid_utf8(bytes@) ==> r@ == decode_utf8(bytes@),
{
    String::from_utf8_lossy(bytes).into_owned()
}

/// `std::str::from_utf8`: succeeds on valid UTF-8 and on nothing else, with the decoded text.
#[verifier::external_body]
pub(crate) fn from_utf8(bytes: &[u8]) -> (r: Option<&str>)
    ensures
        match r {
            Some(s) => valid_utf8(bytes@) && s@ == decode_utf8(bytes@),
            None => !valid_utf8(bytes@),
        },
{
    std::str::from_utf8(bytes).ok()
}

/// The `{:?}` format of a string: the result is a function of the characters alone.
#[verifier::external_body]
pub(crate) fn quote(s: &str) -> (r: String)
    ensures
        r@ == quoted(s@),
{
    format!("{s:?}")
}

/// The hexadecimal form of a number reads back as the number.
pub proof fn lemma_hex_round_trip(n: nat, width: nat, upper: bool)
    ensures
        all_hex(hex(n, width, upper)),
        hex_run_value(hex(n, width, upper)) == n,
        hex(n, width, upper).len() >= width,
        hex(n, width, upper)[0] != '+' && hex(n, width, upper)[0] != '-',
    decreases n + width,
{
    let h = hex(n, width, upper);
    if n < 16 && width <= 1 {
        let d = hex_char(n as int, upper);
        assert(hex_digit_value(d) == Some(n));
        assert(h.drop_last() =~= Seq::<char>::empty());
        assert(hex_run_value(h.drop_last()) == 0);
        assert(h[0] == d);
    } else {
        let w: nat = if width == 0 {
            0
        } else {
            (width - 1) as nat
        };
        lemma_hex_round_trip(n / 16, w, upper);
        let init = hex(n / 16, w, upper);
        let d = hex_char((n % 16) as int, upper);
        assert(hex_digit_value(d) == Some(n % 16));
        assert(h.drop_last() =~= init);
        assert(h.last() == d);
        assert forall|i: int| 0 <= i < h.len() implies hex_digit_value(#[trigger] h[i]) is Some by {
            if i < init.len() {
                assert(h[i] == init[i]);
            }
        }
        assert(h[0] == init[0]);
    }
}

// ---------------------------------------------------------------------------
// Laws
// ---------------------------------------------------------------------------

/// Only white space, or nothing at all.
pub open spec fn all_ws(s: Seq<char>) -> bool {
    forall|i: int| 0 <= i < s.len() ==> is_ws(#[trigger] s[i])
}

proof fn lemma_trim_start(s: Seq<char>) -> (a: Seq<char>)
    ensures
        all_ws(a),
        a + trim_start(s) == s,
        trim_start(s).len() > 0 ==> !is_ws(trim_start(s)[0]),
    decreases s.len(),
{
    if s.len() > 0 && is_ws(s[0]) {
        let a = lemma_trim_start(s.skip(1));
        let r = seq![s[0]] + a;
        assert forall|i: int| 0 <= i < r.len() implies is_ws(#[trigger] r[i]) by {
            if i > 0 {
                assert(r[i] == a[i - 1]);
            }
        }
        assert(r + trim_start(s) =~= seq![s[0]] + s.skip(1));
        assert(seq![s[0]] + s.skip(1) =~= s);
        r
    } else {
        assert(Seq::<char>::empty() + s =~= s);
        Seq::empty()
    }
}

proof fn lemma_trim_end(s: Seq<char>) -> (b: Seq<char>)
    ensures
        all_ws(b),
        trim_end(s) + b == s,
        trim_end(s).len() > 0 ==> !is_ws(trim_end(s).last()),
    decreases s.len(),
{
    if s.len() > 0 && is_ws(s.last()) {
        let b = lemma_trim_end(s.drop_last());
        let r = b.push(s.last());
        assert forall|i: int| 0 <= i < r.len() implies is_ws(#[trigger] r[i]) by {
            if i < b.len() {
                assert(r[i] == b[i]);
            }
        }
        assert(trim_end(s) + r =~= s.drop_last().push(s.last()));
        assert(s.drop_last().push(s.last()) =~= s);
        r
    } else {
        assert(s + Seq::<char>::empty() =~= s);
        Seq::empty()
    }
}

/// Trimming takes off white space at the ends, all of it, and nothing else.
pub proof fn law_trimming_takes_off_white_space(s: Seq<char>)
    ensures
        exists|a: Seq<char>, b: Seq<char>|
            all_ws(a) && all_ws(b) && #[trigger] (a + trimmed(s) + b) == s,
        trimmed(s).len() > 0 ==> !is_ws(trimmed(s)[0]) && !is_ws(trimmed(s).last()),
{
    let a = lemma_trim_start(s);
    let t = trim_start(s);
    let b = lemma_trim_end(t);
    assert(a + trimmed(s) + b =~= s);
    if trimmed(s).len() > 0 {
        assert(trimmed(s)[0] == t[0]);
    }
}

proof fn lemma_split_rebuilds(s: Seq<char>, sep: char)
    ensures
        split_on(s, sep).len() >= 1,
        joined(split_on(s, sep), seq![sep]) == s,
        forall|i: int|
            0 <= i < split_on(s, sep).len() ==> !(#[trigger] split_on(s, sep)[i]).contains(sep),
    decreases s.len(),
{
    let parts = split_on(s, sep);
    if s.len() == 0 {
        assert(parts[0] =~= s);
    } else {
        let init = split_on(s.drop_last(), sep);
        lemma_split_rebuilds(s.drop_last(), sep);
        assert(s.drop_last().push(s.last()) =~= s);
        if s.last() == sep {
            assert(parts.drop_last() =~= init);
            assert(joined(parts, seq![sep]) =~= s);
            assert forall|i: int| 0 <= i < parts.len() implies !(#[trigger] parts[i]).contains(
                sep,
            ) by {
                if i < init.len() {
                    assert(parts[i] == init[i]);
                }
            }
        } else {
            let last = init.last();
            assert(parts.last() == last.push(s.last()));
            assert(parts.drop_last() =~= init.drop_last());
            if init.len() == 1 {
                assert(joined(parts, seq![sep]) =~= s);
            } else {
                assert(joined(parts, seq![sep]) =~= joined(init, seq![sep]).push(s.last()));
            }
            assert forall|i: int| 0 <= i < parts.len() implies !(#[trigger] parts[i]).contains(
                sep,
            ) by {
                if i < init.len() - 1 {
                    assert(parts[i] == init[i]);
                } else {
                    assert(!init[init.len() - 1].contains(sep));
                    if parts[i].contains(sep) {
                        let k = parts[i].index_of(sep);
                        assert(k < last.len());
                        assert(last[k] == sep);
                    }
                }
            }
        }
    }
}

/// A split loses nothing and leaves no separator: its pieces, put together with the separator
/// between them, are the text, and none of them holds the separator.
pub proof fn law_split_pieces_rebuild_the_text(s: Seq<char>, sep: char)
    ensures
        joined(split_on(s, sep), seq![sep]) == s,
        forall|i: int|
            0 <= i < split_on(s, sep).len() ==> !(#[trigger] split_on(s, sep)[i]).contains(sep),
{
    lemma_split_rebuilds(s, sep);
}

proof fn lemma_words_gap(s: Seq<char>, gap: Seq<char>)
    requires
        all_ws(gap),
    ensures
        words_of(s + gap) == words_of(s),
    decreases gap.len(),
{
    if gap.len() == 0 {
        assert(s + gap =~= s);
    } else {
        assert(is_ws(gap[gap.len() - 1]));
        assert((s + gap).drop_last() =~= s + gap.drop_last());
        assert forall|i: int| 0 <= i < gap.drop_last().len() implies is_ws(
            #[trigger] gap.drop_last()[i],
        ) by {
            assert(gap.drop_last()[i] == gap[i]);
        }
        lemma_words_gap(s, gap.drop_last());
    }
}

proof fn lemma_words_more(s: Seq<char>, w: Seq<char>)
    requires
        w.len() > 0,
        forall|i: int| 0 <= i < w.len() ==> !is_ws(#[trigger] w[i]),
        s.len() == 0 || is_ws(s.last()),
    ensures
        words_of(s + w) == words_of(s).push(w),
    decreases w.len(),
{
    let t = s + w;
    let n = t.len();
    assert(t.last() == w.last());
    assert(!is_ws(w[w.len() - 1]));
    assert(t.drop_last() =~= s + w.drop_last());
    if w.len() == 1 {
        assert(s + w.drop_last() =~= s);
        assert(n == 1 || t[n - 2] == s.last());
        assert(seq![w.last()] =~= w);
    } else {
        assert forall|i: int| 0 <= i < w.drop_last().len() implies !is_ws(
            #[trigger] w.drop_last()[i],
        ) by {
            assert(w.drop_last()[i] == w[i]);
        }
        lemma_words_more(s, w.drop_last());
        let init = words_of(t.drop_last());
        assert(t[n - 2] == w[w.len() - 2]);
        assert(init.last() == w.drop_last());
        assert(w.drop_last().push(w.last()) =~= w);
        assert(init.update(init.len() - 1, w) =~= words_of(s).push(w));
    }
}

/// A line of two words with white space between them reads as these two words.
pub proof fn law_words_stand_between_white_space(a: Seq<char>, gap: Seq<char>, b: Seq<char>)
    requires
        a.len() > 0,
        b.len() > 0,
        gap.len() > 0,
        all_ws(gap),
        forall|i: int| 0 <= i < a.len() ==> !is_ws(#[trigger] a[i]),
        forall|i: int| 0 <= i < b.len() ==> !is_ws(#[trigger] b[i]),
    ensures
        words_of(a + gap + b) == seq![a, b],
{
    assert(Seq::<char>::empty() + a =~= a);
    lemma_words_more(Seq::empty(), a);
    lemma_words_gap(a, gap);
    assert((a + gap).last() == gap.last());
    assert(is_ws(gap[gap.len() - 1]));
    lemma_words_more(a + gap, b);
    assert(words_of(a + gap + b) =~= seq![a, b]);
}

/// A text of lines, each with its line break, reads as these lines; a last line needs none.
pub proof fn law_lines_end_at_line_breaks(s: Seq<char>, line: Seq<char>)
    requires
        !line.contains('\n'),
    ensures
        line.len() > 0 ==> lines_of(line) == seq![line],
        lines_of(line.push('\n')) == seq![line],
        lines_of(s.push('\n') + line.push('\n')) == split_on(s, '\n').push(line),
{
    lemma_split_single(line, '\n');
    let empty = Seq::<char>::empty();
    lemma_split_more(line, empty, '\n');
    assert(line.push('\n') + empty =~= line.push('\n'));
    assert(lines_of(line.push('\n')) =~= seq![line]);
    let t = s.push('\n') + line;
    lemma_split_more(s, line, '\n');
    lemma_split_more(t, empty, '\n');
    assert(t.push('\n') + empty =~= s.push('\n') + line.push('\n'));
    assert(lines_of(s.push('\n') + line.push('\n')) =~= split_on(s, '\n').push(line));
}

proof fn lemma_first_from(s: Seq<char>, c: char, i: int)
    requires
        0 <= i,
    ensures
        match first_from(s, c, i) {
            Some(k) => i <= k < s.len() && s[k] == c && forall|j: int|
                i <= j < k ==> #[trigger] s[j] != c,
            None => forall|j: int| i <= j < s.len() ==> #[trigger] s[j] != c,
        },
    decreases s.len() - i,
{
    if i < s.len() && s[i] != c {
        lemma_first_from(s, c, i + 1);
    }
}

proof fn lemma_last_before(s: Seq<char>, c: char, n: int)
    requires
        0 <= n <= s.len(),
    ensures
        match last_before(s, c, n) {
            Some(k) => 0 <= k < n && s[k] == c && forall|j: int|
                k < j < n ==> #[trigger] s[j] != c,
            None => forall|j: int| 0 <= j < n ==> #[trigger] s[j] != c,
        },
    decreases n,
{
    if n > 0 && s[n - 1] != c {
        lemma_last_before(s, c, n - 1);
    }
}

/// A cut at the first of a character: what stands before it does not hold the character, and
/// nothing is lost. There is no cut exactly where the character does not occur.
pub proof fn law_cut_at_the_first(s: Seq<char>, c: char)
    ensures
        match cut_first(s, c) {
            Some((a, b)) => a.push(c) + b == s && !a.contains(c),
            None => !s.contains(c),
        },
{
    lemma_first_from(s, c, 0);
    if let Some(k) = first_from(s, c, 0) {
        assert(s.take(k).push(c) + s.skip(k + 1) =~= s);
        if s.take(k).contains(c) {
            let j = s.take(k).index_of(c);
            assert(s[j] == c);
        }
    }
}

/// A cut at the last of a character: what stands after it does not hold the character, and nothing
/// is lost. There is no cut exactly where the character does not occur.
pub proof fn law_cut_at_the_last(s: Seq<char>, c: char)
    ensures
        match cut_last(s, c) {
            Some((a, b)) => a.push(c) + b == s && !b.contains(c),
            None => !s.contains(c),
        },
{
    lemma_last_before(s, c, s.len() as int);
    if let Some(k) = last_before(s, c, s.len() as int) {
        assert(s.take(k).push(c) + s.skip(k + 1) =~= s);
        if s.skip(k + 1).contains(c) {
            let j = s.skip(k + 1).index_of(c);
            assert(s[j + k + 1] == c);
        }
    }
}

/// Taking off a leading character takes off all of them and nothing else.
pub proof fn law_leading_characters_go(s: Seq<char>, c: char)
    ensures
        without_leading(s, c).len() <= s.len(),
        s.skip(s.len() - without_leading(s, c).len()) == without_leading(s, c),
        forall|i: int|
            0 <= i < s.len() - without_leading(s, c).len() ==> #[trigger] s[i] == c,
        without_leading(s, c).len() > 0 ==> without_leading(s, c)[0] != c,
    decreases s.len(),
{
    if s.len() > 0 && s[0] == c {
        let t = s.skip(1);
        law_leading_characters_go(t, c);
        let r = without_leading(t, c);
        assert(s.skip(s.len() - r.len()) =~= t.skip(t.len() - r.len()));
        assert forall|i: int| 0 <= i < s.len() - r.len() implies #[trigger] s[i] == c by {
            if i > 0 {
                assert(s[i] == t[i - 1]);
            }
        }
    } else {
        assert(s.skip(0) =~= s);
    }
}

/// Taking off a trailing character takes off all of them and nothing else.
pub proof fn law_trailing_characters_go(s: Seq<char>, c: char)
    ensures
        without_trailing(s, c).len() <= s.len(),
        s.take(without_trailing(s, c).len() as int) == without_trailing(s, c),
        forall|i: int| without_trailing(s, c).len() <= i < s.len() ==> #[trigger] s[i] == c,
        without_trailing(s, c).len() > 0 ==> without_trailing(s, c).last() != c,
    decreases s.len(),
{
    if s.len() > 0 && s.last() == c {
        let t = s.drop_last();
        law_trailing_characters_go(t, c);
        let r = without_trailing(t, c);
        assert(s.take(r.len() as int) =~= t.take(r.len() as int));
        assert forall|i: int| r.len() <= i < s.len() implies #[trigger] s[i] == c by {
            if i < t.len() {
                assert(s[i] == t[i]);
            }
        }
    } else {
        assert(s.take(s.len() as int) =~= s);
    }
}

proof fn lemma_pattern(s: Seq<char>, pat: Seq<char>, i: int)
    requires
        0 <= i,
    ensures
        match pattern_from(s, pat, i) {
            Some(k) => i <= k && k + pat.len() <= s.len() && starts_with(s.skip(k), pat)
                && forall|j: int| i <= j < k ==> !starts_with(#[trigger] s.skip(j), pat),
            None => forall|j: int|
                i <= j && j + pat.len() <= s.len() ==> !starts_with(#[trigger] s.skip(j), pat),
        },
    decreases s.len() + 1 - i,
{
    if i + pat.len() <= s.len() && !starts_with(s.skip(i), pat) {
        lemma_pattern(s, pat, i + 1);
    }
}

/// What follows a pattern is what stands behind its first occurrence; a text in which it does not
/// occur stays whole.
pub proof fn law_what_follows_a_pattern(s: Seq<char>, pat: Seq<char>, k: int)
    ensures
        0 <= k && k + pat.len() <= s.len() && starts_with(s.skip(k), pat) && (forall|j: int|
            0 <= j < k ==> !starts_with(#[trigger] s.skip(j), pat)) ==> after_pattern(s, pat)
            == s.skip(k + pat.len()),
        (forall|j: int|
            0 <= j && j + pat.len() <= s.len() ==> !starts_with(#[trigger] s.skip(j), pat))
            ==> after_pattern(s, pat) == s,
{
    lemma_pattern(s, pat, 0);
    if let Some(m) = pattern_from(s, pat, 0) {
        assert(starts_with(s.skip(m), pat));
        if 0 <= k && k + pat.len() <= s.len() && starts_with(s.skip(k), pat) && (forall|j: int|
            0 <= j < k ==> !starts_with(#[trigger] s.skip(j), pat)) {
            assert(m == k);
        }
    }
}

/// The decimal form of a number reads back as the number, the sign included.
pub proof fn law_numbers_read_back(n: int, min: int, max: int)
    requires
        min <= n <= max,
        0 <= max,
    ensures
        parse_int(dec_int(n), min, max) == Some(n),
        n >= 0 ==> parse_nat(dec(n as nat), max as nat) == Some(n as nat),
{
    if n < 0 {
        lemma_dec_round_trip((-n) as nat);
        assert(dec_int(n).skip(1) =~= dec((-n) as nat));
    } else {
        lemma_dec_round_trip(n as nat);
        assert(is_digit(dec(n as nat)[0]));
    }
}

/// A text that is no number, because a character of it is neither a digit nor a sign at its
/// beginning, is never read as one.
pub proof fn law_other_texts_are_no_numbers(s: Seq<char>, i: int, min: int, max: int)
    requires
        0 <= i < s.len(),
        !is_digit(s[i]),
        i > 0 || (s[0] != '+' && s[0] != '-'),
    ensures
        parse_int(s, min, max) is None,
        parse_nat(s, max as nat) is None,
{
    if i > 0 {
        assert(s.skip(1)[i - 1] == s[i]);
    }
}

/// ASCII text in lower case: capital letters become small ones, everything else stays.
pub proof fn law_ascii_text_in_lower_case(s: Seq<char>, i: int)
    requires
        is_ascii_chars(s),
        0 <= i < s.len(),
    ensures
        lower(s).len() == s.len(),
        'A' <= s[i] <= 'Z' ==> lower(s)[i] as int == s[i] as int + 32,
        !('A' <= s[i] <= 'Z') ==> lower(s)[i] == s[i],
{
}

/// Parts that are put together stand in order, with the separator between every two of them.
pub proof fn law_joined_parts_stand_in_order(parts: Seq<Seq<char>>, part: Seq<char>, sep: Seq<char>)
    ensures
        joined(Seq::empty(), sep).len() == 0,
        joined(seq![part], sep) == part,
        parts.len() > 0 ==> joined(parts.push(part), sep) == joined(parts, sep) + sep + part,
{
    assert(parts.push(part).drop_last() =~= parts);
}

/// A text begins with a prefix and ends with a suffix where something completes it.
pub proof fn law_completed_texts_begin_and_end_so(s: Seq<char>, t: Seq<char>)
    ensures
        starts_with(s + t, s),
        ends_with(s + t, t),
{
    let whole = s + t;
    assert(whole.take(s.len() as int) =~= s);
    assert(whole.skip(s.len() as int) =~= t);
}

/// What stands behind a prefix, or before a suffix, completes it.
pub proof fn law_prefixes_and_suffixes_are_completed(s: Seq<char>, part: Seq<char>)
    ensures
        starts_with(s, part) ==> s == part + s.skip(part.len() as int),
        ends_with(s, part) ==> s == s.take(s.len() - part.len()) + part,
{
    if starts_with(s, part) {
        assert(s =~= s.take(part.len() as int) + s.skip(part.len() as int));
    }
    if ends_with(s, part) {
        let k = s.len() - part.len();
        assert(s =~= s.take(k) + s.skip(k));
    }
}

/// A byte is shown with two digits in upper case behind `0x`.
pub proof fn law_bytes_are_shown_in_upper_case(b: u8)
    ensures
        hex_byte(b) == "0x"@ + seq![
            hex_char(b as int / 16, true),
            hex_char(b as int % 16, true),
        ],
        forall|d: int|
            10 <= d < 16 ==> 'A' <= #[trigger] hex_char(d, true) <= 'F' && 'a' <= hex_char(d, false)
                <= 'f',
{
    reveal_with_fuel(hex, 3);
    assert((b as nat) / 16 < 16);
    assert(hex(b as nat, 2, true) =~= seq![
        hex_char(b as int / 16, true),
        hex_char(b as int % 16, true),
    ]);
}

/// Text in UTF-8 reads back as it is.
pub proof fn law_utf8_reads_back(s: Seq<char>)
    ensures
        lossy(vstd::utf8::encode_utf8(s)) == s,
{
    vstd::utf8::encode_utf8_valid_utf8(s);
    vstd::utf8::encode_utf8_decode_utf8(s);
}

/// Upper and lower case of a letter undo one another; a character that is no letter stays as it is
/// in both.
pub proof fn law_cases_of_letters(c: char)
    ensures
        'a' <= c <= 'z' ==> 'A' <= ascii_upper(c) <= 'Z' && ascii_lower(ascii_upper(c)) == c,
        'A' <= c <= 'Z' ==> 'a' <= ascii_lower(c) <= 'z' && ascii_upper(ascii_lower(c)) == c,
        !('a' <= c <= 'z') ==> ascii_upper(c) == c,
        !('A' <= c <= 'Z') ==> ascii_lower(c) == c,
{
}

} // verus!
