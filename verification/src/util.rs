//! Small shared helpers: lengths of time in queries, and title case.

use crate::text;
use crate::time::Duration;
use vstd::prelude::*;

verus! {

// ---------------------------------------------------------------------------
// Lengths of time
// ---------------------------------------------------------------------------

/// What a [`Duration`] must stay below, in nanoseconds.
pub open spec fn wait_limit() -> nat {
    0x1_0000_0000_0000_0000 * 1_000_000_000
}

/// A character of a number: a decimal digit or the point.
pub open spec fn is_number_char(c: char) -> bool {
    text::is_digit(c) || c == '.'
}

/// The end of the run of characters that starts at `i`: of number characters where `number`, of
/// other characters otherwise.
pub open spec fn run_end(s: Seq<char>, i: int, number: bool) -> int
    decreases s.len() - i,
{
    if 0 <= i < s.len() && is_number_char(s[i]) == number {
        run_end(s, i + 1, number)
    } else {
        i
    }
}

/// No character but decimal digits.
pub open spec fn only_digits(s: Seq<char>) -> bool {
    forall|i: int| 0 <= i < s.len() ==> text::is_digit(#[trigger] s[i])
}

/// The digits on both sides of the point.
pub open spec fn number_parts(num: Seq<char>) -> (Seq<char>, Seq<char>) {
    match text::cut_first(num, '.') {
        Some((whole, fraction)) => (whole, fraction),
        None => (num, Seq::empty()),
    }
}

/// One digit at least, and one point at most.
pub open spec fn is_number(num: Seq<char>) -> bool {
    let (whole, fraction) = number_parts(num);
    only_digits(whole) && only_digits(fraction) && whole.len() + fraction.len() > 0
}

/// The first eighteen digits of a fraction, filled up with zeros.
pub open spec fn fraction_digits(s: Seq<char>) -> Seq<char> {
    Seq::new(
        18,
        |i: int|
            if i < s.len() {
                s[i]
            } else {
                '0'
            },
    )
}

/// `num` times `unit` seconds, in nanoseconds, rounded to the nearest. A fraction counts up to its
/// eighteenth digit.
pub open spec fn scaled(num: Seq<char>, unit: nat) -> nat {
    let (whole, fraction) = number_parts(num);
    text::dec_value(whole) * unit * 1_000_000_000 + (text::dec_value(fraction_digits(fraction))
        * unit + 500_000_000) / 1_000_000_000
}

/// The text of the error on an amount.
pub open spec fn amount_error(num: Seq<char>, unit: Seq<char>) -> Seq<char> {
    "invalid duration "@ + num + unit
}

/// The nanoseconds of a number with a unit. Milliseconds are cut to whole ones; seconds are the
/// unit where none is given.
pub open spec fn amount_of(num: Seq<char>, unit: Seq<char>) -> Result<nat, Seq<char>> {
    if !is_number(num) {
        Err(amount_error(num, unit))
    } else if unit == "ms"@ {
        let whole = text::dec_value(number_parts(num).0);
        Ok(
            (if whole <= u64::MAX {
                whole
            } else {
                u64::MAX as nat
            }) * 1_000_000,
        )
    } else if unit == "s"@ || unit == ""@ || unit == "m"@ {
        let n = scaled(
            num,
            if unit == "m"@ {
                60
            } else {
                1
            },
        );
        if n < wait_limit() {
            Ok(n)
        } else {
            Err(amount_error(num, unit))
        }
    } else {
        Err("unknown duration unit "@ + text::quoted(unit))
    }
}

/// The text of the error on a whole query value.
pub open spec fn wait_error(t: Seq<char>) -> Seq<char> {
    "invalid duration "@ + text::quoted(t)
}

/// The sum of the amounts in `t` from position `i` on and of `total`. Every number has a unit
/// after it, but for a number that stands alone.
pub open spec fn amounts_from(t: Seq<char>, i: int, total: nat) -> Result<nat, Seq<char>>
    decreases t.len() - i,
{
    if i < 0 || i >= t.len() {
        Ok(total)
    } else {
        let mid = run_end(t, i, true);
        let end = run_end(t, mid, false);
        if !(i < mid <= end <= t.len()) || (mid == end && i > 0) {
            Err(wait_error(t))
        } else {
            match amount_of(t.subrange(i, mid), t.subrange(mid, end)) {
                Err(e) => Err(e),
                Ok(a) => if total + a < wait_limit() {
                    amounts_from(t, end, total + a)
                } else {
                    Err(wait_error(t))
                },
            }
        }
    }
}

/// The nanoseconds that a query value stands for.
pub open spec fn wait_of(s: Seq<char>) -> Result<nat, Seq<char>> {
    let t = text::trimmed(s);
    match text::parse_nat(t, u64::MAX as nat) {
        Some(n) => Ok(n * 1_000_000_000),
        None => amounts_from(t, 0, 0),
    }
}

proof fn lemma_run_end(s: Seq<char>, i: int, number: bool)
    requires
        0 <= i <= s.len(),
    ensures
        i <= run_end(s, i, number) <= s.len(),
    decreases s.len() - i,
{
    if i < s.len() && is_number_char(s[i]) == number {
        lemma_run_end(s, i + 1, number);
    }
}

/// Finds the end of a run of characters.
fn skip_run(cs: &Vec<char>, from: usize, number: bool) -> (r: usize)
    requires
        from <= cs@.len(),
    ensures
        from <= r <= cs@.len(),
        r == run_end(cs@, from as int, number),
{
    let mut i: usize = from;
    while i < cs.len() && ((('0' <= cs[i] && cs[i] <= '9') || cs[i] == '.') == number)
        invariant
            from <= i <= cs@.len(),
            run_end(cs@, from as int, number) == run_end(cs@, i as int, number),
        decreases cs@.len() - i,
    {
        i += 1;
    }
    i
}

/// Whether there is nothing but decimal digits.
fn is_digits(s: &str) -> (r: bool)
    ensures
        r == only_digits(s@),
{
    let cs = text::chars_of(s);
    let mut i: usize = 0;
    while i < cs.len()
        invariant
            i <= cs@.len(),
            cs@ == s@,
            forall|j: int| 0 <= j < i ==> text::is_digit(#[trigger] s@[j]),
        decreases cs@.len() - i,
    {
        if !('0' <= cs[i] && cs[i] <= '9') {
            assert(!text::is_digit(s@[i as int]));
            return false;
        }
        i += 1;
    }
    true
}

/// The value of a run of digits; `None` where it is too large.
fn digits_value(s: &str) -> (r: Option<u64>)
    requires
        only_digits(s@),
    ensures
        match r {
            Some(v) => v == text::dec_value(s@),
            None => text::dec_value(s@) > u64::MAX,
        },
{
    if s.is_empty() {
        return Some(0);
    }
    assert(text::is_digit(s@[0]));
    text::parse_u64(s, u64::MAX)
}

/// The value of the first eighteen digits of a fraction.
fn fraction_value(s: &str) -> (r: u64)
    requires
        only_digits(s@),
    ensures
        r == text::dec_value(fraction_digits(s@)),
        r < 1_000_000_000_000_000_000,
{
    let cs = text::chars_of(s);
    let ghost all = fraction_digits(s@);
    let mut v: u64 = 0;
    let mut left: u64 = 1_000_000_000_000_000_000;
    let mut i: usize = 0;
    proof {
        assert(all.take(0) =~= Seq::<char>::empty());
        reveal_with_fuel(power_of_ten, 19);
    }
    while i < 18
        invariant
            i <= 18,
            cs@ == s@,
            only_digits(s@),
            all == fraction_digits(s@),
            v == text::dec_value(all.take(i as int)),
            (v + 1) * left <= 1_000_000_000_000_000_000,
            left == power_of_ten(18 - i),
        decreases 18 - i,
    {
        let d: u64 = if i < cs.len() {
            assert(text::is_digit(s@[i as int]));
            (cs[i] as u32 - 48) as u64
        } else {
            0
        };
        proof {
            assert(all.take(i as int + 1).drop_last() =~= all.take(i as int));
            assert(all.take(i as int + 1).last() == all[i as int]);
            assert(power_of_ten(18 - i) == 10 * power_of_ten(17 - i));
            lemma_power_of_ten(17 - i);
            assert((10 * v + d + 1) * (left / 10) <= (v + 1) * left) by (nonlinear_arith)
                requires
                    d <= 9,
                    left % 10 == 0,
                    left >= 0,
                    v >= 0,
            ;
            assert(10 * v + d < 1_000_000_000_000_000_000) by (nonlinear_arith)
                requires
                    (10 * v + d + 1) * (left / 10) <= 1_000_000_000_000_000_000,
                    left / 10 >= 1,
            ;
        }
        v = v * 10 + d;
        left = left / 10;
        i += 1;
    }
    proof {
        assert(all.take(18) =~= all);
        reveal_with_fuel(power_of_ten, 1);
    }
    v
}

/// Ten to the power `n`.
spec fn power_of_ten(n: int) -> nat
    decreases n,
{
    if n <= 0 {
        1
    } else {
        10 * power_of_ten(n - 1)
    }
}

proof fn lemma_power_of_ten(n: int)
    ensures
        power_of_ten(n) >= 1,
    decreases n,
{
    if n > 0 {
        lemma_power_of_ten(n - 1);
    }
}

/// The length of time of a number with a unit.
fn apply_unit(num: &str, unit: &str) -> (r: Result<Duration, String>)
    ensures
        match r {
            Ok(d) => d.wf() && amount_of(num@, unit@) == Ok::<nat, Seq<char>>(d@),
            Err(e) => amount_of(num@, unit@) == Err::<nat, Seq<char>>(e@),
        },
{
    let (whole, fraction) = match text::split_once(num, '.') {
        Some((w, f)) => (w, f),
        None => (num, ""),
    };
    proof {
        reveal_strlit("");
        assert(""@ =~= Seq::<char>::empty());
        assert((whole@, fraction@) == number_parts(num@));
        assert(whole@.len() == 0 ==> whole@ =~= Seq::<char>::empty());
    }
    if !is_digits(whole) || !is_digits(fraction) || (whole.is_empty() && fraction.is_empty()) {
        return Err(text::concat3("invalid duration ", num, unit));
    }
    let value = digits_value(whole);
    if text::str_eq(unit, "ms") {
        return Ok(
            Duration::from_millis(
                match value {
                    Some(v) => v,
                    None => u64::MAX,
                },
            ),
        );
    }
    let per: u64 = if text::str_eq(unit, "s") || text::str_eq(unit, "") {
        1
    } else if text::str_eq(unit, "m") {
        60
    } else {
        return Err(text::concat("unknown duration unit ", text::quote(unit).as_str()));
    };
    proof {
        reveal_strlit("m");
        reveal_strlit("s");
        assert("m"@[0] == 'm' && "s"@[0] == 's');
    }
    let part: u64 = fraction_value(fraction);
    assert(part * per <= 60_000_000_000_000_000_000) by (nonlinear_arith)
        requires
            part < 1_000_000_000_000_000_000,
            per <= 60,
    ;
    let nanos: u128 = ((part as u128) * (per as u128) + 500_000_000) / 1_000_000_000;
    if let Some(v) = value {
        assert(v * per <= 60 * u64::MAX) by (nonlinear_arith)
            requires
                v <= u64::MAX,
                per <= 60,
        ;
        let secs: u128 = (v as u128) * (per as u128) + nanos / 1_000_000_000;
        proof {
            assert(scaled(num@, per as nat) == secs * 1_000_000_000 + nanos % 1_000_000_000)
                by (nonlinear_arith)
                requires
                    scaled(num@, per as nat) == v * per * 1_000_000_000 + nanos,
                    secs == v * per + nanos / 1_000_000_000,
                    nanos >= 0,
            ;
        }
        if secs <= u64::MAX as u128 {
            return Ok(Duration { secs: secs as u64, nanos: (nanos % 1_000_000_000) as u32 });
        }
    } else {
        proof {
            assert(scaled(num@, per as nat) >= wait_limit()) by (nonlinear_arith)
                requires
                    scaled(num@, per as nat) >= text::dec_value(whole@) * per * 1_000_000_000,
                    text::dec_value(whole@) >= 0x1_0000_0000_0000_0000,
                    per >= 1,
            ;
        }
    }
    Err(text::concat3("invalid duration ", num, unit))
}

/// Parses a query `wait` value: plain seconds ("5") or a duration ("5s", "500ms", "1m30s"). Every
/// letter run must follow a number. Out of range counts as malformed.
pub fn parse_wait(s: &str) -> (r: Result<Duration, String>)
    ensures
        match r {
            Ok(d) => d.wf() && wait_of(s@) == Ok::<nat, Seq<char>>(d@),
            Err(e) => wait_of(s@) == Err::<nat, Seq<char>>(e@),
        },
{
    let t = text::trim(s);
    if let Some(n) = text::parse_u64(t, u64::MAX) {
        return Ok(Duration::from_secs(n));
    }
    let cs = text::chars_of(t);
    let mut total = Duration::zero();
    let mut i: usize = 0;
    while i < cs.len()
        invariant
            i <= cs@.len(),
            cs@ == t@,
            t@ == text::trimmed(s@),
            total.wf(),
            wait_of(s@) == amounts_from(t@, i as int, total@),
        decreases cs@.len() - i,
    {
        let mid: usize = skip_run(&cs, i, true);
        let end: usize = skip_run(&cs, mid, false);
        if i == mid || (mid == end && i > 0) {
            return Err(text::concat("invalid duration ", text::quote(t).as_str()));
        }
        let num = text::string_of(&cs, i, mid);
        let unit = text::string_of(&cs, mid, end);
        match apply_unit(num.as_str(), unit.as_str()) {
            Err(e) => {
                return Err(e);
            },
            Ok(d) => {
                let nanos: u32 = total.nanos + d.nanos;
                let carry: u64 = if nanos >= 1_000_000_000 { 1 } else { 0 };
                let secs: u128 = (total.secs as u128) + (d.secs as u128) + (carry as u128);
                if secs > u64::MAX as u128 {
                    return Err(text::concat("invalid duration ", text::quote(t).as_str()));
                }
                total = Duration {
                    secs: secs as u64,
                    nanos: if carry == 1 { nanos - 1_000_000_000 } else { nanos },
                };
            },
        }
        i = end;
    }
    Ok(total)
}

// ---------------------------------------------------------------------------
// Title case
// ---------------------------------------------------------------------------

/// Whether the character after `c` starts a word.
pub open spec fn ends_word(c: char) -> bool {
    text::is_ws(c) || c == '-' || c == '_'
}

/// `s` with the first character of each word raised.
pub open spec fn title_cased(s: Seq<char>) -> Seq<char>
    decreases s.len(),
{
    if s.len() == 0 {
        Seq::empty()
    } else {
        let c = s.last();
        title_cased(s.drop_last()) + if s.len() == 1 || ends_word(s[s.len() - 2]) {
            text::upper(c)
        } else {
            seq![c]
        }
    }
}

/// Raises the first character of each word.
pub fn title_case(s: &str) -> (r: String)
    ensures
        r@ == title_cased(s@),
{
    let cs = text::chars_of(s);
    let mut out = String::new();
    let mut cap = true;
    let mut i: usize = 0;
    assert(cs@.take(0) =~= Seq::<char>::empty());
    while i < cs.len()
        invariant
            i <= cs@.len(),
            out@ == title_cased(cs@.take(i as int)),
            cap == (i == 0 || ends_word(cs@[i - 1])),
        decreases cs@.len() - i,
    {
        let c = cs[i];
        proof {
            let next = cs@.take(i as int + 1);
            assert(next.drop_last() =~= cs@.take(i as int));
            assert(next.last() == c);
            assert(i > 0 ==> next[next.len() - 2] == cs@[i - 1]);
        }
        if cap {
            let raised = text::to_uppercase(c);
            let upper = text::string_of(&raised, 0, raised.len());
            out = text::concat(out.as_str(), upper.as_str());
            assert(raised@.subrange(0, raised@.len() as int) =~= raised@);
        } else {
            let ghost before = out@;
            out.push(c);
            assert(out@ =~= before + seq![c]);
        }
        cap = text::is_whitespace(c) || c == '-' || c == '_';
        i += 1;
    }
    assert(cs@.take(i as int) =~= s@);
    out
}

// ---------------------------------------------------------------------------
// Laws
// ---------------------------------------------------------------------------

proof fn lemma_run_ends_at(s: Seq<char>, i: int, k: int, number: bool)
    requires
        0 <= i <= k <= s.len(),
        forall|j: int| i <= j < k ==> is_number_char(#[trigger] s[j]) == number,
        k < s.len() ==> is_number_char(s[k]) != number,
    ensures
        run_end(s, i, number) == k,
    decreases k - i,
{
    if i < k {
        assert(is_number_char(s[i]) == number);
        lemma_run_ends_at(s, i + 1, k, number);
    }
}

proof fn lemma_whole_number(n: nat)
    ensures
        is_number(text::dec(n)),
        number_parts(text::dec(n)) == (text::dec(n), Seq::<char>::empty()),
        forall|unit: nat| #[trigger] scaled(text::dec(n), unit) == n * unit * 1_000_000_000,
{
    text::lemma_dec_round_trip(n);
    let d = text::dec(n);
    text::law_cut_at_the_first(d, '.');
    if let Some((a, b)) = text::cut_first(d, '.') {
        assert((a.push('.') + b)[a.len() as int] == '.');
        assert(text::is_digit(d[a.len() as int]));
    }
    let zeros = fraction_digits(Seq::empty());
    lemma_zeros(zeros);
    assert forall|unit: nat| #[trigger] scaled(d, unit) == n * unit * 1_000_000_000 by {
        assert(text::dec_value(zeros) * unit == 0) by (nonlinear_arith)
            requires
                text::dec_value(zeros) == 0,
        ;
    }
}

proof fn lemma_zeros(s: Seq<char>)
    requires
        forall|i: int| 0 <= i < s.len() ==> #[trigger] s[i] == '0',
    ensures
        text::dec_value(s) == 0,
    decreases s.len(),
{
    if s.len() > 0 {
        assert forall|i: int| 0 <= i < s.drop_last().len() implies #[trigger] s.drop_last()[i]
            == '0' by {
            assert(s.drop_last()[i] == s[i]);
        }
        lemma_zeros(s.drop_last());
        assert(s[s.len() - 1] == '0');
    }
}

/// The nanoseconds of a unit of time.
pub open spec fn unit_nanos(unit: Seq<char>) -> nat {
    if unit == "ms"@ {
        1_000_000
    } else if unit == "m"@ {
        60_000_000_000
    } else {
        1_000_000_000
    }
}

proof fn lemma_units()
    ensures
        "ms"@ == seq!['m', 's'],
        "s"@ == seq!['s'],
        "m"@ == seq!['m'],
        ""@ == Seq::<char>::empty(),
{
    reveal_strlit("ms");
    reveal_strlit("s");
    reveal_strlit("m");
    reveal_strlit("");
    assert("ms"@ =~= seq!['m', 's']);
    assert("s"@ =~= seq!['s']);
    assert("m"@ =~= seq!['m']);
    assert(""@ =~= Seq::<char>::empty());
}

proof fn lemma_product_bound(n: nat, unit: Seq<char>)
    requires
        n <= u32::MAX,
    ensures
        0 <= n * unit_nanos(unit) <= 1_000_000_000_000_000_000_000,
{
    assert(0 <= n * unit_nanos(unit) <= 1_000_000_000_000_000_000_000) by (nonlinear_arith)
        requires
            0 <= n <= 0xffff_ffff,
            0 <= unit_nanos(unit) <= 60_000_000_000,
    ;
}

proof fn lemma_one_amount(t: Seq<char>, i: int, n: nat, unit: Seq<char>, total: nat)
    requires
        unit == "ms"@ || unit == "s"@ || unit == "m"@,
        0 <= i,
        i + text::dec(n).len() + unit.len() <= t.len(),
        t.subrange(i, i + text::dec(n).len() as int) == text::dec(n),
        t.subrange(
            i + text::dec(n).len() as int,
            i + text::dec(n).len() as int + unit.len() as int,
        ) == unit,
        i + text::dec(n).len() + unit.len() < t.len() ==> text::is_digit(
            t[i + text::dec(n).len() as int + unit.len() as int],
        ),
        n <= u32::MAX,
        total <= 1_000_000_000_000_000_000_000,
    ensures
        amounts_from(t, i, total) == amounts_from(
            t,
            i + text::dec(n).len() as int + unit.len() as int,
            (total + n * unit_nanos(unit)) as nat,
        ),
{
    lemma_units();
    let d = text::dec(n);
    let mid = i + d.len() as int;
    let end = mid + unit.len() as int;
    text::lemma_dec_round_trip(n);
    lemma_whole_number(n);
    assert forall|j: int| i <= j < mid implies is_number_char(#[trigger] t[j]) by {
        assert(t[j] == t.subrange(i, mid)[j - i]);
        assert(text::is_digit(d[j - i]));
    }
    assert forall|j: int| mid <= j < end implies !is_number_char(#[trigger] t[j]) by {
        assert(t[j] == t.subrange(mid, end)[j - mid]);
    }
    lemma_run_ends_at(t, i, mid, true);
    lemma_run_ends_at(t, mid, end, false);
    assert(amount_of(d, unit) == Ok::<nat, Seq<char>>((n * unit_nanos(unit)) as nat)) by {
        assert(text::dec_value(d) == n);
        if unit == "m"@ {
            assert(scaled(d, 60) == n * 60 * 1_000_000_000);
            assert("m"@.len() != "ms"@.len());
        } else if unit == "s"@ {
            assert(scaled(d, 1) == n * 1 * 1_000_000_000);
            assert("s"@.len() != "ms"@.len());
            assert("s"@[0] != "m"@[0]);
        }
    }
    lemma_product_bound(n, unit);
    let a = (n * unit_nanos(unit)) as nat;
    assert(total + a < wait_limit());
    assert(run_end(t, i, true) == mid);
    assert(run_end(t, mid, false) == end);
    assert(amount_of(t.subrange(i, mid), t.subrange(mid, end)) == Ok::<nat, Seq<char>>(a));
}

proof fn lemma_not_a_number(t: Seq<char>, i: int)
    requires
        0 < i < t.len(),
        !text::is_digit(t[i]),
        !text::is_ws(t[0]),
        !text::is_ws(t.last()),
    ensures
        wait_of(t) == amounts_from(t, 0, 0),
{
    assert(text::trimmed(t) == t);
    assert(t.skip(1)[i - 1] == t[i]);
}

/// A bare number is a time in seconds.
pub proof fn law_bare_numbers_are_seconds(n: u64)
    ensures
        wait_of(text::dec(n as nat)) == Ok::<nat, Seq<char>>((n * 1_000_000_000) as nat),
{
    let d = text::dec(n as nat);
    text::lemma_dec_round_trip(n as nat);
    assert(text::is_digit(d[0]));
    assert(text::is_digit(d[d.len() - 1]));
    assert(text::trimmed(d) == d);
}

/// A number with a unit is that many milliseconds, seconds or minutes.
pub proof fn law_units_count(n: u32, unit: Seq<char>)
    requires
        unit == "ms"@ || unit == "s"@ || unit == "m"@,
    ensures
        wait_of(text::dec(n as nat) + unit) == Ok::<nat, Seq<char>>(
            (n * (if unit == "ms"@ {
                1_000_000int
            } else if unit == "s"@ {
                1_000_000_000int
            } else {
                60_000_000_000int
            })) as nat,
        ),
{
    lemma_units();
    let d = text::dec(n as nat);
    let t = d + unit;
    text::lemma_dec_round_trip(n as nat);
    assert(text::is_digit(d[0]));
    assert(t[0] == d[0]);
    assert(t.last() == unit.last());
    assert(t[d.len() as int] == unit[0]);
    lemma_not_a_number(t, d.len() as int);
    assert(t.subrange(0, d.len() as int) =~= d);
    assert(t.subrange(d.len() as int, d.len() as int + unit.len() as int) =~= unit);
    lemma_one_amount(t, 0, n as nat, unit, 0);
    assert("s"@[0] != "m"@[0] && "s"@.len() != "ms"@.len() && "m"@.len() != "ms"@.len());
}

/// Amounts that stand one behind the other add up: minutes and seconds, seconds and milliseconds.
pub proof fn law_amounts_add_up(a: u32, u: Seq<char>, b: u32, w: Seq<char>)
    requires
        u == "ms"@ || u == "s"@ || u == "m"@,
        w == "ms"@ || w == "s"@ || w == "m"@,
    ensures
        wait_of(text::dec(a as nat) + u + text::dec(b as nat) + w) == Ok::<nat, Seq<char>>(
            (a * unit_nanos(u) + b * unit_nanos(w)) as nat,
        ),
        wait_of(text::dec(a as nat) + u) == Ok::<nat, Seq<char>>((a * unit_nanos(u)) as nat),
{
    lemma_unit_nanos(u);
    law_units_count(a, u);
    let d = text::dec(a as nat);
    let e = text::dec(b as nat);
    let t = d + u + e + w;
    let i = d.len() as int + u.len() as int;
    lemma_amounts_text(a as nat, u, b as nat, w);
    lemma_not_a_number(t, d.len() as int);
    lemma_one_amount(t, 0, a as nat, u, 0);
    lemma_product_bound(a as nat, u);
    lemma_product_bound(b as nat, w);
    lemma_one_amount(t, i, b as nat, w, (a * unit_nanos(u)) as nat);
    assert(t.len() == i + e.len() + w.len());
}

proof fn lemma_unit_nanos(unit: Seq<char>)
    requires
        unit == "ms"@ || unit == "s"@ || unit == "m"@,
    ensures
        unit_nanos(unit) == (if unit == "ms"@ {
            1_000_000nat
        } else if unit == "s"@ {
            1_000_000_000
        } else {
            60_000_000_000
        }),
{
    lemma_units();
    assert("s"@[0] != "m"@[0] && "s"@.len() != "ms"@.len() && "m"@.len() != "ms"@.len());
}

proof fn lemma_amounts_text(a: nat, u: Seq<char>, b: nat, w: Seq<char>)
    requires
        u == "ms"@ || u == "s"@ || u == "m"@,
        w == "ms"@ || w == "s"@ || w == "m"@,
    ensures
        ({
            let d = text::dec(a);
            let e = text::dec(b);
            let t = d + u + e + w;
            let i = d.len() as int + u.len() as int;
            &&& 0 < d.len() < t.len()
            &&& !text::is_ws(t[0]) && !text::is_ws(t.last()) && !text::is_digit(t[d.len() as int])
            &&& t.subrange(0, d.len() as int) == d
            &&& t.subrange(d.len() as int, i) == u
            &&& text::is_digit(t[i])
            &&& t.subrange(i, i + e.len() as int) == e
            &&& t.subrange(i + e.len() as int, i + e.len() as int + w.len() as int) == w
        }),
{
    lemma_units();
    let d = text::dec(a);
    let e = text::dec(b);
    let t = d + u + e + w;
    let i = d.len() as int + u.len() as int;
    text::lemma_dec_round_trip(a);
    text::lemma_dec_round_trip(b);
    assert(text::is_digit(d[0]));
    assert(text::is_digit(e[0]));
    assert(t[0] == d[0]);
    assert(t.last() == w.last());
    assert(t[d.len() as int] == u[0]);
    assert(t.subrange(0, d.len() as int) =~= d);
    assert(t.subrange(d.len() as int, i) =~= u);
    assert(t[i] == e[0]);
    assert(t.subrange(i, i + e.len() as int) =~= e);
    assert(t.subrange(i + e.len() as int, i + e.len() as int + w.len() as int) =~= w);
}

/// A text in title case: the first letter of every word is raised, and everything else stays.
pub proof fn law_words_begin_with_capitals(s: Seq<char>, i: int)
    requires
        vstd::utf8::is_ascii_chars(s),
        0 <= i < s.len(),
    ensures
        title_cased(s).len() == s.len(),
        i == 0 || ends_word(s[i - 1]) ==> title_cased(s)[i] == text::ascii_upper(s[i]),
        i > 0 && !ends_word(s[i - 1]) ==> title_cased(s)[i] == s[i],
    decreases s.len(),
{
    let init = s.drop_last();
    assert forall|j: int| 0 <= j < init.len() implies (init[j] as u32) < 128 by {
        assert(init[j] == s[j]);
        assert((s[j] as u32) < 128);
    }
    assert(vstd::utf8::is_ascii_chars(init));
    assert((s[s.len() - 1] as u32) < 128);
    if init.len() == 0 {
        assert(title_cased(init).len() == 0);
    } else if i < init.len() {
        law_words_begin_with_capitals(init, i);
    } else {
        law_words_begin_with_capitals(init, 0);
    }
}

} // verus!
