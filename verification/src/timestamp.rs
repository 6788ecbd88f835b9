use vstd::prelude::*;

verus! {

/// A local date and time as the clock gives it, in plain fields.
#[derive(Clone, Copy, Debug, PartialEq, Eq, Structural)]
pub struct LocalTime {
    pub year: i32,
    pub month: u32,
    pub day: u32,
    pub hour: u32,
    pub minute: u32,
    pub second: u32,
}

/// The character of a decimal digit.
pub open spec fn digit_char(d: nat) -> char {
    if d == 0 {
        '0'
    } else if d == 1 {
        '1'
    } else if d == 2 {
        '2'
    } else if d == 3 {
        '3'
    } else if d == 4 {
        '4'
    } else if d == 5 {
        '5'
    } else if d == 6 {
        '6'
    } else if d == 7 {
        '7'
    } else if d == 8 {
        '8'
    } else {
        '9'
    }
}

/// The decimal digits of `n`, most significant first, with no leading zero
/// (`0` is the single digit `0`).
pub open spec fn decimal_digits(n: nat) -> Seq<char>
    decreases n,
{
    if n < 10 {
        seq![digit_char(n)]
    } else {
        decimal_digits(n / 10).push(digit_char(n % 10))
    }
}

/// The decimal digits of `n`, with zeros in front to make at least `width`
/// characters.
pub open spec fn zero_padded(n: nat, width: nat) -> Seq<char> {
    let d = decimal_digits(n);
    if d.len() >= width {
        d
    } else {
        Seq::new((width - d.len()) as nat, |i: int| '0') + d
    }
}

/// The year as `%Y` writes it: zero-padded to four digits within 0..=9999,
/// else its sign (`+` or `-`) then its magnitude zero-padded to four digits.
pub open spec fn year_text(year: int) -> Seq<char> {
    if 0 <= year <= 9999 {
        zero_padded(year as nat, 4)
    } else if year < 0 {
        seq!['-'] + zero_padded((-year) as nat, 4)
    } else {
        seq!['+'] + zero_padded(year as nat, 4)
    }
}

/// `%Y-%m-%d %H:%M:%S`: the year as `year_text` writes it, then month, day,
/// hour, minute and second zero-padded to two digits, joined by `-`, ` ` and
/// `:`.
pub open spec fn spec_timestamp_text(t: LocalTime) -> Seq<char> {
    year_text(t.year as int) + seq!['-'] + zero_padded(t.month as nat, 2) + seq!['-']
        + zero_padded(t.day as nat, 2) + seq![' '] + zero_padded(t.hour as nat, 2) + seq![':']
        + zero_padded(t.minute as nat, 2) + seq![':'] + zero_padded(t.second as nat, 2)
}

/// The number that a string of decimal digit characters spells, most
/// significant first.
pub open spec fn decimal_value(s: Seq<char>) -> int
    decreases s.len(),
{
    if s.len() == 0 {
        0
    } else {
        decimal_value(s.drop_last()) * 10 + (s.last() as int - '0' as int)
    }
}

/// Every character is one of `0` to `9`.
pub open spec fn all_decimal(s: Seq<char>) -> bool {
    forall|i: int| 0 <= i < s.len() ==> '0' <= #[trigger] s[i] <= '9'
}

proof fn lemma_digit_char(d: nat)
    requires
        d < 10,
    ensures
        digit_char(d) as int - '0' as int == d,
        '0' <= digit_char(d) <= '9',
{
}

proof fn lemma_decimal_digits_value(n: nat)
    ensures
        decimal_value(decimal_digits(n)) == n,
        all_decimal(decimal_digits(n)),
        decimal_digits(n).len() >= 1,
    decreases n,
{
    if n < 10 {
        lemma_digit_char(n);
        assert(decimal_digits(n).drop_last() =~= Seq::<char>::empty());
        assert(decimal_digits(n).last() == digit_char(n));
        assert(decimal_value(Seq::<char>::empty()) == 0);
    } else {
        lemma_decimal_digits_value(n / 10);
        lemma_digit_char(n % 10);
        let d = decimal_digits(n);
        assert(d.drop_last() =~= decimal_digits(n / 10));
        assert(d.last() == digit_char(n % 10));
        assert(decimal_value(d) == (n / 10) * 10 + n % 10);
        assert forall|i: int| 0 <= i < d.len() implies '0' <= #[trigger] d[i] <= '9' by {
            if i < d.len() - 1 {
                assert(d[i] == decimal_digits(n / 10)[i]);
            }
        }
    }
}

proof fn lemma_leading_zeros_value(k: nat, s: Seq<char>)
    ensures
        decimal_value(Seq::new(k, |i: int| '0') + s) == decimal_value(s),
    decreases s.len() + k,
{
    let z = Seq::new(k, |i: int| '0');
    if s.len() == 0 {
        assert(z + s =~= z);
        if k > 0 {
            lemma_leading_zeros_value((k - 1) as nat, s);
            assert(z.drop_last() =~= Seq::new((k - 1) as nat, |i: int| '0') + s);
        }
    } else {
        lemma_leading_zeros_value(k, s.drop_last());
        assert((z + s).drop_last() =~= z + s.drop_last());
    }
}

proof fn lemma_zero_padded(n: nat, w: nat)
    requires
        w >= 1,
        n < pow10(w),
    ensures
        zero_padded(n, w).len() == w,
        decimal_value(zero_padded(n, w)) == n,
        all_decimal(zero_padded(n, w)),
{
    lemma_decimal_digits_value(n);
    lemma_digits_len_bound(n, w);
    let d = decimal_digits(n);
    if d.len() < w {
        let k = (w - d.len()) as nat;
        lemma_leading_zeros_value(k, d);
        let z = Seq::new(k, |i: int| '0') + d;
        assert forall|i: int| 0 <= i < z.len() implies '0' <= #[trigger] z[i] <= '9' by {
            if i >= k {
                assert(z[i] == d[i - k]);
            }
        }
    }
}

/// The log's timestamp reads back: for a year from 0 to 9999 it is nineteen
/// characters, `YYYY-MM-DD hh:mm:ss`, every field of decimal digits giving
/// back the year, month, day, hour, minute and second; for any other year
/// the sign comes first and the rest is the magnitude of the year followed
/// by the same fifteen characters.
#[verifier::rlimit(50)]
pub proof fn lemma_timestamp_reads_back(t: LocalTime)
    requires
        1 <= t.month <= 12,
        1 <= t.day <= 31,
        t.hour <= 23,
        t.minute <= 59,
        t.second <= 60,
    ensures
        ({
            let text = spec_timestamp_text(t);
            let y = text.len() - 15;
            &&& 0 <= t.year <= 9999 ==> y == 4 && decimal_value(text.subrange(0, 4)) == t.year
                && all_decimal(text.subrange(0, 4))
            &&& t.year < 0 ==> text[0] == '-' && decimal_value(text.subrange(1, y)) == -t.year
                && all_decimal(text.subrange(1, y)) && y >= 5
            &&& t.year > 9999 ==> text[0] == '+' && decimal_value(text.subrange(1, y)) == t.year
                && all_decimal(text.subrange(1, y)) && y >= 5
            &&& text[y] == '-' && text[y + 3] == '-' && text[y + 6] == ' '
            &&& text[y + 9] == ':' && text[y + 12] == ':'
            &&& decimal_value(text.subrange(y + 1, y + 3)) == t.month
            &&& decimal_value(text.subrange(y + 4, y + 6)) == t.day
            &&& decimal_value(text.subrange(y + 7, y + 9)) == t.hour
            &&& decimal_value(text.subrange(y + 10, y + 12)) == t.minute
            &&& decimal_value(text.subrange(y + 13, y + 15)) == t.second
            &&& all_decimal(text.subrange(y + 1, y + 3)) && all_decimal(text.subrange(y + 4, y + 6))
            &&& all_decimal(text.subrange(y + 7, y + 9)) && all_decimal(text.subrange(y + 10, y + 12))
            &&& all_decimal(text.subrange(y + 13, y + 15))
        }),
{
    assert(pow10(2) == 100) by {
        reveal_with_fuel(pow10, 3);
    }
    assert(pow10(4) == 10000) by {
        reveal_with_fuel(pow10, 5);
    }
    let mo = zero_padded(t.month as nat, 2);
    let da = zero_padded(t.day as nat, 2);
    let ho = zero_padded(t.hour as nat, 2);
    let mi = zero_padded(t.minute as nat, 2);
    let se = zero_padded(t.second as nat, 2);
    lemma_zero_padded(t.month as nat, 2);
    lemma_zero_padded(t.day as nat, 2);
    lemma_zero_padded(t.hour as nat, 2);
    lemma_zero_padded(t.minute as nat, 2);
    lemma_zero_padded(t.second as nat, 2);
    let yt = year_text(t.year as int);
    let text = spec_timestamp_text(t);
    let y = yt.len() as int;
    assert(text =~= yt + seq!['-'] + mo + seq!['-'] + da + seq![' '] + ho + seq![':'] + mi
        + seq![':'] + se);
    assert(text.len() == y + 15);
    assert(text.subrange(0, y) =~= yt);
    assert(text.subrange(y + 1, y + 3) =~= mo);
    assert(text.subrange(y + 4, y + 6) =~= da);
    assert(text.subrange(y + 7, y + 9) =~= ho);
    assert(text.subrange(y + 10, y + 12) =~= mi);
    assert(text.subrange(y + 13, y + 15) =~= se);
    if y >= 1 {
        assert(text.subrange(1, y) =~= yt.subrange(1, y));
        assert(text[0] == yt[0]);
    }
    lemma_year_text(t.year as int);
}

proof fn lemma_year_text(year: int)
    ensures
        ({
            let yt = year_text(year);
            let y = yt.len() as int;
            &&& 0 <= year <= 9999 ==> y == 4 && decimal_value(yt) == year && all_decimal(yt)
            &&& year < 0 ==> yt[0] == '-' && decimal_value(yt.subrange(1, y)) == -year
                && all_decimal(yt.subrange(1, y)) && y >= 5
            &&& year > 9999 ==> yt[0] == '+' && decimal_value(yt.subrange(1, y)) == year
                && all_decimal(yt.subrange(1, y)) && y >= 5
        }),
{
    assert(pow10(4) == 10000) by {
        reveal_with_fuel(pow10, 5);
    }
    let yt = year_text(year);
    if 0 <= year <= 9999 {
        lemma_zero_padded(year as nat, 4);
    } else {
        let m: nat = if year < 0 { (-year) as nat } else { year as nat };
        let mt = zero_padded(m, 4);
        lemma_decimal_digits_value(m);
        let d = decimal_digits(m);
        if d.len() < 4 {
            let k = (4 - d.len()) as nat;
            lemma_leading_zeros_value(k, d);
            let z = Seq::new(k, |i: int| '0') + d;
            assert forall|i: int| 0 <= i < z.len() implies '0' <= #[trigger] z[i] <= '9' by {
                if i >= k {
                    assert(z[i] == d[i - k]);
                }
            }
        }
        assert(mt.len() >= 4);
        assert(yt.subrange(1, yt.len() as int) =~= mt);
    }
}

fn append_char(s: &mut String, c: char, text: &str)
    requires
        text@.len() == 1,
        text@[0] == c,
    ensures
        final(s)@ == old(s)@.push(c),
{
    s.append(text);
    assert(text@ =~= seq![c]);
}

fn append_digit(s: &mut String, d: u64)
    requires
        d < 10,
    ensures
        final(s)@ == old(s)@.push(digit_char(d as nat)),
{
    let old_s = Ghost(s@);
    if d == 0 {
        proof { reveal_strlit("0"); }
        s.append("0");
    } else if d == 1 {
        proof { reveal_strlit("1"); }
        s.append("1");
    } else if d == 2 {
        proof { reveal_strlit("2"); }
        s.append("2");
    } else if d == 3 {
        proof { reveal_strlit("3"); }
        s.append("3");
    } else if d == 4 {
        proof { reveal_strlit("4"); }
        s.append("4");
    } else if d == 5 {
        proof { reveal_strlit("5"); }
        s.append("5");
    } else if d == 6 {
        proof { reveal_strlit("6"); }
        s.append("6");
    } else if d == 7 {
        proof { reveal_strlit("7"); }
        s.append("7");
    } else if d == 8 {
        proof { reveal_strlit("8"); }
        s.append("8");
    } else {
        proof { reveal_strlit("9"); }
        s.append("9");
    }
    assert(s@ =~= old_s@.push(digit_char(d as nat)));
}

fn append_decimal(s: &mut String, n: u64)
    ensures
        final(s)@ == old(s)@ + decimal_digits(n as nat),
    decreases n,
{
    if n >= 10 {
        append_decimal(s, n / 10);
    }
    append_digit(s, n % 10);
    proof {
        if n >= 10 {
            assert(old(s)@ + decimal_digits(n as nat) =~= old(s)@ + decimal_digits((n / 10) as nat)
                + seq![digit_char((n % 10) as nat)]);
        }
    }
    assert(s@ =~= old(s)@ + decimal_digits(n as nat));
}

/// `10` to the power `k`.
pub open spec fn pow10(k: nat) -> nat
    decreases k,
{
    if k == 0 {
        1
    } else {
        10 * pow10((k - 1) as nat)
    }
}

proof fn lemma_digits_len_bound(n: nat, k: nat)
    requires
        n < pow10(k),
        k >= 1,
    ensures
        decimal_digits(n).len() <= k,
    decreases n,
{
    if n >= 10 {
        assert(k >= 2) by {
            if k == 1 {
                assert(pow10(1) == 10) by {
                    reveal_with_fuel(pow10, 2);
                }
            }
        }
        assert(n / 10 < pow10((k - 1) as nat));
        lemma_digits_len_bound(n / 10, (k - 1) as nat);
    }
}

fn digit_count(n: u64) -> (r: usize)
    ensures
        r == decimal_digits(n as nat).len(),
        r <= 20,
    decreases n,
{
    if n < 10 {
        1
    } else {
        let r = digit_count(n / 10);
        proof {
            assert(pow10(20) == 100_000_000_000_000_000_000) by {
                reveal_with_fuel(pow10, 21);
            }
            lemma_digits_len_bound(n as nat, 20);
        }
        r + 1
    }
}

fn append_zero_padded(s: &mut String, n: u64, width: usize)
    ensures
        final(s)@ == old(s)@ + zero_padded(n as nat, width as nat),
{
    let count = digit_count(n);
    if count < width {
        let zeros = width - count;
        let mut k: usize = 0;
        while k < zeros
            invariant
                k <= zeros,
                s@ == old(s)@ + Seq::new(k as nat, |i: int| '0'),
            decreases zeros - k,
        {
            proof { reveal_strlit("0"); }
            append_char(s, '0', "0");
            assert(s@ =~= old(s)@ + Seq::new((k + 1) as nat, |i: int| '0'));
            k = k + 1;
        }
        let ghost mid = s@;
        append_decimal(s, n);
        assert(s@ =~= old(s)@ + (Seq::new(zeros as nat, |i: int| '0') + decimal_digits(n as nat)));
    } else {
        append_decimal(s, n);
    }
}

/// The text of a local time as the log writes it, `%Y-%m-%d %H:%M:%S`.
pub fn timestamp_text(t: LocalTime) -> (r: String)
    requires
        1 <= t.month <= 12,
        1 <= t.day <= 31,
        t.hour <= 23,
        t.minute <= 59,
        t.second <= 60,
    ensures
        r@ == spec_timestamp_text(t),
{
    let mut s = String::new();
    if 0 <= t.year && t.year <= 9999 {
        append_zero_padded(&mut s, t.year as u64, 4);
    } else if t.year < 0 {
        proof { reveal_strlit("-"); }
        append_char(&mut s, '-', "-");
        let magnitude: i64 = -(t.year as i64);
        append_zero_padded(&mut s, magnitude as u64, 4);
    } else {
        proof { reveal_strlit("+"); }
        append_char(&mut s, '+', "+");
        append_zero_padded(&mut s, t.year as u64, 4);
    }
    assert(s@ =~= year_text(t.year as int));
    proof { reveal_strlit("-"); }
    append_char(&mut s, '-', "-");
    append_zero_padded(&mut s, t.month as u64, 2);
    append_char(&mut s, '-', "-");
    append_zero_padded(&mut s, t.day as u64, 2);
    proof { reveal_strlit(" "); }
    append_char(&mut s, ' ', " ");
    append_zero_padded(&mut s, t.hour as u64, 2);
    proof { reveal_strlit(":"); }
    append_char(&mut s, ':', ":");
    append_zero_padded(&mut s, t.minute as u64, 2);
    append_char(&mut s, ':', ":");
    append_zero_padded(&mut s, t.second as u64, 2);
    assert(s@ =~= spec_timestamp_text(t));
    s
}

} // verus!
