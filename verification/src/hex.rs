use vstd::prelude::*;

verus! {

/// The value of an ASCII hexadecimal digit (`0-9`, `a-f`, `A-F`), if the
/// byte is one.
pub open spec fn hex_digit_value(b: u8) -> Option<nat> {
    if 0x30 <= b <= 0x39 {
        Some((b - 0x30) as nat)
    } else if 0x61 <= b <= 0x66 {
        Some((b - 0x61 + 10) as nat)
    } else if 0x41 <= b <= 0x46 {
        Some((b - 0x41 + 10) as nat)
    } else {
        None
    }
}

/// Every byte of `s` is a hexadecimal digit.
pub open spec fn all_hex_digits(s: Seq<u8>) -> bool {
    forall|i: int| 0 <= i < s.len() ==> (#[trigger] hex_digit_value(s[i])) is Some
}

/// The number that the hexadecimal digits `s` spell, most significant first.
pub open spec fn hex_value(s: Seq<u8>) -> nat
    decreases s.len(),
{
    if s.len() == 0 {
        0
    } else {
        hex_value(s.drop_last()) * 16 + hex_digit_value(s.last()).unwrap()
    }
}

/// What parsing `text` as a base-16 `u32` gives: an optional leading `+`,
/// then at least one hexadecimal digit and nothing else, with a value that
/// fits in 32 bits.
pub open spec fn spec_parse_hex_u32(text: Seq<u8>) -> Option<u32> {
    let digits = if text.len() > 0 && text[0] == 0x2b { text.drop_first() } else { text };
    if digits.len() == 0 || !all_hex_digits(digits) || hex_value(digits) > u32::MAX {
        None
    } else {
        Some(hex_value(digits) as u32)
    }
}

/// Appending hexadecimal digits never makes the value smaller.
pub proof fn lemma_hex_value_prefix(s: Seq<u8>, k: int)
    requires
        0 <= k <= s.len(),
        all_hex_digits(s),
    ensures
        hex_value(s.take(k)) <= hex_value(s),
    decreases s.len(),
{
    if k < s.len() {
        assert(all_hex_digits(s.drop_last())) by {
            assert forall|i: int| 0 <= i < s.drop_last().len() implies
                (#[trigger] hex_digit_value(s.drop_last()[i])) is Some by {
                assert(s.drop_last()[i] == s[i]);
            }
        }
        lemma_hex_value_prefix(s.drop_last(), k);
        assert(s.drop_last().take(k) =~= s.take(k));
        assert(hex_digit_value(s[s.len() - 1]) is Some);
    } else {
        assert(s.take(k) =~= s);
    }
}

/// `16` to the power `n`.
pub open spec fn pow16(n: nat) -> nat
    decreases n,
{
    if n == 0 {
        1
    } else {
        16 * pow16((n - 1) as nat)
    }
}

/// A string of `n` hexadecimal digits spells a number below `16^n`.
pub proof fn lemma_hex_value_bound(s: Seq<u8>)
    requires
        all_hex_digits(s),
    ensures
        hex_value(s) < pow16(s.len()),
    decreases s.len(),
{
    if s.len() > 0 {
        assert(all_hex_digits(s.drop_last())) by {
            assert forall|i: int| 0 <= i < s.drop_last().len() implies
                (#[trigger] hex_digit_value(s.drop_last()[i])) is Some by {
                assert(s.drop_last()[i] == s[i]);
            }
        }
        lemma_hex_value_bound(s.drop_last());
        assert(hex_digit_value(s[s.len() - 1]) is Some);
        let d = hex_digit_value(s.last()).unwrap();
        let p = pow16(s.drop_last().len());
        assert(hex_value(s.drop_last()) * 16 + d < 16 * p) by (nonlinear_arith)
            requires
                hex_value(s.drop_last()) < p,
                d < 16,
        ;
    }
}

/// Eight hexadecimal digits, the form in which the system writes a keyboard
/// layout id, always parse, to the number they spell.
pub proof fn lemma_eight_hex_digits_parse(s: Seq<u8>)
    requires
        s.len() == 8,
        all_hex_digits(s),
    ensures
        spec_parse_hex_u32(s) == Some(hex_value(s) as u32),
{
    lemma_hex_value_bound(s);
    assert(pow16(8) == 0x1_0000_0000) by {
        reveal_with_fuel(pow16, 9);
    }
    assert(hex_digit_value(s[0]) is Some);
}

/// The sixteen hexadecimal digits in upper case, `0123456789ABCDEF`.
pub open spec fn upper_hex_digits() -> Seq<u8> {
    seq![
        0x30u8, 0x31, 0x32, 0x33, 0x34, 0x35, 0x36, 0x37, 0x38, 0x39, 0x41, 0x42, 0x43, 0x44,
        0x45, 0x46,
    ]
}

/// The sixteen hexadecimal digits in lower case, `0123456789abcdef`.
pub open spec fn lower_hex_digits() -> Seq<u8> {
    seq![
        0x30u8, 0x31, 0x32, 0x33, 0x34, 0x35, 0x36, 0x37, 0x38, 0x39, 0x61, 0x62, 0x63, 0x64,
        0x65, 0x66,
    ]
}

/// The `d`-th digit of either case has the value `d`, and no other byte is a
/// digit.
pub proof fn lemma_hex_digit_values(b: u8)
    ensures
        forall|d: int| 0 <= d < 16 ==> hex_digit_value(#[trigger] upper_hex_digits()[d]) == Some(
            d as nat,
        ),
        forall|d: int| 0 <= d < 16 ==> hex_digit_value(#[trigger] lower_hex_digits()[d]) == Some(
            d as nat,
        ),
        hex_digit_value(b) is Some <==> (upper_hex_digits().contains(b)
            || lower_hex_digits().contains(b)),
{
    let u = upper_hex_digits();
    let l = lower_hex_digits();
    assert forall|d: int| 0 <= d < 16 implies hex_digit_value(#[trigger] u[d]) == Some(
        d as nat,
    ) && hex_digit_value(l[d]) == Some(d as nat) by {
        assert(d == 0 || d == 1 || d == 2 || d == 3 || d == 4 || d == 5 || d == 6 || d == 7 || d
            == 8 || d == 9 || d == 10 || d == 11 || d == 12 || d == 13 || d == 14 || d == 15);
    }
    if hex_digit_value(b) is Some {
        if 0x30 <= b <= 0x39 {
            assert(u[b - 0x30] == b);
        } else if 0x61 <= b <= 0x66 {
            assert(l[b - 0x57] == b);
        } else {
            assert(u[b - 0x37] == b);
        }
    }
    if u.contains(b) {
        let d = choose|d: int| 0 <= d < u.len() && u[d] == b;
        assert(hex_digit_value(u[d]) == Some(d as nat));
    }
    if l.contains(b) {
        let d = choose|d: int| 0 <= d < l.len() && l[d] == b;
        assert(hex_digit_value(l[d]) == Some(d as nat));
    }
}

/// The last `n` hexadecimal digits of `x` in upper case, most significant
/// first, with leading zeros.
pub open spec fn upper_hex_text(x: nat, n: nat) -> Seq<u8>
    decreases n,
{
    if n == 0 {
        Seq::empty()
    } else {
        upper_hex_text(x / 16, (n - 1) as nat).push(upper_hex_digits()[(x % 16) as int])
    }
}

/// The same in lower case.
pub open spec fn lower_hex_text(x: nat, n: nat) -> Seq<u8>
    decreases n,
{
    if n == 0 {
        Seq::empty()
    } else {
        lower_hex_text(x / 16, (n - 1) as nat).push(lower_hex_digits()[(x % 16) as int])
    }
}

proof fn lemma_hex_text_value(x: nat, n: nat)
    ensures
        upper_hex_text(x, n).len() == n,
        lower_hex_text(x, n).len() == n,
        all_hex_digits(upper_hex_text(x, n)),
        all_hex_digits(lower_hex_text(x, n)),
        hex_value(upper_hex_text(x, n)) == x % pow16(n),
        hex_value(lower_hex_text(x, n)) == x % pow16(n),
    decreases n,
{
    lemma_hex_digit_values(0);
    if n > 0 {
        let m = (n - 1) as nat;
        lemma_hex_text_value(x / 16, m);
        let u = upper_hex_text(x, n);
        let l = lower_hex_text(x, n);
        let d = (x % 16) as int;
        assert(u.drop_last() =~= upper_hex_text(x / 16, m));
        assert(l.drop_last() =~= lower_hex_text(x / 16, m));
        assert(hex_digit_value(upper_hex_digits()[d]) == Some(d as nat));
        assert(hex_digit_value(lower_hex_digits()[d]) == Some(d as nat));
        assert(all_hex_digits(u)) by {
            assert forall|i: int| 0 <= i < u.len() implies (#[trigger] hex_digit_value(u[i])) is Some by {
                if i < u.len() - 1 {
                    assert(u[i] == upper_hex_text(x / 16, m)[i]);
                }
            }
        }
        assert(all_hex_digits(l)) by {
            assert forall|i: int| 0 <= i < l.len() implies (#[trigger] hex_digit_value(l[i])) is Some by {
                if i < l.len() - 1 {
                    assert(l[i] == lower_hex_text(x / 16, m)[i]);
                }
            }
        }
        let p = pow16(m);
        assert(p > 0) by {
            lemma_pow16_positive(m);
        }
        vstd::arithmetic::div_mod::lemma_mod_breakdown(x as int, 16, p as int);
        assert(hex_value(u) == ((x / 16) % p) * 16 + d);
        assert(pow16(n) == 16 * p);
        assert(hex_value(l) == ((x / 16) % p) * 16 + d);
    }
}

proof fn lemma_pow16_positive(n: nat)
    ensures
        pow16(n) > 0,
    decreases n,
{
    if n > 0 {
        lemma_pow16_positive((n - 1) as nat);
    }
}

/// Reading back the eight-digit hexadecimal text of any `u32`, in upper or
/// lower case, gives that number: the parse is the inverse of writing a
/// layout id the way the system writes it.
pub proof fn lemma_parse_hex_round_trip(x: u32)
    ensures
        spec_parse_hex_u32(upper_hex_text(x as nat, 8)) == Some(x),
        spec_parse_hex_u32(lower_hex_text(x as nat, 8)) == Some(x),
{
    lemma_hex_text_value(x as nat, 8);
    assert(pow16(8) == 0x1_0000_0000) by {
        reveal_with_fuel(pow16, 9);
    }
    lemma_eight_hex_digits_parse(upper_hex_text(x as nat, 8));
    lemma_eight_hex_digits_parse(lower_hex_text(x as nat, 8));
}

/// Signs and empty text, as `u32::from_str_radix` treats them: empty text, a
/// lone `+` and anything starting with `-` are refused, and a leading `+`
/// before digits changes nothing.
pub proof fn lemma_parse_hex_signs(text: Seq<u8>, digits: Seq<u8>)
    ensures
        spec_parse_hex_u32(Seq::empty()) is None,
        spec_parse_hex_u32(seq![0x2bu8]) is None,
        text.len() > 0 && text[0] == 0x2d ==> spec_parse_hex_u32(text) is None,
        digits.len() > 0 && digits[0] != 0x2b ==> spec_parse_hex_u32(seq![0x2bu8] + digits)
            == spec_parse_hex_u32(digits),
{
    if text.len() > 0 && text[0] == 0x2d {
        assert(hex_digit_value(text[0]) is None);
    }
    assert((seq![0x2bu8] + digits).drop_first() =~= digits);
    assert(seq![0x2bu8].drop_first() =~= Seq::<u8>::empty());
}

fn hex_digit(b: u8) -> (r: Option<u32>)
    ensures
        match hex_digit_value(b) {
            Some(v) => r == Some(v as u32),
            None => r is None,
        },
{
    if 0x30 <= b && b <= 0x39 {
        Some((b - 0x30) as u32)
    } else if 0x61 <= b && b <= 0x66 {
        Some((b - 0x61 + 10) as u32)
    } else if 0x41 <= b && b <= 0x46 {
        Some((b - 0x41 + 10) as u32)
    } else {
        None
    }
}

/// Parses the first `len` bytes of `bytes` as a base-16 `u32`, in the way
/// `u32::from_str_radix(text, 16)` does: an optional leading `+`, then
/// hexadecimal digits of either case; anything else, an empty digit string,
/// or a value above `u32::MAX` gives `None`.
pub fn parse_hex_u32(bytes: &[u8], len: usize) -> (r: Option<u32>)
    requires
        len <= bytes@.len(),
    ensures
        r == spec_parse_hex_u32(bytes@.take(len as int)),
{
    let ghost text = bytes@.take(len as int);
    if len == 0 {
        return None;
    }
    let start: usize = if bytes[0] == 0x2b { 1 } else { 0 };
    let ghost digits = if text[0] == 0x2b { text.drop_first() } else { text };
    assert(digits =~= text.subrange(start as int, len as int));
    if start == len {
        return None;
    }
    let mut acc: u32 = 0;
    let mut i: usize = start;
    while i < len
        invariant
            start <= i <= len,
            len <= bytes@.len(),
            text == bytes@.take(len as int),
            text.len() > 0,
            digits == (if text[0] == 0x2b { text.drop_first() } else { text }),
            digits.len() > 0,
            digits =~= text.subrange(start as int, len as int),
            all_hex_digits(digits.take(i - start)),
            acc == hex_value(digits.take(i - start)),
        decreases len - i,
    {
        let d = hex_digit(bytes[i]);
        assert(digits[i - start] == bytes@[i as int]);
        match d {
            None => {
                assert(!all_hex_digits(digits)) by {
                    assert(hex_digit_value(digits[i - start]) is None);
                }
                return None;
            },
            Some(v) => {
                let ghost next = digits.take(i - start + 1);
                assert(next.drop_last() =~= digits.take(i - start));
                assert(next.last() == digits[i - start]);
                assert(all_hex_digits(next)) by {
                    assert forall|j: int| 0 <= j < next.len() implies
                        (#[trigger] hex_digit_value(next[j])) is Some by {
                        if j < next.len() - 1 {
                            assert(next[j] == digits.take(i - start)[j]);
                        }
                    }
                }
                if acc > (u32::MAX - v) / 16 {
                    proof {
                        assert(hex_value(next) > u32::MAX) by (nonlinear_arith)
                            requires
                                hex_value(next) == acc * 16 + v,
                                acc > (u32::MAX - v) / 16,
                                v <= 15,
                        ;
                        if all_hex_digits(digits) {
                            lemma_hex_value_prefix(digits, i - start + 1);
                        }
                    }
                    return None;
                }
                proof {
                    assert(acc * 16 + v <= u32::MAX) by (nonlinear_arith)
                        requires
                            acc <= (u32::MAX - v) / 16,
                            v <= 15,
                    ;
                }
                acc = acc * 16 + v;
                i = i + 1;
            },
        }
    }
    assert(digits.take(len - start) =~= digits);
    Some(acc)
}

} // verus!
