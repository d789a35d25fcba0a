//! Decimal numerals: parsing a trimmed input line as a non-negative
//! machine integer, and rendering an integer as its decimal numeral.
use vstd::prelude::*;

verus! {

/// True of the ten ASCII decimal digit characters.
pub open spec fn is_decimal_digit(c: char) -> bool {
    ('0' as u32) <= (c as u32) && (c as u32) <= ('9' as u32)
}

/// Numeric value of a decimal digit character.
pub open spec fn digit_value(c: char) -> nat
    recommends
        is_decimal_digit(c),
{
    ((c as u32) - ('0' as u32)) as nat
}

pub open spec fn all_decimal_digits(s: Seq<char>) -> bool {
    forall|i: int| 0 <= i < s.len() ==> is_decimal_digit(#[trigger] s[i])
}

/// Value of a run of decimal digits, most significant first.
pub open spec fn decimal_value(s: Seq<char>) -> nat
    decreases s.len(),
{
    if s.len() == 0 {
        0
    } else {
        decimal_value(s.drop_last()) * 10 + digit_value(s.last())
    }
}

/// The digit portion of an unsigned numeral: one optional leading `+`
/// sign is stripped, as the standard integer parser does.
pub open spec fn unsigned_digits(s: Seq<char>) -> Seq<char> {
    if s.len() > 0 && s[0] == '+' {
        s.skip(1)
    } else {
        s
    }
}

/// Whether a parse of `s` as a non-negative machine integer succeeds:
/// after the optional sign there is at least one character, every
/// character is a decimal digit, and the value fits.
pub open spec fn parses_as_usize(s: Seq<char>) -> bool {
    let d = unsigned_digits(s);
    &&& d.len() > 0
    &&& all_decimal_digits(d)
    &&& decimal_value(d) <= usize::MAX
}

/// The value of a digit prefix never exceeds the value of the whole run.
proof fn lemma_decimal_value_take(s: Seq<char>, k: int)
    requires
        0 <= k <= s.len(),
    ensures
        decimal_value(s.take(k)) <= decimal_value(s),
    decreases s.len() - k,
{
    if k == s.len() {
        assert(s.take(k) =~= s);
    } else {
        assert(s.take(k + 1).drop_last() =~= s.take(k));
        assert(decimal_value(s.take(k + 1)) == decimal_value(s.take(k)) * 10 + digit_value(
            s.take(k + 1).last(),
        ));
        lemma_decimal_value_take(s, k + 1);
    }
}

/// Parses `s` as a non-negative machine integer, exactly as the standard
/// parser accepts it: an optional leading `+`, then one or more decimal
/// digits whose value fits.
pub fn parse_usize(s: &str) -> (r: Option<usize>)
    ensures
        parses_as_usize(s@) ==> r == Some(decimal_value(unsigned_digits(s@)) as usize),
        !parses_as_usize(s@) ==> r is None,
{
    let len = s.unicode_len();
    let mut start: usize = 0;
    if len > 0 && s.get_char(0) == '+' {
        start = 1;
    }
    let ghost d = unsigned_digits(s@);
    proof {
        assert(d =~= s@.subrange(start as int, len as int));
    }
    if start == len {
        return None;
    }
    let mut i: usize = start;
    let mut value: u128 = 0;
    while i < len
        invariant
            start <= i <= len,
            len == s@.len(),
            d == unsigned_digits(s@),
            d =~= s@.subrange(start as int, len as int),
            all_decimal_digits(s@.subrange(start as int, i as int)),
            value == decimal_value(s@.subrange(start as int, i as int)),
            value <= usize::MAX,
        decreases len - i,
    {
        let c = s.get_char(i);
        let cu: u32 = c as u32;
        if cu < ('0' as u32) || cu > ('9' as u32) {
            proof {
                assert(d[i - start] == s@[i as int]);
                assert(!is_decimal_digit(d[i - start]));
            }
            return None;
        }
        let dv: u128 = (cu - ('0' as u32)) as u128;
        proof {
            assert(s@.subrange(start as int, i + 1).drop_last() =~= s@.subrange(
                start as int,
                i as int,
            ));
            assert(s@.subrange(start as int, i + 1).last() == s@[i as int]);
            assert(usize::MAX as u128 <= u64::MAX as u128);
        }
        value = value * 10 + dv;
        if value > (usize::MAX as u128) {
            proof {
                assert(s@.subrange(start as int, i + 1) =~= d.take(i + 1 - start));
                lemma_decimal_value_take(d, i + 1 - start);
            }
            return None;
        }
        i = i + 1;
    }
    proof {
        assert(s@.subrange(start as int, i as int) =~= d);
    }
    Some(value as usize)
}

/// The character for a single decimal digit value.
pub open spec fn digit_char(d: nat) -> char
    recommends
        d < 10,
{
    if d == 0 {
        '0'
    } else if d == 1 {
        '1'
    } else if d == 2 {
        '2'
    } else if d == 3 {
        '3'
    } else if d == 4 {
        '4'
    } else if d == 5 {
        '5'
    } else if d == 6 {
        '6'
    } else if d == 7 {
        '7'
    } else if d == 8 {
        '8'
    } else {
        '9'
    }
}

/// Decimal numeral of `n`, most significant digit first, with no
/// leading zeros (`0` itself is the one-character numeral `"0"`).
pub open spec fn decimal_digits(n: nat) -> Seq<char>
    decreases n,
{
    if n < 10 {
        seq![digit_char(n)]
    } else {
        decimal_digits(n / 10).push(digit_char(n % 10))
    }
}

/// Rendering and reading back are inverse: the decimal numeral of `n`
/// consists of digits alone and its value is `n` again, so a count
/// embedded in the quiz URL names exactly that count.
pub proof fn lemma_decimal_round_trip(n: nat)
    ensures
        all_decimal_digits(decimal_digits(n)),
        decimal_value(decimal_digits(n)) == n,
    decreases n,
{
    if n < 10 {
        assert(decimal_digits(n).drop_last() =~= Seq::<char>::empty());
        assert(decimal_digits(n).last() == digit_char(n));
        assert(digit_value(digit_char(n)) == n);
        assert(decimal_value(Seq::<char>::empty()) == 0);
    } else {
        lemma_decimal_round_trip(n / 10);
        let prefix = decimal_digits(n / 10);
        let whole = decimal_digits(n);
        assert(whole.drop_last() =~= prefix);
        assert(whole.last() == digit_char(n % 10));
        assert(digit_value(digit_char(n % 10)) == n % 10);
        assert(decimal_value(whole) == decimal_value(prefix) * 10 + digit_value(whole.last()));
        assert(n == (n / 10) * 10 + n % 10) by {
            vstd::arithmetic::div_mod::lemma_fundamental_div_mod(n as int, 10);
        }
        assert forall|i: int| 0 <= i < whole.len() implies is_decimal_digit(
            #[trigger] whole[i],
        ) by {
            if i < prefix.len() {
                assert(is_decimal_digit(prefix[i]));
            }
        }
    }
}

/// The one-character string for a decimal digit value.
fn digit_str(d: usize) -> (r: &'static str)
    requires
        d < 10,
    ensures
        r@ =~= seq![digit_char(d as nat)],
{
    proof {
        reveal_strlit("0");
        reveal_strlit("1");
        reveal_strlit("2");
        reveal_strlit("3");
        reveal_strlit("4");
        reveal_strlit("5");
        reveal_strlit("6");
        reveal_strlit("7");
        reveal_strlit("8");
        reveal_strlit("9");
    }
    if d == 0 {
        "0"
    } else if d == 1 {
        "1"
    } else if d == 2 {
        "2"
    } else if d == 3 {
        "3"
    } else if d == 4 {
        "4"
    } else if d == 5 {
        "5"
    } else if d == 6 {
        "6"
    } else if d == 7 {
        "7"
    } else if d == 8 {
        "8"
    } else {
        "9"
    }
}

/// Renders `n` as its decimal numeral.
pub fn usize_to_decimal(n: usize) -> (r: String)
    ensures
        r@ == decimal_digits(n as nat),
    decreases n,
{
    let d: usize = n % 10;
    let ds = digit_str(d);
    if n < 10 {
        ds.to_owned()
    } else {
        let mut prefix = usize_to_decimal(n / 10);
        prefix.append(ds);
        proof {
            assert(prefix@ =~= decimal_digits((n / 10) as nat).push(digit_char((n % 10) as nat)));
        }
        prefix
    }
}

} // verus!
