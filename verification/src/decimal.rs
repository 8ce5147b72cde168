use vstd::prelude::*;

verus! {

/// ASCII '0'..='9'.
pub open spec fn is_digit(b: u8) -> bool {
    48 <= b <= 57
}

pub open spec fn all_digits(s: Seq<u8>) -> bool {
    forall|i: int| 0 <= i < s.len() ==> #[trigger] is_digit(s[i])
}

/// The value of a sequence of decimal digits, most significant first.
pub open spec fn digits_value(s: Seq<u8>) -> nat
    decreases s.len(),
{
    if s.len() == 0 {
        0
    } else {
        digits_value(s.drop_last()) * 10 + (s.last() - 48) as nat
    }
}

/// What parsing `s` as a `u64` gives: an optional leading `+`, then one or more
/// decimal digits whose value fits in a `u64`.
pub open spec fn spec_parse_u64(s: Seq<u8>) -> Option<u64> {
    let t = if s.len() > 0 && s[0] == 43u8 {
        s.drop_first()
    } else {
        s
    };
    if t.len() > 0 && all_digits(t) && digits_value(t) <= u64::MAX {
        Some(digits_value(t) as u64)
    } else {
        None
    }
}

/// The shortest decimal representation of `n`.
pub open spec fn decimal(n: nat) -> Seq<u8>
    decreases n,
{
    if n < 10 {
        seq![(n + 48) as u8]
    } else {
        decimal(n / 10).push((n % 10 + 48) as u8)
    }
}

pub proof fn lemma_digits_value_prefix_monotone(s: Seq<u8>, i: int, j: int)
    requires
        0 <= i <= j <= s.len(),
        all_digits(s.subrange(0, j)),
    ensures
        digits_value(s.subrange(0, i)) <= digits_value(s.subrange(0, j)),
    decreases j - i,
{
    if i < j {
        lemma_digits_value_prefix_monotone(s, i, j - 1);
        assert(s.subrange(0, j).drop_last() =~= s.subrange(0, j - 1));
        assert(all_digits(s.subrange(0, j - 1))) by {
            assert forall|k: int| 0 <= k < j - 1 implies #[trigger] is_digit(
                s.subrange(0, j - 1)[k],
            ) by {
                assert(is_digit(s.subrange(0, j)[k]));
            }
        }
        let v = digits_value(s.subrange(0, j - 1));
        assert(v * 10 >= v) by (nonlinear_arith);
    }
}

/// The representation of `n` is a nonempty run of digits with value `n`.
pub proof fn lemma_decimal(n: nat)
    ensures
        decimal(n).len() >= 1,
        all_digits(decimal(n)),
        digits_value(decimal(n)) == n,
    decreases n,
{
    let d = decimal(n);
    if n < 10 {
        assert(d.drop_last() =~= Seq::<u8>::empty());
        assert(d.last() == (n + 48) as u8);
        assert(digits_value(d) == digits_value(d.drop_last()) * 10 + (d.last() - 48) as nat);
    } else {
        lemma_decimal(n / 10);
        assert(d.drop_last() =~= decimal(n / 10));
        assert(d.last() == (n % 10 + 48) as u8);
        assert(digits_value(d) == digits_value(d.drop_last()) * 10 + (d.last() - 48) as nat);
        assert((n / 10) * 10 + n % 10 == n);
        assert forall|i: int| 0 <= i < d.len() implies #[trigger] is_digit(d[i]) by {
            if i < d.len() - 1 {
                assert(d[i] == decimal(n / 10)[i]);
            }
        }
    }
}

/// Parsing the representation of `n` gives `n` back.
pub proof fn lemma_parse_decimal(n: u64)
    ensures
        spec_parse_u64(decimal(n as nat)) == Some(n),
{
    lemma_decimal(n as nat);
    assert(is_digit(decimal(n as nat)[0]));
}

/// Parses the bytes `v[a..b]` as a `u64`, as `str::parse::<u64>` does.
pub fn parse_u64_range(v: &Vec<u8>, a: usize, b: usize) -> (r: Option<u64>)
    requires
        a <= b <= v.len(),
    ensures
        r == spec_parse_u64(v@.subrange(a as int, b as int)),
{
    let ghost s = v@.subrange(a as int, b as int);
    let mut start = a;
    if a < b && v[a] == 43u8 {
        start = a + 1;
    }
    let ghost t = v@.subrange(start as int, b as int);
    assert(t =~= (if s.len() > 0 && s[0] == 43u8 {
        s.drop_first()
    } else {
        s
    }));
    if start == b {
        return None;
    }
    let mut acc: u64 = 0;
    let mut i = start;
    while i < b
        invariant
            a <= start < b <= v.len(),
            start <= i <= b,
            s == v@.subrange(a as int, b as int),
            t == v@.subrange(start as int, b as int),
            t =~= (if s.len() > 0 && s[0] == 43u8 {
                s.drop_first()
            } else {
                s
            }),
            all_digits(t.subrange(0, i - start)),
            acc == digits_value(t.subrange(0, i - start)),
        decreases b - i,
    {
        let c = v[i];
        if c < 48u8 || c > 57u8 {
            assert(!is_digit(t[i - start]));
            return None;
        }
        let d = (c - 48u8) as u64;
        let ghost k = i - start;
        assert(t.subrange(0, k + 1).drop_last() =~= t.subrange(0, k));
        assert(t.subrange(0, k + 1).last() == c);
        assert(all_digits(t.subrange(0, k + 1))) by {
            assert forall|j: int| 0 <= j < k + 1 implies #[trigger] is_digit(
                t.subrange(0, k + 1)[j],
            ) by {
                if j < k {
                    assert(t.subrange(0, k + 1)[j] == t.subrange(0, k)[j]);
                }
            }
        }
        if acc > (u64::MAX - d) / 10 {
            assert(acc * 10 + d > u64::MAX) by (nonlinear_arith)
                requires
                    acc > (u64::MAX - d) / 10,
                    d <= 9,
            ;
            proof {
                if all_digits(t) {
                    assert(t.subrange(0, t.len() as int) =~= t);
                    lemma_digits_value_prefix_monotone(t, k + 1, t.len() as int);
                }
            }
            return None;
        }
        assert(acc * 10 + d <= u64::MAX) by (nonlinear_arith)
            requires
                acc <= (u64::MAX - d) / 10,
                d <= 9,
        ;
        acc = acc * 10 + d;
        i = i + 1;
    }
    assert(t.subrange(0, (b - start) as int) =~= t);
    Some(acc)
}

/// Appends the decimal representation of `n` to `out`.
pub fn push_decimal(n: u64, out: &mut Vec<u8>)
    ensures
        final(out)@ == old(out)@ + decimal(n as nat),
    decreases n,
{
    if n >= 10 {
        push_decimal(n / 10, out);
    }
    out.push((n % 10) as u8 + 48u8);
    proof {
        if n >= 10 {
            assert(decimal(n as nat) == decimal((n / 10) as nat).push((n % 10 + 48) as u8));
        }
    }
}

/// What goes wrong first when the digits `t` are read one by one as a `u64`:
/// a byte that is not a digit, or a value past `u64::MAX`.
pub enum ReadError {
    InvalidDigit,
    Overflow,
}

pub open spec fn read_error(t: Seq<u8>) -> Option<ReadError>
    decreases t.len(),
{
    if t.len() == 0 {
        None
    } else {
        match read_error(t.drop_last()) {
            Some(e) => Some(e),
            None => if !is_digit(t.last()) {
                Some(ReadError::InvalidDigit)
            } else if digits_value(t) > u64::MAX {
                Some(ReadError::Overflow)
            } else {
                None
            },
        }
    }
}

/// The words `str::parse::<u64>` gives for `s` when it fails: empty text,
/// a byte that is not a digit (a lone `+` too), or a number too large; the
/// empty text when it succeeds.
pub open spec fn spec_u64_error(s: Seq<u8>) -> Seq<char> {
    let t = if s.len() > 0 && s[0] == 43u8 {
        s.drop_first()
    } else {
        s
    };
    if s.len() == 0 {
        "cannot parse integer from empty string"@
    } else if t.len() == 0 {
        "invalid digit found in string"@
    } else {
        match read_error(t) {
            Some(ReadError::InvalidDigit) => "invalid digit found in string"@,
            Some(ReadError::Overflow) => "number too large to fit in target type"@,
            None => Seq::empty(),
        }
    }
}

proof fn lemma_read_error_extends(t: Seq<u8>, k: int)
    requires
        0 <= k <= t.len(),
        read_error(t.subrange(0, k)) is Some,
    ensures
        read_error(t) == read_error(t.subrange(0, k)),
    decreases t.len() - k,
{
    if k < t.len() {
        assert(t.subrange(0, k + 1).drop_last() =~= t.subrange(0, k));
        lemma_read_error_extends(t, k + 1);
    } else {
        assert(t.subrange(0, k) =~= t);
    }
}

/// The words for parsing the bytes `v[a..b]` as a `u64`, as above.
pub fn u64_parse_error(v: &Vec<u8>, a: usize, b: usize) -> (r: String)
    requires
        a <= b <= v.len(),
    ensures
        r@ == spec_u64_error(v@.subrange(a as int, b as int)),
{
    proof {
        reveal_strlit("cannot parse integer from empty string");
        reveal_strlit("invalid digit found in string");
        reveal_strlit("number too large to fit in target type");
        reveal_strlit("");
    }
    let ghost s = v@.subrange(a as int, b as int);
    if a == b {
        return "cannot parse integer from empty string".to_string();
    }
    let mut start = a;
    if v[a] == 43u8 {
        start = a + 1;
    }
    let ghost t = v@.subrange(start as int, b as int);
    assert(t =~= (if s.len() > 0 && s[0] == 43u8 {
        s.drop_first()
    } else {
        s
    }));
    if start == b {
        return "invalid digit found in string".to_string();
    }
    let mut acc: u64 = 0;
    let mut i = start;
    assert(t.subrange(0, 0) =~= Seq::<u8>::empty());
    while i < b
        invariant
            a <= start < b <= v.len(),
            start <= i <= b,
            t == v@.subrange(start as int, b as int),
            s == v@.subrange(a as int, b as int),
            s.len() > 0,
            t.len() > 0,
            t == (if s.len() > 0 && s[0] == 43u8 {
                s.drop_first()
            } else {
                s
            }),
            read_error(t.subrange(0, i - start)) is None,
            acc == digits_value(t.subrange(0, i - start)),
        decreases b - i,
    {
        let c = v[i];
        let ghost k = i - start;
        assert(t.subrange(0, k + 1).drop_last() =~= t.subrange(0, k));
        assert(t.subrange(0, k + 1).last() == c);
        if c < 48u8 || c > 57u8 {
            proof {
                assert(read_error(t.subrange(0, k + 1)) == Some(ReadError::InvalidDigit));
                lemma_read_error_extends(t, k + 1);
            }
            return "invalid digit found in string".to_string();
        }
        let d = (c - 48u8) as u64;
        if acc > (u64::MAX - d) / 10 {
            assert(acc * 10 + d > u64::MAX) by (nonlinear_arith)
                requires
                    acc > (u64::MAX - d) / 10,
                    d <= 9,
            ;
            proof {
                assert(digits_value(t.subrange(0, k + 1)) == acc * 10 + d);
                assert(read_error(t.subrange(0, k + 1)) == Some(ReadError::Overflow));
                lemma_read_error_extends(t, k + 1);
            }
            return "number too large to fit in target type".to_string();
        }
        assert(acc * 10 + d <= u64::MAX) by (nonlinear_arith)
            requires
                acc <= (u64::MAX - d) / 10,
                d <= 9,
        ;
        acc = acc * 10 + d;
        i = i + 1;
    }
    assert(t.subrange(0, (b - start) as int) =~= t);
    String::new()
}

} // verus!
