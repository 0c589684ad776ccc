use vstd::prelude::*;
use crate::sink::DEFAULT_BATCH_SIZE;

verus! {

/// A malformed batch size.
#[derive(Debug, Clone, Copy, PartialEq, Eq, Structural)]
pub enum ConfigError {
    /// The text is not a decimal number that fits in a `usize`.
    NotANumber,
    /// The number is zero.
    NotPositive,
}

pub open spec fn is_digit(c: char) -> bool {
    '0' <= c && c <= '9'
}

/// The value of a run of decimal digits.
pub open spec fn decimal(s: Seq<char>) -> int
    decreases s.len(),
{
    if s.len() == 0 {
        0
    } else {
        decimal(s.drop_last()) * 10 + (s.last() as int - '0' as int)
    }
}

/// The digits of a numeral, without the sign that may lead it.
pub open spec fn unsigned_part(s: Seq<char>) -> Seq<char> {
    if s.len() > 0 && s[0] == '+' {
        s.drop_first()
    } else {
        s
    }
}

/// One or more decimal digits, after an optional `+`.
pub open spec fn is_numeral(s: Seq<char>) -> bool {
    let d = unsigned_part(s);
    d.len() > 0 && forall|i: int| 0 <= i < d.len() ==> is_digit(#[trigger] d[i])
}

proof fn lemma_decimal_grows(s: Seq<char>, i: int, j: int)
    requires
        0 <= i <= j <= s.len(),
        forall|k: int| 0 <= k < s.len() ==> is_digit(#[trigger] s[k]),
    ensures
        decimal(s.take(i)) <= decimal(s.take(j)),
    decreases j - i,
{
    if i < j {
        lemma_decimal_grows(s, i, j - 1);
        assert(s.take(j).drop_last() =~= s.take(j - 1));
        assert(s.take(j).last() == s[j - 1]);
        assert(decimal(s.take(j - 1)) >= 0) by {
            lemma_decimal_nonneg(s.take(j - 1));
        }
    }
}

proof fn lemma_decimal_nonneg(s: Seq<char>)
    requires
        forall|k: int| 0 <= k < s.len() ==> is_digit(#[trigger] s[k]),
    ensures
        decimal(s) >= 0,
    decreases s.len(),
{
    if s.len() > 0 {
        lemma_decimal_nonneg(s.drop_last());
    }
}

/// Reads the configured batch size: the default when none is set, else a
/// positive decimal number that fits in a `usize`.
pub fn parse_batch_size(text: Option<&str>) -> (r: Result<usize, ConfigError>)
    ensures
        text is None ==> r == Ok::<usize, ConfigError>(DEFAULT_BATCH_SIZE),
        text is Some ==> {
            let s = text->Some_0@;
            &&& (r is Ok <==> is_numeral(s) && 0 < decimal(unsigned_part(s)) <= usize::MAX)
            &&& (r is Ok ==> r->Ok_0 == decimal(unsigned_part(s)))
            &&& (r == Err::<usize, ConfigError>(ConfigError::NotPositive) <==> is_numeral(s) && decimal(unsigned_part(s)) == 0)
        },
{
    match text {
        None => Ok(DEFAULT_BATCH_SIZE),
        Some(t) => {
            let ghost s = t@;
            let ghost d = unsigned_part(s);
            let n = t.unicode_len();
            let mut i: usize = 0;
            if n > 0 && t.get_char(0) == '+' {
                i = 1;
            }
            if i >= n {
                return Err(ConfigError::NotANumber);
            }
            let start = i;
            assert(d =~= s.subrange(start as int, s.len() as int));
            let mut acc: usize = 0;
            while i < n
                invariant
                    n == s.len(),
                    s == t@,
                    text == Some(t),
                    d == unsigned_part(s),
                    start <= i <= n,
                    d =~= s.subrange(start as int, s.len() as int),
                    forall|k: int| 0 <= k < i - start ==> is_digit(#[trigger] d[k]),
                    acc == decimal(d.take(i - start)),
                decreases n - i,
            {
                let c = t.get_char(i);
                if c < '0' || c > '9' {
                    assert(!is_digit(d[i - start]));
                    return Err(ConfigError::NotANumber);
                }
                let ghost k = i - start;
                assert(d.take(k + 1).drop_last() =~= d.take(k));
                assert(d.take(k + 1).last() == c);
                let v = (c as u32 - '0' as u32) as usize;
                if acc > (usize::MAX - v) / 10 {
                    proof {
                        assert(decimal(d.take(k + 1)) > usize::MAX) by (nonlinear_arith)
                            requires
                                decimal(d.take(k + 1)) == acc * 10 + v,
                                acc > (usize::MAX - v) / 10,
                                v <= 9;
                        if is_numeral(s) {
                            lemma_decimal_grows(d, k + 1, d.len() as int);
                            assert(d.take(d.len() as int) =~= d);
                        }
                    }
                    return Err(ConfigError::NotANumber);
                }
                acc = acc * 10 + v;
                i = i + 1;
            }
            assert(d.take(d.len() as int) =~= d);
            if acc == 0 {
                Err(ConfigError::NotPositive)
            } else {
                Ok(acc)
            }
        },
    }
}

} // verus!
