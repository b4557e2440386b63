use vstd::prelude::*;

verus! {

/// What Rust's literal grammar makes of a token text read as one integer
/// literal: its value written in base ten, and its type suffix (empty when
/// there is none); `None` when the text is not a single integer literal.
pub uninterp spec fn int_literal_of(tokens: Seq<char>) -> Option<(Seq<char>, Seq<char>)>;

/// Relies on `syn::parse_str::<syn::LitInt>` with `LitInt::base10_digits` and
/// `LitInt::suffix`: the literal's value in base ten and its suffix, which depend
/// on the token text alone.
#[verifier::external_body]
pub(crate) fn parse_int_literal(tokens: &str) -> (r: Option<(String, String)>)
    ensures
        r matches Some(p) ==> int_literal_of(tokens@) == Some((p.0@, p.1@)),
        r is None ==> int_literal_of(tokens@) is None,
{
    match syn::parse_str::<syn::LitInt>(tokens) {
        Ok(lit) => Some((lit.base10_digits().to_string(), lit.suffix().to_string())),
        Err(_) => None,
    }
}

pub open spec fn is_digit(c: char) -> bool {
    '0' <= c && c <= '9'
}

pub open spec fn digit_value(c: char) -> nat {
    ((c as u32) - ('0' as u32)) as nat
}

/// Every character is a decimal digit, and there is at least one.
pub open spec fn is_decimal(s: Seq<char>) -> bool {
    s.len() > 0 && forall|i: int| 0 <= i < s.len() ==> is_digit(#[trigger] s[i])
}

/// The number that a string of decimal digits denotes.
pub open spec fn decimal_value(s: Seq<char>) -> nat
    decreases s.len(),
{
    if s.len() == 0 {
        0
    } else {
        decimal_value(s.drop_last()) * 10 + digit_value(s.last())
    }
}

/// The digit string fits a `u128`: the value it denotes, else `None`.
pub open spec fn decimal_u128(s: Seq<char>) -> Option<u128> {
    if is_decimal(s) && decimal_value(s) <= u128::MAX {
        Some(decimal_value(s) as u128)
    } else {
        None
    }
}

proof fn lemma_prefix_value_le(s: Seq<char>, i: int)
    requires
        0 <= i <= s.len(),
    ensures
        decimal_value(s.subrange(0, i)) <= decimal_value(s),
    decreases s.len(),
{
    if i == s.len() {
        assert(s.subrange(0, i) =~= s);
    } else {
        let p = s.drop_last();
        lemma_prefix_value_le(p, i);
        assert(p.subrange(0, i) =~= s.subrange(0, i));
    }
}

/// Reads a string of decimal digits as a `u128`.
pub fn parse_decimal(s: &String) -> (r: Option<u128>)
    ensures
        r == decimal_u128(s@),
{
    let n = s.as_str().unicode_len();
    if n == 0 {
        return None;
    }
    let mut v: u128 = 0;
    let mut i: usize = 0;
    while i < n
        invariant
            n == s@.len(),
            i <= n,
            forall|j: int| 0 <= j < i ==> is_digit(#[trigger] s@[j]),
            v == decimal_value(s@.subrange(0, i as int)),
        decreases n - i,
    {
        let c = s.as_str().get_char(i);
        if !('0' <= c && c <= '9') {
            return None;
        }
        let d: u128 = ((c as u32) - ('0' as u32)) as u128;
        assert(s@.subrange(0, i + 1).drop_last() =~= s@.subrange(0, i as int));
        if v > (u128::MAX - d) / 10 {
            assert(v * 10 + d > u128::MAX) by (nonlinear_arith)
                requires
                    v > (u128::MAX - d) / 10,
                    d <= 9,
            ;
            proof {
                lemma_prefix_value_le(s@, i + 1);
            }
            return None;
        }
        assert(v * 10 + d <= u128::MAX) by (nonlinear_arith)
            requires
                v <= (u128::MAX - d) / 10,
                d <= 9,
        ;
        v = v * 10 + d;
        i = i + 1;
    }
    assert(s@.subrange(0, n as int) =~= s@);
    Some(v)
}

} // verus!
