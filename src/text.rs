//! Text helpers of the emitters: case conversion, numbers and identifier
//! fix-ups.
use vstd::prelude::*;
use heck::{ShoutySnakeCase, SnakeCase};

verus! {

/// What heck's snake-case conversion makes of a string.
pub uninterp spec fn snake_case_of(s: Seq<char>) -> Seq<char>;

/// What heck's shouty-snake-case conversion makes of a string.
pub uninterp spec fn shouty_snake_case_of(s: Seq<char>) -> Seq<char>;

/// Relies on heck's `SnakeCase::to_snake_case` for `str`; its result depends
/// on the characters alone.
#[verifier::external_body]
fn snake_case(s: &str) -> (r: String)
    ensures
        r@ == snake_case_of(s@),
{
    s.to_snake_case()
}

/// Relies on heck's `ShoutySnakeCase::to_shouty_snake_case` for `str`; its
/// result depends on the characters alone.
#[verifier::external_body]
fn shouty_snake_case(s: &str) -> (r: String)
    ensures
        r@ == shouty_snake_case_of(s@),
{
    s.to_shouty_snake_case()
}

/// The decimal digit of `d`.
pub open spec fn digit(d: nat) -> char {
    if d < 10 {
        ((d + 48) as u8) as char
    } else {
        ((d + 55) as u8) as char
    }
}

/// The decimal numeral of `n`, without leading zeros.
pub open spec fn decimal(n: nat) -> Seq<char>
    decreases n,
{
    if n < 10 {
        seq![digit(n)]
    } else {
        decimal(n / 10) + seq![digit(n % 10)]
    }
}

/// The last `k` upper-case hexadecimal digits of `n`.
pub open spec fn hex_digits(n: nat, k: nat) -> Seq<char>
    decreases k,
{
    if k == 0 {
        Seq::empty()
    } else {
        hex_digits(n / 16, (k - 1) as nat) + seq![digit(n % 16)]
    }
}

/// `0x` and eight upper-case hexadecimal digits.
pub open spec fn hex_word(n: u32) -> Seq<char> {
    "0x"@ + hex_digits(n as nat, 8)
}

/// Relies on std's `ToString` for integers: the decimal numeral.
#[verifier::external_body]
pub(crate) fn decimal_u32(n: u32) -> (r: String)
    ensures
        r@ == decimal(n as nat),
{
    n.to_string()
}

/// Relies on std's `format!` with `{:#010X}`: `0x` and eight upper-case
/// hexadecimal digits.
#[verifier::external_body]
pub(crate) fn hex_u32(n: u32) -> (r: String)
    ensures
        r@ == hex_word(n),
{
    format!("{:#010X}", n)
}

/// The markdown link to the specification section of an operand kind.
pub open spec fn spec_link(kind: Seq<char>) -> Seq<char> {
    "["@ + kind + "](https://www.khronos.org/registry/spir-v/specs/unified1/SPIRV.html#_a_id_"@
        + snake_case_of(kind) + "_a_"@ + snake_case_of(kind) + ")"@
}

/// Returns the markdown link to the specification section of `kind`.
pub fn get_spec_link(kind: &str) -> (r: String)
    ensures
        r@ == spec_link(kind@),
{
    let symbol = snake_case(kind);
    let mut r = String::from_str("[");
    r.append(kind);
    r.append("](https://www.khronos.org/registry/spir-v/specs/unified1/SPIRV.html#_a_id_");
    r.append(symbol.as_str());
    r.append("_a_");
    r.append(symbol.as_str());
    r.append(")");
    r
}

/// `s` with every `NA_N`, scanning left to right, turned into `NAN`.
pub open spec fn fix_nan(s: Seq<char>) -> Seq<char>
    decreases s.len(),
{
    if s.len() < 4 {
        s
    } else if s.subrange(0, 4) == "NA_N"@ {
        "NAN"@ + fix_nan(s.subrange(4, s.len() as int))
    } else {
        seq![s[0]] + fix_nan(s.subrange(1, s.len() as int))
    }
}

/// Turns every `NA_N` of `s`, scanning left to right, into `NAN`.
pub fn fix_nan_text(s: &str) -> (r: String)
    ensures
        r@ == fix_nan(s@),
{
    let len = s.unicode_len();
    proof {
        reveal_strlit("NA_N");
        reveal_strlit("NAN");
    }
    let mut r = String::new();
    let mut i: usize = 0;
    assert(s@.subrange(0, len as int) =~= s@);
    while i < len
        invariant
            len == s@.len(),
            i <= len,
            "NA_N"@ =~= seq!['N', 'A', '_', 'N'],
            r@ + fix_nan(s@.subrange(i as int, len as int)) == fix_nan(s@),
        decreases len - i,
    {
        let ghost rest = s@.subrange(i as int, len as int);
        let at_pattern = len - i >= 4 && s.get_char(i) == 'N' && s.get_char(i + 1) == 'A'
            && s.get_char(i + 2) == '_' && s.get_char(i + 3) == 'N';
        if at_pattern {
            assert(rest.subrange(0, 4) =~= s@.subrange(i as int, i + 4));
            assert(rest.subrange(4, rest.len() as int) =~= s@.subrange(i + 4, len as int));
            assert(rest.subrange(0, 4) =~= "NA_N"@);
            assert(fix_nan(rest) == "NAN"@ + fix_nan(s@.subrange(i + 4, len as int)));
            r.append("NAN");
            assert(r@ + fix_nan(s@.subrange(i + 4, len as int)) =~= fix_nan(s@));
            i += 4;
        } else if len - i >= 4 {
            assert(rest.subrange(0, 4) =~= s@.subrange(i as int, i + 4));
            assert(rest.subrange(0, 4) != "NA_N"@) by {
                if rest.subrange(0, 4) == "NA_N"@ {
                    assert(rest.subrange(0, 4)[0] == 'N');
                    assert(rest.subrange(0, 4)[1] == 'A');
                    assert(rest.subrange(0, 4)[2] == '_');
                    assert(rest.subrange(0, 4)[3] == 'N');
                }
            }
            assert(rest.subrange(1, rest.len() as int) =~= s@.subrange(i + 1, len as int));
            let c = s.substring_char(i, i + 1);
            assert(c@ =~= seq![rest[0]]);
            r.append(c);
            assert(r@ + fix_nan(s@.subrange(i + 1, len as int)) =~= fix_nan(s@));
            i += 1;
        } else {
            let tail = s.substring_char(i, len);
            r.append(tail);
            assert(s@.subrange(len as int, len as int) =~= Seq::<char>::empty());
            assert(r@ + fix_nan(s@.subrange(len as int, len as int)) =~= fix_nan(s@));
            i = len;
        }
    }
    assert(s@.subrange(len as int, len as int) =~= Seq::<char>::empty());
    assert(r@ =~= fix_nan(s@));
    r
}

/// The constant name of a flag-set bit: shouty snake case, with `NaN` kept
/// whole.
pub open spec fn bit_symbol(symbol: Seq<char>) -> Seq<char> {
    fix_nan(shouty_snake_case_of(symbol))
}

/// Returns the constant name of a flag-set bit.
pub fn make_bit_symbol(symbol: &str) -> (r: String)
    ensures
        r@ == bit_symbol(symbol@),
{
    let shouty = shouty_snake_case(symbol);
    fix_nan_text(shouty.as_str())
}

} // verus!
