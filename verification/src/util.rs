//! Name conversion and size formatting.
use vstd::prelude::*;

use crate::text::{ascii_lower, chars_of, extend_str, push_char, string_of, to_ascii_lower};
use vstd::arithmetic::div_mod::{lemma_div_denominator, lemma_fundamental_div_mod};

verus! {

broadcast use vstd::string::group_string_axioms;

// ---------------------------------------------------------------------------
// PascalCase to kebab-case

/// Whether `c` has the Unicode `Uppercase` property (what
/// `char::is_uppercase` reports).
pub uninterp spec fn unicode_uppercase(c: char) -> bool;

/// Uppercase as `char::is_uppercase` decides it: among ASCII characters
/// exactly `A`..=`Z`; beyond ASCII, the Unicode `Uppercase` property.
pub open spec fn is_upper(c: char) -> bool {
    if (c as u32) < 128 {
        'A' <= c <= 'Z'
    } else {
        unicode_uppercase(c)
    }
}

/// `char::is_uppercase`. Stated: among ASCII characters exactly `A`..=`Z`
/// are uppercase; for other characters the result is named
/// `unicode_uppercase(c)` and which ones they are (the Unicode tables) is
/// left unsaid.
#[verifier::external_body]
fn is_uppercase(c: char) -> (r: bool)
    ensures
        (c as u32) < 128 ==> (r <==> ('A' <= c <= 'Z')),
        (c as u32) >= 128 ==> r == unicode_uppercase(c),
{
    c.is_uppercase()
}

/// Each character lower-cased (ASCII only), with a `-` before every
/// uppercase character other than the first.
pub open spec fn kebab(s: Seq<char>) -> Seq<char>
    decreases s.len(),
{
    if s.len() == 0 {
        seq![]
    } else if s.len() > 1 && is_upper(s.last()) {
        kebab(s.drop_last()) + seq!['-', ascii_lower(s.last())]
    } else {
        kebab(s.drop_last()) + seq![ascii_lower(s.last())]
    }
}

/// `kebab` with the uppercase test given per character: `up[i]` says
/// whether `s[i]` is uppercase.
pub open spec fn kebab_by(s: Seq<char>, up: Seq<bool>) -> Seq<char>
    decreases s.len(),
{
    if s.len() == 0 {
        seq![]
    } else if s.len() > 1 && up[s.len() - 1] {
        kebab_by(s.drop_last(), up.drop_last()) + seq!['-', ascii_lower(s.last())]
    } else {
        kebab_by(s.drop_last(), up.drop_last()) + seq![ascii_lower(s.last())]
    }
}

/// Which characters of `s` are uppercase.
pub open spec fn upper_flags(s: Seq<char>) -> Seq<bool> {
    Seq::new(s.len(), |i: int| is_upper(s[i]))
}

pub proof fn lemma_kebab_by_flags(s: Seq<char>)
    ensures
        kebab_by(s, upper_flags(s)) == kebab(s),
    decreases s.len(),
{
    if s.len() > 0 {
        assert(upper_flags(s).drop_last() =~= upper_flags(s.drop_last()));
        lemma_kebab_by_flags(s.drop_last());
    }
}

/// The kebab-case form of `s` when `upper[i]` says whether its `i`th
/// character is uppercase: each character lower-cased (ASCII only), with
/// a `-` before every uppercase one other than the first.
pub fn kebab_case_with(s: &str, upper: &[bool]) -> (r: String)
    requires
        upper@.len() == s@.len(),
    ensures
        r@ == kebab_by(s@, upper@),
{
    let v = chars_of(s);
    let mut result = String::new();
    let mut i: usize = 0;
    while i < v.len()
        invariant
            i <= v@.len(),
            v@ == s@,
            upper@.len() == v@.len(),
            result@ == kebab_by(v@.take(i as int), upper@.take(i as int)),
        decreases v@.len() - i,
    {
        let c = v[i];
        proof {
            assert(v@.take(i + 1).drop_last() =~= v@.take(i as int));
            assert(upper@.take(i + 1).drop_last() =~= upper@.take(i as int));
            assert(v@.take(i + 1).last() == c);
        }
        if upper[i] && i > 0 {
            push_char(&mut result, '-');
        }
        push_char(&mut result, to_ascii_lower(c));
        proof {
            assert(result@ =~= kebab_by(v@.take(i + 1), upper@.take(i + 1)));
        }
        i = i + 1;
    }
    proof {
        assert(v@.take(v@.len() as int) =~= v@);
        assert(upper@.take(upper@.len() as int) =~= upper@);
    }
    result
}

/// `MyApp` becomes `my-app`.
pub fn pascal_to_kebab_case(s: &str) -> (r: String)
    ensures
        r@ == kebab(s@),
{
    let v = chars_of(s);
    let mut upper: Vec<bool> = Vec::new();
    let mut i: usize = 0;
    while i < v.len()
        invariant
            i <= v@.len(),
            v@ == s@,
            upper@ == upper_flags(v@).take(i as int),
        decreases v@.len() - i,
    {
        upper.push(is_uppercase(v[i]));
        proof {
            assert(upper@ =~= upper_flags(v@).take(i + 1));
        }
        i = i + 1;
    }
    proof {
        assert(upper@ =~= upper_flags(s@));
        lemma_kebab_by_flags(s@);
    }
    kebab_case_with(s, upper.as_slice())
}

/// An ASCII name without uppercase letters is already in kebab case: the
/// conversion leaves it as it is.
pub proof fn law_kebab_keeps_lowercase(s: Seq<char>)
    requires
        forall|i: int| 0 <= i < s.len() ==> (s[i] as u32) < 128 && !('A' <= #[trigger] s[i] <= 'Z'),
    ensures
        kebab(s) == s,
    decreases s.len(),
{
    if s.len() > 0 {
        law_kebab_keeps_lowercase(s.drop_last());
        assert(kebab(s) =~= s);
    }
}


// ---------------------------------------------------------------------------
// Sizes in MB

/// 2 to the power `n`.
pub open spec fn pow2(n: nat) -> nat
    decreases n,
{
    if n == 0 {
        1
    } else {
        2 * pow2((n - 1) as nat)
    }
}

/// How many low bits of `b` do not fit in a 53-bit significand.
pub open spec fn dropped_bits(b: nat) -> nat
    decreases b,
{
    if b < 0x20000000000000 {
        0
    } else {
        1 + dropped_bits(b / 2)
    }
}

/// The value of `b as f64`: `b` rounded to a 53-bit significand, to nearest
/// with ties to an even significand.
pub open spec fn as_f64(b: nat) -> nat {
    let unit = pow2(dropped_bits(b));
    let q = b / unit;
    let r = b % unit;
    if r * 2 > unit || (r * 2 == unit && q % 2 == 1) {
        (q + 1) * unit
    } else {
        q * unit
    }
}

/// `x / 2^20` in hundredths, rounded to nearest with ties to even, as
/// `{:.2}` rounds an exact value.
pub open spec fn hundredths_of_mib(x: nat) -> nat {
    let n = x * 100;
    let q = n / 0x100000;
    let r = n % 0x100000;
    if r * 2 > 0x100000 || (r * 2 == 0x100000 && q % 2 == 1) {
        q + 1
    } else {
        q
    }
}

/// The ASCII digit for `d < 10`.
pub open spec fn digit(d: nat) -> char {
    (48 + d) as char
}

/// `n` written in decimal.
pub open spec fn decimal(n: nat) -> Seq<char>
    decreases n,
{
    if n < 10 {
        seq![digit(n)]
    } else {
        decimal(n / 10).push(digit(n % 10))
    }
}

/// What `format!("{:.2} MB", bytes as f64 / 1024.0 / 1024.0)` prints.
pub open spec fn mb_text(bytes: nat) -> Seq<char> {
    let h = hundredths_of_mib(as_f64(bytes));
    decimal(h / 100) + seq!['.', digit((h % 100) / 10), digit(h % 10)] + " MB"@
}

proof fn lemma_pow2_pos(n: nat)
    ensures
        pow2(n) >= 1,
    decreases n,
{
    if n > 0 {
        lemma_pow2_pos((n - 1) as nat);
    }
}

fn round_to_f64(b: u64) -> (r: u128)
    ensures
        r == as_f64(b as nat),
        r <= 0x20000000000000000,
{
    let bb: u128 = b as u128;
    let mut unit: u128 = 1;
    let ghost mut s: nat = 0;
    while bb / unit >= 0x20000000000000
        invariant
            unit == pow2(s),
            1 <= unit <= 4096,
            bb < 0x10000000000000000,
            dropped_bits(bb as nat) == s + dropped_bits((bb / unit) as nat),
        decreases 4096 - unit,
    {
        proof {
            lemma_div_denominator(bb as int, unit as int, 2);
            lemma_fundamental_div_mod(bb as int, unit as int);
            assert(unit * (bb / unit) <= bb);
            assert(unit < 2048) by (nonlinear_arith)
                requires
                    unit * (bb / unit) <= bb,
                    bb / unit >= 0x20000000000000,
                    bb < 0x10000000000000000,
                    unit >= 1,
            ;
            assert(pow2(s + 1) == 2 * pow2(s));
        }
        unit = unit * 2;
        proof {
            s = s + 1;
        }
    }
    proof {
        assert(dropped_bits((bb / unit) as nat) == 0);
        lemma_fundamental_div_mod(bb as int, unit as int);
    }
    let q = bb / unit;
    let r = bb % unit;
    proof {
        assert(q * unit <= bb) by (nonlinear_arith)
            requires
                unit * q + r == bb,
                r >= 0,
        ;
        assert(q < 0x20000000000000);
        assert((q + 1) * unit <= 0x20000000000000000) by (nonlinear_arith)
            requires
                q * unit <= bb,
                bb < 0x10000000000000000,
                unit <= 4096,
        ;
    }
    if r * 2 > unit || (r * 2 == unit && q % 2 == 1) {
        (q + 1) * unit
    } else {
        q * unit
    }
}

fn digit_char(d: u128) -> (c: char)
    requires
        d < 10,
    ensures
        c == digit(d as nat),
{
    let b: u8 = 48 + (d as u8);
    b as char
}

pub fn decimal_chars(n: u128) -> (v: Vec<char>)
    ensures
        v@ == decimal(n as nat),
    decreases n,
{
    if n < 10 {
        let mut v: Vec<char> = Vec::new();
        v.push(digit_char(n));
        v
    } else {
        let mut v = decimal_chars(n / 10);
        v.push(digit_char(n % 10));
        v
    }
}

/// The size `bytes` in MB (MiB), with two decimals.
pub fn format_mb(bytes: u64) -> (r: String)
    ensures
        r@ == mb_text(bytes as nat),
{
    let x = round_to_f64(bytes);
    let n = x * 100;
    let q = n / 0x100000;
    let rem = n % 0x100000;
    let h = if rem * 2 > 0x100000 || (rem * 2 == 0x100000 && q % 2 == 1) {
        q + 1
    } else {
        q
    };
    let mut v = decimal_chars(h / 100);
    v.push('.');
    v.push(digit_char((h % 100) / 10));
    v.push(digit_char(h % 10));
    extend_str(&mut v, " MB");
    string_of(v.as_slice())
}

} // verus!
