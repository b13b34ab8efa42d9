use vstd::prelude::*;

verus! {

/// Decimal digit `d` (0 ..= 9) as a character.
pub open spec fn digit_char(d: nat) -> char {
    ((48 + d) as u8) as char
}

/// The decimal text of `v`, without sign or leading zeros.
pub open spec fn decimal(v: nat) -> Seq<char>
    decreases v,
{
    if v < 10 {
        seq![digit_char(v)]
    } else {
        decimal(v / 10).push(digit_char(v % 10))
    }
}

/// Appends the decimal digits of `v` to `out`.
fn push_decimal(v: u64, out: &mut Vec<char>)
    ensures
        final(out)@ == old(out)@ + decimal(v as nat),
    decreases v,
{
    if v >= 10 {
        push_decimal(v / 10, out);
    }
    let d = (v % 10) as u8;
    out.push((48u8 + d) as char);
    proof {
        if v >= 10 {
            assert(decimal(v as nat) == decimal((v / 10) as nat).push(digit_char((v % 10) as nat)));
        }
    }
    assert(out@ =~= old(out)@ + decimal(v as nat));
}

/// The decimal text of `v`.
fn decimal_string(v: u64) -> (r: String)
    ensures
        r@ == decimal(v as nat),
{
    let mut digits: Vec<char> = Vec::new();
    push_decimal(v, &mut digits);
    assert(digits@ =~= decimal(v as nat));
    crate::text::string_of(&digits)
}

/// Terms `i` and `i + 1` of the sequence that starts `a, b` and continues
/// with the sum of the two previous terms.
pub open spec fn pair_at(a: nat, b: nat, i: nat) -> (nat, nat)
    decreases i,
{
    if i == 0 {
        (a, b)
    } else {
        let p = pair_at(a, b, (i - 1) as nat);
        (p.1, p.0 + p.1)
    }
}

pub open spec fn term(a: nat, b: nat, i: nat) -> nat {
    pair_at(a, b, i).0
}

pub open spec fn fibonacci(i: nat) -> nat {
    term(0, 1, i)
}

pub open spec fn lucas(i: nat) -> nat {
    term(2, 1, i)
}

/// Terms are 32-bit signed integers: the longest Fibonacci list whose
/// terms all fit.
pub const MAX_FIBONACCI_TERMS: usize = 47;
/// The longest Lucas list whose terms all fit in 32-bit signed integers.
pub const MAX_LUCAS_TERMS: usize = 45;

pub open spec fn two_to(k: nat) -> nat
    decreases k,
{
    if k == 0 { 1 } else { 2 * two_to((k - 1) as nat) }
}

proof fn lemma_two_to_grows(i: nat, j: nat)
    requires
        i <= j,
    ensures
        two_to(i) <= two_to(j),
    decreases j - i,
{
    if i < j {
        lemma_two_to_grows(i, (j - 1) as nat);
    }
}

proof fn lemma_two_to_50()
    ensures
        two_to(50) == 1125899906842624nat,
{
    reveal_with_fuel(two_to, 51);
}

fn generate(a: u64, b: u64, n: usize) -> (r: Vec<String>)
    requires
        n <= 47,
        a <= 2,
        b <= 2,
    ensures
        r@.len() == n,
        forall|k: int| 0 <= k < n ==> (#[trigger] r@[k])@ == decimal(term(a as nat, b as nat, k as nat)),
{
    proof {
        lemma_two_to_50();
        reveal_with_fuel(two_to, 2);
    }
    let mut r: Vec<String> = Vec::new();
    let mut x: u64 = a;
    let mut y: u64 = b;
    let mut i: usize = 0;
    while i < n
        invariant
            n <= 47,
            two_to(50) == 1125899906842624nat,
            0 <= i <= n,
            r@.len() == i,
            forall|k: int| 0 <= k < i ==> (#[trigger] r@[k])@ == decimal(term(a as nat, b as nat, k as nat)),
            x == term(a as nat, b as nat, i as nat),
            y == pair_at(a as nat, b as nat, i as nat).1,
            x <= two_to((i + 1) as nat),
            y <= two_to((i + 1) as nat),
        decreases n - i,
    {
        r.push(decimal_string(x));
        proof {
            lemma_two_to_grows((i + 2) as nat, 50);
            assert(two_to((i + 2) as nat) == 2 * two_to((i + 1) as nat));
        }
        let z: u64 = x + y;
        x = y;
        y = z;
        i = i + 1;
    }
    r
}

/// The first `n` Fibonacci numbers `0, 1, 1, 2, ...` as decimal text.
pub fn generate_fibonacci(n: usize) -> (r: Vec<String>)
    requires
        n <= MAX_FIBONACCI_TERMS,
    ensures
        r@.len() == n,
        forall|k: int| 0 <= k < n ==> (#[trigger] r@[k])@ == decimal(fibonacci(k as nat)),
{
    generate(0, 1, n)
}

/// The first `n` Lucas numbers `2, 1, 3, 4, ...` as decimal text.
pub fn generate_lucas(n: usize) -> (r: Vec<String>)
    requires
        n <= MAX_LUCAS_TERMS,
    ensures
        r@.len() == n,
        forall|k: int| 0 <= k < n ==> (#[trigger] r@[k])@ == decimal(lucas(k as nat)),
{
    generate(2, 1, n)
}

} // verus!
