use vstd::prelude::*;
use vstd::arithmetic::power2::{pow2, lemma2_to64, lemma_pow2_strictly_increases};
use crate::text::push_char;

verus! {

/// `char::to_ascii_lowercase`: ASCII capitals become small letters.
pub open spec fn ascii_lower(c: char) -> char {
    if 'A' <= c && c <= 'Z' { ((c as u8) + 32) as u8 as char } else { c }
}

/// `char::to_ascii_uppercase`: ASCII small letters become capitals.
pub open spec fn ascii_upper(c: char) -> char {
    if 'a' <= c && c <= 'z' { ((c as u8) - 32) as u8 as char } else { c }
}

/// Variant `i` of `w`: character `j` is upper case when bit `j` of `i` is set.
pub open spec fn case_variant(w: Seq<char>, i: u32) -> Seq<char> {
    Seq::new(w.len(), |j: int| if i & (1u32 << (j as u32)) == 0 { ascii_lower(w[j]) } else { ascii_upper(w[j]) })
}

fn lower_char(c: char) -> (r: char)
    ensures
        r == ascii_lower(c),
{
    if 'A' <= c && c <= 'Z' { ((c as u8) + 32) as char } else { c }
}

fn upper_char(c: char) -> (r: char)
    ensures
        r == ascii_upper(c),
{
    if 'a' <= c && c <= 'z' { ((c as u8) - 32) as char } else { c }
}

/// Every ASCII upper/lower-case spelling of `word`, one per bit pattern:
/// entry `i` capitalises character `j` exactly when bit `j` of `i` is set.
pub fn case_mutations(word: &str) -> (r: Vec<String>)
    requires
        word@.len() < 32,
    ensures
        r@.len() == pow2(word@.len()),
        forall|i: int| 0 <= i < r@.len() ==> (#[trigger] r@[i])@ == case_variant(word@, i as u32),
{
    let n = word.unicode_len();
    proof {
        lemma2_to64();
        if n < 31 {
            lemma_pow2_strictly_increases(n as nat, 31);
        }
        vstd::bits::lemma_u32_shl_is_mul(1, n as u32);
    }
    let combinations: u32 = 1u32 << (n as u32);
    let mut results: Vec<String> = Vec::new();
    let mut i: u32 = 0;
    while i < combinations
        invariant
            n == word@.len() < 32,
            combinations == pow2(n as nat),
            0 <= i <= combinations,
            results@.len() == i,
            forall|k: int| 0 <= k < i ==> (#[trigger] results@[k])@ == case_variant(word@, k as u32),
        decreases combinations - i,
    {
        let mut w = String::new();
        let mut j: usize = 0;
        while j < n
            invariant
                n == word@.len() < 32,
                0 <= j <= n,
                w@ == case_variant(word@, i).subrange(0, j as int),
            decreases n - j,
        {
            let c = word.get_char(j);
            let m = if (i & (1u32 << (j as u32))) == 0 { lower_char(c) } else { upper_char(c) };
            push_char(&mut w, m);
            assert(w@ =~= case_variant(word@, i).subrange(0, j as int + 1));
            j = j + 1;
        }
        assert(w@ =~= case_variant(word@, i));
        results.push(w);
        i = i + 1;
    }
    results
}

} // verus!
