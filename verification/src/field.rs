//! The prime field that matrix entries and probe vectors live in, and the
//! six-word form in which its elements enter and leave the library.

use vstd::prelude::*;

verus! {

/// The characteristic of the field: the 381-bit prime of the BLS12-381 base
/// field. Every entry of a matrix or vector is an integer below it, and all
/// arithmetic on entries is arithmetic modulo it.
pub open spec fn modulus() -> nat {
    4002409555221667393417789825735904156556882819939007885332058136124031650490837864442687629129015664037894272559787nat
}

/// Whether `v` is the canonical representative of a field element.
pub open spec fn is_element(v: nat) -> bool {
    v < modulus()
}

/// Whether every value of the list is the canonical representative of a
/// field element.
pub open spec fn all_elements(s: Seq<nat>) -> bool {
    forall|k: int| 0 <= k < s.len() ==> is_element(#[trigger] s[k])
}

/// An integer below `2^384` as six 64-bit words, least significant first.
pub type Limbs = [u64; 6];

/// The integer that six words stand for.
pub open spec fn limbs_value(l: Limbs) -> nat {
    (l[0] as nat) + (l[1] as nat) * 0x1_0000_0000_0000_0000 + (l[2] as nat)
        * 0x1_0000_0000_0000_0000_0000_0000_0000_0000 + (l[3] as nat)
        * 0x1_0000_0000_0000_0000_0000_0000_0000_0000_0000_0000_0000_0000 + (l[4] as nat)
        * 0x1_0000_0000_0000_0000_0000_0000_0000_0000_0000_0000_0000_0000_0000_0000_0000_0000
        + (l[5] as nat)
        * 0x1_0000_0000_0000_0000_0000_0000_0000_0000_0000_0000_0000_0000_0000_0000_0000_0000_0000_0000_0000_0000
}

/// The integers that a list of six-word values stands for.
pub open spec fn limb_values(s: Seq<Limbs>) -> Seq<nat> {
    Seq::new(s.len(), |k: int| limbs_value(s[k]))
}

/// Whether every value of the list is below the modulus.
pub open spec fn all_canonical(s: Seq<Limbs>) -> bool {
    forall|k: int| 0 <= k < s.len() ==> is_element(#[trigger] limbs_value(s[k]))
}

/// A list of six-word values that are all below the modulus stands for a
/// list of field elements.
pub proof fn lemma_canonical_values(s: Seq<Limbs>)
    requires
        all_canonical(s),
    ensures
        all_elements(limb_values(s)),
{
    assert forall|k: int| 0 <= k < limb_values(s).len() implies is_element(
        #[trigger] limb_values(s)[k],
    ) by {
        assert(is_element(limbs_value(s[k])));
    }
}

/// The field elements that stand for a list of unsigned integers: each
/// integer is its own representative.
pub open spec fn embed(values: Seq<u64>) -> Seq<nat> {
    Seq::new(values.len(), |k: int| values[k] as nat)
}

/// Whether the six words hold an integer below the modulus, that is, the
/// canonical representative of a field element.
pub fn is_canonical(l: &Limbs) -> (r: bool)
    ensures
        r == is_element(limbs_value(*l)),
{
    if l[5] != 0x1a0111ea397fe69a {
        l[5] < 0x1a0111ea397fe69a
    } else if l[4] != 0x4b1ba7b6434bacd7 {
        l[4] < 0x4b1ba7b6434bacd7
    } else if l[3] != 0x64774b84f38512bf {
        l[3] < 0x64774b84f38512bf
    } else if l[2] != 0x6730d2a0f6b0f624 {
        l[2] < 0x6730d2a0f6b0f624
    } else if l[1] != 0x1eabfffeb153ffff {
        l[1] < 0x1eabfffeb153ffff
    } else {
        l[0] < 0xb9feffffffffaaab
    }
}

/// Whether every value of the list is canonical.
pub fn are_canonical(data: &Vec<Limbs>) -> (r: bool)
    ensures
        r == all_canonical(data@),
{
    let mut k: usize = 0;
    while k < data.len()
        invariant
            k <= data.len(),
            forall|j: int| 0 <= j < k ==> is_element(#[trigger] limbs_value(data@[j])),
        decreases data.len() - k,
    {
        if !is_canonical(&data[k]) {
            return false;
        }
        k = k + 1;
    }
    true
}

/// The six words of an unsigned 64-bit integer. Every such integer is below
/// the modulus, so the words are canonical.
pub fn limbs_of(value: u64) -> (r: Limbs)
    ensures
        limbs_value(r) == value,
        is_element(limbs_value(r)),
{
    [value, 0, 0, 0, 0, 0]
}

/// The six-word forms of a list of unsigned 64-bit integers.
pub fn widen(values: &Vec<u64>) -> (r: Vec<Limbs>)
    ensures
        r@.len() == values@.len(),
        all_canonical(r@),
        limb_values(r@) == embed(values@),
{
    let mut out: Vec<Limbs> = Vec::new();
    let mut k: usize = 0;
    while k < values.len()
        invariant
            k <= values.len(),
            out@.len() == k,
            forall|j: int| 0 <= j < k ==> #[trigger] limbs_value(out@[j]) == values@[j],
        decreases values.len() - k,
    {
        out.push(limbs_of(values[k]));
        k = k + 1;
    }
    assert(limb_values(out@) =~= embed(values@));
    out
}

} // verus!
