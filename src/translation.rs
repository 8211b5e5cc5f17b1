//! Translation of RNA into protein: codon by codon, then cut to the open
//! reading frame.

use vstd::prelude::*;

use crate::nucleotides::same_symbol;
use crate::protein::{codon_amino, AminoAcid};
use crate::rna::{Codon, RNA};
use crate::strands::Strand;

verus! {

/// The `i`-th codon of `s`.
pub open spec fn codon_at(s: Seq<RNA>, i: int) -> Codon {
    (s[3 * i], s[3 * i + 1], s[3 * i + 2])
}

/// Each complete codon of `s` looked up in the codon table, in order.
pub open spec fn translate_codons(s: Seq<RNA>) -> Seq<AminoAcid> {
    Seq::new(s.len() / 3, |i: int| codon_amino(codon_at(s, i)))
}

/// Drops everything before the first methionine.
pub open spec fn skip_to_start(p: Seq<AminoAcid>) -> Seq<AminoAcid>
    decreases p.len(),
{
    if p.len() == 0 || p[0] == AminoAcid::M {
        p
    } else {
        skip_to_start(p.drop_first())
    }
}

/// Keeps everything before the first stop.
pub open spec fn take_to_stop(p: Seq<AminoAcid>) -> Seq<AminoAcid>
    decreases p.len(),
{
    if p.len() == 0 || p[0] == AminoAcid::Stop {
        Seq::empty()
    } else {
        seq![p[0]] + take_to_stop(p.drop_first())
    }
}

/// From the first methionine (kept) up to the first stop after it (dropped);
/// empty when there is no methionine.
pub open spec fn open_reading_frame(p: Seq<AminoAcid>) -> Seq<AminoAcid> {
    take_to_stop(skip_to_start(p))
}

/// The protein that an RNA strand codes for.
pub open spec fn translation(s: Seq<RNA>) -> Seq<AminoAcid> {
    open_reading_frame(translate_codons(s))
}

/// Looks up every codon of `rna`, in order.
pub fn translate_each_codon(rna: &Strand<RNA>) -> (r: Vec<AminoAcid>)
    requires
        rna@.len() % 3 == 0,
    ensures
        r@ == translate_codons(rna@),
{
    let n = rna.len();
    let mut out: Vec<AminoAcid> = Vec::new();
    let mut k: usize = 0;
    while k < n
        invariant
            n == rna@.len(),
            n % 3 == 0,
            k % 3 == 0,
            k <= n,
            out@.len() == k / 3,
            forall|i: int| 0 <= i < out@.len() ==> out@[i] == codon_amino(codon_at(rna@, i)),
        decreases n - k,
    {
        let codon = (rna.get(k), rna.get(k + 1), rna.get(k + 2));
        proof {
            assert(codon == codon_at(rna@, k as int / 3));
        }
        out.push(AminoAcid::from_codon(codon));
        k = k + 3;
    }
    assert(out@ =~= translate_codons(rna@));
    out
}

impl Strand<AminoAcid> {
    /// Translates an RNA strand: codon by codon, then keeps the stretch
    /// from the first methionine up to (not including) the first stop after
    /// it.
    pub fn from_rna(rna: &Strand<RNA>) -> (r: Strand<AminoAcid>)
        requires
            rna@.len() % 3 == 0,
        ensures
            r@ == translation(rna@),
    {
        let p = translate_each_codon(rna);
        let n = p.len();
        let mut i: usize = 0;
        assert(p@.subrange(0, n as int) =~= p@);
        while i < n && !same_symbol(&p[i], &AminoAcid::M)
            invariant
                n == p@.len(),
                i <= n,
                skip_to_start(p@.subrange(i as int, n as int)) == skip_to_start(p@),
            decreases n - i,
        {
            assert(p@.subrange(i as int, n as int).drop_first() =~= p@.subrange(
                i + 1,
                n as int,
            ));
            i = i + 1;
        }
        assert(skip_to_start(p@.subrange(i as int, n as int)) == p@.subrange(i as int, n as int));
        let ghost frame = take_to_stop(p@.subrange(i as int, n as int));
        let mut out: Vec<AminoAcid> = Vec::new();
        let mut j: usize = i;
        while j < n && !same_symbol(&p[j], &AminoAcid::Stop)
            invariant
                n == p@.len(),
                i <= j <= n,
                out@ + take_to_stop(p@.subrange(j as int, n as int)) == frame,
            decreases n - j,
        {
            assert(p@.subrange(j as int, n as int).drop_first() =~= p@.subrange(
                j + 1,
                n as int,
            ));
            assert(out@.push(p@[j as int]) + take_to_stop(p@.subrange(j + 1, n as int))
                =~= out@ + take_to_stop(p@.subrange(j as int, n as int)));
            out.push(p[j]);
            j = j + 1;
        }
        assert(out@ =~= frame);
        Strand::new(out)
    }
}

} // verus!
