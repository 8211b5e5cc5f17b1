//! Records in the FASTA format: a header line `>name` followed by lines of
//! symbols.

use vstd::prelude::*;
use vstd::string::{StrSliceExecFns, StringExecFns};

use crate::dna::DNA;
use crate::nucleotides::Nucleotide;
use crate::strands::{
    all_valid, count_of, first_invalid, lemma_parsed_concat, overlaps, parsed, Strand,
};

verus! {

/// A named strand.
#[derive(Debug, PartialEq, Eq)]
pub struct Fasta<T: Nucleotide> {
    pub name: String,
    pub strand: Strand<T>,
}

/// A header line starts with `>`.
pub open spec fn is_header(l: Seq<char>) -> bool {
    l.len() > 0 && l[0] == '>'
}

/// The text of all lines, joined without separators.
pub open spec fn joined(lines: Seq<Seq<char>>) -> Seq<char>
    decreases lines.len(),
{
    if lines.len() == 0 {
        Seq::empty()
    } else {
        joined(lines.drop_last()) + lines.last()
    }
}

/// The lines grouped into records: each header opens a record named by the
/// rest of its line, and the lines that follow, up to the next header, make
/// up its body.
pub open spec fn fasta_groups(lines: Seq<Seq<char>>) -> Seq<(Seq<char>, Seq<char>)>
    decreases lines.len(),
{
    if lines.len() == 0 {
        Seq::empty()
    } else {
        let prev = fasta_groups(lines.drop_last());
        let l = lines.last();
        if is_header(l) || prev.len() == 0 {
            prev.push((l.drop_first(), Seq::empty()))
        } else {
            prev.update(prev.len() - 1, (prev.last().0, prev.last().1 + l))
        }
    }
}

/// The first line, if any, is a header, and every other line holds only
/// symbols of `T`'s alphabet.
pub open spec fn well_formed_lines<T: Nucleotide>(lines: Seq<Seq<char>>) -> bool {
    &&& lines.len() > 0 ==> is_header(lines[0])
    &&& forall|i: int| 0 <= i < lines.len() && !is_header(#[trigger] lines[i]) ==> all_valid::<T>(lines[i])
}

pub open spec fn str_views(lines: Seq<&str>) -> Seq<Seq<char>> {
    Seq::new(lines.len(), |i: int| lines[i]@)
}

/// Whether a line is a header line.
pub fn line_is_header(line: &str) -> (r: bool)
    ensures
        r == is_header(line@),
{
    line.unicode_len() > 0 && line.get_char(0) == '>'
}

/// The name that a header line gives: the line without its `>`.
pub fn parse_name(line: &str) -> (r: String)
    requires
        is_header(line@),
    ensures
        r@ == line@.drop_first(),
{
    let n = line.unicode_len();
    let rest = line.substring_char(1, n);
    assert(rest@ =~= line@.drop_first());
    String::from_str(rest)
}

/// Whether `read_records` may be called on the lines.
pub fn lines_well_formed<T: Nucleotide>(lines: &[&str]) -> (r: bool)
    ensures
        r == well_formed_lines::<T>(str_views(lines@)),
{
    let ghost v = str_views(lines@);
    let n = lines.len();
    if n > 0 && !line_is_header(lines[0]) {
        return false;
    }
    let mut i: usize = 0;
    while i < n
        invariant
            n == lines@.len() == v.len(),
            v == str_views(lines@),
            i <= n,
            n > 0 ==> is_header(v[0]),
            forall|k: int| 0 <= k < i && !is_header(#[trigger] v[k]) ==> all_valid::<T>(v[k]),
        decreases n - i,
    {
        if !line_is_header(lines[i]) {
            match Strand::<T>::parse(lines[i]) {
                Ok(_) => {},
                Err(_) => {
                    proof {
                        let l = v[i as int];
                        let j = choose|j: int| first_invalid::<T>(l, j);
                        assert(!all_valid::<T>(l));
                    }
                    return false;
                },
            }
        }
        i = i + 1;
    }
    true
}

impl<T: Nucleotide> Fasta<T> {
    /// Builds one record from its lines: the header first, then the lines of
    /// its strand.
    pub fn from_lines(lines: &[&str]) -> (r: Fasta<T>)
        requires
            lines@.len() > 0,
            well_formed_lines::<T>(str_views(lines@)),
            forall|i: int| 1 <= i < lines@.len() ==> !is_header(#[trigger] lines@[i]@),
        ensures
            r.name@ == lines@[0]@.drop_first(),
            r.strand@ == parsed::<T>(joined(str_views(lines@).drop_first())),
    {
        let ghost v = str_views(lines@);
        let name = parse_name(lines[0]);
        let mut strand: Strand<T> = Strand::new(Vec::new());
        let mut i: usize = 1;
        assert(v.subrange(1, 1) =~= Seq::<Seq<char>>::empty());
        while i < lines.len()
            invariant
                v == str_views(lines@),
                well_formed_lines::<T>(v),
                forall|k: int| 1 <= k < lines@.len() ==> !is_header(#[trigger] lines@[k]@),
                1 <= i <= lines@.len(),
                strand@ == parsed::<T>(joined(v.subrange(1, i as int))),
            decreases lines@.len() - i,
        {
            assert(!is_header(v[i as int]));
            let line = Strand::<T>::parse(lines[i]);
            match line {
                Ok(line) => {
                    proof {
                        assert(v.subrange(1, i + 1).drop_last() =~= v.subrange(1, i as int));
                        lemma_parsed_concat::<T>(joined(v.subrange(1, i as int)), v[i as int]);
                    }
                    strand.extend(&line);
                },
                Err(_) => {
                    assert(false);
                },
            }
            i = i + 1;
        }
        assert(v.subrange(1, i as int) =~= v.drop_first());
        Fasta { name, strand }
    }
}

/// The lines of a file that was read without error.
pub open spec fn ok_lines<E>(lines: Seq<Result<String, E>>) -> Seq<Seq<char>> {
    Seq::new(lines.len(), |i: int| lines[i]->Ok_0@)
}

/// Every line was read without error.
pub open spec fn all_ok<E>(lines: Seq<Result<String, E>>) -> bool {
    forall|i: int| 0 <= i < lines.len() ==> (#[trigger] lines[i]) is Ok
}

/// Reads lines that came from a file into records; see `read_records`.
pub fn read_records_from_result_lines<T: Nucleotide, E>(lines: &Vec<Result<String, E>>) -> (r: Vec<
    Fasta<T>,
>)
    requires
        all_ok(lines@),
        well_formed_lines::<T>(ok_lines(lines@)),
    ensures
        r@.len() == fasta_groups(ok_lines(lines@)).len(),
        forall|k: int|
            0 <= k < r@.len() ==> (#[trigger] r@[k]).name@ == fasta_groups(ok_lines(lines@))[k].0
                && r@[k].strand@ == parsed::<T>(fasta_groups(ok_lines(lines@))[k].1),
{
    let mut texts: Vec<&str> = Vec::new();
    let mut i: usize = 0;
    while i < lines.len()
        invariant
            all_ok(lines@),
            i <= lines@.len(),
            texts@.len() == i,
            forall|j: int| 0 <= j < i ==> (#[trigger] texts@[j])@ == lines@[j]->Ok_0@,
        decreases lines@.len() - i,
    {
        assert(lines@[i as int] is Ok);
        match &lines[i] {
            Ok(line) => texts.push(line.as_str()),
            Err(_) => {},
        }
        i = i + 1;
    }
    assert(str_views(texts@) =~= ok_lines(lines@));
    read_records(texts.as_slice())
}

/// Reads lines into records: each header line opens a record, and the lines
/// up to the next header are joined into its strand.
pub fn read_records<T: Nucleotide>(lines: &[&str]) -> (r: Vec<Fasta<T>>)
    requires
        well_formed_lines::<T>(str_views(lines@)),
    ensures
        r@.len() == fasta_groups(str_views(lines@)).len(),
        forall|k: int|
            0 <= k < r@.len() ==> (#[trigger] r@[k]).name@ == fasta_groups(str_views(lines@))[k].0
                && r@[k].strand@ == parsed::<T>(fasta_groups(str_views(lines@))[k].1),
{
    let ghost v = str_views(lines@);
    let n = lines.len();
    let mut records: Vec<Fasta<T>> = Vec::new();
    let mut open = false;
    let mut name = String::new();
    let mut strand: Strand<T> = Strand::new(Vec::new());
    let mut i: usize = 0;
    while i < n
        invariant
            n == lines@.len() == v.len(),
            v == str_views(lines@),
            well_formed_lines::<T>(v),
            i <= n,
            open == (fasta_groups(v.subrange(0, i as int)).len() > 0),
            open ==> records@.len() + 1 == fasta_groups(v.subrange(0, i as int)).len(),
            !open ==> records@.len() == 0,
            open ==> name@ == fasta_groups(v.subrange(0, i as int)).last().0,
            open ==> all_valid::<T>(fasta_groups(v.subrange(0, i as int)).last().1),
            open ==> strand@ == parsed::<T>(fasta_groups(v.subrange(0, i as int)).last().1),
            forall|k: int|
                0 <= k < records@.len() ==> (#[trigger] records@[k]).name@ == fasta_groups(
                    v.subrange(0, i as int),
                )[k].0 && records@[k].strand@ == parsed::<T>(
                    fasta_groups(v.subrange(0, i as int))[k].1,
                ),
        decreases n - i,
    {
        let ghost before = fasta_groups(v.subrange(0, i as int));
        proof {
            assert(v.subrange(0, i + 1).drop_last() =~= v.subrange(0, i as int));
            assert(v.subrange(0, i + 1).last() == v[i as int]);
        }
        let line = lines[i];
        if line_is_header(line) || !open {
            proof {
                if !open && i > 0 {
                    assert(v.subrange(0, i as int).len() > 0);
                }
                if i == 0 {
                    assert(is_header(v[0]));
                }
            }
            if open {
                records.push(Fasta { name, strand });
            }
            name = parse_name(line);
            strand = Strand::new(Vec::new());
            open = true;
            proof {
                assert(parsed::<T>(Seq::<char>::empty()) =~= Seq::<T>::empty());
            }
        } else {
            match Strand::<T>::parse(line) {
                Ok(more) => {
                    proof {
                        lemma_parsed_concat::<T>(before.last().1, v[i as int]);
                    }
                    strand.extend(&more);
                },
                Err(_) => {
                    assert(false);
                },
            }
        }
        i = i + 1;
    }
    assert(v.subrange(0, n as int) =~= v);
    if open {
        records.push(Fasta { name, strand });
    }
    records
}

/// The G and C bases of a strand.
pub open spec fn gc_of(s: Seq<DNA>) -> nat {
    count_of(s, DNA::G) + count_of(s, DNA::C)
}

/// Record `i` has GC content (a strand with at least one base) and no
/// record has more; no record before it has as much.
pub open spec fn is_highest_gc(records: Seq<Fasta<DNA>>, i: int) -> bool {
    &&& 0 <= i < records.len()
    &&& records[i].strand@.len() > 0
    &&& forall|j: int|
        0 <= j < records.len() && (#[trigger] records[j]).strand@.len() > 0 ==> gc_of(
            records[j].strand@,
        ) * records[i].strand@.len() <= gc_of(records[i].strand@) * records[j].strand@.len()
    &&& forall|j: int|
        0 <= j < i && (#[trigger] records[j]).strand@.len() > 0 ==> gc_of(records[j].strand@)
            * records[i].strand@.len() < gc_of(records[i].strand@) * records[j].strand@.len()
}

proof fn lemma_gc_bound(s: Seq<DNA>)
    ensures
        gc_of(s) <= s.len(),
{
    lemma_gc_prefix(s, s.len() as int);
}

proof fn lemma_gc_prefix(s: Seq<DNA>, n: int)
    requires
        0 <= n <= s.len(),
    ensures
        crate::strands::count_prefix(s, DNA::G, n) + crate::strands::count_prefix(s, DNA::C, n) <= n,
    decreases n,
{
    if n > 0 {
        lemma_gc_prefix(s, n - 1);
    }
}

/// The record with the highest GC content, the first of equals. A record
/// with an empty strand has no GC content and is passed over; `None` when
/// no record has a base.
pub fn highest_gc_content(records: &Vec<Fasta<DNA>>) -> (r: Option<usize>)
    ensures
        r is Some ==> is_highest_gc(records@, r->0 as int),
        r is None ==> forall|j: int| 0 <= j < records@.len() ==> (#[trigger] records@[j]).strand@.len() == 0,
{
    let mut best: Option<usize> = None;
    let mut best_gc: u128 = 0;
    let mut best_len: u128 = 0;
    let mut i: usize = 0;
    while i < records.len()
        invariant
            i <= records@.len(),
            best is None ==> forall|j: int| 0 <= j < i ==> (#[trigger] records@[j]).strand@.len() == 0,
            best is Some ==> {
                let b = best->0 as int;
                &&& 0 <= b < i
                &&& best_gc == gc_of(records@[b].strand@)
                &&& best_len == records@[b].strand@.len()
                &&& best_len > 0
                &&& forall|j: int|
                    0 <= j < i && (#[trigger] records@[j]).strand@.len() > 0 ==> gc_of(
                        records@[j].strand@,
                    ) * best_len <= best_gc * records@[j].strand@.len()
                &&& forall|j: int|
                    0 <= j < b && (#[trigger] records@[j]).strand@.len() > 0 ==> gc_of(
                        records@[j].strand@,
                    ) * best_len < best_gc * records@[j].strand@.len()
            },
            best_gc <= best_len <= usize::MAX,
        decreases records@.len() - i,
    {
        let len = records[i].strand.len();
        let gc = records[i].strand.gc_count();
        proof {
            lemma_gc_bound(records@[i as int].strand@);
        }
        if len > 0 {
            let gc = gc as u128;
            let len = len as u128;
            match best {
                None => {
                    best = Some(i);
                    best_gc = gc;
                    best_len = len;
                },
                Some(_) => {
                    proof {
                        assert(gc * best_len <= usize::MAX * usize::MAX) by (nonlinear_arith)
                            requires
                                gc <= usize::MAX,
                                best_len <= usize::MAX,
                        ;
                        assert(best_gc * len <= usize::MAX * usize::MAX) by (nonlinear_arith)
                            requires
                                best_gc <= usize::MAX,
                                len <= usize::MAX,
                        ;
                        assert(usize::MAX * usize::MAX <= u128::MAX) by (nonlinear_arith)
                            requires
                                usize::MAX <= u64::MAX,
                        ;
                    }
                    if gc * best_len > best_gc * len {
                        let ghost old_b = best->0 as int;
                        proof {
                            let g = gc as int;
                            let l = len as int;
                            let bg = best_gc as int;
                            let bl = best_len as int;
                            assert forall|j: int|
                                0 <= j < i + 1 && (#[trigger] records@[j]).strand@.len()
                                    > 0 implies gc_of(records@[j].strand@) * l <= g
                                * records@[j].strand@.len() by {
                                if j < i {
                                    let jg = gc_of(records@[j].strand@) as int;
                                    let jl = records@[j].strand@.len() as int;
                                    assert(jg * bl <= bg * jl);
                                    assert(jg * l <= g * jl) by (nonlinear_arith)
                                        requires
                                            jg * bl <= bg * jl,
                                            g * bl > bg * l,
                                            bl > 0,
                                            l > 0,
                                            jl > 0,
                                            jg >= 0,
                                            bg >= 0,
                                    ;
                                }
                            }
                            assert forall|j: int|
                                0 <= j < i && (#[trigger] records@[j]).strand@.len() > 0 implies gc_of(
                                records@[j].strand@,
                            ) * l < g * records@[j].strand@.len() by {
                                let jg = gc_of(records@[j].strand@) as int;
                                let jl = records@[j].strand@.len() as int;
                                assert(jg * bl <= bg * jl);
                                assert(jg * l < g * jl) by (nonlinear_arith)
                                    requires
                                        jg * bl <= bg * jl,
                                        g * bl > bg * l,
                                        bl > 0,
                                        l > 0,
                                        jl > 0,
                                        jg >= 0,
                                        bg >= 0,
                                ;
                            }
                        }
                        best = Some(i);
                        best_gc = gc;
                        best_len = len;
                    }
                },
            }
        }
        i = i + 1;
    }
    best
}

/// The pairs `(i, j)` of distinct rows below `m` (all columns below `n`)
/// whose strands overlap by `k`, row by row.
pub open spec fn overlap_pairs_upto<T: Nucleotide>(s: Seq<Seq<T>>, k: int, m: int, n: int) -> Seq<(usize, usize)>
    decreases m, n,
{
    if m <= 0 {
        Seq::empty()
    } else if n <= 0 {
        overlap_pairs_upto(s, k, m - 1, s.len() as int)
    } else {
        let prev = overlap_pairs_upto(s, k, m, n - 1);
        if m - 1 != n - 1 && overlaps(s[m - 1], s[n - 1], k) {
            prev.push(((m - 1) as usize, (n - 1) as usize))
        } else {
            prev
        }
    }
}

/// The strands of a batch of records.
pub open spec fn record_strands<T: Nucleotide>(records: Seq<Fasta<T>>) -> Seq<Seq<T>> {
    Seq::new(records.len(), |j: int| records[j].strand@)
}

/// The overlap graph: every ordered pair of distinct records where the
/// first one's strand ends with the `k` symbols that the second one's
/// begins with, in row-major order.
pub fn overlap_pairs<T: Nucleotide>(records: &Vec<Fasta<T>>, k: usize) -> (r: Vec<(usize, usize)>)
    ensures
        r@ == overlap_pairs_upto(
            record_strands(records@),
            k as int,
            records@.len() as int,
            records@.len() as int,
        ),
{
    let ghost s = record_strands(records@);
    let n = records.len();
    let mut out: Vec<(usize, usize)> = Vec::new();
    let mut i: usize = 0;
    while i < n
        invariant
            s == record_strands(records@),
            n == records@.len() == s.len(),
            i <= n,
            out@ == overlap_pairs_upto(s, k as int, i as int, n as int),
        decreases n - i,
    {
        let mut j: usize = 0;
        assert(overlap_pairs_upto(s, k as int, i + 1, 0) == overlap_pairs_upto(s, k as int, i as int, n as int));
        while j < n
            invariant
                s == record_strands(records@),
                n == records@.len() == s.len(),
                i < n,
                j <= n,
                out@ == overlap_pairs_upto(s, k as int, i + 1, j as int),
            decreases n - j,
        {
            if i != j && records[i].strand.overlaps_with_length(&records[j].strand, k) {
                out.push((i, j));
            }
            j = j + 1;
        }
        i = i + 1;
    }
    out
}

} // verus!
