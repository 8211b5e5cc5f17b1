//! Column-wise summaries of a batch of equal-length strands: the profile
//! (per-column symbol counts) and the consensus (per-column majority).

use vstd::prelude::*;

use crate::fasta::{
    all_ok, fasta_groups, ok_lines, read_records_from_result_lines, well_formed_lines, Fasta,
};
use crate::nucleotides::Nucleotide;
use crate::strands::{parsed, Strand};
use crate::text::{decimal, push_char, push_decimal};

verus! {

/// The strands of a batch of records.
pub open spec fn strands_of<T: Nucleotide>(records: Seq<Fasta<T>>) -> Seq<Seq<T>> {
    Seq::new(records.len(), |j: int| records[j].strand@)
}

/// All strands have the length of the first.
pub open spec fn same_length<T>(s: Seq<Seq<T>>) -> bool {
    forall|j: int| 0 <= j < s.len() ==> (#[trigger] s[j]).len() == s[0].len()
}

/// The common length of the strands; zero for an empty batch.
pub open spec fn width_of<T>(s: Seq<Seq<T>>) -> nat {
    if s.len() == 0 {
        0
    } else {
        s[0].len()
    }
}

/// How many of the first `n` strands hold, at column `i`, the symbol of
/// rank `k`.
pub open spec fn column_count<T: Nucleotide>(s: Seq<Seq<T>>, k: int, i: int, n: int) -> nat
    decreases n,
{
    if n <= 0 {
        0
    } else {
        column_count(s, k, i, n - 1) + if s[n - 1][i].rank() == k {
            1nat
        } else {
            0nat
        }
    }
}

/// The counts at column `i` of the ranks below `m`, over the first `n`
/// strands, added up.
pub open spec fn column_total<T: Nucleotide>(s: Seq<Seq<T>>, i: int, m: int, n: int) -> nat
    decreases m,
{
    if m <= 0 {
        0
    } else {
        column_total(s, i, m - 1, n) + column_count(s, m - 1, i, n)
    }
}

/// Rank `b` holds the most strands at column `i`, and no rank before it
/// holds as many: ties go to the symbol first in enumeration order.
pub open spec fn is_consensus_rank<T: Nucleotide>(s: Seq<Seq<T>>, i: int, b: int) -> bool {
    let n = s.len() as int;
    &&& 0 <= b < T::alphabet_size()
    &&& forall|m: int|
        0 <= m < T::alphabet_size() ==> #[trigger] column_count(s, m, i, n) <= column_count(
            s,
            b,
            i,
            n,
        )
    &&& forall|m: int| 0 <= m < b ==> #[trigger] column_count(s, m, i, n) < column_count(s, b, i, n)
}

proof fn lemma_column_total_step<T: Nucleotide>(s: Seq<Seq<T>>, i: int, m: int, n: int)
    requires
        n > 0,
        m >= 0,
    ensures
        column_total(s, i, m, n) == column_total(s, i, m, n - 1) + if s[n - 1][i].rank() < m {
            1nat
        } else {
            0nat
        },
    decreases m,
{
    if m > 0 {
        lemma_column_total_step(s, i, m - 1, n);
    }
}

proof fn lemma_column_total_empty<T: Nucleotide>(s: Seq<Seq<T>>, i: int, m: int)
    ensures
        column_total(s, i, m, 0) == 0,
    decreases m,
{
    if m > 0 {
        lemma_column_total_empty(s, i, m - 1);
    }
}

/// In every column, the counts of all symbols add up to the number of
/// strands.
pub proof fn lemma_profile_conservation<T: Nucleotide>(s: Seq<Seq<T>>, i: int, n: int)
    requires
        0 <= n <= s.len(),
        0 <= i,
        forall|j: int| 0 <= j < n ==> i < (#[trigger] s[j]).len(),
    ensures
        column_total(s, i, T::alphabet_size() as int, n) == n,
    decreases n,
{
    if n == 0 {
        lemma_column_total_empty(s, i, T::alphabet_size() as int);
    } else {
        assert(i < s[n - 1].len());
        lemma_profile_conservation(s, i, n - 1);
        lemma_column_total_step(s, i, T::alphabet_size() as int, n);
        T::lemma_rank_bounded(s[n - 1][i]);
    }
}

/// Counts written in decimal, separated by single spaces.
pub open spec fn counts_text(c: Seq<usize>) -> Seq<char>
    decreases c.len(),
{
    if c.len() == 0 {
        Seq::empty()
    } else if c.len() == 1 {
        decimal(c[0] as nat)
    } else {
        counts_text(c.drop_last()) + seq![' '] + decimal(c.last() as nat)
    }
}

/// The text of the first `m` rows of a profile: per row, the symbol, a
/// colon, a space, its counts and a line break.
pub open spec fn profile_text<T: Nucleotide>(rows: Seq<(T, Seq<usize>)>, m: int) -> Seq<char>
    decreases m,
{
    if m <= 0 {
        Seq::empty()
    } else {
        profile_text(rows, m - 1) + seq![rows[m - 1].0.symbol_char(), ':', ' '] + counts_text(
            rows[m - 1].1,
        ) + seq!['\n']
    }
}

/// The strands that well-formed lines give.
pub open spec fn strands_of_lines<T: Nucleotide>(lines: Seq<Seq<char>>) -> Seq<Seq<T>> {
    Seq::new(fasta_groups(lines).len(), |k: int| parsed::<T>(fasta_groups(lines)[k].1))
}

/// A batch of records whose strands are compared column by column.
pub struct Matrix<T: Nucleotide> {
    pub records: Vec<Fasta<T>>,
}

/// Per-column symbol counts: one row per alphabet member, in enumeration
/// order, each with one count per column.
#[derive(Debug, PartialEq, Eq)]
pub struct Profile<T: Nucleotide> {
    rows: Vec<(T, Vec<usize>)>,
    strand_len: usize,
}

impl<T: Nucleotide> Profile<T> {
    /// Number of columns.
    pub closed spec fn width(&self) -> nat {
        self.strand_len as nat
    }

    /// The count of the symbol of rank `k` at column `i`.
    pub closed spec fn count(&self, k: int, i: int) -> nat {
        self.rows@[k].1@[i] as nat
    }

    pub closed spec fn wf(&self) -> bool {
        &&& self.rows@.len() == T::alphabet_size()
        &&& forall|k: int| 0 <= k < self.rows@.len() ==> (#[trigger] self.rows@[k]).0.rank() == k
        &&& forall|k: int| 0 <= k < self.rows@.len() ==> (#[trigger] self.rows@[k]).1@.len() == self.strand_len
    }

    /// Each row's symbol and counts, in enumeration order.
    pub closed spec fn rows_view(&self) -> Seq<(T, Seq<usize>)> {
        Seq::new(self.rows@.len(), |k: int| (self.rows@[k].0, self.rows@[k].1@))
    }

    /// The text form: one line per alphabet member, `X: c1 c2 ...`.
    pub fn to_string(&self) -> (r: String)
        ensures
            r@ == profile_text(self.rows_view(), self.rows_view().len() as int),
    {
        let ghost rv = self.rows_view();
        let mut out = String::new();
        let mut k: usize = 0;
        while k < self.rows.len()
            invariant
                rv == self.rows_view(),
                k <= self.rows@.len(),
                out@ == profile_text(rv, k as int),
            decreases self.rows@.len() - k,
        {
            let ghost line_start = out@;
            push_char(&mut out, self.rows[k].0.to_char());
            push_char(&mut out, ':');
            push_char(&mut out, ' ');
            let ghost head = out@;
            let counts = &self.rows[k].1;
            let mut j: usize = 0;
            while j < counts.len()
                invariant
                    rv == self.rows_view(),
                    k < self.rows@.len(),
                    counts@ == rv[k as int].1,
                    j <= counts@.len(),
                    out@ == head + counts_text(counts@.subrange(0, j as int)),
                decreases counts@.len() - j,
            {
                let ghost prev = out@;
                if j > 0 {
                    push_char(&mut out, ' ');
                }
                push_decimal(&mut out, counts[j]);
                proof {
                    let c = counts@.subrange(0, j + 1);
                    assert(c.drop_last() =~= counts@.subrange(0, j as int));
                    if j == 0 {
                        assert(counts_text(counts@.subrange(0, 0)) =~= Seq::<char>::empty());
                        assert(out@ =~= head + counts_text(c));
                    } else {
                        assert(out@ =~= head + counts_text(c));
                    }
                }
                j = j + 1;
            }
            push_char(&mut out, '\n');
            proof {
                assert(counts@.subrange(0, j as int) =~= counts@);
                assert(out@ =~= profile_text(rv, k + 1));
            }
            k = k + 1;
        }
        out
    }

    /// The number of columns.
    pub fn len(&self) -> (r: usize)
        ensures
            r == self.width(),
    {
        self.strand_len
    }

    /// The counts of one symbol, column by column.
    pub fn row(&self, n: &T) -> (r: Vec<usize>)
        requires
            self.wf(),
        ensures
            r@.len() == self.width(),
            forall|i: int| 0 <= i < r@.len() ==> r@[i] == self.count(n.rank() as int, i),
    {
        proof {
            T::lemma_rank_bounded(*n);
        }
        self.rows[n.index()].1.clone()
    }

    /// The consensus: at each column the symbol with the highest count;
    /// among equal counts, the one first in enumeration order.
    pub fn consensus(&self) -> (r: Strand<T>)
        requires
            self.wf(),
        ensures
            r@.len() == self.width(),
            forall|i: int|
                0 <= i < r@.len() ==> {
                    let b = (#[trigger] r@[i]).rank() as int;
                    &&& b < T::alphabet_size()
                    &&& forall|m: int| 0 <= m < T::alphabet_size() ==> self.count(m, i) <= self.count(b, i)
                    &&& forall|m: int| 0 <= m < b ==> self.count(m, i) < self.count(b, i)
                },
    {
        let size = self.rows.len();
        let mut out: Vec<T> = Vec::new();
        let mut i: usize = 0;
        while i < self.strand_len
            invariant
                self.wf(),
                size == self.rows@.len(),
                i <= self.strand_len,
                out@.len() == i,
                forall|j: int|
                    0 <= j < i ==> {
                        let b = (#[trigger] out@[j]).rank() as int;
                        &&& b < T::alphabet_size()
                        &&& forall|m: int| 0 <= m < T::alphabet_size() ==> self.count(m, j) <= self.count(b, j)
                        &&& forall|m: int| 0 <= m < b ==> self.count(m, j) < self.count(b, j)
                    },
            decreases self.strand_len - i,
        {
            let mut best: usize = 0;
            let mut k: usize = 1;
            proof {
                T::lemma_rank_bounded(self.rows@[0].0);
            }
            while k < size
                invariant
                    self.wf(),
                    size == self.rows@.len(),
                    i < self.strand_len,
                    0 < size,
                    best < k <= size,
                    forall|m: int| 0 <= m < k ==> self.count(m, i as int) <= self.count(best as int, i as int),
                    forall|m: int| 0 <= m < best ==> self.count(m, i as int) < self.count(best as int, i as int),
                decreases size - k,
            {
                if self.rows[k].1[i] > self.rows[best].1[i] {
                    best = k;
                }
                k = k + 1;
            }
            out.push(self.rows[best].0);
            i = i + 1;
        }
        Strand::new(out)
    }
}

impl<T: Nucleotide> Matrix<T> {
    /// A matrix over records whose strands all have one length.
    pub fn new(records: Vec<Fasta<T>>) -> (r: Self)
        requires
            same_length(strands_of(records@)),
        ensures
            r.records@ == records@,
    {
        Matrix { records }
    }

    /// Reads lines that came from a file into a matrix; see `read_records`.
    pub fn new_from_file_lines<E>(lines: &Vec<Result<String, E>>) -> (r: Self)
        requires
            all_ok(lines@),
            well_formed_lines::<T>(ok_lines(lines@)),
            same_length(strands_of_lines::<T>(ok_lines(lines@))),
        ensures
            strands_of(r.records@) == strands_of_lines::<T>(ok_lines(lines@)),
    {
        let records = read_records_from_result_lines(lines);
        assert(strands_of(records@) =~= strands_of_lines::<T>(ok_lines(lines@)));
        Self::new(records)
    }

    /// Counts, for every alphabet member and column, the strands that hold
    /// that member there.
    pub fn profile(&self) -> (r: Profile<T>)
        requires
            same_length(strands_of(self.records@)),
        ensures
            r.wf(),
            r.width() == width_of(strands_of(self.records@)),
            forall|k: int, i: int|
                0 <= k < T::alphabet_size() && 0 <= i < r.width() ==> #[trigger] r.count(k, i)
                    == column_count(strands_of(self.records@), k, i, self.records@.len() as int),
    {
        let ghost s = strands_of(self.records@);
        let n = self.records.len();
        let width: usize = if n == 0 {
            0
        } else {
            self.records[0].strand.len()
        };
        let alphabet = T::alphabet();
        let size = alphabet.len();
        let mut rows: Vec<(T, Vec<usize>)> = Vec::new();
        let mut k: usize = 0;
        while k < size
            invariant
                s == strands_of(self.records@),
                same_length(s),
                n == s.len(),
                width == width_of(s),
                size == alphabet@.len() == T::alphabet_size(),
                forall|j: int| 0 <= j < size ==> (#[trigger] alphabet@[j]).rank() == j,
                k <= size,
                rows@.len() == k,
                forall|j: int| 0 <= j < k ==> (#[trigger] rows@[j]).0.rank() == j,
                forall|j: int| 0 <= j < k ==> (#[trigger] rows@[j]).1@.len() == width,
                forall|j: int, i: int|
                    0 <= j < k && 0 <= i < width ==> #[trigger] rows@[j].1@[i] == column_count(
                        s,
                        j,
                        i,
                        n as int,
                    ),
            decreases size - k,
        {
            let mut row: Vec<usize> = Vec::new();
            let mut i: usize = 0;
            while i < width
                invariant
                    s == strands_of(self.records@),
                    same_length(s),
                    n == s.len(),
                    width == width_of(s),
                    k < size,
                    i <= width,
                    row@.len() == i,
                    forall|c: int|
                        0 <= c < i ==> #[trigger] row@[c] == column_count(s, k as int, c, n as int),
                decreases width - i,
            {
                let mut count: usize = 0;
                let mut j: usize = 0;
                while j < n
                    invariant
                        s == strands_of(self.records@),
                        same_length(s),
                        n == s.len(),
                        width == width_of(s),
                        i < width,
                        j <= n,
                        count == column_count(s, k as int, i as int, j as int),
                        count <= j,
                    decreases n - j,
                {
                    assert(s[j as int] == self.records@[j as int].strand@);
                    if self.records[j].strand.get(i).index() == k {
                        count = count + 1;
                    }
                    j = j + 1;
                }
                row.push(count);
                i = i + 1;
            }
            rows.push((alphabet[k], row));
            k = k + 1;
        }
        Profile { rows, strand_len: width }
    }

    /// The consensus of the batch; see `Profile::consensus`.
    pub fn consensus(&self) -> (r: Strand<T>)
        requires
            same_length(strands_of(self.records@)),
        ensures
            r@.len() == width_of(strands_of(self.records@)),
            forall|i: int|
                0 <= i < r@.len() ==> is_consensus_rank(
                    strands_of(self.records@),
                    i,
                    (#[trigger] r@[i]).rank() as int,
                ),
    {
        let p = self.profile();
        let r = p.consensus();
        proof {
            let s = strands_of(self.records@);
            assert forall|i: int| 0 <= i < r@.len() implies is_consensus_rank(
                s,
                i,
                (#[trigger] r@[i]).rank() as int,
            ) by {
                let b = r@[i].rank() as int;
                assert(p.count(b, i) == column_count(s, b, i, s.len() as int));
                assert forall|m: int| 0 <= m < T::alphabet_size() implies #[trigger] column_count(
                    s,
                    m,
                    i,
                    s.len() as int,
                ) <= column_count(s, b, i, s.len() as int) by {
                    assert(p.count(m, i) == column_count(s, m, i, s.len() as int));
                }
                assert forall|m: int| 0 <= m < b implies #[trigger] column_count(
                    s,
                    m,
                    i,
                    s.len() as int,
                ) < column_count(s, b, i, s.len() as int) by {
                    assert(p.count(m, i) == column_count(s, m, i, s.len() as int));
                }
            }
        }
        r
    }
}

} // verus!
