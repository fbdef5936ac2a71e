//! Frequency table of observed insert sizes.
//!
//! A [`Histogram`] maps a positive insert size to the number of times it was
//! observed.  It is kept as a vector of `(size, count)` entries sorted by
//! strictly ascending size, with every count at least one, so that each
//! well-formed table of counts has exactly one representation.

use vstd::prelude::*;

verus! {

/// The entries are strictly sorted by size, every size is positive and every
/// count is at least one.
pub open spec fn hist_wf(s: Seq<(i32, u32)>) -> bool {
    &&& forall|i: int, j: int|
        #![trigger s[i].0, s[j].0]
        0 <= i < j < s.len() ==> s[i].0 < s[j].0
    &&& forall|i: int| 0 <= i < s.len() ==> 1 <= (#[trigger] s[i]).0
    &&& forall|i: int| 0 <= i < s.len() ==> 1 <= (#[trigger] s[i]).1
}

/// Sum of all counts in the table.
pub open spec fn hist_total(s: Seq<(i32, u32)>) -> nat
    decreases s.len(),
{
    if s.len() == 0 {
        0
    } else {
        (s[0].1 as nat) + hist_total(s.drop_first())
    }
}

/// Number of observations recorded for a given size (0 when absent).
pub open spec fn hist_count(s: Seq<(i32, u32)>, size: int) -> nat
    decreases s.len(),
{
    if s.len() == 0 {
        0
    } else {
        (if s[0].0 == size {
            s[0].1 as nat
        } else {
            0
        }) + hist_count(s.drop_first(), size)
    }
}

/// The table after recording `n` further observations of `size`: the count of
/// an existing entry is raised, or a fresh entry is put at its sorted place.
pub open spec fn hist_add(s: Seq<(i32, u32)>, size: i32, n: u32) -> Seq<(i32, u32)>
    decreases s.len(),
{
    if s.len() == 0 {
        seq![(size, n)]
    } else if s[0].0 < size {
        seq![s[0]] + hist_add(s.drop_first(), size, n)
    } else if s[0].0 == size {
        seq![(size, (s[0].1 + n) as u32)] + s.drop_first()
    } else {
        seq![(size, n)] + s
    }
}

/// The table holding, for each size, the sum of the counts of the two
/// operands: per-cell summation of two histograms.
pub open spec fn hist_merge(a: Seq<(i32, u32)>, b: Seq<(i32, u32)>) -> Seq<(i32, u32)>
    decreases b.len(),
{
    if b.len() == 0 {
        a
    } else {
        hist_add(hist_merge(a, b.drop_last()), b.last().0, b.last().1)
    }
}

pub proof fn lemma_hist_singleton(e: (i32, u32))
    ensures
        hist_total(seq![e]) == e.1 as nat,
        forall|k: int| #[trigger]
            hist_count(seq![e], k) == (if e.0 == k {
                e.1 as nat
            } else {
                0
            }),
{
    assert(seq![e].drop_first() =~= Seq::<(i32, u32)>::empty());
    assert(hist_total(Seq::<(i32, u32)>::empty()) == 0);
    assert(seq![e][0] == e);
    assert forall|k: int| #[trigger]
        hist_count(seq![e], k) == (if e.0 == k {
            e.1 as nat
        } else {
            0
        }) by {
        assert(hist_count(Seq::<(i32, u32)>::empty(), k) == 0);
    }
}

pub proof fn lemma_hist_total_concat(a: Seq<(i32, u32)>, b: Seq<(i32, u32)>)
    ensures
        hist_total(a + b) == hist_total(a) + hist_total(b),
    decreases a.len(),
{
    if a.len() == 0 {
        assert(a + b =~= b);
    } else {
        assert((a + b).drop_first() =~= a.drop_first() + b);
        lemma_hist_total_concat(a.drop_first(), b);
    }
}

pub proof fn lemma_hist_count_concat(a: Seq<(i32, u32)>, b: Seq<(i32, u32)>, size: int)
    ensures
        hist_count(a + b, size) == hist_count(a, size) + hist_count(b, size),
    decreases a.len(),
{
    if a.len() == 0 {
        assert(a + b =~= b);
    } else {
        assert((a + b).drop_first() =~= a.drop_first() + b);
        lemma_hist_count_concat(a.drop_first(), b, size);
    }
}

pub proof fn lemma_hist_count_le_total(s: Seq<(i32, u32)>, size: int)
    ensures
        hist_count(s, size) <= hist_total(s),
    decreases s.len(),
{
    if s.len() > 0 {
        lemma_hist_count_le_total(s.drop_first(), size);
    }
}

pub proof fn lemma_hist_wf_drop_first(s: Seq<(i32, u32)>)
    requires
        hist_wf(s),
        s.len() > 0,
    ensures
        hist_wf(s.drop_first()),
{
    assert(forall|i: int| 0 <= i < s.drop_first().len() ==> s.drop_first()[i] == s[i + 1]);
}

pub proof fn lemma_hist_wf_drop_last(s: Seq<(i32, u32)>)
    requires
        hist_wf(s),
        s.len() > 0,
    ensures
        hist_wf(s.drop_last()),
{
    assert(forall|i: int| 0 <= i < s.drop_last().len() ==> s.drop_last()[i] == s[i]);
}

/// A size below the least entry is absent from a sorted table.
pub proof fn lemma_hist_count_absent_low(s: Seq<(i32, u32)>, size: int)
    requires
        hist_wf(s),
        s.len() > 0,
        size < s[0].0,
    ensures
        hist_count(s, size) == 0,
    decreases s.len(),
{
    lemma_hist_wf_drop_first(s);
    assert(hist_count(s, size) == (if s[0].0 == size {
        s[0].1 as nat
    } else {
        0
    }) + hist_count(s.drop_first(), size));
    if s.drop_first().len() > 0 {
        assert(s.drop_first()[0] == s[1]);
        assert(s[0].0 < s[1].0);
        lemma_hist_count_absent_low(s.drop_first(), size);
    } else {
        assert(hist_count(s.drop_first(), size) == 0);
    }
}

/// In a well-formed table the recorded count of an entry's size is exactly
/// that entry's count: sizes occur at most once.
pub proof fn lemma_hist_index_count(s: Seq<(i32, u32)>, i: int)
    requires
        hist_wf(s),
        0 <= i < s.len(),
    ensures
        hist_count(s, s[i].0 as int) == s[i].1,
    decreases i,
{
    lemma_hist_wf_drop_first(s);
    assert(hist_count(s, s[i].0 as int) == (if s[0].0 == s[i].0 as int {
        s[0].1 as nat
    } else {
        0
    }) + hist_count(s.drop_first(), s[i].0 as int));
    if i == 0 {
        if s.drop_first().len() > 0 {
            assert(s.drop_first()[0] == s[1]);
            assert(s[0].0 < s[1].0);
            lemma_hist_count_absent_low(s.drop_first(), s[0].0 as int);
        } else {
            assert(hist_count(s.drop_first(), s[0].0 as int) == 0);
        }
    } else {
        assert(s.drop_first()[i - 1] == s[i]);
        assert(s[0].0 < s[i].0);
        lemma_hist_index_count(s.drop_first(), i - 1);
    }
}

/// What `hist_add` does to well-formedness, the total and each per-size
/// count, together with the fact that it introduces no size but `size`.
#[verifier::rlimit(80)]
pub proof fn lemma_hist_add_props(s: Seq<(i32, u32)>, size: i32, n: u32)
    requires
        hist_wf(s),
        1 <= size,
        1 <= n,
        hist_total(s) + n <= u32::MAX,
    ensures
        hist_wf(hist_add(s, size, n)),
        hist_total(hist_add(s, size, n)) == hist_total(s) + n,
        forall|k: int| #[trigger]
            hist_count(hist_add(s, size, n), k) == hist_count(s, k) + (if k == size {
                n as nat
            } else {
                0
            }),
        forall|j: int|
            0 <= j < hist_add(s, size, n).len() ==> (#[trigger] hist_add(s, size, n)[j]).0 == size
                || hist_count(s, hist_add(s, size, n)[j].0 as int) > 0,
    decreases s.len(),
{
    let r = hist_add(s, size, n);
    if s.len() == 0 {
        assert(r =~= seq![(size, n)]);
        lemma_hist_singleton((size, n));
        assert(forall|k: int| #[trigger] hist_count(s, k) == 0);
    } else if s[0].0 < size {
        lemma_hist_wf_drop_first(s);
        lemma_hist_add_props(s.drop_first(), size, n);
        let rt = hist_add(s.drop_first(), size, n);
        assert(r =~= seq![s[0]] + rt);
        assert(r.drop_first() =~= rt);
        // Sortedness across the seam: every size in the new tail is either
        // `size` itself or was present in the old tail, hence above s[0].0.
        assert forall|j: int| 0 <= j < r.len() implies 1 <= (#[trigger] r[j]).0 && 1 <= r[j].1
            && (j > 0 ==> s[0].0 < r[j].0) by {
            if j > 0 {
                assert(r[j] == rt[j - 1]);
                if rt[j - 1].0 != size {
                    assert(hist_count(s.drop_first(), rt[j - 1].0 as int) > 0);
                    if s.drop_first().len() > 0 && rt[j - 1].0 < s.drop_first()[0].0 {
                        lemma_hist_count_absent_low(s.drop_first(), rt[j - 1].0 as int);
                    }
                    if s.drop_first().len() == 0 {
                        assert(hist_count(s.drop_first(), rt[j - 1].0 as int) == 0);
                    }
                    assert(s.drop_first().len() > 0 && rt[j - 1].0 >= s.drop_first()[0].0);
                    assert(s.drop_first()[0] == s[1]);
                    assert(s[0].0 < s[1].0);
                }
            }
        }
        assert(hist_wf(r)) by {
            assert(forall|i: int, j: int|
                #![trigger r[i].0, r[j].0]
                0 < i < j < r.len() ==> rt[i - 1].0 < rt[j - 1].0 && r[i].0 == rt[i - 1].0
                    && r[j].0 == rt[j - 1].0);
        }
        assert forall|k: int| #[trigger]
            hist_count(r, k) == hist_count(s, k) + (if k == size {
                n as nat
            } else {
                0
            }) by {
            assert(hist_count(r, k) == (if s[0].0 == k {
                s[0].1 as nat
            } else {
                0
            }) + hist_count(rt, k));
        }
        assert(hist_total(r) == (s[0].1 as nat) + hist_total(rt));
        assert forall|j: int|
            0 <= j < r.len() implies (#[trigger] r[j]).0 == size || hist_count(s, r[j].0 as int)
            > 0 by {
            if j == 0 {
                lemma_hist_index_count(s, 0);
            } else if r[j].0 != size {
                assert(r[j] == rt[j - 1]);
                assert(hist_count(s.drop_first(), rt[j - 1].0 as int) > 0);
                assert(hist_count(s, r[j].0 as int) == (if s[0].0 == r[j].0 as int {
                    s[0].1 as nat
                } else {
                    0
                }) + hist_count(s.drop_first(), r[j].0 as int));
            }
        }
    } else if s[0].0 == size {
        lemma_hist_wf_drop_first(s);
        assert(r =~= seq![(size, (s[0].1 + n) as u32)] + s.drop_first());
        assert(r.drop_first() =~= s.drop_first());
        assert(hist_count(s, size as int) == s[0].1 + hist_count(s.drop_first(), size as int));
        assert(hist_total(r) == ((s[0].1 + n) as u32 as nat) + hist_total(s.drop_first()));
        assert((s[0].1 + n) as u32 == s[0].1 + n) by {
            lemma_hist_count_le_total(s, size as int);
            lemma_hist_index_count(s, 0);
        }
        assert(hist_wf(r)) by {
            assert(forall|i: int, j: int|
                #![trigger r[i].0, r[j].0]
                0 <= i < j < r.len() ==> r[i].0 == s[i].0 && r[j].0 == s[j].0);
        }
        assert forall|k: int| #[trigger]
            hist_count(r, k) == hist_count(s, k) + (if k == size {
                n as nat
            } else {
                0
            }) by {
            assert(hist_count(r, k) == (if r[0].0 == k {
                r[0].1 as nat
            } else {
                0
            }) + hist_count(s.drop_first(), k));
            assert(hist_count(s, k) == (if s[0].0 == k {
                s[0].1 as nat
            } else {
                0
            }) + hist_count(s.drop_first(), k));
        }
        assert forall|j: int|
            0 <= j < r.len() implies (#[trigger] r[j]).0 == size || hist_count(s, r[j].0 as int)
            > 0 by {
            if j > 0 {
                assert(r[j] == s[j]);
                lemma_hist_index_count(s, j);
            }
        }
    } else {
        assert(r =~= seq![(size, n)] + s);
        assert(r.drop_first() =~= s);
        assert(hist_wf(r)) by {
            assert(forall|i: int, j: int|
                #![trigger r[i].0, r[j].0]
                0 < i < j < r.len() ==> r[i].0 == s[i - 1].0 && r[j].0 == s[j - 1].0);
            assert(forall|j: int| 0 < j < r.len() ==> (#[trigger] r[j]).0 == s[j - 1].0
                && size < s[0].0 <= s[j - 1].0);
        }
        assert(hist_total(r) == (n as nat) + hist_total(s));
        assert forall|k: int| #[trigger]
            hist_count(r, k) == hist_count(s, k) + (if k == size {
                n as nat
            } else {
                0
            }) by {
            if k == size {
                lemma_hist_count_absent_low(s, size as int);
            }
        }
        assert forall|j: int|
            0 <= j < r.len() implies (#[trigger] r[j]).0 == size || hist_count(s, r[j].0 as int)
            > 0 by {
            if j > 0 {
                assert(r[j] == s[j - 1]);
                lemma_hist_index_count(s, j - 1);
            }
        }
    }
}

/// Where the sorted scan of the executable insertion lands, `hist_add` is an
/// update of the entry with that index, or an insertion before it.
pub proof fn lemma_hist_add_at(s: Seq<(i32, u32)>, size: i32, n: u32, i: int)
    requires
        hist_wf(s),
        0 <= i <= s.len(),
        forall|j: int| 0 <= j < i ==> (#[trigger] s[j]).0 < size,
        i < s.len() ==> s[i].0 >= size,
    ensures
        i < s.len() && s[i].0 == size ==> hist_add(s, size, n) == s.update(
            i,
            (size, (s[i].1 + n) as u32),
        ),
        i == s.len() || s[i].0 > size ==> hist_add(s, size, n) == s.insert(i, (size, n)),
    decreases i,
{
    if i == 0 {
        if s.len() == 0 {
            assert(hist_add(s, size, n) =~= s.insert(0, (size, n)));
        } else if s[0].0 == size {
            assert(hist_add(s, size, n) =~= s.update(0, (size, (s[0].1 + n) as u32)));
        } else {
            assert(s[0].0 > size);
            assert(hist_add(s, size, n) =~= s.insert(0, (size, n)));
        }
    } else {
        assert(s[0].0 < size);
        lemma_hist_wf_drop_first(s);
        assert(forall|j: int| 0 <= j < i - 1 ==> (#[trigger] s.drop_first()[j]) == s[j + 1]);
        assert(i - 1 < s.drop_first().len() ==> s.drop_first()[i - 1] == s[i]);
        lemma_hist_add_at(s.drop_first(), size, n, i - 1);
        if i < s.len() && s[i].0 == size {
            assert(hist_add(s, size, n) =~= s.update(i, (size, (s[i].1 + n) as u32))) by {
                assert(hist_add(s, size, n) == seq![s[0]] + hist_add(s.drop_first(), size, n));
                assert(hist_add(s.drop_first(), size, n) == s.drop_first().update(
                    i - 1,
                    (size, (s[i].1 + n) as u32),
                ));
            }
        } else {
            assert(hist_add(s, size, n) =~= s.insert(i, (size, n))) by {
                assert(hist_add(s, size, n) == seq![s[0]] + hist_add(s.drop_first(), size, n));
                assert(hist_add(s.drop_first(), size, n) == s.drop_first().insert(
                    i - 1,
                    (size, n),
                ));
            }
        }
    }
}

/// Two well-formed tables with the same count for every size are the same
/// sequence of entries: the representation is canonical.
pub proof fn lemma_hist_canonical(s1: Seq<(i32, u32)>, s2: Seq<(i32, u32)>)
    requires
        hist_wf(s1),
        hist_wf(s2),
        forall|k: int| #[trigger] hist_count(s1, k) == hist_count(s2, k),
    ensures
        s1 == s2,
    decreases s1.len(),
{
    if s1.len() == 0 {
        if s2.len() > 0 {
            lemma_hist_index_count(s2, 0);
            assert(hist_count(s1, s2[0].0 as int) == 0);
        }
        assert(s1 =~= s2);
    } else if s2.len() == 0 {
        lemma_hist_index_count(s1, 0);
        assert(hist_count(s2, s1[0].0 as int) == 0);
    } else {
        lemma_hist_index_count(s1, 0);
        lemma_hist_index_count(s2, 0);
        if s1[0].0 < s2[0].0 {
            lemma_hist_count_absent_low(s2, s1[0].0 as int);
        }
        if s2[0].0 < s1[0].0 {
            lemma_hist_count_absent_low(s1, s2[0].0 as int);
        }
        assert(s1[0].0 == s2[0].0);
        assert(s1[0].1 == hist_count(s1, s1[0].0 as int));
        assert(s1[0] == s2[0]);
        lemma_hist_wf_drop_first(s1);
        lemma_hist_wf_drop_first(s2);
        assert forall|k: int| #[trigger]
            hist_count(s1.drop_first(), k) == hist_count(s2.drop_first(), k) by {
            assert(hist_count(s1, k) == (if s1[0].0 == k {
                s1[0].1 as nat
            } else {
                0
            }) + hist_count(s1.drop_first(), k));
            assert(hist_count(s2, k) == (if s2[0].0 == k {
                s2[0].1 as nat
            } else {
                0
            }) + hist_count(s2.drop_first(), k));
        }
        lemma_hist_canonical(s1.drop_first(), s2.drop_first());
        assert(s1 =~= s2) by {
            assert(forall|j: int| 0 < j < s1.len() ==> (#[trigger] s1[j]) == s1.drop_first()[j - 1]
                && s2[j] == s2.drop_first()[j - 1]);
        }
    }
}

/// Per-cell summation: what `hist_merge` does to well-formedness, the total
/// and each per-size count.
pub proof fn lemma_hist_merge_props(a: Seq<(i32, u32)>, b: Seq<(i32, u32)>)
    requires
        hist_wf(a),
        hist_wf(b),
        hist_total(a) + hist_total(b) <= u32::MAX,
    ensures
        hist_wf(hist_merge(a, b)),
        hist_total(hist_merge(a, b)) == hist_total(a) + hist_total(b),
        forall|k: int| #[trigger]
            hist_count(hist_merge(a, b), k) == hist_count(a, k) + hist_count(b, k),
    decreases b.len(),
{
    if b.len() == 0 {
        assert(forall|k: int| #[trigger] hist_count(b, k) == 0);
    } else {
        let bp = b.drop_last();
        lemma_hist_wf_drop_last(b);
        assert(b =~= bp + seq![b.last()]);
        lemma_hist_total_concat(bp, seq![b.last()]);
        lemma_hist_singleton(b.last());
        lemma_hist_merge_props(a, bp);
        let m = hist_merge(a, bp);
        assert(1 <= b.last().0 && 1 <= b.last().1) by {
            assert(b[b.len() - 1] == b.last());
        }
        lemma_hist_add_props(m, b.last().0, b.last().1);
        assert forall|k: int| #[trigger]
            hist_count(hist_merge(a, b), k) == hist_count(a, k) + hist_count(b, k) by {
            lemma_hist_count_concat(bp, seq![b.last()], k);
        }
    }
}

/// Per-orientation frequency table of observed insert sizes, with one entry
/// per distinct size.
pub struct Histogram {
    entries: Vec<(i32, u32)>,
}

impl View for Histogram {
    type V = Seq<(i32, u32)>;

    closed spec fn view(&self) -> Seq<(i32, u32)> {
        self.entries@
    }
}

impl Histogram {
    #[verifier::type_invariant]
    spec fn wf(self) -> bool {
        hist_wf(self@) && hist_total(self@) <= u32::MAX
    }

    /// An empty table.
    pub fn new() -> (h: Histogram)
        ensures
            h@ == Seq::<(i32, u32)>::empty(),
    {
        Histogram { entries: Vec::new() }
    }

    /// Read-only access to the sorted `(size, count)` entries.
    pub fn entries(&self) -> (entries: &Vec<(i32, u32)>)
        ensures
            entries@ == self@,
    {
        &self.entries
    }

    /// Sum of all counts, exactly; it never exceeds `u32::MAX`.
    pub fn total_count(&self) -> (total: u64)
        ensures
            total == hist_total(self@),
            total <= u32::MAX,
    {
        proof {
            use_type_invariant(self);
        }
        let ghost s = self.entries@;
        let mut total: u64 = 0;
        let mut i: usize = 0;
        while i < self.entries.len()
            invariant
                i <= s.len(),
                self.entries@ == s,
                hist_total(s) <= u32::MAX,
                total == hist_total(s.take(i as int)),
            decreases s.len() - i,
        {
            proof {
                lemma_hist_total_take_step(s, i as int);
                lemma_hist_total_take_le(s, i + 1);
            }
            total = total + (self.entries[i].1 as u64);
            i = i + 1;
        }
        proof {
            assert(s.take(s.len() as int) =~= s);
        }
        total
    }

    /// Records `n` further observations of `size`.
    pub fn add_count(&mut self, size: i32, n: u32)
        requires
            1 <= size,
            1 <= n,
            hist_total(old(self)@) + n <= u32::MAX,
        ensures
            final(self)@ == hist_add(old(self)@, size, n),
    {
        proof {
            use_type_invariant(&*self);
        }
        let ghost s = self.entries@;
        let mut entries: Vec<(i32, u32)> = Vec::new();
        std::mem::swap(&mut entries, &mut self.entries);
        let mut i: usize = 0;
        while i < entries.len() && entries[i].0 < size
            invariant
                i <= s.len(),
                entries@ == s,
                forall|j: int| 0 <= j < i ==> (#[trigger] s[j]).0 < size,
            decreases s.len() - i,
        {
            i = i + 1;
        }
        proof {
            lemma_hist_add_props(s, size, n);
            lemma_hist_add_at(s, size, n, i as int);
        }
        if i < entries.len() && entries[i].0 == size {
            let count = entries[i].1;
            proof {
                lemma_hist_index_count(s, i as int);
                lemma_hist_count_le_total(s, size as int);
            }
            entries[i] = (size, count + n);
        } else {
            entries.insert(i, (size, n));
        }
        self.entries = entries;
    }

    /// Adds every count of `other` into `self`: per-cell summation.
    #[verifier::rlimit(80)]
    pub fn merge_from(&mut self, other: &Histogram)
        requires
            hist_total(old(self)@) + hist_total(other@) <= u32::MAX,
        ensures
            final(self)@ == hist_merge(old(self)@, other@),
    {
        proof {
            use_type_invariant(&*self);
            use_type_invariant(other);
        }
        let ghost a = self.entries@;
        let ghost b = other.entries@;
        let mut i: usize = 0;
        while i < other.entries.len()
            invariant
                i <= b.len(),
                other.entries@ == b,
                hist_wf(a),
                hist_wf(b),
                hist_total(a) + hist_total(b) <= u32::MAX,
                self@ == hist_merge(a, b.take(i as int)),
            decreases b.len() - i,
        {
            let (size, n) = other.entries[i];
            proof {
                lemma_hist_wf_take(b, i as int);
                lemma_hist_wf_take(b, i + 1);
                lemma_hist_total_take_step(b, i as int);
                lemma_hist_total_take_le(b, i + 1);
                lemma_hist_merge_props(a, b.take(i as int));
                assert(b.take(i + 1).drop_last() =~= b.take(i as int));
                assert(b.take(i + 1).last() == b[i as int]);
                assert(1 <= size && 1 <= n) by {
                    assert(b[i as int] == (size, n));
                }
            }
            self.add_count(size, n);
            i = i + 1;
        }
        proof {
            assert(b.take(b.len() as int) =~= b);
        }
    }
}

/// A prefix of a well-formed table is well-formed.
pub proof fn lemma_hist_wf_take(s: Seq<(i32, u32)>, i: int)
    requires
        hist_wf(s),
        0 <= i <= s.len(),
    ensures
        hist_wf(s.take(i)),
{
    assert(forall|j: int| 0 <= j < i ==> (#[trigger] s.take(i)[j]) == s[j]);
}

/// Taking one more entry raises the total by that entry's count.
pub proof fn lemma_hist_total_take_step(s: Seq<(i32, u32)>, i: int)
    requires
        0 <= i < s.len(),
    ensures
        hist_total(s.take(i + 1)) == hist_total(s.take(i)) + s[i].1,
{
    assert(s.take(i + 1) =~= s.take(i) + seq![s[i]]);
    lemma_hist_total_concat(s.take(i), seq![s[i]]);
    lemma_hist_singleton(s[i]);
}

/// The total of a prefix never exceeds the total of the whole table.
pub proof fn lemma_hist_total_take_le(s: Seq<(i32, u32)>, i: int)
    requires
        0 <= i <= s.len(),
    ensures
        hist_total(s.take(i)) <= hist_total(s),
{
    assert(s =~= s.take(i) + s.skip(i));
    lemma_hist_total_concat(s.take(i), s.skip(i));
}

} // verus!
