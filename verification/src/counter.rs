use vstd::prelude::*;

use crate::scale::ScaledPoint;

verus! {

/// How often the entries of `s` that are keyed by `sp` count, summed.
pub open spec fn count_of(s: Seq<(ScaledPoint, usize)>, sp: ScaledPoint) -> int
    decreases s.len(),
{
    if s.len() == 0 {
        0
    } else {
        count_of(s.drop_last(), sp) + (if s.last().0 == sp {
            s.last().1 as int
        } else {
            0
        })
    }
}

/// The sum of all counts of one series' counter.
pub open spec fn total_of(s: Seq<(ScaledPoint, usize)>) -> int
    decreases s.len(),
{
    if s.len() == 0 {
        0
    } else {
        total_of(s.drop_last()) + s.last().1
    }
}

/// How many entries of `cells` hold the cell `sp`.
pub open spec fn occurrences(cells: Seq<Option<ScaledPoint>>, sp: ScaledPoint) -> int
    decreases cells.len(),
{
    if cells.len() == 0 {
        0
    } else {
        occurrences(cells.drop_last(), sp) + (if cells.last() == Some(sp) {
            1int
        } else {
            0
        })
    }
}

/// How many entries of `cells` hold any cell at all.
pub open spec fn some_count(cells: Seq<Option<ScaledPoint>>) -> int
    decreases cells.len(),
{
    if cells.len() == 0 {
        0
    } else {
        some_count(cells.drop_last()) + (if cells.last() is Some {
            1int
        } else {
            0
        })
    }
}

/// No two entries of one counter share a cell, and every entry counts at
/// least one sample.
pub open spec fn counter_wf(s: Seq<(ScaledPoint, usize)>) -> bool {
    &&& forall|i: int, j: int| 0 <= i < j < s.len() ==> (#[trigger] s[i]).0 != (#[trigger] s[j]).0
    &&& forall|i: int| 0 <= i < s.len() ==> (#[trigger] s[i]).1 >= 1
}

/// Per-series histogram over drawing cells: for each series, a map from a
/// cell to the number of samples of that series that landed in it.
#[derive(Debug)]
pub struct Counters {
    pub counters: Vec<Vec<(ScaledPoint, usize)>>,
}

proof fn lemma_count_of_update(s: Seq<(ScaledPoint, usize)>, i: int, e: (ScaledPoint, usize), sp: ScaledPoint)
    requires
        0 <= i < s.len(),
    ensures
        count_of(s.update(i, e), sp) == count_of(s, sp) - (if s[i].0 == sp {
            s[i].1 as int
        } else {
            0
        }) + (if e.0 == sp {
            e.1 as int
        } else {
            0
        }),
    decreases s.len(),
{
    let t = s.update(i, e);
    assert(t.len() == s.len());
    if i == s.len() - 1 {
        assert(t.drop_last() =~= s.drop_last());
        assert(t.last() == e);
    } else {
        assert(t.drop_last() =~= s.drop_last().update(i, e));
        assert(t.last() == s.last());
        lemma_count_of_update(s.drop_last(), i, e, sp);
    }
}

proof fn lemma_total_of_update(s: Seq<(ScaledPoint, usize)>, i: int, e: (ScaledPoint, usize))
    requires
        0 <= i < s.len(),
    ensures
        total_of(s.update(i, e)) == total_of(s) - s[i].1 + e.1,
    decreases s.len(),
{
    let t = s.update(i, e);
    if i == s.len() - 1 {
        assert(t.drop_last() =~= s.drop_last());
    } else {
        assert(t.drop_last() =~= s.drop_last().update(i, e));
        assert(t.last() == s.last());
        lemma_total_of_update(s.drop_last(), i, e);
    }
}

proof fn lemma_count_of_push(s: Seq<(ScaledPoint, usize)>, e: (ScaledPoint, usize), sp: ScaledPoint)
    ensures
        count_of(s.push(e), sp) == count_of(s, sp) + (if e.0 == sp {
            e.1 as int
        } else {
            0
        }),
        total_of(s.push(e)) == total_of(s) + e.1,
{
    assert(s.push(e).drop_last() =~= s);
    assert(s.push(e).last() == e);
}

/// An entry of a well-formed counter holds the whole count of its cell.
proof fn lemma_count_of_found(s: Seq<(ScaledPoint, usize)>, i: int, sp: ScaledPoint)
    requires
        counter_wf(s),
        0 <= i < s.len(),
        s[i].0 == sp,
    ensures
        count_of(s, sp) == s[i].1,
    decreases s.len(),
{
    if i == s.len() - 1 {
        lemma_count_of_absent(s.drop_last(), sp);
    } else {
        assert(s.drop_last()[i] == s[i]);
        lemma_count_of_found(s.drop_last(), i, sp);
        assert(s.last() == s[s.len() - 1]);
        assert(s.last().0 != sp);
    }
}

/// A cell with no entry in a counter counts no sample.
proof fn lemma_count_of_absent(s: Seq<(ScaledPoint, usize)>, sp: ScaledPoint)
    requires
        forall|i: int| 0 <= i < s.len() ==> (#[trigger] s[i]).0 != sp,
    ensures
        count_of(s, sp) == 0,
    decreases s.len(),
{
    if s.len() > 0 {
        assert(forall|i: int|
            0 <= i < s.drop_last().len() ==> (#[trigger] s.drop_last()[i]) == s[i]);
        lemma_count_of_absent(s.drop_last(), sp);
        assert(s.last() == s[s.len() - 1]);
    }
}

/// A single cell never counts more than the whole counter.
proof fn lemma_count_le_total(s: Seq<(ScaledPoint, usize)>, sp: ScaledPoint)
    ensures
        0 <= count_of(s, sp) <= total_of(s),
    decreases s.len(),
{
    if s.len() > 0 {
        lemma_count_le_total(s.drop_last(), sp);
    }
}

/// The samples that landed somewhere never outnumber the samples.
proof fn lemma_some_count_le_len(cells: Seq<Option<ScaledPoint>>)
    ensures
        0 <= some_count(cells) <= cells.len(),
    decreases cells.len(),
{
    if cells.len() > 0 {
        lemma_some_count_le_len(cells.drop_last());
    }
}

impl Counters {
    /// All per-series counters are well formed.
    pub open spec fn wf(&self) -> bool {
        forall|s: int| 0 <= s < self.counters@.len() ==> counter_wf((#[trigger] self.counters@[s])@)
    }

    /// Builds the histograms: one counter per series, counting for every
    /// cell the samples of that series that landed in it.  Missing samples
    /// (`None`) are skipped; colliding samples are counted, not
    /// overwritten.  For every series the counts add up to exactly the
    /// number of samples that landed somewhere.
    pub fn build(series_cells: &Vec<Vec<Option<ScaledPoint>>>) -> (r: Counters)
        ensures
            r.wf(),
            r.counters@.len() == series_cells@.len(),
            forall|s: int, sp: ScaledPoint|
                0 <= s < series_cells@.len() ==> #[trigger] count_of(r.counters@[s]@, sp)
                    == occurrences(series_cells@[s]@, sp),
            forall|s: int|
                0 <= s < series_cells@.len() ==> #[trigger] total_of(r.counters@[s]@)
                    == some_count(series_cells@[s]@),
    {
        let mut counters: Vec<Vec<(ScaledPoint, usize)>> = Vec::new();
        let mut s: usize = 0;
        while s < series_cells.len()
            invariant
                s <= series_cells@.len(),
                counters@.len() == s,
                forall|t: int| 0 <= t < s ==> counter_wf((#[trigger] counters@[t])@),
                forall|t: int, sp: ScaledPoint|
                    0 <= t < s ==> #[trigger] count_of(counters@[t]@, sp) == occurrences(
                        series_cells@[t]@,
                        sp,
                    ),
                forall|t: int|
                    0 <= t < s ==> #[trigger] total_of(counters@[t]@) == some_count(
                        series_cells@[t]@,
                    ),
            decreases series_cells@.len() - s,
        {
            let cells = &series_cells[s];
            let mut counter: Vec<(ScaledPoint, usize)> = Vec::new();
            let mut j: usize = 0;
            while j < cells.len()
                invariant
                    j <= cells@.len(),
                    counter_wf(counter@),
                    forall|sp: ScaledPoint| #[trigger] count_of(counter@, sp) == occurrences(
                        cells@.take(j as int),
                        sp,
                    ),
                    total_of(counter@) == some_count(cells@.take(j as int)),
                decreases cells@.len() - j,
            {
                proof {
                    assert(cells@.take(j + 1).drop_last() =~= cells@.take(j as int));
                    assert(cells@.take(j + 1).last() == cells@[j as int]);
                }
                match cells[j] {
                    Option::Some(sp) => {
                        let mut i: usize = 0;
                        let mut found = false;
                        while i < counter.len() && !found
                            invariant
                                i <= counter@.len(),
                                !found ==> forall|k: int|
                                    0 <= k < i ==> (#[trigger] counter@[k]).0 != sp,
                                found ==> i < counter@.len() && counter@[i as int].0 == sp,
                            decreases counter@.len() - i + (if found {
                                0int
                            } else {
                                1int
                            }),
                        {
                            if counter[i].0 == sp {
                                found = true;
                            } else {
                                i += 1;
                            }
                        }
                        if found {
                            proof {
                                lemma_count_of_found(counter@, i as int, sp);
                                lemma_count_le_total(counter@, sp);
                                lemma_some_count_le_len(cells@.take(j as int));
                            }
                            let c = counter[i].1;
                            let ghost before = counter@;
                            counter.set(i, (sp, c + 1));
                            proof {
                                assert forall|sp2: ScaledPoint| #[trigger] count_of(counter@, sp2)
                                    == occurrences(cells@.take(j + 1), sp2) by {
                                    lemma_count_of_update(before, i as int, (sp, (c + 1) as usize), sp2);
                                }
                                lemma_total_of_update(before, i as int, (sp, (c + 1) as usize));
                            }
                        } else {
                            let ghost before = counter@;
                            counter.push((sp, 1));
                            proof {
                                assert forall|sp2: ScaledPoint| #[trigger] count_of(counter@, sp2)
                                    == occurrences(cells@.take(j + 1), sp2) by {
                                    lemma_count_of_push(before, (sp, 1usize), sp2);
                                    if sp2 != sp {
                                        assert(count_of(before, sp2) == occurrences(
                                            cells@.take(j as int),
                                            sp2,
                                        ));
                                    }
                                }
                                lemma_count_of_push(before, (sp, 1usize), sp);
                            }
                        }
                    },
                    Option::None => {
                    },
                }
                j += 1;
            }
            proof {
                assert(cells@.take(cells@.len() as int) =~= cells@);
            }
            counters.push(counter);
            s += 1;
        }
        Counters { counters }
    }

    /// How many series the histogram covers.
    pub fn len(&self) -> (r: usize)
        ensures
            r == self.counters@.len(),
    {
        self.counters.len()
    }

    /// The number of samples of series `series` that landed in cell `sp`,
    /// or `None` when none did.
    pub fn count(&self, series: usize, sp: ScaledPoint) -> (r: Option<usize>)
        requires
            self.wf(),
            series < self.counters@.len(),
        ensures
            match r {
                Some(n) => n == count_of(self.counters@[series as int]@, sp) && n >= 1,
                None => count_of(self.counters@[series as int]@, sp) == 0,
            },
    {
        let counter = &self.counters[series];
        let mut i: usize = 0;
        while i < counter.len()
            invariant
                self.wf(),
                series < self.counters@.len(),
                counter == &self.counters[series as int],
                i <= counter@.len(),
                forall|k: int| 0 <= k < i ==> (#[trigger] counter@[k]).0 != sp,
            decreases counter@.len() - i,
        {
            if counter[i].0 == sp {
                proof {
                    lemma_count_of_found(counter@, i as int, sp);
                }
                return Some(counter[i].1);
            }
            i += 1;
        }
        proof {
            lemma_count_of_absent(counter@, sp);
        }
        None
    }
}

} // verus!
