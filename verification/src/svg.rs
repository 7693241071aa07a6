use vstd::prelude::*;

use crate::scale::ScaledPoint;

verus! {

/// The cell of a present sample.
pub open spec fn some_val(o: Option<ScaledPoint>) -> ScaledPoint {
    o->Some_0
}

/// The cells of a run of present samples.
pub open spec fn vals(a: Seq<Option<ScaledPoint>>) -> Seq<ScaledPoint> {
    Seq::new(a.len(), |i: int| some_val(a[i]))
}

/// The maximal runs of present samples in a series, in order: a vector
/// polyline is drawn per run, breaking wherever a sample is missing.
pub open spec fn segments_of(cells: Seq<Option<ScaledPoint>>) -> Seq<Seq<ScaledPoint>>
    decreases cells.len(),
{
    if cells.len() == 0 {
        Seq::empty()
    } else {
        match cells[0] {
            Option::None => segments_of(cells.skip(1)),
            Option::Some(p) => {
                if cells.len() >= 2 && cells[1] is Some {
                    let r = segments_of(cells.skip(1));
                    r.update(0, seq![p] + r[0])
                } else {
                    seq![seq![p]] + segments_of(cells.skip(1))
                }
            },
        }
    }
}

/// A series that starts with a present sample yields at least one run.
proof fn lemma_segments_nonempty(cells: Seq<Option<ScaledPoint>>)
    requires
        cells.len() >= 1,
        cells[0] is Some,
    ensures
        segments_of(cells).len() >= 1,
    decreases cells.len(),
{
    if cells.len() >= 2 && cells[1] is Some {
        lemma_segments_nonempty(cells.skip(1));
    }
}

/// A wholly present series is one single run.
proof fn lemma_segments_all_some(a: Seq<Option<ScaledPoint>>)
    requires
        a.len() >= 1,
        forall|j: int| 0 <= j < a.len() ==> (#[trigger] a[j]) is Some,
    ensures
        segments_of(a) =~~= seq![vals(a)],
    decreases a.len(),
{
    if a.len() == 1 {
        assert(vals(a) =~= seq![some_val(a[0])]);
        assert(a.skip(1).len() == 0);
        assert(seq![seq![some_val(a[0])]] + segments_of(a.skip(1)) =~~= seq![vals(a)]);
    } else {
        assert(forall|j: int| 0 <= j < a.len() - 1 ==> a.skip(1)[j] == a[j + 1]);
        assert(a[1] is Some);
        lemma_segments_all_some(a.skip(1));
        lemma_segments_nonempty(a.skip(1));
        let r = segments_of(a.skip(1));
        assert(r == seq![vals(a.skip(1))]);
        assert(segments_of(a) == r.update(0, seq![some_val(a[0])] + r[0]));
        assert(seq![some_val(a[0])] + vals(a.skip(1)) =~= vals(a));
        assert(r.update(0, seq![some_val(a[0])] + r[0]) =~~= seq![vals(a)]);
    }
}

/// A present run, a missing sample, then anything: the run is the first
/// segment and the rest segments on its own.
proof fn lemma_segments_break(a: Seq<Option<ScaledPoint>>, b: Seq<Option<ScaledPoint>>)
    requires
        forall|j: int| 0 <= j < a.len() ==> (#[trigger] a[j]) is Some,
    ensures
        a.len() == 0 ==> segments_of(a + seq![Option::<ScaledPoint>::None] + b) =~~= segments_of(b),
        a.len() >= 1 ==> segments_of(a + seq![Option::<ScaledPoint>::None] + b) =~~= seq![vals(a)]
            + segments_of(b),
    decreases a.len(),
{
    let s = a + seq![Option::<ScaledPoint>::None] + b;
    if a.len() == 0 {
        assert(s[0] is None);
        assert(s.skip(1) =~= b);
    } else {
        assert(s[0] == a[0]);
        assert(s.skip(1) =~= a.skip(1) + seq![Option::<ScaledPoint>::None] + b);
        assert(forall|j: int| 0 <= j < a.len() - 1 ==> a.skip(1)[j] == a[j + 1]);
        lemma_segments_break(a.skip(1), b);
        if a.len() == 1 {
            assert(s.len() >= 2 && s[1] is None);
            assert(vals(a) =~= seq![some_val(a[0])]);
        } else {
            assert(s[1] == a[1]);
            lemma_segments_nonempty(s.skip(1));
            assert(segments_of(s.skip(1))[0] == vals(a.skip(1)));
            assert(seq![some_val(a[0])] + vals(a.skip(1)) =~= vals(a));
        }
    }
}

/// Cuts one series into its polyline runs: the maximal stretches of
/// consecutive present samples, each in order, with missing samples as the
/// breaks.  A series with no present sample yields no run.
pub fn polyline_segments(cells: &Vec<Option<ScaledPoint>>) -> (r: Vec<Vec<ScaledPoint>>)
    ensures
        r@.map_values(|v: Vec<ScaledPoint>| v@) == segments_of(cells@),
{
    let n = cells.len();
    let mut segments: Vec<Vec<ScaledPoint>> = Vec::new();
    let mut cur: Vec<ScaledPoint> = Vec::new();
    let ghost mut start: int = 0;
    let mut j: usize = 0;
    proof {
        assert(cells@.subrange(0, n as int) =~= cells@);
        assert(segments@.map_values(|v: Vec<ScaledPoint>| v@) =~= Seq::<Seq<ScaledPoint>>::empty());
    }
    while j < n
        invariant
            n == cells@.len(),
            j <= n,
            0 <= start <= j,
            forall|k: int| start <= k < j ==> (#[trigger] cells@[k]) is Some,
            cur@ == vals(cells@.subrange(start, j as int)),
            segments_of(cells@) == segments@.map_values(|v: Vec<ScaledPoint>| v@) + segments_of(
                cells@.subrange(start, n as int),
            ),
        decreases n - j,
    {
        match cells[j] {
            Some(p) => {
                cur.push(p);
                proof {
                    assert(cur@ =~= vals(cells@.subrange(start, j + 1)));
                }
            },
            None => {
                let ghost a = cells@.subrange(start, j as int);
                let ghost b = cells@.subrange(j + 1, n as int);
                proof {
                    assert(cells@.subrange(start, n as int) =~= a + seq![
                        Option::<ScaledPoint>::None,
                    ] + b);
                    lemma_segments_break(a, b);
                }
                if cur.len() > 0 {
                    let ghost before = segments@;
                    segments.push(cur);
                    proof {
                        assert(segments@.map_values(|v: Vec<ScaledPoint>| v@) =~= before.map_values(
                            |v: Vec<ScaledPoint>| v@,
                        ).push(vals(a)));
                    }
                    cur = Vec::new();
                }
                proof {
                    start = j + 1;
                    assert(cur@ =~= vals(cells@.subrange(start, j + 1)));
                }
            },
        }
        j += 1;
    }
    if cur.len() > 0 {
        proof {
            lemma_segments_all_some(cells@.subrange(start, n as int));
        }
        let ghost before = segments@;
        segments.push(cur);
        proof {
            assert(segments@.map_values(|v: Vec<ScaledPoint>| v@) =~= before.map_values(
                |v: Vec<ScaledPoint>| v@,
            ).push(vals(cells@.subrange(start, n as int))));
            assert(segments@.map_values(|v: Vec<ScaledPoint>| v@) =~~= segments_of(cells@));
        }
    } else {
        proof {
            assert(vals(cells@.subrange(start, n as int)).len() == n - start);
            assert(start == n);
            assert(cells@.subrange(start, n as int) =~= Seq::<Option<ScaledPoint>>::empty());
            assert(segments@.map_values(|v: Vec<ScaledPoint>| v@) + segments_of(
                cells@.subrange(start, n as int),
            ) =~= segments@.map_values(|v: Vec<ScaledPoint>| v@));
        }
    }
    segments
}

} // verus!
