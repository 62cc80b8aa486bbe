//! The canonicalizing move buffer: moves arrive in a trailing, overlapping,
//! wrap-counted window, so the same physical move can be reported more than
//! once and closely timed moves on one axis can arrive out of order. The
//! buffer folds such reports into a canonical move sequence and greedily
//! parses it into two- or three-move keys.
use crate::codec::ResponseMessage;
use crate::cube::{format_moves, spec_format_moves, CubeMove};
use vstd::prelude::*;
use vstd::string::StrSliceExecFns;
use vstd::string::StringExecFns;

verus! {

/// One recognized compound gesture: a main move, the index of the adjacent
/// face that followed it, and whether the main move was doubled.
#[derive(Clone, Copy, PartialEq, Eq, Structural, Debug)]
pub struct CuboardKey {
    pub main: CubeMove,
    /// Index in the fixed per-face adjacency order, `0..4`.
    pub num: usize,
    pub is_shifted: bool,
}

/// The fixed cyclic order of the four faces adjacent to each main face.
/// Both directions of a face share one row.
pub open spec fn spec_adjacent(main: CubeMove, num: int) -> CubeMove {
    match main {
        CubeMove::U | CubeMove::Up => {
            if num == 0 {
                CubeMove::L
            } else if num == 1 {
                CubeMove::B
            } else if num == 2 {
                CubeMove::R
            } else {
                CubeMove::F
            }
        },
        CubeMove::R | CubeMove::Rp => {
            if num == 0 {
                CubeMove::D
            } else if num == 1 {
                CubeMove::F
            } else if num == 2 {
                CubeMove::U
            } else {
                CubeMove::B
            }
        },
        CubeMove::F | CubeMove::Fp => {
            if num == 0 {
                CubeMove::U
            } else if num == 1 {
                CubeMove::R
            } else if num == 2 {
                CubeMove::D
            } else {
                CubeMove::L
            }
        },
        CubeMove::D | CubeMove::Dp => {
            if num == 0 {
                CubeMove::B
            } else if num == 1 {
                CubeMove::L
            } else if num == 2 {
                CubeMove::F
            } else {
                CubeMove::R
            }
        },
        CubeMove::L | CubeMove::Lp => {
            if num == 0 {
                CubeMove::F
            } else if num == 1 {
                CubeMove::D
            } else if num == 2 {
                CubeMove::B
            } else {
                CubeMove::U
            }
        },
        CubeMove::B | CubeMove::Bp => {
            if num == 0 {
                CubeMove::R
            } else if num == 1 {
                CubeMove::U
            } else if num == 2 {
                CubeMove::L
            } else {
                CubeMove::D
            }
        },
    }
}

/// Where `adj` stands in the adjacency order of `main`, if anywhere.
pub open spec fn spec_adj_index(main: CubeMove, adj: CubeMove) -> Option<int> {
    if spec_adjacent(main, 0) == adj {
        Some(0int)
    } else if spec_adjacent(main, 1) == adj {
        Some(1int)
    } else if spec_adjacent(main, 2) == adj {
        Some(2int)
    } else if spec_adjacent(main, 3) == adj {
        Some(3int)
    } else {
        None
    }
}

/// The greedy key parse of `moves` from position `start`: a doubled move
/// followed by a differing one is a shifted key of three moves, two
/// differing moves are an unshifted key of two; parsing stops at the first
/// position that fits neither or whose adjacent face is not in the main
/// face's order.
pub open spec fn spec_parse(moves: Seq<CubeMove>, start: int) -> Seq<(CuboardKey, (int, int))>
    decreases moves.len() - start,
{
    if start < 0 || start + 2 > moves.len() {
        Seq::empty()
    } else if start + 3 <= moves.len() && moves[start] == moves[start + 1] && moves[start]
        != moves[start + 2] {
        // doubled main move: shifted key
        match spec_adj_index(moves[start], moves[start + 2].spec_abs()) {
            Some(num) => seq![
                (
                    CuboardKey { main: moves[start], num: num as usize, is_shifted: true },
                    (start, start + 3),
                ),
            ] + spec_parse(moves, start + 3),
            None => Seq::empty(),
        }
    } else if moves[start] != moves[start + 1] {
        match spec_adj_index(moves[start], moves[start + 1].spec_abs()) {
            Some(num) => seq![
                (
                    CuboardKey { main: moves[start], num: num as usize, is_shifted: false },
                    (start, start + 2),
                ),
            ] + spec_parse(moves, start + 2),
            None => Seq::empty(),
        }
    } else {
        Seq::empty()
    }
}

/// The ranges of exec-side keys, as mathematical integers.
pub open spec fn keys_view(keys: Seq<(CuboardKey, (usize, usize))>) -> Seq<(CuboardKey, (int, int))> {
    keys.map_values(|p: (CuboardKey, (usize, usize))| (p.0, (p.1.0 as int, p.1.1 as int)))
}

impl CuboardKey {
    /// The adjacency order row of `main` at position `num`.
    pub fn adjacent(main: CubeMove, num: usize) -> (r: CubeMove)
        requires
            num < 4,
        ensures
            r == spec_adjacent(main, num as int),
    {
        match main {
            CubeMove::U | CubeMove::Up => {
                if num == 0 {
                    CubeMove::L
                } else if num == 1 {
                    CubeMove::B
                } else if num == 2 {
                    CubeMove::R
                } else {
                    CubeMove::F
                }
            },
            CubeMove::R | CubeMove::Rp => {
                if num == 0 {
                    CubeMove::D
                } else if num == 1 {
                    CubeMove::F
                } else if num == 2 {
                    CubeMove::U
                } else {
                    CubeMove::B
                }
            },
            CubeMove::F | CubeMove::Fp => {
                if num == 0 {
                    CubeMove::U
                } else if num == 1 {
                    CubeMove::R
                } else if num == 2 {
                    CubeMove::D
                } else {
                    CubeMove::L
                }
            },
            CubeMove::D | CubeMove::Dp => {
                if num == 0 {
                    CubeMove::B
                } else if num == 1 {
                    CubeMove::L
                } else if num == 2 {
                    CubeMove::F
                } else {
                    CubeMove::R
                }
            },
            CubeMove::L | CubeMove::Lp => {
                if num == 0 {
                    CubeMove::F
                } else if num == 1 {
                    CubeMove::D
                } else if num == 2 {
                    CubeMove::B
                } else {
                    CubeMove::U
                }
            },
            CubeMove::B | CubeMove::Bp => {
                if num == 0 {
                    CubeMove::R
                } else if num == 1 {
                    CubeMove::U
                } else if num == 2 {
                    CubeMove::L
                } else {
                    CubeMove::D
                }
            },
        }
    }

    /// Look `adj` up in the adjacency order of `main`.
    pub fn adjacency_index(main: CubeMove, adj: CubeMove) -> (r: Option<usize>)
        ensures
            match r {
                Some(n) => n < 4 && spec_adj_index(main, adj) == Some(n as int),
                None => spec_adj_index(main, adj) is None,
            },
    {
        if Self::adjacent(main, 0) == adj {
            Some(0)
        } else if Self::adjacent(main, 1) == adj {
            Some(1)
        } else if Self::adjacent(main, 2) == adj {
            Some(2)
        } else if Self::adjacent(main, 3) == adj {
            Some(3)
        } else {
            None
        }
    }

    /// Greedily parse keys out of `value` from position `start`; what the
    /// last keys did not consume stays pending.
    pub fn parse(value: &Vec<CubeMove>, start: usize) -> (r: Vec<(CuboardKey, (usize, usize))>)
        requires
            start <= value@.len(),
        ensures
            keys_view(r@) == spec_parse(value@, start as int),
    {
        let n = value.len();
        let mut res: Vec<(CuboardKey, (usize, usize))> = Vec::new();
        let mut s = start;
        let mut done = false;
        while !done
            invariant
                start <= s <= n,
                n == value@.len(),
                spec_parse(value@, start as int) == keys_view(res@) + spec_parse(
                    value@,
                    s as int,
                ),
                done ==> spec_parse(value@, s as int) == Seq::<(CuboardKey, (int, int))>::empty(),
            decreases n - s + (if done { 0int } else { 1int }),
        {
            let is_shifted = n - s >= 3 && value[s] == value[s + 1] && value[s] != value[s + 2];
            let has_plain = n - s >= 2 && value[s] != value[s + 1];
            if !is_shifted && !has_plain {
                done = true;
            } else {
                let main = value[s];
                let adj = if is_shifted {
                    value[s + 2].abs()
                } else {
                    value[s + 1].abs()
                };
                match Self::adjacency_index(main, adj) {
                    None => {
                        done = true;
                    },
                    Some(num) => {
                        let end = if is_shifted {
                            s + 3
                        } else {
                            s + 2
                        };
                        let key = CuboardKey { main, num, is_shifted };
                        let ghost old_res = res@;
                        res.push((key, (s, end)));
                        proof {
                            assert(keys_view(res@) =~= keys_view(old_res).push(
                                (key, (s as int, end as int)),
                            ));
                            assert(spec_parse(value@, s as int) == seq![
                                (key, (s as int, end as int)),
                            ] + spec_parse(value@, end as int));
                            assert(keys_view(res@) + spec_parse(value@, end as int)
                                =~= (keys_view(old_res) + spec_parse(value@, s as int)));
                        }
                        s = end;
                    },
                }
            }
        }
        proof {
            assert(keys_view(res@) + spec_parse(value@, s as int) =~= keys_view(res@));
        }
        res
    }
}

/// The start of the trailing region whose moves all commute with `mv` but
/// turn a different face: the scan skips them from the end.
pub open spec fn spec_tail_start(moves: Seq<CubeMove>, mv: CubeMove) -> int
    decreases moves.len(),
{
    if moves.len() == 0 {
        0
    } else if moves.last().spec_commute(mv) && moves.last().spec_abs() != mv.spec_abs() {
        spec_tail_start(moves.drop_last(), mv)
    } else {
        moves.len() as int
    }
}

/// The start of the maximal run of moves on the face of `mv` that ends
/// right before position `t`.
pub open spec fn spec_run_start(moves: Seq<CubeMove>, mv: CubeMove, t: int) -> int
    decreases t,
{
    if t <= 0 {
        0
    } else if moves[t - 1].spec_abs() == mv.spec_abs() {
        spec_run_start(moves, mv, t - 1)
    } else {
        t
    }
}

/// One reported move folded into the buffer. With no same-face run at hand
/// the move is appended; a run ending in the same move grows by one (a
/// doubled turn); a run ending in the opposite turn cancels its last entry.
/// The run keeps its position, before the different-face tail.
pub open spec fn spec_feed(moves: Seq<CubeMove>, mv: CubeMove) -> Seq<CubeMove> {
    let t = spec_tail_start(moves, mv);
    let i = spec_run_start(moves, mv, t);
    if i == t {
        moves.push(mv)
    } else if moves[t - 1] == mv {
        moves.take(t) + seq![mv] + moves.skip(t)
    } else {
        moves.take(t - 1) + moves.skip(t)
    }
}

/// Positions before this one are untouched by `spec_feed`; any parsed key
/// reaching it or beyond is invalidated.
pub open spec fn spec_feed_threshold(moves: Seq<CubeMove>, mv: CubeMove) -> int {
    let t = spec_tail_start(moves, mv);
    let i = spec_run_start(moves, mv, t);
    if i == t {
        moves.len() as int
    } else {
        i
    }
}

/// A turn followed by its own opposite turn cancels: the buffer returns
/// to what it held before the turn, whatever that was.
pub proof fn lemma_feed_cancels(ms: Seq<CubeMove>, mv: CubeMove)
    ensures
        spec_feed(ms.push(mv), mv.spec_rev()) == ms,
{
    let pushed = ms.push(mv);
    let rv = mv.spec_rev();
    let n = pushed.len() as int;
    assert(pushed.last() == mv);
    assert(pushed.last().spec_abs() == rv.spec_abs());
    assert(spec_tail_start(pushed, rv) == n);
    let i = spec_run_start(pushed, rv, n);
    lemma_run_start_char(pushed, rv, n);
    assert(pushed[n - 1].spec_abs() == rv.spec_abs());
    assert(i < n);
    assert(pushed[n - 1] == mv && mv != rv);
    assert(spec_feed(pushed, rv) =~= ms);
}

/// A turn reported twice doubles up: the buffer simply grows by the
/// repeated turn.
pub proof fn lemma_feed_doubles(ms: Seq<CubeMove>, mv: CubeMove)
    ensures
        spec_feed(ms.push(mv), mv) == ms.push(mv).push(mv),
{
    let pushed = ms.push(mv);
    let n = pushed.len() as int;
    assert(pushed.last() == mv);
    assert(spec_tail_start(pushed, mv) == n);
    let i = spec_run_start(pushed, mv, n);
    lemma_run_start_char(pushed, mv, n);
    assert(i < n);
    assert(pushed[n - 1] == mv);
    assert(spec_feed(pushed, mv) =~= pushed.take(n) + seq![mv] + pushed.skip(n));
    assert(pushed.take(n) + seq![mv] + pushed.skip(n) =~= pushed.push(mv));
}

/// The longest prefix of parsed keys that end at or before position `p`.
pub open spec fn kept_prefix(keys: Seq<(CuboardKey, (int, int))>, p: int) -> Seq<
    (CuboardKey, (int, int)),
>
    decreases keys.len(),
{
    if keys.len() == 0 || keys[0].1.1 > p {
        Seq::empty()
    } else {
        seq![keys[0]] + kept_prefix(keys.skip(1), p)
    }
}

/// Where parsing resumes after the kept prefix: the end of its last key,
/// or `start` when nothing is kept.
pub open spec fn resume_at(keys: Seq<(CuboardKey, (int, int))>, p: int, start: int) -> int
    decreases keys.len(),
{
    if keys.len() == 0 || keys[0].1.1 > p {
        start
    } else {
        resume_at(keys.skip(1), p, keys[0].1.1)
    }
}

/// Shape facts of a greedy parse: keys are 2 or 3 wide, contiguous from
/// `start`, within bounds, and in increasing order.
pub proof fn lemma_parse_ranges(moves: Seq<CubeMove>, start: int)
    ensures
        ({
            let keys = spec_parse(moves, start);
            &&& forall|j: int|
                0 <= j < keys.len() ==> start <= (#[trigger] keys[j]).1.0
                    && keys[j].1.0 + 2 <= keys[j].1.1 <= keys[j].1.0 + 3 && keys[j].1.1
                    <= moves.len()
            &&& keys.len() > 0 ==> keys[0].1.0 == start
            &&& forall|j: int|
                0 <= j < keys.len() - 1 ==> (#[trigger] keys[j]).1.1 == keys[j + 1].1.0
            &&& forall|a: int, b: int|
                0 <= a < b < keys.len() ==> (#[trigger] keys[a]).1.1 <= (#[trigger] keys[b]).1.0
        }),
    decreases moves.len() - start,
{
    let keys = spec_parse(moves, start);
    if keys.len() > 0 {
        let e = keys[0].1.1;
        lemma_parse_ranges(moves, e);
        let tail = spec_parse(moves, e);
        assert(keys =~= seq![keys[0]] + tail);
        assert(forall|j: int| 0 <= j < tail.len() ==> keys[j + 1] == tail[j]);
        assert forall|a: int, b: int| 0 <= a < b < keys.len() implies (#[trigger] keys[a]).1.1
            <= (#[trigger] keys[b]).1.0 by {
            if a == 0 {
                assert(keys[b] == tail[b - 1]);
            } else {
                assert(keys[a] == tail[a - 1] && keys[b] == tail[b - 1]);
            }
        }
    }
}

/// A greedy parse resumed at the end of its last key finds nothing more.
pub proof fn lemma_parse_exhausted(moves: Seq<CubeMove>, start: int)
    ensures
        ({
            let keys = spec_parse(moves, start);
            let ce = if keys.len() == 0 {
                start
            } else {
                keys.last().1.1
            };
            spec_parse(moves, ce) =~= Seq::<(CuboardKey, (int, int))>::empty()
        }),
    decreases moves.len() - start,
{
    let keys = spec_parse(moves, start);
    if keys.len() > 0 {
        let e = keys[0].1.1;
        lemma_parse_exhausted(moves, e);
        let tail = spec_parse(moves, e);
        assert(keys =~= seq![keys[0]] + tail);
        if tail.len() > 0 {
            assert(keys.last() == tail.last());
        }
    }
}

/// Parsing a suffix on its own sees the same moves, so an exhausted
/// position stays exhausted after the prefix is flushed away.
pub proof fn lemma_parse_empty_shift(moves: Seq<CubeMove>, ce: int)
    requires
        0 <= ce <= moves.len(),
        spec_parse(moves, ce) == Seq::<(CuboardKey, (int, int))>::empty(),
    ensures
        spec_parse(moves.skip(ce), 0) == Seq::<(CuboardKey, (int, int))>::empty(),
{
    let m2 = moves.skip(ce);
    assert(forall|k: int| 0 <= k < m2.len() ==> m2[k] == moves[ce + k]);
    assert(spec_parse(moves, ce).len() == 0);
    if spec_parse(m2, 0).len() > 0 {
        assert(m2.len() >= 2);
        assert(m2[0] == moves[ce] && m2[1] == moves[ce + 1]);
        if m2.len() >= 3 {
            assert(m2[2] == moves[ce + 2]);
        }
        assert(false);
    }
    assert(spec_parse(m2, 0) =~= Seq::<(CuboardKey, (int, int))>::empty());
}

/// Greedy parsing is local: while two move sequences agree below `p`, the
/// parse of the second consists of the first parse's keys that end by `p`,
/// followed by a fresh parse from where those stopped.
pub proof fn lemma_parse_stable(m1: Seq<CubeMove>, m2: Seq<CubeMove>, start: int, p: int)
    requires
        0 <= start <= p,
        p <= m1.len(),
        p <= m2.len(),
        m1.take(p) == m2.take(p),
    ensures
        spec_parse(m2, start) == kept_prefix(spec_parse(m1, start), p) + spec_parse(
            m2,
            resume_at(spec_parse(m1, start), p, start),
        ),
    decreases m1.len() - start,
{
    let k1 = spec_parse(m1, start);
    assert(forall|k: int| 0 <= k < p ==> m1[k] == m2[k]) by {
        assert(forall|k: int| 0 <= k < p ==> m1[k] == m1.take(p)[k] && m2[k] == m2.take(p)[k]);
    }
    if k1.len() == 0 || k1[0].1.1 > p {
        assert(kept_prefix(k1, p) =~= Seq::<(CuboardKey, (int, int))>::empty());
        assert(resume_at(k1, p, start) == start);
        assert(spec_parse(m2, start) =~= kept_prefix(k1, p) + spec_parse(m2, start));
    } else {
        let key = k1[0];
        let e = key.1.1;
        lemma_parse_ranges(m1, start);
        // the first key of the parse of m1 is also the first key in m2
        if start + 3 <= m1.len() && m1[start] == m1[start + 1] && m1[start] != m1[start + 2] {
            assert(e == start + 3);
            assert(m2[start] == m1[start] && m2[start + 1] == m1[start + 1] && m2[start + 2]
                == m1[start + 2]);
            assert(spec_parse(m2, start) == seq![key] + spec_parse(m2, e));
        } else {
            assert(m1[start] != m1[start + 1]);
            assert(e == start + 2);
            assert(m2[start] == m1[start] && m2[start + 1] == m1[start + 1]);
            assert(!(start + 3 <= m2.len() && m2[start] == m2[start + 1] && m2[start]
                != m2[start + 2]));
            assert(spec_parse(m2, start) == seq![key] + spec_parse(m2, e));
        }
        lemma_parse_stable(m1, m2, e, p);
        let t1 = spec_parse(m1, e);
        assert(k1.skip(1) =~= t1);
        assert(kept_prefix(k1, p) == seq![key] + kept_prefix(t1, p));
        assert(resume_at(k1, p, start) == resume_at(t1, p, e));
        assert(seq![key] + (kept_prefix(t1, p) + spec_parse(m2, resume_at(t1, p, e)))
            =~= kept_prefix(k1, p) + spec_parse(m2, resume_at(k1, p, start)));
    }
}

/// With key ends in increasing order, the kept prefix is a plain prefix.
pub proof fn lemma_kept_prefix_take(keys: Seq<(CuboardKey, (int, int))>, p: int, m: int)
    requires
        0 <= m <= keys.len(),
        forall|j: int| 0 <= j < m ==> (#[trigger] keys[j]).1.1 <= p,
        m < keys.len() ==> keys[m].1.1 > p,
    ensures
        kept_prefix(keys, p) == keys.take(m),
    decreases keys.len(),
{
    if m == 0 {
        if keys.len() == 0 {
            assert(kept_prefix(keys, p) =~= keys.take(0));
        } else {
            assert(keys[0].1.1 > p);
            assert(kept_prefix(keys, p) =~= keys.take(0));
        }
    } else {
        assert(keys[0].1.1 <= p);
        lemma_kept_prefix_take(keys.skip(1), p, m - 1);
        assert(seq![keys[0]] + keys.skip(1).take(m - 1) =~= keys.take(m));
    }
}

/// Where parsing resumes, in the same situation.
pub proof fn lemma_resume_at_take(keys: Seq<(CuboardKey, (int, int))>, p: int, start: int, m: int)
    requires
        0 <= m <= keys.len(),
        forall|j: int| 0 <= j < m ==> (#[trigger] keys[j]).1.1 <= p,
        m < keys.len() ==> keys[m].1.1 > p,
    ensures
        resume_at(keys, p, start) == if m == 0 {
            start
        } else {
            keys[m - 1].1.1
        },
    decreases keys.len(),
{
    if m == 0 {
    } else {
        assert(keys[0].1.1 <= p);
        lemma_resume_at_take(keys.skip(1), p, keys[0].1.1, m - 1);
    }
}

/// After a fold that left everything below `thr` alone, the keys that end
/// by `thr` survive and parsing resumes where they stopped: together they
/// are exactly the greedy parse of the new moves.
pub proof fn lemma_reparse_after_fold(
    m1: Seq<CubeMove>,
    m2: Seq<CubeMove>,
    thr: int,
    m: int,
    ce: int,
)
    requires
        0 <= thr <= m1.len(),
        thr <= m2.len(),
        m1.take(thr) == m2.take(thr),
        0 <= m <= spec_parse(m1, 0).len(),
        forall|j: int| m <= j < spec_parse(m1, 0).len() ==> (#[trigger] spec_parse(m1, 0)[j]).1.1 > thr,
        m > 0 ==> spec_parse(m1, 0)[m - 1].1.1 <= thr,
        ce == (if m == 0 {
            0int
        } else {
            spec_parse(m1, 0)[m - 1].1.1
        }),
    ensures
        0 <= ce <= thr,
        ce == resume_at(spec_parse(m1, 0), thr, 0),
        spec_parse(m1, 0).take(m) == kept_prefix(spec_parse(m1, 0), thr),
        spec_parse(m2, 0) == spec_parse(m1, 0).take(m) + spec_parse(m2, ce),
{
    let okeys = spec_parse(m1, 0);
    lemma_parse_ranges(m1, 0);
    assert forall|j: int| 0 <= j < m implies (#[trigger] okeys[j]).1.1 <= thr by {
        assert(okeys[m - 1].1.1 <= thr);
        if j < m - 1 {
            assert(okeys[j].1.1 <= okeys[m - 1].1.0);
            assert(okeys[m - 1].1.0 + 2 <= okeys[m - 1].1.1);
        }
    }
    lemma_kept_prefix_take(okeys, thr, m);
    lemma_resume_at_take(okeys, thr, 0, m);
    lemma_parse_stable(m1, m2, 0, thr);
}

/// The characterization of `spec_tail_start`: everything at or after it
/// commutes with `mv` on a different face, and it is maximal so.
pub proof fn lemma_tail_start_char(moves: Seq<CubeMove>, mv: CubeMove)
    ensures
        ({
            let t = spec_tail_start(moves, mv);
            &&& 0 <= t <= moves.len()
            &&& forall|k: int|
                t <= k < moves.len() ==> (#[trigger] moves[k]).spec_commute(mv)
                    && moves[k].spec_abs() != mv.spec_abs()
            &&& t > 0 ==> !(moves[t - 1].spec_commute(mv) && moves[t - 1].spec_abs()
                != mv.spec_abs())
        }),
    decreases moves.len(),
{
    if moves.len() > 0 {
        if moves.last().spec_commute(mv) && moves.last().spec_abs() != mv.spec_abs() {
            lemma_tail_start_char(moves.drop_last(), mv);
            let t = spec_tail_start(moves.drop_last(), mv);
            assert(spec_tail_start(moves, mv) == t);
            assert forall|k: int|
                t <= k < moves.len() implies (#[trigger] moves[k]).spec_commute(mv)
                && moves[k].spec_abs() != mv.spec_abs() by {
                if k < moves.len() - 1 {
                    assert(moves.drop_last()[k] == moves[k]);
                } else {
                    assert(moves[k] == moves.last());
                }
            }
            if t > 0 {
                assert(moves.drop_last()[t - 1] == moves[t - 1]);
            }
        }
    }
}

/// The characterization of `spec_run_start`: the run right before `t` is
/// exactly the moves on the face of `mv`.
pub proof fn lemma_run_start_char(moves: Seq<CubeMove>, mv: CubeMove, t: int)
    requires
        0 <= t <= moves.len(),
    ensures
        ({
            let i = spec_run_start(moves, mv, t);
            &&& 0 <= i <= t
            &&& forall|k: int| i <= k < t ==> (#[trigger] moves[k]).spec_abs() == mv.spec_abs()
            &&& i > 0 ==> moves[i - 1].spec_abs() != mv.spec_abs()
        }),
    decreases t,
{
    if t > 0 && moves[t - 1].spec_abs() == mv.spec_abs() {
        lemma_run_start_char(moves, mv, t - 1);
    }
}

/// The move buffer: the canonical pending moves together with the keys
/// greedily parsed out of them. The parsed keys are always exactly the
/// greedy parse of the whole move list.
pub struct CuboardBuffer {
    moves: Vec<CubeMove>,
    keys: Vec<(CuboardKey, (usize, usize))>,
}

impl CuboardBuffer {
    pub closed spec fn spec_moves(self) -> Seq<CubeMove> {
        self.moves@
    }

    pub closed spec fn spec_keys(self) -> Seq<(CuboardKey, (int, int))> {
        keys_view(self.keys@)
    }

    /// The buffer's invariant: the keys are the greedy parse of the moves.
    pub open spec fn wf(self) -> bool {
        self.spec_keys() == spec_parse(self.spec_moves(), 0)
    }

    /// The end of the parsed region: pending moves follow it.
    pub open spec fn spec_chunk_end(self) -> int {
        if self.spec_keys().len() == 0 {
            0
        } else {
            self.spec_keys().last().1.1
        }
    }

    pub fn new() -> (r: CuboardBuffer)
        ensures
            r.wf(),
            r.spec_moves() == Seq::<CubeMove>::empty(),
            r.spec_keys() == Seq::<(CuboardKey, (int, int))>::empty(),
    {
        let r = CuboardBuffer { moves: Vec::new(), keys: Vec::new() };
        proof {
            assert(keys_view(r.keys@) =~= Seq::<(CuboardKey, (int, int))>::empty());
        }
        r
    }

    pub fn moves(&self) -> (r: &Vec<CubeMove>)
        ensures
            r@ == self.spec_moves(),
    {
        &self.moves
    }

    pub fn keys(&self) -> (r: &Vec<(CuboardKey, (usize, usize))>)
        ensures
            keys_view(r@) == self.spec_keys(),
    {
        &self.keys
    }

    /// The pending moves that no key has consumed yet.
    pub fn remains(&self) -> (r: Vec<CubeMove>)
        requires
            self.wf(),
        ensures
            r@ == self.spec_moves().skip(self.spec_chunk_end()),
    {
        proof {
            lemma_parse_ranges(self.spec_moves(), 0);
        }
        let ce = if self.keys.len() == 0 {
            0
        } else {
            self.keys[self.keys.len() - 1].1.1
        };
        assert(ce as int == self.spec_chunk_end());
        assert(ce <= self.moves@.len());
        let mut r: Vec<CubeMove> = Vec::new();
        let mut i = ce;
        while i < self.moves.len()
            invariant
                ce <= i <= self.moves@.len(),
                r@ == self.moves@.subrange(ce as int, i as int),
            decreases self.moves@.len() - i,
        {
            let x = self.moves[i];
            r.push(x);
            assert(r@ =~= self.moves@.subrange(ce as int, i + 1));
            i = i + 1;
        }
        assert(r@ =~= self.spec_moves().skip(ce as int));
        r
    }

    /// Drop everything, recognized or not.
    pub fn cancel(&mut self)
        ensures
            final(self).wf(),
            final(self).spec_moves() == Seq::<CubeMove>::empty(),
            final(self).spec_keys() == Seq::<(CuboardKey, (int, int))>::empty(),
    {
        self.moves.clear();
        self.keys.clear();
        proof {
            assert(keys_view(self.keys@) =~= Seq::<(CuboardKey, (int, int))>::empty());
        }
    }

    /// Whether every buffered move has been consumed by a key.
    pub fn is_completed(&self) -> (r: bool)
        requires
            self.wf(),
        ensures
            r == (self.spec_chunk_end() == self.spec_moves().len()),
    {
        let ce = if self.keys.len() == 0 {
            0
        } else {
            self.keys[self.keys.len() - 1].1.1
        };
        ce == self.moves.len()
    }

    /// Hand out the recognized keys and drop the moves they consumed;
    /// pending moves stay.
    pub fn flush(&mut self) -> (r: Vec<CuboardKey>)
        requires
            old(self).wf(),
        ensures
            final(self).wf(),
            r@ == old(self).spec_keys().map_values(|k: (CuboardKey, (int, int))| k.0),
            final(self).spec_moves() == old(self).spec_moves().skip(
                old(self).spec_chunk_end(),
            ),
            final(self).spec_keys() == Seq::<(CuboardKey, (int, int))>::empty(),
    {
        proof {
            lemma_parse_ranges(self.spec_moves(), 0);
            lemma_parse_exhausted(self.spec_moves(), 0);
        }
        let ce = if self.keys.len() == 0 {
            0
        } else {
            self.keys[self.keys.len() - 1].1.1
        };
        let mut r: Vec<CuboardKey> = Vec::new();
        let mut i: usize = 0;
        while i < self.keys.len()
            invariant
                i <= self.keys@.len(),
                r@ =~= keys_view(self.keys@).map_values(
                    |k: (CuboardKey, (int, int))| k.0,
                ).take(i as int),
            decreases self.keys@.len() - i,
        {
            r.push(self.keys[i].0);
            assert(r@ =~= keys_view(self.keys@).map_values(
                |k: (CuboardKey, (int, int))| k.0,
            ).take(i + 1));
            i = i + 1;
        }
        assert(r@ =~= keys_view(self.keys@).map_values(|k: (CuboardKey, (int, int))| k.0));
        let tail = self.moves.split_off(ce);
        self.moves = tail;
        self.keys.clear();
        proof {
            assert(keys_view(self.keys@) =~= Seq::<(CuboardKey, (int, int))>::empty());
            lemma_parse_empty_shift(old(self).spec_moves(), ce as int);
        }
        r
    }

    /// Fold one reported move into the buffer, drop any keys that the fold
    /// invalidated, and re-parse from the last intact key. Returns whether
    /// the recognized keys changed in either way.
    #[verifier::rlimit(100)]
    pub fn input(&mut self, mv: CubeMove) -> (r: bool)
        requires
            old(self).wf(),
        ensures
            final(self).wf(),
            final(self).spec_moves() == spec_feed(old(self).spec_moves(), mv),
            ({
                let m1 = old(self).spec_moves();
                let thr = spec_feed_threshold(m1, mv);
                let kept = kept_prefix(old(self).spec_keys(), thr);
                r == (kept.len() < old(self).spec_keys().len() || spec_parse(
                    final(self).spec_moves(),
                    resume_at(old(self).spec_keys(), thr, 0),
                ).len() > 0)
            }),
    {
        let ghost m1 = self.moves@;
        let ghost okeys = keys_view(self.keys@);
        let n = self.moves.len();
        let t = find_tail_start(&self.moves, mv);
        let i = find_run_start(&self.moves, mv, t);
        // fold the move in
        let thr: usize = if i == t {
            n
        } else {
            i
        };
        if i == t {
            self.moves.push(mv);
            proof {
                assert(self.moves@ =~= m1.push(mv));
            }
        } else if self.moves[t - 1] == mv {
            self.moves.insert(t, mv);
            proof {
                assert(self.moves@ =~= m1.take(t as int) + seq![mv] + m1.skip(t as int));
            }
        } else {
            self.moves.remove(t - 1);
            proof {
                assert(self.moves@ =~= m1.take(t as int - 1) + m1.skip(t as int));
            }
        }
        let ghost m2 = self.moves@;
        proof {
            assert(m2 == spec_feed(m1, mv));
            assert(thr as int == spec_feed_threshold(m1, mv));
            assert(thr <= m2.len());
            assert(m1.take(thr as int) =~= m2.take(thr as int));
        }
        // drop the keys the fold invalidated
        let changed_keys = self.drop_broken_keys(thr);
        let ghost m = self.keys@.len() as int;
        // re-parse from the last intact key
        let ce = if self.keys.len() == 0 {
            0
        } else {
            self.keys[self.keys.len() - 1].1.1
        };
        proof {
            if m > 0 {
                let l = self.keys@.len() as int;
                assert(keys_view(self.keys@)[l - 1] == (
                    self.keys@[l - 1].0,
                    (self.keys@[l - 1].1.0 as int, self.keys@[l - 1].1.1 as int),
                ));
                assert(ce as int == okeys[m - 1].1.1);
            }
            lemma_reparse_after_fold(m1, m2, thr as int, m, ce as int);
        }
        let mut fresh = CuboardKey::parse(&self.moves, ce);
        let got_fresh = fresh.len() > 0;
        let ghost kept = keys_view(self.keys@);
        let ghost freshv = keys_view(fresh@);
        self.keys.append(&mut fresh);
        proof {
            assert(keys_view(self.keys@) =~= kept + freshv);
        }
        changed_keys || got_fresh
    }

    /// Pop the recognized keys that reach past `thr`: the fold may have
    /// rewritten the moves they were parsed from.
    fn drop_broken_keys(&mut self, thr: usize) -> (changed: bool)
        ensures
            final(self).spec_moves() == old(self).spec_moves(),
            final(self).spec_keys() == old(self).spec_keys().take(
                final(self).spec_keys().len() as int,
            ),
            final(self).spec_keys().len() <= old(self).spec_keys().len(),
            forall|j: int|
                final(self).spec_keys().len() <= j < old(self).spec_keys().len()
                    ==> (#[trigger] old(self).spec_keys()[j]).1.1 > thr,
            final(self).spec_keys().len() > 0 ==> old(self).spec_keys()[final(self).spec_keys().len() - 1].1.1 <= thr,
            changed == (final(self).spec_keys().len() < old(self).spec_keys().len()),
    {
        let ghost okeys = keys_view(self.keys@);
        let mut changed = false;
        let mut done = false;
        while !done
            invariant
                self.moves@ == old(self).moves@,
                keys_view(self.keys@) =~= okeys.take(self.keys@.len() as int),
                okeys == keys_view(old(self).keys@),
                self.keys@.len() <= okeys.len(),
                forall|j: int|
                    self.keys@.len() <= j < okeys.len() ==> (#[trigger] okeys[j]).1.1 > thr,
                changed == (self.keys@.len() < okeys.len()),
                done ==> (self.keys@.len() == 0 || okeys[self.keys@.len() - 1].1.1 <= thr),
            decreases self.keys@.len() + (if done { 0int } else { 1int }),
        {
            if self.keys.len() == 0 {
                done = true;
            } else {
                let last = self.keys[self.keys.len() - 1];
                proof {
                    let l = self.keys@.len() as int;
                    assert(keys_view(self.keys@)[l - 1] == (
                        last.0,
                        (last.1.0 as int, last.1.1 as int),
                    ));
                    assert(okeys[l - 1] == (last.0, (last.1.0 as int, last.1.1 as int)));
                }
                if last.1 .1 > thr {
                    self.keys.pop();
                    changed = true;
                    proof {
                        assert(keys_view(self.keys@) =~= okeys.take(self.keys@.len() as int));
                    }
                } else {
                    done = true;
                }
            }
        }
        changed
    }
}

/// The start of the trailing region of moves that commute with `mv` but
/// turn a different face.
fn find_tail_start(moves: &Vec<CubeMove>, mv: CubeMove) -> (t: usize)
    ensures
        t as int == spec_tail_start(moves@, mv),
        t <= moves@.len(),
{
    proof {
        lemma_tail_start_char(moves@, mv);
    }
    let n = moves.len();
    let mut t = n;
    while t > 0 && moves[t - 1].commute(mv) && moves[t - 1].abs() != mv.abs()
        invariant
            0 <= t <= n,
            n == moves@.len(),
            forall|k: int|
                t <= k < n ==> (#[trigger] moves@[k]).spec_commute(mv) && moves@[k].spec_abs()
                    != mv.spec_abs(),
        decreases t,
    {
        t = t - 1;
    }
    proof {
        let t0 = spec_tail_start(moves@, mv);
        if (t as int) < t0 {
            assert(moves@[t0 - 1].spec_commute(mv) && moves@[t0 - 1].spec_abs()
                != mv.spec_abs());
            assert(false);
        }
        if (t as int) > t0 {
            assert(moves@[t - 1].spec_commute(mv) && moves@[t - 1].spec_abs() != mv.spec_abs());
            assert(false);
        }
    }
    t
}

/// The start of the maximal same-face run that ends right before `t`.
fn find_run_start(moves: &Vec<CubeMove>, mv: CubeMove, t: usize) -> (i: usize)
    requires
        t <= moves@.len(),
    ensures
        i as int == spec_run_start(moves@, mv, t as int),
        i <= t,
{
    proof {
        lemma_run_start_char(moves@, mv, t as int);
    }
    let mut i = t;
    while i > 0 && moves[i - 1].abs() == mv.abs()
        invariant
            0 <= i <= t <= moves@.len(),
            forall|k: int| i <= k < t ==> (#[trigger] moves@[k]).spec_abs() == mv.spec_abs(),
        decreases i,
    {
        i = i - 1;
    }
    proof {
        let i0 = spec_run_start(moves@, mv, t as int);
        if (i as int) < i0 {
            assert(moves@[i0 - 1].spec_abs() == mv.spec_abs());
            assert(false);
        }
        if (i as int) > i0 {
            assert(moves@[i - 1].spec_abs() == mv.spec_abs());
            assert(false);
        }
    }
    i
}

/// Errors of the text-input layer.
#[derive(PartialEq, Eq, Structural, Debug)]
pub enum CuboardInputError {
    /// The buffer still holds moves that no key has consumed.
    UnfinishedInput,
}

/// A keymap: 2 shift states, 12 main moves, 4 adjacency slots, one string
/// each. The library ships a default, but the table is plain configuration.
pub type CuboardKeymap = Vec<Vec<Vec<String>>>;

/// The keymap has its full 2 by 12 by 4 shape.
pub open spec fn keymap_wf(km: CuboardKeymap) -> bool {
    &&& km@.len() == 2
    &&& forall|s: int| 0 <= s < 2 ==> (#[trigger] km@[s])@.len() == 12
    &&& forall|s: int, m: int| 0 <= s < 2 && 0 <= m < 12 ==> (#[trigger] km@[s]@[m])@.len() == 4
}

/// The text one key maps to.
pub open spec fn spec_key_text(km: CuboardKeymap, k: CuboardKey) -> Seq<char> {
    km@[if k.is_shifted {
        1int
    } else {
        0int
    }]@[k.main.spec_repr() as int]@[k.num as int]@
}

/// The text a sequence of keys maps to.
pub open spec fn spec_keys_text(km: CuboardKeymap, keys: Seq<(CuboardKey, (int, int))>) -> Seq<
    char,
>
    decreases keys.len(),
{
    if keys.len() == 0 {
        Seq::empty()
    } else {
        spec_keys_text(km, keys.drop_last()) + spec_key_text(km, keys.last().0)
    }
}

/// Every parsed key points into the 4-entry adjacency order.
pub proof fn lemma_parse_key_bounds(moves: Seq<CubeMove>, start: int)
    ensures
        forall|j: int|
            0 <= j < spec_parse(moves, start).len() ==> (#[trigger] spec_parse(
                moves,
                start,
            )[j]).0.num < 4,
    decreases moves.len() - start,
{
    let keys = spec_parse(moves, start);
    if keys.len() > 0 {
        let e = keys[0].1.1;
        lemma_parse_key_bounds(moves, e);
        let tail = spec_parse(moves, e);
        assert(keys =~= seq![keys[0]] + tail);
        assert(forall|j: int| 0 <= j < tail.len() ==> keys[j + 1] == tail[j]);
    }
}

/// The character of the default keymap at (shift, move, adjacency).
pub open spec fn spec_default_entry(s: int, m: int, n: int) -> char {
    if s == 0 {
        if m == 0 {
            if n == 0 { 'd' } else if n == 1 { 'u' } else if n == 2 { 'c' } else { 'k' }
        } else if m == 1 {
            if n == 0 { '(' } else if n == 1 { '[' } else if n == 2 { '{' } else { '<' }
        } else if m == 2 {
            if n == 0 { 'g' } else if n == 1 { 'a' } else if n == 2 { 's' } else { 'p' }
        } else if m == 3 {
            if n == 0 { '0' } else if n == 1 { ' ' } else if n == 2 { 'z' } else { 'q' }
        } else if m == 4 {
            if n == 0 { 'f' } else if n == 1 { 'l' } else if n == 2 { 'o' } else { 'w' }
        } else if m == 5 {
            if n == 0 { '\'' } else if n == 1 { '.' } else if n == 2 { ':' } else { '!' }
        } else if m == 6 {
            if n == 0 { 'j' } else if n == 1 { 'i' } else if n == 2 { 'n' } else { 'x' }
        } else if m == 7 {
            if n == 0 { '+' } else if n == 1 { '-' } else if n == 2 { '*' } else { '/' }
        } else if m == 8 {
            if n == 0 { 'm' } else if n == 1 { 'y' } else if n == 2 { 't' } else { 'h' }
        } else if m == 9 {
            if n == 0 { '1' } else if n == 1 { '2' } else if n == 2 { '3' } else { '4' }
        } else if m == 10 {
            if n == 0 { 'v' } else if n == 1 { 'e' } else if n == 2 { 'r' } else { 'b' }
        } else if m == 11 {
            if n == 0 { '#' } else if n == 1 { '~' } else if n == 2 { '&' } else { '_' }
        } else {
            ' '
        }
    } else {
        if m == 0 {
            if n == 0 { 'D' } else if n == 1 { 'U' } else if n == 2 { 'C' } else { 'K' }
        } else if m == 1 {
            if n == 0 { ')' } else if n == 1 { ']' } else if n == 2 { '}' } else { '>' }
        } else if m == 2 {
            if n == 0 { 'G' } else if n == 1 { 'A' } else if n == 2 { 'S' } else { 'P' }
        } else if m == 3 {
            if n == 0 { '9' } else if n == 1 { '\n' } else if n == 2 { 'Z' } else { 'Q' }
        } else if m == 4 {
            if n == 0 { 'F' } else if n == 1 { 'L' } else if n == 2 { 'O' } else { 'W' }
        } else if m == 5 {
            if n == 0 { '"' } else if n == 1 { ',' } else if n == 2 { ';' } else { '?' }
        } else if m == 6 {
            if n == 0 { 'J' } else if n == 1 { 'I' } else if n == 2 { 'N' } else { 'X' }
        } else if m == 7 {
            if n == 0 { '=' } else if n == 1 { '|' } else if n == 2 { '^' } else { '\\' }
        } else if m == 8 {
            if n == 0 { 'M' } else if n == 1 { 'Y' } else if n == 2 { 'T' } else { 'H' }
        } else if m == 9 {
            if n == 0 { '5' } else if n == 1 { '6' } else if n == 2 { '7' } else { '8' }
        } else if m == 10 {
            if n == 0 { 'V' } else if n == 1 { 'E' } else if n == 2 { 'R' } else { 'B' }
        } else if m == 11 {
            if n == 0 { '@' } else if n == 1 { '$' } else if n == 2 { '%' } else { '`' }
        } else {
            ' '
        }
    }
}


/// The default keymap the library ships; callers may supply their own.
pub fn default_keymap() -> (r: CuboardKeymap)
    ensures
        keymap_wf(r),
        forall|s: int, m: int, n: int|
            0 <= s < 2 && 0 <= m < 12 && 0 <= n < 4 ==> #[trigger] r@[s]@[m]@[n]@ == seq![
                spec_default_entry(s, m, n),
            ],
{
    proof {
        reveal_strlit("d");
        reveal_strlit("u");
        reveal_strlit("c");
        reveal_strlit("k");
        reveal_strlit("(");
        reveal_strlit("[");
        reveal_strlit("{");
        reveal_strlit("<");
        reveal_strlit("g");
        reveal_strlit("a");
        reveal_strlit("s");
        reveal_strlit("p");
        reveal_strlit("0");
        reveal_strlit(" ");
        reveal_strlit("z");
        reveal_strlit("q");
        reveal_strlit("f");
        reveal_strlit("l");
        reveal_strlit("o");
        reveal_strlit("w");
        reveal_strlit("'");
        reveal_strlit(".");
        reveal_strlit(":");
        reveal_strlit("!");
        reveal_strlit("j");
        reveal_strlit("i");
        reveal_strlit("n");
        reveal_strlit("x");
        reveal_strlit("+");
        reveal_strlit("-");
        reveal_strlit("*");
        reveal_strlit("/");
        reveal_strlit("m");
        reveal_strlit("y");
        reveal_strlit("t");
        reveal_strlit("h");
        reveal_strlit("1");
        reveal_strlit("2");
        reveal_strlit("3");
        reveal_strlit("4");
        reveal_strlit("v");
        reveal_strlit("e");
        reveal_strlit("r");
        reveal_strlit("b");
        reveal_strlit("#");
        reveal_strlit("~");
        reveal_strlit("&");
        reveal_strlit("_");
        reveal_strlit("D");
        reveal_strlit("U");
        reveal_strlit("C");
        reveal_strlit("K");
        reveal_strlit(")");
        reveal_strlit("]");
        reveal_strlit("}");
        reveal_strlit(">");
        reveal_strlit("G");
        reveal_strlit("A");
        reveal_strlit("S");
        reveal_strlit("P");
        reveal_strlit("9");
        reveal_strlit("\n");
        reveal_strlit("Z");
        reveal_strlit("Q");
        reveal_strlit("F");
        reveal_strlit("L");
        reveal_strlit("O");
        reveal_strlit("W");
        reveal_strlit("\"");
        reveal_strlit(",");
        reveal_strlit(";");
        reveal_strlit("?");
        reveal_strlit("J");
        reveal_strlit("I");
        reveal_strlit("N");
        reveal_strlit("X");
        reveal_strlit("=");
        reveal_strlit("|");
        reveal_strlit("^");
        reveal_strlit("\\");
        reveal_strlit("M");
        reveal_strlit("Y");
        reveal_strlit("T");
        reveal_strlit("H");
        reveal_strlit("5");
        reveal_strlit("6");
        reveal_strlit("7");
        reveal_strlit("8");
        reveal_strlit("V");
        reveal_strlit("E");
        reveal_strlit("R");
        reveal_strlit("B");
        reveal_strlit("@");
        reveal_strlit("$");
        reveal_strlit("%");
        reveal_strlit("`");
    }
    let mut side0: Vec<Vec<String>> = Vec::new();
    let mut row0_0: Vec<String> = Vec::new();
    row0_0.push(String::from_str("d"));
    row0_0.push(String::from_str("u"));
    row0_0.push(String::from_str("c"));
    row0_0.push(String::from_str("k"));
    assert(row0_0@[0]@ =~= seq!['d']);
    assert(row0_0@[1]@ =~= seq!['u']);
    assert(row0_0@[2]@ =~= seq!['c']);
    assert(row0_0@[3]@ =~= seq!['k']);
    side0.push(row0_0);
    let mut row0_1: Vec<String> = Vec::new();
    row0_1.push(String::from_str("("));
    row0_1.push(String::from_str("["));
    row0_1.push(String::from_str("{"));
    row0_1.push(String::from_str("<"));
    assert(row0_1@[0]@ =~= seq!['(']);
    assert(row0_1@[1]@ =~= seq!['[']);
    assert(row0_1@[2]@ =~= seq!['{']);
    assert(row0_1@[3]@ =~= seq!['<']);
    side0.push(row0_1);
    let mut row0_2: Vec<String> = Vec::new();
    row0_2.push(String::from_str("g"));
    row0_2.push(String::from_str("a"));
    row0_2.push(String::from_str("s"));
    row0_2.push(String::from_str("p"));
    assert(row0_2@[0]@ =~= seq!['g']);
    assert(row0_2@[1]@ =~= seq!['a']);
    assert(row0_2@[2]@ =~= seq!['s']);
    assert(row0_2@[3]@ =~= seq!['p']);
    side0.push(row0_2);
    let mut row0_3: Vec<String> = Vec::new();
    row0_3.push(String::from_str("0"));
    row0_3.push(String::from_str(" "));
    row0_3.push(String::from_str("z"));
    row0_3.push(String::from_str("q"));
    assert(row0_3@[0]@ =~= seq!['0']);
    assert(row0_3@[1]@ =~= seq![' ']);
    assert(row0_3@[2]@ =~= seq!['z']);
    assert(row0_3@[3]@ =~= seq!['q']);
    side0.push(row0_3);
    let mut row0_4: Vec<String> = Vec::new();
    row0_4.push(String::from_str("f"));
    row0_4.push(String::from_str("l"));
    row0_4.push(String::from_str("o"));
    row0_4.push(String::from_str("w"));
    assert(row0_4@[0]@ =~= seq!['f']);
    assert(row0_4@[1]@ =~= seq!['l']);
    assert(row0_4@[2]@ =~= seq!['o']);
    assert(row0_4@[3]@ =~= seq!['w']);
    side0.push(row0_4);
    let mut row0_5: Vec<String> = Vec::new();
    row0_5.push(String::from_str("'"));
    row0_5.push(String::from_str("."));
    row0_5.push(String::from_str(":"));
    row0_5.push(String::from_str("!"));
    assert(row0_5@[0]@ =~= seq!['\'']);
    assert(row0_5@[1]@ =~= seq!['.']);
    assert(row0_5@[2]@ =~= seq![':']);
    assert(row0_5@[3]@ =~= seq!['!']);
    side0.push(row0_5);
    let mut row0_6: Vec<String> = Vec::new();
    row0_6.push(String::from_str("j"));
    row0_6.push(String::from_str("i"));
    row0_6.push(String::from_str("n"));
    row0_6.push(String::from_str("x"));
    assert(row0_6@[0]@ =~= seq!['j']);
    assert(row0_6@[1]@ =~= seq!['i']);
    assert(row0_6@[2]@ =~= seq!['n']);
    assert(row0_6@[3]@ =~= seq!['x']);
    side0.push(row0_6);
    let mut row0_7: Vec<String> = Vec::new();
    row0_7.push(String::from_str("+"));
    row0_7.push(String::from_str("-"));
    row0_7.push(String::from_str("*"));
    row0_7.push(String::from_str("/"));
    assert(row0_7@[0]@ =~= seq!['+']);
    assert(row0_7@[1]@ =~= seq!['-']);
    assert(row0_7@[2]@ =~= seq!['*']);
    assert(row0_7@[3]@ =~= seq!['/']);
    side0.push(row0_7);
    let mut row0_8: Vec<String> = Vec::new();
    row0_8.push(String::from_str("m"));
    row0_8.push(String::from_str("y"));
    row0_8.push(String::from_str("t"));
    row0_8.push(String::from_str("h"));
    assert(row0_8@[0]@ =~= seq!['m']);
    assert(row0_8@[1]@ =~= seq!['y']);
    assert(row0_8@[2]@ =~= seq!['t']);
    assert(row0_8@[3]@ =~= seq!['h']);
    side0.push(row0_8);
    let mut row0_9: Vec<String> = Vec::new();
    row0_9.push(String::from_str("1"));
    row0_9.push(String::from_str("2"));
    row0_9.push(String::from_str("3"));
    row0_9.push(String::from_str("4"));
    assert(row0_9@[0]@ =~= seq!['1']);
    assert(row0_9@[1]@ =~= seq!['2']);
    assert(row0_9@[2]@ =~= seq!['3']);
    assert(row0_9@[3]@ =~= seq!['4']);
    side0.push(row0_9);
    let mut row0_10: Vec<String> = Vec::new();
    row0_10.push(String::from_str("v"));
    row0_10.push(String::from_str("e"));
    row0_10.push(String::from_str("r"));
    row0_10.push(String::from_str("b"));
    assert(row0_10@[0]@ =~= seq!['v']);
    assert(row0_10@[1]@ =~= seq!['e']);
    assert(row0_10@[2]@ =~= seq!['r']);
    assert(row0_10@[3]@ =~= seq!['b']);
    side0.push(row0_10);
    let mut row0_11: Vec<String> = Vec::new();
    row0_11.push(String::from_str("#"));
    row0_11.push(String::from_str("~"));
    row0_11.push(String::from_str("&"));
    row0_11.push(String::from_str("_"));
    assert(row0_11@[0]@ =~= seq!['#']);
    assert(row0_11@[1]@ =~= seq!['~']);
    assert(row0_11@[2]@ =~= seq!['&']);
    assert(row0_11@[3]@ =~= seq!['_']);
    side0.push(row0_11);
    let side0 = side0;
    let mut side1: Vec<Vec<String>> = Vec::new();
    let mut row1_0: Vec<String> = Vec::new();
    row1_0.push(String::from_str("D"));
    row1_0.push(String::from_str("U"));
    row1_0.push(String::from_str("C"));
    row1_0.push(String::from_str("K"));
    assert(row1_0@[0]@ =~= seq!['D']);
    assert(row1_0@[1]@ =~= seq!['U']);
    assert(row1_0@[2]@ =~= seq!['C']);
    assert(row1_0@[3]@ =~= seq!['K']);
    side1.push(row1_0);
    let mut row1_1: Vec<String> = Vec::new();
    row1_1.push(String::from_str(")"));
    row1_1.push(String::from_str("]"));
    row1_1.push(String::from_str("}"));
    row1_1.push(String::from_str(">"));
    assert(row1_1@[0]@ =~= seq![')']);
    assert(row1_1@[1]@ =~= seq![']']);
    assert(row1_1@[2]@ =~= seq!['}']);
    assert(row1_1@[3]@ =~= seq!['>']);
    side1.push(row1_1);
    let mut row1_2: Vec<String> = Vec::new();
    row1_2.push(String::from_str("G"));
    row1_2.push(String::from_str("A"));
    row1_2.push(String::from_str("S"));
    row1_2.push(String::from_str("P"));
    assert(row1_2@[0]@ =~= seq!['G']);
    assert(row1_2@[1]@ =~= seq!['A']);
    assert(row1_2@[2]@ =~= seq!['S']);
    assert(row1_2@[3]@ =~= seq!['P']);
    side1.push(row1_2);
    let mut row1_3: Vec<String> = Vec::new();
    row1_3.push(String::from_str("9"));
    row1_3.push(String::from_str("\n"));
    row1_3.push(String::from_str("Z"));
    row1_3.push(String::from_str("Q"));
    assert(row1_3@[0]@ =~= seq!['9']);
    assert(row1_3@[1]@ =~= seq!['\n']);
    assert(row1_3@[2]@ =~= seq!['Z']);
    assert(row1_3@[3]@ =~= seq!['Q']);
    side1.push(row1_3);
    let mut row1_4: Vec<String> = Vec::new();
    row1_4.push(String::from_str("F"));
    row1_4.push(String::from_str("L"));
    row1_4.push(String::from_str("O"));
    row1_4.push(String::from_str("W"));
    assert(row1_4@[0]@ =~= seq!['F']);
    assert(row1_4@[1]@ =~= seq!['L']);
    assert(row1_4@[2]@ =~= seq!['O']);
    assert(row1_4@[3]@ =~= seq!['W']);
    side1.push(row1_4);
    let mut row1_5: Vec<String> = Vec::new();
    row1_5.push(String::from_str("\""));
    row1_5.push(String::from_str(","));
    row1_5.push(String::from_str(";"));
    row1_5.push(String::from_str("?"));
    assert(row1_5@[0]@ =~= seq!['"']);
    assert(row1_5@[1]@ =~= seq![',']);
    assert(row1_5@[2]@ =~= seq![';']);
    assert(row1_5@[3]@ =~= seq!['?']);
    side1.push(row1_5);
    let mut row1_6: Vec<String> = Vec::new();
    row1_6.push(String::from_str("J"));
    row1_6.push(String::from_str("I"));
    row1_6.push(String::from_str("N"));
    row1_6.push(String::from_str("X"));
    assert(row1_6@[0]@ =~= seq!['J']);
    assert(row1_6@[1]@ =~= seq!['I']);
    assert(row1_6@[2]@ =~= seq!['N']);
    assert(row1_6@[3]@ =~= seq!['X']);
    side1.push(row1_6);
    let mut row1_7: Vec<String> = Vec::new();
    row1_7.push(String::from_str("="));
    row1_7.push(String::from_str("|"));
    row1_7.push(String::from_str("^"));
    row1_7.push(String::from_str("\\"));
    assert(row1_7@[0]@ =~= seq!['=']);
    assert(row1_7@[1]@ =~= seq!['|']);
    assert(row1_7@[2]@ =~= seq!['^']);
    assert(row1_7@[3]@ =~= seq!['\\']);
    side1.push(row1_7);
    let mut row1_8: Vec<String> = Vec::new();
    row1_8.push(String::from_str("M"));
    row1_8.push(String::from_str("Y"));
    row1_8.push(String::from_str("T"));
    row1_8.push(String::from_str("H"));
    assert(row1_8@[0]@ =~= seq!['M']);
    assert(row1_8@[1]@ =~= seq!['Y']);
    assert(row1_8@[2]@ =~= seq!['T']);
    assert(row1_8@[3]@ =~= seq!['H']);
    side1.push(row1_8);
    let mut row1_9: Vec<String> = Vec::new();
    row1_9.push(String::from_str("5"));
    row1_9.push(String::from_str("6"));
    row1_9.push(String::from_str("7"));
    row1_9.push(String::from_str("8"));
    assert(row1_9@[0]@ =~= seq!['5']);
    assert(row1_9@[1]@ =~= seq!['6']);
    assert(row1_9@[2]@ =~= seq!['7']);
    assert(row1_9@[3]@ =~= seq!['8']);
    side1.push(row1_9);
    let mut row1_10: Vec<String> = Vec::new();
    row1_10.push(String::from_str("V"));
    row1_10.push(String::from_str("E"));
    row1_10.push(String::from_str("R"));
    row1_10.push(String::from_str("B"));
    assert(row1_10@[0]@ =~= seq!['V']);
    assert(row1_10@[1]@ =~= seq!['E']);
    assert(row1_10@[2]@ =~= seq!['R']);
    assert(row1_10@[3]@ =~= seq!['B']);
    side1.push(row1_10);
    let mut row1_11: Vec<String> = Vec::new();
    row1_11.push(String::from_str("@"));
    row1_11.push(String::from_str("$"));
    row1_11.push(String::from_str("%"));
    row1_11.push(String::from_str("`"));
    assert(row1_11@[0]@ =~= seq!['@']);
    assert(row1_11@[1]@ =~= seq!['$']);
    assert(row1_11@[2]@ =~= seq!['%']);
    assert(row1_11@[3]@ =~= seq!['`']);
    side1.push(row1_11);
    let side1 = side1;
    let mut r: CuboardKeymap = Vec::new();
    r.push(side0);
    r.push(side1);
    r
}


/// What the input layer reports for one handled message.
#[derive(Clone, PartialEq, Eq, Debug)]
pub enum CuboardInputEvent {
    /// No full-state frame has arrived yet; the message was ignored.
    Uninit,
    /// The first full-state frame arrived; the move counter is known now.
    Init,
    /// The session was cancelled and the buffer dropped.
    Cancel,
    /// A line was finished; the text carried it.
    Finish(String),
    /// Moves were folded in: the accepted text, and how many reported
    /// slots were stale or unreadable.
    Input { accept: String, skip: usize },
}

/// One move folded into a session: the buffer state afterwards, plus the
/// text accepted if the fold completed a line (the buffer then drains).
pub open spec fn spec_feed_step(km: CuboardKeymap, ms: Seq<CubeMove>, mv: CubeMove) -> (
    Seq<CubeMove>,
    Seq<char>,
) {
    let m2 = spec_feed(ms, mv);
    let text = spec_keys_text(km, spec_parse(m2, 0));
    if text.contains('\n') {
        (Seq::empty(), text)
    } else {
        (m2, Seq::empty())
    }
}

/// A whole burst of moves folded in, oldest first.
pub open spec fn spec_session(km: CuboardKeymap, ms: Seq<CubeMove>, mvs: Seq<CubeMove>) -> (
    Seq<CubeMove>,
    Seq<char>,
)
    decreases mvs.len(),
{
    if mvs.len() == 0 {
        (ms, Seq::empty())
    } else {
        let prev = spec_session(km, ms, mvs.drop_last());
        let step = spec_feed_step(km, prev.0, mvs.last());
        (step.0, prev.1 + step.1)
    }
}

/// The wrap-aware difference of two 8-bit move counters.
pub open spec fn spec_move_diff(prev: u8, count: u8) -> int {
    (count + 256 - prev) % 256
}

/// The moves of the newest `take` report slots, oldest first, unknown
/// codes left out.
pub open spec fn spec_accepted(moves: Seq<Option<CubeMove>>, take: int) -> Seq<CubeMove>
    decreases take,
{
    if take <= 0 {
        Seq::empty()
    } else {
        (match moves[take - 1] {
            Some(m) => seq![m],
            None => Seq::empty(),
        }) + spec_accepted(moves, take - 1)
    }
}

/// How many of the newest `take` report slots carried unknown codes.
pub open spec fn spec_skipped(moves: Seq<Option<CubeMove>>, take: int) -> int
    decreases take,
{
    if take <= 0 {
        0
    } else {
        (if moves[take - 1] is None {
            1int
        } else {
            0int
        }) + spec_skipped(moves, take - 1)
    }
}

/// Unknown-code slots are never more numerous than the slots themselves.
pub proof fn lemma_skipped_bounds(moves: Seq<Option<CubeMove>>, a: int, b: int)
    requires
        0 <= a <= b,
    ensures
        0 <= spec_skipped(moves, b) - spec_skipped(moves, a) <= b - a,
        spec_accepted(moves, b).len() + spec_skipped(moves, b) - spec_skipped(moves, a)
            - spec_accepted(moves, a).len() == b - a,
    decreases b,
{
    if a < b {
        lemma_skipped_bounds(moves, a, b - 1);
    }
}

/// The text-input session: a move buffer, a keymap, and the last seen
/// move counter.
pub struct CuboardInput {
    pub buffer: CuboardBuffer,
    pub keymap: CuboardKeymap,
    /// The move counter of the last handled report, once known.
    pub count: Option<u8>,
}

impl CuboardInput {
    pub open spec fn spec_count(self) -> Option<u8> {
        self.count
    }

    pub open spec fn wf(self) -> bool {
        self.buffer.wf() && keymap_wf(self.keymap)
    }

    pub fn new(keymap: CuboardKeymap) -> (r: CuboardInput)
        requires
            keymap_wf(keymap),
        ensures
            r.wf(),
            r.keymap == keymap,
            r.buffer.spec_moves() == Seq::<CubeMove>::empty(),
            r.buffer.spec_keys() == Seq::<(CuboardKey, (int, int))>::empty(),
            r.spec_count() is None,
    {
        CuboardInput { buffer: CuboardBuffer::new(), keymap, count: None }
    }

    /// The text of the recognized keys, not yet accepted.
    pub fn buffered_text(&self) -> (r: String)
        requires
            self.wf(),
        ensures
            r@ == spec_keys_text(self.keymap, self.buffer.spec_keys()),
    {
        proof {
            reveal_strlit("");
            lemma_parse_key_bounds(self.buffer.spec_moves(), 0);
        }
        let keys = self.buffer.keys();
        let ghost kv = keys_view(keys@);
        let mut r = String::from_str("");
        let mut i: usize = 0;
        while i < keys.len()
            invariant
                i <= keys@.len(),
                kv == keys_view(keys@),
                kv == self.buffer.spec_keys(),
                self.wf(),
                forall|j: int| 0 <= j < kv.len() ==> (#[trigger] kv[j]).0.num < 4,
                r@ == spec_keys_text(self.keymap, kv.take(i as int)),
            decreases keys@.len() - i,
        {
            let k = keys[i].0;
            proof {
                assert(kv[i as int] == (
                    keys@[i as int].0,
                    (keys@[i as int].1.0 as int, keys@[i as int].1.1 as int),
                ));
            }
            let shift: usize = if k.is_shifted {
                1
            } else {
                0
            };
            let main = k.main.repr() as usize;
            let entry = &self.keymap[shift][main][k.num];
            r.append(entry.as_str());
            proof {
                assert(kv.take(i + 1).drop_last() =~= kv.take(i as int));
                assert(kv.take(i + 1).last() == kv[i as int]);
            }
            i = i + 1;
        }
        proof {
            assert(kv.take(kv.len() as int) =~= kv);
        }
        r
    }

    /// The formatted moves that recognized keys consumed.
    pub fn complete_part(&self) -> (r: String)
        requires
            self.wf(),
        ensures
            r@ == spec_format_moves(
                self.buffer.spec_moves().take(self.buffer.spec_chunk_end()),
            ),
    {
        proof {
            lemma_parse_ranges(self.buffer.spec_moves(), 0);
        }
        let moves = self.buffer.moves();
        let keys = self.buffer.keys();
        let ce = if keys.len() == 0 {
            0
        } else {
            keys[keys.len() - 1].1.1
        };
        proof {
            if keys@.len() > 0 {
                let l = keys@.len() as int;
                assert(keys_view(keys@)[l - 1] == (
                    keys@[l - 1].0,
                    (keys@[l - 1].1.0 as int, keys@[l - 1].1.1 as int),
                ));
            }
            assert(ce as int == self.buffer.spec_chunk_end());
        }
        let mut prefix: Vec<CubeMove> = Vec::new();
        let mut i: usize = 0;
        while i < ce
            invariant
                i <= ce,
                ce <= moves@.len(),
                moves@ == self.buffer.spec_moves(),
                prefix@ == moves@.take(i as int),
            decreases ce - i,
        {
            prefix.push(moves[i]);
            assert(prefix@ =~= moves@.take(i + 1));
            i = i + 1;
        }
        format_moves(&prefix)
    }

    /// The formatted moves still pending after the last key.
    pub fn remain_part(&self) -> (r: String)
        requires
            self.wf(),
        ensures
            r@ == spec_format_moves(
                self.buffer.spec_moves().skip(self.buffer.spec_chunk_end()),
            ),
    {
        let rest = self.buffer.remains();
        format_moves(&rest)
    }

    /// Drop everything buffered.
    pub fn cancel(&mut self)
        requires
            old(self).wf(),
        ensures
            final(self).wf(),
            final(self).buffer.spec_moves() == Seq::<CubeMove>::empty(),
            final(self).buffer.spec_keys() == Seq::<(CuboardKey, (int, int))>::empty(),
            final(self).keymap == old(self).keymap,
            final(self).spec_count() == old(self).spec_count(),
    {
        self.buffer.cancel();
    }

    /// Accept the recognized text and drop the whole buffer.
    pub fn finish(&mut self) -> (r: String)
        requires
            old(self).wf(),
        ensures
            final(self).wf(),
            r@ == spec_keys_text(old(self).keymap, old(self).buffer.spec_keys()),
            final(self).buffer.spec_moves() == Seq::<CubeMove>::empty(),
            final(self).buffer.spec_keys() == Seq::<(CuboardKey, (int, int))>::empty(),
            final(self).keymap == old(self).keymap,
            final(self).spec_count() == old(self).spec_count(),
    {
        let accepted = self.buffered_text();
        self.buffer.cancel();
        accepted
    }

    /// Fold a burst of moves in, oldest first; whenever the buffered text
    /// completes a line, accept it and drain the buffer.
    pub fn input(&mut self, mvs: &Vec<CubeMove>) -> (r: String)
        requires
            old(self).wf(),
        ensures
            final(self).wf(),
            final(self).keymap == old(self).keymap,
            final(self).spec_count() == old(self).spec_count(),
            final(self).buffer.spec_moves() == spec_session(
                old(self).keymap,
                old(self).buffer.spec_moves(),
                mvs@,
            ).0,
            r@ == spec_session(old(self).keymap, old(self).buffer.spec_moves(), mvs@).1,
    {
        proof {
            reveal_strlit("");
        }
        let ghost km = self.keymap;
        let ghost ms0 = self.buffer.spec_moves();
        let mut r = String::from_str("");
        let mut i: usize = 0;
        while i < mvs.len()
            invariant
                i <= mvs@.len(),
                self.wf(),
                self.keymap == km,
                self.spec_count() == old(self).spec_count(),
                km == old(self).keymap,
                ms0 == old(self).buffer.spec_moves(),
                self.buffer.spec_moves() == spec_session(km, ms0, mvs@.take(i as int)).0,
                r@ == spec_session(km, ms0, mvs@.take(i as int)).1,
            decreases mvs@.len() - i,
        {
            let mv = mvs[i];
            self.buffer.input(mv);
            let text = self.buffered_text();
            if contains_newline(&text) {
                let accepted = self.finish();
                r.append(accepted.as_str());
            }
            proof {
                assert(mvs@.take(i + 1).drop_last() =~= mvs@.take(i as int));
                assert(mvs@.take(i + 1).last() == mvs@[i as int]);
            }
            i = i + 1;
        }
        proof {
            assert(mvs@.take(mvs@.len() as int) =~= mvs@);
        }
        r
    }

    /// Feed one decoded message to the session. Until the first full-state
    /// frame arrives, everything is ignored; gyroscope samples are left to
    /// the caller's gesture handling; a move burst is folded in via the
    /// wrap-aware counter difference; anything else, the disconnect
    /// sentinel included, leaves the buffer untouched.
    pub fn handle_message(&mut self, msg: ResponseMessage) -> (r: Option<CuboardInputEvent>)
        requires
            old(self).wf(),
            msg matches ResponseMessage::Moves { moves, .. } ==> moves@.len() == 7,
        ensures
            final(self).wf(),
            final(self).keymap == old(self).keymap,
            match msg {
                ResponseMessage::State { count, .. } => {
                    if old(self).spec_count() is None {
                        &&& r == Some(CuboardInputEvent::Init)
                        &&& final(self).spec_count() == Some(count)
                        &&& final(self).buffer == old(self).buffer
                    } else {
                        &&& r is None
                        &&& *final(self) == *old(self)
                    }
                },
                ResponseMessage::Moves { count, moves, .. } => {
                    if old(self).spec_count() is None {
                        r == Some(CuboardInputEvent::Uninit) && *final(self) == *old(self)
                    } else {
                        let prev = old(self).spec_count().unwrap();
                        let diff = spec_move_diff(prev, count);
                        let take = if diff > 7 {
                            7int
                        } else {
                            diff
                        };
                        let acc = spec_accepted(moves@, take);
                        let sess = spec_session(
                            old(self).keymap,
                            old(self).buffer.spec_moves(),
                            acc,
                        );
                        &&& final(self).spec_count() == Some(count)
                        &&& final(self).buffer.spec_moves() == sess.0
                        &&& match r {
                            Some(CuboardInputEvent::Input { accept, skip }) => accept@ == sess.1
                                && skip == 7 - take + spec_skipped(moves@, take),
                            _ => false,
                        }
                    }
                },
                _ => {
                    if old(self).spec_count() is None {
                        r == Some(CuboardInputEvent::Uninit) && *final(self) == *old(self)
                    } else {
                        r is None && *final(self) == *old(self)
                    }
                },
            },
    {
        if self.count.is_none() {
            match msg {
                ResponseMessage::State { count, .. } => {
                    self.count = Some(count);
                    return Some(CuboardInputEvent::Init);
                },
                _ => {
                    return Some(CuboardInputEvent::Uninit);
                },
            }
        }
        let prev = match self.count {
            Some(c) => c,
            None => {
                return None;  // unreachable: the count was just checked
            },
        };
        match msg {
            ResponseMessage::Moves { count, moves, .. } => {
                let diff_full = ((count as u16 + 256 - prev as u16) % 256) as usize;
                let take = if diff_full > 7 {
                    7
                } else {
                    diff_full
                };
                let mut skip: usize = 7 - take;
                let mut accepted_moves: Vec<CubeMove> = Vec::new();
                let mut idx = take;
                proof {
                    lemma_skipped_bounds(moves@, 0, take as int);
                    assert(spec_accepted(moves@, take as int).skip(0) =~= spec_accepted(
                        moves@,
                        take as int,
                    ));
                    assert(accepted_moves@ =~= spec_accepted(moves@, take as int).take(0));
                }
                while idx > 0
                    invariant
                        idx <= take <= 7,
                        moves@.len() == 7,
                        skip == 7 - take + spec_skipped(moves@, take as int) - spec_skipped(
                            moves@,
                            idx as int,
                        ),
                        0 <= spec_skipped(moves@, idx as int) <= spec_skipped(
                            moves@,
                            take as int,
                        ),
                        spec_skipped(moves@, take as int) <= take,
                        accepted_moves@ == spec_accepted(moves@, take as int).take(
                            spec_accepted(moves@, take as int).len() - spec_accepted(
                                moves@,
                                idx as int,
                            ).len(),
                        ),
                        spec_accepted(moves@, idx as int).len() <= spec_accepted(
                            moves@,
                            take as int,
                        ).len(),
                        spec_accepted(moves@, take as int).skip(
                            spec_accepted(moves@, take as int).len() - spec_accepted(
                                moves@,
                                idx as int,
                            ).len(),
                        ) == spec_accepted(moves@, idx as int),
                    decreases idx,
                {
                    let ghost full = spec_accepted(moves@, take as int);
                    let ghost before = spec_accepted(moves@, idx as int);
                    let ghost after = spec_accepted(moves@, idx - 1);
                    let ghost x = full.len() - before.len();
                    proof {
                        lemma_skipped_bounds(moves@, idx - 1, idx as int);
                        lemma_skipped_bounds(moves@, 0, idx - 1);
                        lemma_skipped_bounds(moves@, idx as int, take as int);
                        assert(full.skip(x) == before);
                    }
                    match moves[idx - 1] {
                        Some(m) => {
                            accepted_moves.push(m);
                            proof {
                                assert(before == seq![m] + after);
                                assert(before[0] == m);
                                assert(full.skip(x)[0] == full[x]);
                                assert(full[x] == m);
                                assert(accepted_moves@ =~= full.take(x + 1));
                                assert(full.skip(x + 1) =~= before.skip(1));
                                assert(before.skip(1) =~= after);
                            }
                        },
                        None => {
                            skip = skip + 1;
                            proof {
                                assert(before =~= after);
                            }
                        },
                    }
                    idx = idx - 1;
                }
                proof {
                    assert(spec_accepted(moves@, 0) =~= Seq::<CubeMove>::empty());
                    assert(accepted_moves@ =~= spec_accepted(moves@, take as int));
                }
                self.count = Some(count);
                let accept = self.input(&accepted_moves);
                Some(CuboardInputEvent::Input { accept, skip })
            },
            _ => None,
        }
    }
}

/// Whether the text holds a line break.
fn contains_newline(s: &String) -> (r: bool)
    ensures
        r == s@.contains('\n'),
{
    let st = s.as_str();
    let n = st.unicode_len();
    let mut i: usize = 0;
    while i < n
        invariant
            i <= n,
            n == s@.len(),
            st@ == s@,
            forall|j: int| 0 <= j < i ==> s@[j] != '\n',
        decreases n - i,
    {
        if st.get_char(i) == '\n' {
            assert(s@.contains('\n'));
            return true;
        }
        i = i + 1;
    }
    assert(!s@.contains('\n')) by {
        if s@.contains('\n') {
            let j = choose|j: int| 0 <= j < s@.len() && s@[j] == '\n';
        }
    }
    false
}

} // verus!
