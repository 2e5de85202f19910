//! Scenes, and the search for what a ray meets first.

use vstd::prelude::*;
use crate::geometry::scalar::Scalar;
use crate::geometry::shape::first_within;
use crate::geometry::{Interval, Ray};
use crate::surface::{faithful, Surface};

verus! {

/// Each of `surfaces` is faithful, along `ray`, to the set of crossings that
/// stands in its place in `crossings`.
pub open spec fn all_faithful<S: Surface>(surfaces: Seq<S>, ray: Ray, crossings: Seq<Set<Scalar>>) -> bool {
    &&& crossings.len() == surfaces.len()
    &&& forall|i: int| 0 <= i < surfaces.len() ==> faithful(#[trigger] surfaces[i], ray, crossings[i])
}

/// One of `crossings` equals `t`.
pub open spec fn met(crossings: Set<Scalar>, t: Scalar) -> bool {
    exists|u: Scalar| #[trigger] crossings.contains(u) && u.same(t)
}

/// No crossing of any surface lies in `window`.
pub open spec fn missed(crossings: Seq<Set<Scalar>>, window: Interval) -> bool {
    forall|i: int, u: Scalar| 0 <= i < crossings.len() && #[trigger] crossings[i].contains(u) ==> !window.holds(u)
}

/// `t` is the first crossing in `window` of all the surfaces: it is a
/// crossing of one of them, it lies in the window, and no crossing of any of
/// them that lies in the window is smaller.
pub open spec fn nearest(crossings: Seq<Set<Scalar>>, window: Interval, t: Scalar) -> bool {
    &&& window.holds(t)
    &&& exists|i: int| 0 <= i < crossings.len() && #[trigger] crossings[i].contains(t)
    &&& forall|i: int, u: Scalar|
        0 <= i < crossings.len() && #[trigger] crossings[i].contains(u) && window.holds(u) ==> t.at_most(u)
}

/// Those of `surfaces` that have a crossing equal to `t`, in the order in
/// which they stand.
pub open spec fn tied<S>(surfaces: Seq<S>, crossings: Seq<Set<Scalar>>, t: Scalar) -> Seq<S>
    decreases surfaces.len(),
{
    if surfaces.len() == 0 || crossings.len() != surfaces.len() {
        Seq::empty()
    } else if met(crossings.last(), t) {
        tied(surfaces.drop_last(), crossings.drop_last(), t).push(surfaces.last())
    } else {
        tied(surfaces.drop_last(), crossings.drop_last(), t)
    }
}

/// A scene: surfaces in the order in which they were added.
pub struct SurfaceSet<S: Surface> {
    pub surfaces: Vec<S>,
}

/// The nearest crossing of a ray with a scene: the parameter, and every
/// surface of the scene that the ray crosses there.
pub struct SurfaceSetIntersection<'a, S: Surface> {
    pub t: Scalar,
    pub surfaces: Vec<&'a S>,
}

impl<'a, S: Surface> SurfaceSetIntersection<'a, S> {
    /// The surfaces, without the references.
    pub open spec fn tie_set(&self) -> Seq<S> {
        Seq::new(self.surfaces@.len(), |k: int| *self.surfaces@[k])
    }
}

impl<S: Surface> View for SurfaceSet<S> {
    type V = Seq<S>;

    open spec fn view(&self) -> Seq<S> {
        self.surfaces@
    }
}

/// What a search has come to after the first `i` surfaces, for surfaces that
/// are faithful to `crossings`.
spec fn searched<S>(
    surfaces: Seq<S>,
    crossings: Seq<Set<Scalar>>,
    whole: Interval,
    i: int,
    best: Option<Scalar>,
    window: Interval,
    ties: Seq<S>,
) -> bool {
    match best {
        None => window == whole && missed(crossings.take(i), whole) && ties.len() == 0,
        Some(t) => {
            &&& nearest(crossings.take(i), whole, t)
            &&& narrowed(whole, window, t)
            &&& ties == tied(surfaces.take(i), crossings.take(i), t)
        },
    }
}

/// What the window of a search is once `t` has been found in the interval
/// `whole` that was to be searched: `whole` cut off above at a scalar equal to
/// `t`, the end included.
spec fn narrowed(whole: Interval, window: Interval, t: Scalar) -> bool {
    &&& window.min == whole.min
    &&& window.bounds == whole.bounds.closed_above()
    &&& window.max.same(t)
}

impl<S: Surface> SurfaceSet<S> {
    pub fn new() -> (set: Self)
        ensures
            set@.len() == 0,
    {
        Self { surfaces: Vec::new() }
    }

    pub fn add(&mut self, surface: S)
        ensures
            final(self)@ == old(self)@.push(surface),
    {
        self.surfaces.push(surface);
    }

    pub fn clear(&mut self)
        ensures
            final(self)@.len() == 0,
    {
        self.surfaces.clear();
    }

    /// The first parameter in `time_interval` at which `ray` crosses any
    /// surface of the scene, with all the surfaces that it crosses there, in
    /// the order in which they were added; or nothing, where it crosses none
    /// in the interval.
    ///
    /// The surfaces are asked in turn. Once one has answered, the others are
    /// asked about the interval up to that answer, the answer included, so
    /// that a later surface can only tie with it or come before it.
    pub fn intersection(&self, ray: Ray, time_interval: Interval) -> (found: Option<
        SurfaceSetIntersection<'_, S>,
    >)
        ensures
            self@.len() == 0 ==> found is None,
            found matches Some(hit) ==> hit.surfaces@.len() >= 1 && forall|k: int|
                0 <= k < hit.surfaces@.len() ==> self@.contains(*#[trigger] hit.surfaces@[k]),
            forall|crossings: Seq<Set<Scalar>>| #[trigger]
                all_faithful(self@, ray, crossings) ==> {
                    &&& found is None <==> missed(crossings, time_interval)
                    &&& found matches Some(hit) ==> {
                        &&& nearest(crossings, time_interval, hit.t)
                        &&& hit.tie_set() == tied(self@, crossings, hit.t)
                    }
                },
    {
        let subsequent_bounds = time_interval.bounds().closing_above();
        let mut best: Option<Scalar> = None;
        let mut ties: Vec<&S> = Vec::new();
        let mut window = time_interval;
        let mut i: usize = 0;
        while i < self.surfaces.len()
            invariant
                i <= self@.len(),
                subsequent_bounds == time_interval.bounds.closed_above(),
                best is None ==> ties@.len() == 0,
                i == 0 ==> best is None,
                forall|k: int| 0 <= k < ties@.len() ==> self@.contains(*#[trigger] ties@[k]),
                best is Some ==> ties@.len() >= 1,
                forall|crossings: Seq<Set<Scalar>>| #[trigger]
                    all_faithful(self@, ray, crossings) ==> searched(
                        self@,
                        crossings,
                        time_interval,
                        i as int,
                        best,
                        window,
                        Seq::new(ties@.len(), |k: int| *ties@[k]),
                    ),
            decreases self@.len() - i,
        {
            let s = &self.surfaces[i];
            let ghost old_ties = Seq::new(ties@.len(), |k: int| *ties@[k]);
            let ghost old_best = best;
            let ghost old_window = window;
            let answer = s.intersection(ray, window);
            match answer {
                None => {},
                Some(t) => {
                    if best.is_some() && t == window.max() {
                        ties.push(s);
                        assert(Seq::new(ties@.len(), |k: int| *ties@[k]) == old_ties.push(*s));
                    } else {
                        best = Some(t);
                        ties = Vec::new();
                        ties.push(s);
                        assert(Seq::new(ties@.len(), |k: int| *ties@[k]) == Seq::<S>::empty().push(*s));
                    }
                    window = Interval::new(window.min(), t, subsequent_bounds);
                },
            }
            proof {
                assert forall|crossings: Seq<Set<Scalar>>| #[trigger]
                    all_faithful(self@, ray, crossings) implies searched(
                    self@,
                    crossings,
                    time_interval,
                    i + 1,
                    best,
                    window,
                    Seq::new(ties@.len(), |k: int| *ties@[k]),
                ) by {
                    assert(faithful(self@[i as int], ray, crossings[i as int]));
                    assert(first_within(crossings[i as int], old_window, answer));
                    lemma_search_step(
                        self@,
                        crossings,
                        time_interval,
                        i as int,
                        old_best,
                        old_window,
                        old_ties,
                        answer,
                    );
                }
            }
            i += 1;
        }
        proof {
            assert forall|crossings: Seq<Set<Scalar>>| #[trigger]
                all_faithful(self@, ray, crossings) implies searched(
                self@,
                crossings,
                time_interval,
                self@.len() as int,
                best,
                window,
                Seq::new(ties@.len(), |k: int| *ties@[k]),
            ) && crossings.take(self@.len() as int) == crossings && self@.take(self@.len() as int)
                == self@ by {}
        }
        match best {
            None => None,
            Some(t) => Some(SurfaceSetIntersection { t, surfaces: ties }),
        }
    }
}

/// A narrowed window holds what the whole interval holds up to the value
/// found.
proof fn lemma_narrowed_holds(whole: Interval, window: Interval, t: Scalar, u: Scalar)
    requires
        whole.holds(t),
        narrowed(whole, window, t),
    ensures
        window.holds(u) <==> whole.holds(u) && u.at_most(t),
{
}

/// One step of the search: what it has come to after the surface in place
/// `i` has given `answer` for the window, from what it had come to before.
proof fn lemma_search_step<S>(
    surfaces: Seq<S>,
    crossings: Seq<Set<Scalar>>,
    whole: Interval,
    i: int,
    best: Option<Scalar>,
    window: Interval,
    ties: Seq<S>,
    answer: Option<Scalar>,
)
    requires
        0 <= i < surfaces.len(),
        crossings.len() == surfaces.len(),
        searched(surfaces, crossings, whole, i, best, window, ties),
        first_within(crossings[i], window, answer),
    ensures
        match answer {
            None => searched(surfaces, crossings, whole, i + 1, best, window, ties),
            Some(x) => if best is Some && x.same(window.max) {
                searched(surfaces, crossings, whole, i + 1, best, window.cut_at(x), ties.push(surfaces[i]))
            } else {
                searched(
                    surfaces,
                    crossings,
                    whole,
                    i + 1,
                    Some(x),
                    window.cut_at(x),
                    Seq::<S>::empty().push(surfaces[i]),
                )
            },
        },
{
    let before = crossings.take(i);
    let after = crossings.take(i + 1);
    assert(after.drop_last() == before);
    assert(after.last() == crossings[i]);
    assert(surfaces.take(i + 1).drop_last() == surfaces.take(i));
    assert(surfaces.take(i + 1).last() == surfaces[i]);
    assert forall|j: int| 0 <= j < i implies #[trigger] after[j] == before[j] by {}
    match answer {
        None => {
            match best {
                None => {
                    assert forall|j: int, u: Scalar|
                        0 <= j < after.len() && #[trigger] after[j].contains(u) implies !whole.holds(u) by {
                        if j < i {
                            assert(before[j].contains(u));
                        }
                    }
                },
                Some(t) => {
                    lemma_nearest_grows(before, after, whole, t);
                    assert forall|u: Scalar| #[trigger]
                        after[i].contains(u) && whole.holds(u) implies t.at_most(u) && !u.same(t) by {
                        lemma_narrowed_holds(whole, window, t, u);
                    }
                    if met(after[i], t) {
                        let u = choose|u: Scalar| #[trigger] after[i].contains(u) && u.same(t);
                        lemma_narrowed_holds(whole, window, t, u);
                    }
                },
            }
        },
        Some(x) => {
            if best is Some && x.same(window.max) {
                let t = best.unwrap();
                lemma_nearest_grows(before, after, whole, t);
                assert forall|u: Scalar| #[trigger]
                    after[i].contains(u) && whole.holds(u) implies t.at_most(u) by {
                    lemma_narrowed_holds(whole, window, t, u);
                }
                assert(after[i].contains(x) && x.same(t));
            } else {
                if let Some(t) = best {
                    lemma_narrowed_holds(whole, window, t, x);
                }
                assert(whole.holds(x));
                assert(after[i].contains(x));
                assert forall|j: int, u: Scalar|
                    0 <= j < after.len() && #[trigger] after[j].contains(u) && whole.holds(u) implies x.at_most(
                    u,
                ) by {
                    if j < i {
                        assert(before[j].contains(u));
                    } else if let Some(t) = best {
                        lemma_narrowed_holds(whole, window, t, u);
                    }
                }
                assert forall|j: int| 0 <= j < before.len() implies !#[trigger] met(before[j], x) by {
                    if met(before[j], x) {
                        let u = choose|u: Scalar| #[trigger] before[j].contains(u) && u.same(x);
                        assert(whole.holds(u));
                    }
                }
                lemma_tied_none(surfaces.take(i), before, x);
                assert(after[i].contains(x) && x.same(x));
            }
        },
    }
}

/// What was the first crossing of some surfaces stays a crossing of theirs
/// when one more surface is counted.
proof fn lemma_nearest_grows(
    before: Seq<Set<Scalar>>,
    after: Seq<Set<Scalar>>,
    whole: Interval,
    t: Scalar,
)
    requires
        after.len() == before.len() + 1,
        after.drop_last() == before,
        nearest(before, whole, t),
    ensures
        whole.holds(t),
        exists|i: int| 0 <= i < after.len() && #[trigger] after[i].contains(t),
        forall|j: int, u: Scalar|
            0 <= j < before.len() && #[trigger] after[j].contains(u) && whole.holds(u) ==> t.at_most(u),
{
    assert forall|j: int| 0 <= j < before.len() implies #[trigger] after[j] == before[j] by {
        assert(after.drop_last()[j] == after[j]);
    }
    let w = choose|w: int| 0 <= w < before.len() && #[trigger] before[w].contains(t);
    assert(after[w].contains(t));
    assert forall|j: int, u: Scalar|
        0 <= j < before.len() && #[trigger] after[j].contains(u) && whole.holds(u) implies t.at_most(u) by {
        assert(before[j].contains(u));
    }
}

/// Where no surface has a crossing equal to `t`, none ties at `t`.
pub proof fn lemma_tied_none<S>(surfaces: Seq<S>, crossings: Seq<Set<Scalar>>, t: Scalar)
    requires
        forall|i: int| 0 <= i < crossings.len() ==> !#[trigger] met(crossings[i], t),
    ensures
        tied(surfaces, crossings, t) == Seq::<S>::empty(),
    decreases surfaces.len(),
{
    if surfaces.len() > 0 && crossings.len() == surfaces.len() {
        assert(!met(crossings[crossings.len() - 1], t));
        assert forall|i: int| 0 <= i < crossings.drop_last().len() implies !#[trigger] met(
            crossings.drop_last()[i],
            t,
        ) by {
            assert(crossings.drop_last()[i] == crossings[i]);
        }
        lemma_tied_none(surfaces.drop_last(), crossings.drop_last(), t);
    }
}

/// The ties among the first `n` surfaces open the ties among all of them.
pub proof fn lemma_tied_prefix<S>(surfaces: Seq<S>, crossings: Seq<Set<Scalar>>, t: Scalar, n: int)
    requires
        crossings.len() == surfaces.len(),
        0 <= n <= surfaces.len(),
    ensures
        tied(surfaces.take(n), crossings.take(n), t).len() <= tied(surfaces, crossings, t).len(),
        forall|k: int|
            0 <= k < tied(surfaces.take(n), crossings.take(n), t).len() ==> tied(surfaces, crossings, t)[k]
                == #[trigger] tied(surfaces.take(n), crossings.take(n), t)[k],
    decreases surfaces.len(),
{
    if n == surfaces.len() {
        assert(surfaces.take(n) == surfaces);
        assert(crossings.take(n) == crossings);
    } else {
        assert(surfaces.drop_last().take(n) == surfaces.take(n));
        assert(crossings.drop_last().take(n) == crossings.take(n));
        lemma_tied_prefix(surfaces.drop_last(), crossings.drop_last(), t, n);
    }
}

/// A surface with a crossing equal to `t` stands among the ties at `t`,
/// behind those that tie and were added before it.
pub proof fn lemma_tied_holds<S>(surfaces: Seq<S>, crossings: Seq<Set<Scalar>>, t: Scalar, i: int)
    requires
        crossings.len() == surfaces.len(),
        0 <= i < surfaces.len(),
        met(crossings[i], t),
    ensures
        tied(surfaces.take(i), crossings.take(i), t).len() < tied(surfaces, crossings, t).len(),
        tied(surfaces, crossings, t)[tied(surfaces.take(i), crossings.take(i), t).len() as int] == surfaces[i],
{
    let upto = tied(surfaces.take(i + 1), crossings.take(i + 1), t);
    assert(surfaces.take(i + 1).drop_last() == surfaces.take(i));
    assert(crossings.take(i + 1).drop_last() == crossings.take(i));
    assert(crossings.take(i + 1).last() == crossings[i]);
    assert(surfaces.take(i + 1).last() == surfaces[i]);
    assert(upto == tied(surfaces.take(i), crossings.take(i), t).push(surfaces[i]));
    lemma_tied_prefix(surfaces, crossings, t, i + 1);
    assert(tied(surfaces, crossings, t)[upto.len() - 1] == upto[upto.len() - 1]);
}

/// Two surfaces that a ray crosses at equal parameters both stand among the
/// ties at that parameter, the one that was added first before the other.
pub proof fn lemma_ties_hold_both<S>(
    surfaces: Seq<S>,
    crossings: Seq<Set<Scalar>>,
    t: Scalar,
    first: int,
    second: int,
)
    requires
        crossings.len() == surfaces.len(),
        0 <= first < second < surfaces.len(),
        met(crossings[first], t),
        met(crossings[second], t),
    ensures
        exists|a: int, b: int|
            {
                &&& 0 <= a < b < tied(surfaces, crossings, t).len()
                &&& #[trigger] tied(surfaces, crossings, t)[a] == surfaces[first]
                &&& #[trigger] tied(surfaces, crossings, t)[b] == surfaces[second]
            },
{
    let a = tied(surfaces.take(first), crossings.take(first), t).len() as int;
    let b = tied(surfaces.take(second), crossings.take(second), t).len() as int;
    lemma_tied_holds(surfaces, crossings, t, first);
    lemma_tied_holds(surfaces, crossings, t, second);
    assert(a < b) by {
        assert(surfaces.take(second).take(first) == surfaces.take(first));
        assert(crossings.take(second).take(first) == crossings.take(first));
        assert(crossings.take(second)[first] == crossings[first]);
        lemma_tied_holds(surfaces.take(second), crossings.take(second), t, first);
    }
    assert(tied(surfaces, crossings, t)[a] == surfaces[first] && tied(surfaces, crossings, t)[b]
        == surfaces[second]);
}

} // verus!
