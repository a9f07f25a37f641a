//! The escape-time iteration: how many steps an orbit takes to escape.

use vstd::prelude::*;

verus! {

/// `orbit` starts at `start`, and each later state is one that `step`
/// returns for the state before it.
pub open spec fn is_orbit<Z, S: Fn(Z) -> Z>(step: S, start: Z, orbit: Seq<Z>) -> bool {
    &&& orbit.len() > 0
    &&& orbit[0] == start
    &&& forall|j: int, k: int|
        0 <= j && k == j + 1 && k < orbit.len() ==> step.ensures(
            (#[trigger] orbit[j],),
            #[trigger] orbit[k],
        )
}

/// An orbit from `start` none of whose states after the first has escaped.
pub open spec fn is_bounded_orbit<Z, S: Fn(Z) -> Z, E: Fn(&Z) -> bool>(
    step: S,
    escaped: E,
    start: Z,
    orbit: Seq<Z>,
) -> bool {
    &&& is_orbit(step, start, orbit)
    &&& forall|k: int| 0 < k < orbit.len() ==> escaped.ensures((&#[trigger] orbit[k],), false)
}

/// `orbit` runs from `start` without an escape, and `last`, the state one
/// step after its end, has escaped.
pub open spec fn escapes_after<Z, S: Fn(Z) -> Z, E: Fn(&Z) -> bool>(
    step: S,
    escaped: E,
    start: Z,
    orbit: Seq<Z>,
    last: Z,
) -> bool {
    &&& is_bounded_orbit(step, escaped, start, orbit)
    &&& step.ensures((orbit.last(),), last)
    &&& escaped.ensures((&last,), true)
}

/// What `escape_time` returns for `start` and `limit`.
///
/// `Some(count)`: the orbit took `count` steps without escaping, and the
/// state after one more step has escaped; `count` is below `limit`.
/// `None`: the orbit took `limit` steps and none of those states escaped.
pub open spec fn is_escape_time<Z, S: Fn(Z) -> Z, E: Fn(&Z) -> bool>(
    step: S,
    escaped: E,
    start: Z,
    limit: u32,
    result: Option<u32>,
) -> bool {
    match result {
        Some(count) => {
            &&& count < limit
            &&& exists|orbit: Seq<Z>, last: Z|
                {
                    &&& #[trigger] escapes_after(step, escaped, start, orbit, last)
                    &&& orbit.len() == count + 1
                }
        },
        None => exists|orbit: Seq<Z>|
            {
                &&& #[trigger] is_bounded_orbit(step, escaped, start, orbit)
                &&& orbit.len() == limit + 1
            },
    }
}

/// Runs the iteration from `start`: applies `step`, then asks `escaped` of
/// the new state, up to `limit` times.
///
/// Returns the number of the first iteration, counted from zero, whose
/// state has escaped, and `None` where `limit` iterations pass without
/// an escape.
pub fn escape_time<Z, S: Fn(Z) -> Z, E: Fn(&Z) -> bool>(
    start: Z,
    limit: u32,
    step: S,
    escaped: E,
) -> (r: Option<u32>)
    requires
        forall|z: Z| #[trigger] step.requires((z,)),
        forall|z: Z| #[trigger] escaped.requires((&z,)),
    ensures
        is_escape_time(step, escaped, start, limit, r),
{
    let ghost mut orbit: Seq<Z> = seq![start];
    let mut z = start;
    let mut i: u32 = 0;
    while i < limit
        invariant
            i <= limit,
            forall|z: Z| #[trigger] step.requires((z,)),
            forall|z: Z| #[trigger] escaped.requires((&z,)),
            is_bounded_orbit(step, escaped, start, orbit),
            orbit.len() == i + 1,
            orbit.last() == z,
        decreases limit - i,
    {
        let next = step(z);
        if escaped(&next) {
            assert(escapes_after(step, escaped, start, orbit, next));
            return Some(i);
        }
        proof {
            let longer = orbit.push(next);
            assert(is_bounded_orbit(step, escaped, start, longer)) by {
                assert forall|j: int, k: int|
                    0 <= j && k == j + 1 && k < longer.len() implies step.ensures(
                    (#[trigger] longer[j],),
                    #[trigger] longer[k],
                ) by {
                    if k < orbit.len() {
                        assert(longer[j] == orbit[j] && longer[k] == orbit[k]);
                    }
                }
            }
            orbit = longer;
        }
        z = next;
        i += 1;
    }
    None
}

/// `step` and `escaped` are functions of the state: each returns one
/// result for one argument.
pub open spec fn is_deterministic<Z, S: Fn(Z) -> Z, E: Fn(&Z) -> bool>(
    step: S,
    escaped: E,
) -> bool {
    &&& forall|z: Z, a: Z, b: Z|
        #[trigger] step.ensures((z,), a) && #[trigger] step.ensures((z,), b) ==> a == b
    &&& forall|z: Z, a: bool, b: bool|
        #[trigger] escaped.ensures((&z,), a) && #[trigger] escaped.ensures((&z,), b) ==> a == b
}

/// Two orbits of one deterministic step from one start hold the same
/// state at every position that both reach.
proof fn lemma_orbits_agree<Z, S: Fn(Z) -> Z, E: Fn(&Z) -> bool>(
    step: S,
    escaped: E,
    start: Z,
    first: Seq<Z>,
    second: Seq<Z>,
    k: int,
)
    requires
        is_deterministic(step, escaped),
        is_orbit(step, start, first),
        is_orbit(step, start, second),
        0 <= k < first.len(),
        k < second.len(),
    ensures
        first[k] == second[k],
    decreases k,
{
    if k > 0 {
        lemma_orbits_agree(step, escaped, start, first, second, k - 1);
        assert(step.ensures((first[k - 1],), first[k]));
        assert(step.ensures((second[k - 1],), second[k]));
    }
}

/// A bounded orbit of `longer` steps shows that the iteration cannot have
/// escaped after `count < longer` steps of another orbit.
proof fn lemma_no_earlier_escape<Z, S: Fn(Z) -> Z, E: Fn(&Z) -> bool>(
    step: S,
    escaped: E,
    start: Z,
    short: Seq<Z>,
    last: Z,
    long: Seq<Z>,
)
    requires
        is_deterministic(step, escaped),
        is_bounded_orbit(step, escaped, start, short),
        step.ensures((short.last(),), last),
        escaped.ensures((&last,), true),
        is_bounded_orbit(step, escaped, start, long),
    ensures
        long.len() <= short.len(),
{
    if long.len() > short.len() {
        let k = short.len() as int;
        lemma_orbits_agree(step, escaped, start, short, long, k - 1);
        assert(step.ensures((long[k - 1],), long[k]));
        assert(long[k] == last);
        assert(escaped.ensures((&long[k],), false));
    }
}

/// The evaluator has one answer: where `step` and `escaped` are functions
/// of the state, any two results that meet the contract of `escape_time`
/// for the same start and limit are equal.
pub proof fn lemma_escape_time_unique<Z, S: Fn(Z) -> Z, E: Fn(&Z) -> bool>(
    step: S,
    escaped: E,
    start: Z,
    limit: u32,
    first: Option<u32>,
    second: Option<u32>,
)
    requires
        is_deterministic(step, escaped),
        is_escape_time(step, escaped, start, limit, first),
        is_escape_time(step, escaped, start, limit, second),
    ensures
        first == second,
{
    match (first, second) {
        (Some(a), Some(b)) => {
            let (orbit_a, last_a) = choose|orbit: Seq<Z>, last: Z|
                #[trigger] escapes_after(step, escaped, start, orbit, last) && orbit.len() == a + 1;
            let (orbit_b, last_b) = choose|orbit: Seq<Z>, last: Z|
                #[trigger] escapes_after(step, escaped, start, orbit, last) && orbit.len() == b + 1;
            lemma_no_earlier_escape(step, escaped, start, orbit_a, last_a, orbit_b);
            lemma_no_earlier_escape(step, escaped, start, orbit_b, last_b, orbit_a);
        },
        (Some(a), None) => {
            let (orbit_a, last_a) = choose|orbit: Seq<Z>, last: Z|
                #[trigger] escapes_after(step, escaped, start, orbit, last) && orbit.len() == a + 1;
            let full = choose|orbit: Seq<Z>|
                {
                    &&& #[trigger] is_bounded_orbit(step, escaped, start, orbit)
                    &&& orbit.len() == limit + 1
                };
            lemma_no_earlier_escape(step, escaped, start, orbit_a, last_a, full);
        },
        (None, Some(b)) => {
            let (orbit_b, last_b) = choose|orbit: Seq<Z>, last: Z|
                #[trigger] escapes_after(step, escaped, start, orbit, last) && orbit.len() == b + 1;
            let full = choose|orbit: Seq<Z>|
                {
                    &&& #[trigger] is_bounded_orbit(step, escaped, start, orbit)
                    &&& orbit.len() == limit + 1
                };
            lemma_no_earlier_escape(step, escaped, start, orbit_b, last_b, full);
        },
        (None, None) => {},
    }
}

/// A start whose first iterate always counts as escaped escapes at
/// iteration zero, whatever the positive limit.
pub proof fn lemma_escapes_at_once<Z, S: Fn(Z) -> Z, E: Fn(&Z) -> bool>(
    step: S,
    escaped: E,
    start: Z,
    limit: u32,
    result: Option<u32>,
)
    requires
        limit > 0,
        is_escape_time(step, escaped, start, limit, result),
        forall|next: Z| #[trigger]
            step.ensures((start,), next) ==> !escaped.ensures((&next,), false),
    ensures
        result == Some(0u32),
{
    if result != Some(0u32) {
        let orbit = choose|orbit: Seq<Z>|
            #[trigger] is_bounded_orbit(step, escaped, start, orbit) && orbit.len() >= 2;
        assert(step.ensures((orbit[0],), orbit[1]));
        assert(escaped.ensures((&orbit[1],), false));
    }
}

/// Along an orbit from a start that `step` maps to itself, every state is
/// the start.
proof fn lemma_fixed_orbit<Z, S: Fn(Z) -> Z>(step: S, start: Z, orbit: Seq<Z>, k: int)
    requires
        is_orbit(step, start, orbit),
        forall|next: Z| #[trigger] step.ensures((start,), next) ==> next == start,
        0 <= k < orbit.len(),
    ensures
        orbit[k] == start,
    decreases k,
{
    if k > 0 {
        lemma_fixed_orbit(step, start, orbit, k - 1);
        assert(step.ensures((orbit[k - 1],), orbit[k]));
    }
}

/// A start that `step` maps to itself and that never counts as escaped
/// does not escape within any limit.
pub proof fn lemma_fixed_point_never_escapes<Z, S: Fn(Z) -> Z, E: Fn(&Z) -> bool>(
    step: S,
    escaped: E,
    start: Z,
    limit: u32,
    result: Option<u32>,
)
    requires
        is_escape_time(step, escaped, start, limit, result),
        forall|next: Z| #[trigger] step.ensures((start,), next) ==> next == start,
        !escaped.ensures((&start,), true),
    ensures
        result is None,
{
    if let Some(count) = result {
        let (orbit, last) = choose|orbit: Seq<Z>, last: Z|
            #[trigger] escapes_after(step, escaped, start, orbit, last) && orbit.len() == count + 1;
        lemma_fixed_orbit(step, start, orbit, orbit.len() - 1);
    }
}

} // verus!
