//! Walking the two registries of a stand: its bombs and its targets.
//!
//! A registry hands out its ids in an order of its own choosing. Nothing
//! here depends on that order but the order of the ids in a returned list.

use crate::bomb::{Bomb, BombType};
use crate::laws::lemma_hottest_is;
use crate::state::{
    alive, carries, draws_before, holds, hottest, is_hottest, living, only_kind, rewound,
    without_kind,
};
use crate::target::{is_within_radius, within_radius, Target, FULL_HEALTH};
use std::collections::HashMap;
use vstd::prelude::*;
use vstd::std_specs::iter::IteratorSpec;

verus! {

broadcast use vstd::std_specs::hash::group_hash_axioms;

/// The ids under which `registry` holds an entry, each exactly once.
pub fn ids_of<V>(registry: &HashMap<u32, V>) -> (ids: Vec<u32>)
    ensures
        ids@.no_duplicates(),
        ids@.to_set() == registry@.dom(),
{
    let mut ids: Vec<u32> = Vec::new();
    for id in it: registry.keys()
        invariant
            ids@ == it.seq().take(it.index() as int).unref(),
    {
        ids.push(*id);
    }
    proof {
        let all = registry.keys().remaining();
        assert(all.take(all.len() as int) =~= all);
    }
    ids
}

/// `out` lists, each once, those of the first `upto` of `ids` that are
/// `wanted`.
pub open spec fn gathered(
    out: Seq<u32>,
    ids: Seq<u32>,
    upto: int,
    wanted: spec_fn(u32) -> bool,
) -> bool {
    &&& 0 <= upto <= ids.len()
    &&& out.no_duplicates()
    &&& forall|j: int|
        0 <= j < out.len() ==> wanted(#[trigger] out[j]) && ids.take(upto).contains(out[j])
    &&& forall|k: int| 0 <= k < upto && wanted(#[trigger] ids[k]) ==> out.contains(ids[k])
}

/// The first `upto + 1` of `ids` are the first `upto` and `ids[upto]`.
proof fn lemma_take_one_more(ids: Seq<u32>, upto: int)
    requires
        0 <= upto < ids.len(),
    ensures
        forall|id: u32|
            #![trigger ids.take(upto + 1).contains(id)]
            #![trigger ids.take(upto).contains(id)]
            ids.take(upto + 1).contains(id) <==> ids.take(upto).contains(id) || id == ids[upto],
{
    let before = ids.take(upto);
    let after = ids.take(upto + 1);
    assert forall|id: u32| after.contains(id) <==> before.contains(id) || id == ids[upto] by {
        if before.contains(id) {
            let k = choose|k: int| 0 <= k < before.len() && before[k] == id;
            assert(after[k] == id);
        }
        if id == ids[upto] {
            assert(after[upto] == id);
        }
    }
}

/// Whatever lies among the first `upto` of `ids` differs from `ids[upto]`
/// when `ids` holds nothing twice.
proof fn lemma_not_yet_seen(ids: Seq<u32>, upto: int, id: u32)
    requires
        0 <= upto < ids.len(),
        ids.no_duplicates(),
        ids.take(upto).contains(id),
    ensures
        id != ids[upto],
{
    let k = choose|k: int| 0 <= k < upto && ids.take(upto)[k] == id;
    assert(ids[k] == id);
}

/// Gathering goes on with `ids[upto]` taken.
proof fn lemma_gather_take(out: Seq<u32>, ids: Seq<u32>, upto: int, wanted: spec_fn(u32) -> bool)
    requires
        gathered(out, ids, upto, wanted),
        upto < ids.len(),
        ids.no_duplicates(),
        wanted(ids[upto]),
    ensures
        gathered(out.push(ids[upto]), ids, upto + 1, wanted),
{
    let grown = out.push(ids[upto]);
    lemma_take_one_more(ids, upto);
    assert forall|j: int| 0 <= j < grown.len() implies wanted(#[trigger] grown[j]) && ids.take(
        upto + 1,
    ).contains(grown[j]) by {
        if j < out.len() {
            assert(wanted(out[j]) && ids.take(upto).contains(out[j]));
        } else {
            assert(grown[j] == ids[upto]);
        }
    }
    assert forall|k: int| 0 <= k < upto + 1 && wanted(#[trigger] ids[k]) implies grown.contains(
        ids[k],
    ) by {
        if k < upto {
            let j = choose|j: int| 0 <= j < out.len() && out[j] == ids[k];
            assert(grown[j] == ids[k]);
        } else {
            assert(grown[out.len() as int] == ids[k]);
        }
    }
    assert forall|a: int, b: int| 0 <= a < grown.len() && 0 <= b < grown.len() && a != b implies grown[a]
        != grown[b] by {
        if a == out.len() {
            lemma_not_yet_seen(ids, upto, out[b]);
        } else if b == out.len() {
            lemma_not_yet_seen(ids, upto, out[a]);
        }
    }
}

/// Gathering goes on with `ids[upto]` passed over.
proof fn lemma_gather_skip(out: Seq<u32>, ids: Seq<u32>, upto: int, wanted: spec_fn(u32) -> bool)
    requires
        gathered(out, ids, upto, wanted),
        upto < ids.len(),
        !wanted(ids[upto]),
    ensures
        gathered(out, ids, upto + 1, wanted),
{
    lemma_take_one_more(ids, upto);
}

/// Once all of `ids` have been gone through, `out` lists exactly the
/// wanted ones.
proof fn lemma_gather_all(out: Seq<u32>, ids: Seq<u32>, wanted: spec_fn(u32) -> bool)
    requires
        gathered(out, ids, ids.len() as int, wanted),
    ensures
        out.to_set() == ids.to_set().filter(wanted),
{
    assert(ids.take(ids.len() as int) =~= ids);
    assert forall|id: u32| out.to_set().contains(id) <==> ids.to_set().filter(wanted).contains(
        id,
    ) by {
        if out.contains(id) {
            let j = choose|j: int| 0 <= j < out.len() && out[j] == id;
            assert(wanted(out[j]));
        }
        if ids.contains(id) && wanted(id) {
            let k = choose|k: int| 0 <= k < ids.len() && ids[k] == id;
            assert(wanted(ids[k]));
        }
    }
    assert(out.to_set() =~= ids.to_set().filter(wanted));
}

/// The ids of the living targets, each exactly once.
pub fn living_ids(targets: &HashMap<u32, Target>) -> (ids: Vec<u32>)
    ensures
        ids@.no_duplicates(),
        ids@.to_set() == living(targets@),
{
    let all = ids_of(targets);
    let ghost wanted = |id: u32| alive(targets@, id);
    let mut ids: Vec<u32> = Vec::new();
    let mut i: usize = 0;
    while i < all.len()
        invariant
            all@.no_duplicates(),
            all@.to_set() == targets@.dom(),
            wanted == |id: u32| alive(targets@, id),
            gathered(ids@, all@, i as int, wanted),
        decreases all.len() - i,
    {
        let id = all[i];
        let lives = match targets.get(&id) {
            Some(target) => target.is_alive,
            None => false,
        };
        if lives {
            proof {
                lemma_gather_take(ids@, all@, i as int, wanted);
            }
            ids.push(id);
        } else {
            proof {
                lemma_gather_skip(ids@, all@, i as int, wanted);
            }
        }
        i += 1;
    }
    proof {
        lemma_gather_all(ids@, all@, wanted);
        assert(all@.to_set().filter(wanted) =~= living(targets@));
    }
    ids
}

/// The ids of the living targets that stand within `radius` of `center`,
/// each exactly once.
pub fn living_ids_within(
    targets: &HashMap<u32, Target>,
    center: (i32, i32, i32),
    radius: i32,
) -> (ids: Vec<u32>)
    ensures
        ids@.no_duplicates(),
        ids@.to_set() == Set::new(
            |id: u32|
                alive(targets@, id) && within_radius(targets@[id].position, center, radius),
        ),
{
    let all = ids_of(targets);
    let ghost wanted = |id: u32|
        alive(targets@, id) && within_radius(targets@[id].position, center, radius);
    let mut ids: Vec<u32> = Vec::new();
    let mut i: usize = 0;
    while i < all.len()
        invariant
            all@.no_duplicates(),
            all@.to_set() == targets@.dom(),
            wanted == |id: u32|
                alive(targets@, id) && within_radius(targets@[id].position, center, radius),
            gathered(ids@, all@, i as int, wanted),
        decreases all.len() - i,
    {
        let id = all[i];
        let caught = match targets.get(&id) {
            Some(target) => target.is_alive && is_within_radius(target.position, center, radius),
            None => false,
        };
        if caught {
            proof {
                lemma_gather_take(ids@, all@, i as int, wanted);
            }
            ids.push(id);
        } else {
            proof {
                lemma_gather_skip(ids@, all@, i as int, wanted);
            }
        }
        i += 1;
    }
    proof {
        lemma_gather_all(ids@, all@, wanted);
        assert(all@.to_set().filter(wanted) =~= Set::new(
            |id: u32|
                alive(targets@, id) && within_radius(targets@[id].position, center, radius),
        ));
    }
    ids
}

/// The ids of all targets but `spared`, each exactly once.
pub fn ids_except(targets: &HashMap<u32, Target>, spared: u32) -> (ids: Vec<u32>)
    ensures
        ids@.no_duplicates(),
        ids@.to_set() == targets@.dom().remove(spared),
{
    let all = ids_of(targets);
    let ghost wanted = |id: u32| id != spared;
    let mut ids: Vec<u32> = Vec::new();
    let mut i: usize = 0;
    while i < all.len()
        invariant
            all@.no_duplicates(),
            wanted == |id: u32| id != spared,
            gathered(ids@, all@, i as int, wanted),
        decreases all.len() - i,
    {
        let id = all[i];
        if id != spared {
            proof {
                lemma_gather_take(ids@, all@, i as int, wanted);
            }
            ids.push(id);
        } else {
            proof {
                lemma_gather_skip(ids@, all@, i as int, wanted);
            }
        }
        i += 1;
    }
    proof {
        lemma_gather_all(ids@, all@, wanted);
        assert(all@.to_set().filter(wanted) =~= targets@.dom().remove(spared));
    }
    ids
}

/// A target that carries a bomb of kind `kind`, if there is one.
pub fn find_kind(bombs: &HashMap<u32, Bomb>, kind: BombType) -> (found: Option<u32>)
    ensures
        match found {
            Some(id) => carries(bombs@, id, kind),
            None => !holds(bombs@, kind),
        },
{
    let all = ids_of(bombs);
    let mut i: usize = 0;
    while i < all.len()
        invariant
            i <= all.len(),
            all@.to_set() == bombs@.dom(),
            forall|k: int| 0 <= k < i ==> !carries(bombs@, #[trigger] all@[k], kind),
        decreases all.len() - i,
    {
        let id = all[i];
        assert(all@.to_set().contains(id));
        match bombs.get(&id) {
            Some(bomb) => {
                if bomb.bomb_type == kind {
                    return Some(id);
                }
            },
            None => {},
        }
        i += 1;
    }
    proof {
        assert forall|id: u32| !carries(bombs@, id, kind) by {
            if bombs@.contains_key(id) {
                assert(all@.to_set().contains(id));
                let k = choose|k: int| 0 <= k < all@.len() && all@[k] == id;
                assert(!carries(bombs@, all@[k], kind));
            }
        }
    }
    None
}

/// The living target that the heat-seeking bomb homes in on: the hottest
/// one, and of several equally hot ones the one with the lowest id.
pub fn hottest_alive(targets: &HashMap<u32, Target>) -> (found: Option<u32>)
    ensures
        found == hottest(targets@),
        found matches Some(id) ==> is_hottest(targets@, id),
        found is None <==> living(targets@).is_empty(),
{
    let all = ids_of(targets);
    let mut best: Option<(u32, i32)> = None;
    let mut i: usize = 0;
    while i < all.len()
        invariant
            i <= all.len(),
            all@.to_set() == targets@.dom(),
            match best {
                Some((id, heat)) => {
                    &&& alive(targets@, id)
                    &&& targets@[id].temperature == heat
                    &&& forall|k: int|
                        0 <= k < i && alive(targets@, #[trigger] all@[k]) ==> draws_before(
                            targets@,
                            id,
                            all@[k],
                        )
                },
                None => forall|k: int| 0 <= k < i ==> !alive(targets@, #[trigger] all@[k]),
            },
        decreases all.len() - i,
    {
        let id = all[i];
        match targets.get(&id) {
            Some(target) => {
                if target.is_alive {
                    let better = match best {
                        Some((leader, heat)) => target.temperature > heat || (target.temperature
                            == heat && id < leader),
                        None => true,
                    };
                    if better {
                        best = Some((id, target.temperature));
                    }
                }
            },
            None => {},
        }
        i += 1;
    }
    match best {
        Some((id, _)) => {
            proof {
                assert forall|other: u32| alive(targets@, other) implies draws_before(
                    targets@,
                    id,
                    other,
                ) by {
                    assert(all@.to_set().contains(other));
                    let k = choose|k: int| 0 <= k < all@.len() && all@[k] == other;
                    assert(alive(targets@, all@[k]));
                }
                lemma_hottest_is(targets@, id);
                assert(living(targets@).contains(id));
            }
            Some(id)
        },
        None => {
            proof {
                assert forall|other: u32| !alive(targets@, other) by {
                    if targets@.contains_key(other) {
                        assert(all@.to_set().contains(other));
                        let k = choose|k: int| 0 <= k < all@.len() && all@[k] == other;
                        assert(!alive(targets@, all@[k]));
                    }
                }
                assert(living(targets@) =~= Set::empty());
            }
            None
        },
    }
}

/// Sifts `bombs` by kind: with `keep` set, only the bombs of kind `kind`
/// stay; without it, only they leave.
pub fn sift_kind(bombs: &mut HashMap<u32, Bomb>, kind: BombType, keep: bool)
    ensures
        final(bombs)@ == if keep {
            only_kind(old(bombs)@, kind)
        } else {
            without_kind(old(bombs)@, kind)
        },
{
    let all = ids_of(bombs);
    let mut i: usize = 0;
    while i < all.len()
        invariant
            i <= all.len(),
            all@.to_set() == old(bombs)@.dom(),
            forall|id: u32| #[trigger]
                bombs@.contains_key(id) <==> old(bombs)@.contains_key(id) && !(all@.take(
                    i as int,
                ).contains(id) && (old(bombs)@[id].bomb_type == kind) != keep),
            forall|id: u32| #[trigger] bombs@.contains_key(id) ==> bombs@[id] == old(bombs)@[id],
        decreases all.len() - i,
    {
        let id = all[i];
        let doomed = match bombs.get(&id) {
            Some(bomb) => (bomb.bomb_type == kind) != keep,
            None => false,
        };
        if doomed {
            bombs.remove(&id);
        }
        proof {
            lemma_take_one_more(all@, i as int);
        }
        i += 1;
    }
    proof {
        assert(all@.take(all@.len() as int) =~= all@);
        assert forall|id: u32| old(bombs)@.contains_key(id) implies all@.contains(id) by {
            assert(all@.to_set().contains(id));
        }
        if keep {
            assert(bombs@ =~= only_kind(old(bombs)@, kind));
        } else {
            assert(bombs@ =~= without_kind(old(bombs)@, kind));
        }
    }
}

/// Brings every target but `spared` back to full health.
pub fn revive_all_but(targets: &mut HashMap<u32, Target>, spared: u32)
    ensures
        final(targets)@ == rewound(old(targets)@, spared),
{
    let all = ids_of(targets);
    let mut i: usize = 0;
    while i < all.len()
        invariant
            i <= all.len(),
            all@.no_duplicates(),
            all@.to_set() == old(targets)@.dom(),
            targets@.dom() == old(targets)@.dom(),
            forall|id: u32| #[trigger]
                targets@.contains_key(id) ==> targets@[id] == if id != spared && all@.take(
                    i as int,
                ).contains(id) {
                    old(targets)@[id].revived()
                } else {
                    old(targets)@[id]
                },
        decreases all.len() - i,
    {
        let id = all[i];
        if id != spared {
            match targets.remove(&id) {
                Some(target) => {
                    let revived = Target { health: FULL_HEALTH, is_alive: true, ..target };
                    targets.insert(id, revived);
                },
                None => {},
            }
        }
        proof {
            lemma_take_one_more(all@, i as int);
            assert(all@.to_set().contains(id));
            assert(targets@.dom() =~= old(targets)@.dom());
        }
        i += 1;
    }
    proof {
        assert(all@.take(all@.len() as int) =~= all@);
        assert forall|id: u32| old(targets)@.contains_key(id) implies all@.contains(id) by {
            assert(all@.to_set().contains(id));
        }
        assert(targets@ =~= rewound(old(targets)@, spared));
    }
}

} // verus!
