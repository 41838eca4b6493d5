//! The persistent map from scalar variable names to their classifications,
//! and the pointwise join of such maps.

use vstd::prelude::*;
use crate::lattice::{join, merge_types, ScalarType};

verus! {

/// `immutable_chunkmap::map::Map`, the persistent ordered map, declared so
/// that values of it can be held and passed on. Nothing is known of what is
/// inside one but through `bindings`.
#[verifier::external_type_specification]
#[verifier::external_body]
#[verifier::reject_recursive_types(K)]
#[verifier::reject_recursive_types(V)]
pub struct ExChunkMap<K: Ord + Clone, V: Clone, const SIZE: usize>(
    immutable_chunkmap::map::Map<K, V, SIZE>,
);

/// The environment of scalar types: cloning it shares structure.
pub type MapT = immutable_chunkmap::map::Map<String, ScalarType, 1000>;

/// A scalar environment as a mathematical value.
pub type Bindings = Map<Seq<char>, ScalarType>;

/// The bindings that a scalar environment holds. It has no definition here:
/// the contracts of the functions below, which call into the map, say what
/// each operation does to it.
pub uninterp spec fn bindings(m: &immutable_chunkmap::map::Map<String, ScalarType, 1000>) -> Map<Seq<char>, ScalarType>;

/// The environment in which no name is bound.
pub open spec fn unbound() -> Bindings {
    Map::empty()
}

/// Pointwise join over the union of the keys: a name bound on one side only
/// keeps its type.
pub open spec fn merge(a: Bindings, b: Bindings) -> Bindings {
    Map::new(
        |name: Seq<char>| a.contains_key(name) || b.contains_key(name),
        |name: Seq<char>|
            if a.contains_key(name) && b.contains_key(name) {
                join(a[name], b[name])
            } else if a.contains_key(name) {
                a[name]
            } else {
                b[name]
            },
    )
}

/// The merge of a list of environments, taken from left to right.
pub open spec fn merge_all(envs: Seq<Bindings>) -> Bindings
    decreases envs.len(),
{
    if envs.len() == 0 {
        unbound()
    } else {
        merge(merge_all(envs.drop_last()), envs.last())
    }
}

/// What each of a list of environments holds.
pub open spec fn bindings_of(maps: Seq<&MapT>) -> Seq<Bindings> {
    Seq::new(maps.len(), |i: int| bindings(maps[i]))
}

/// `Map::new` of `immutable_chunkmap`: the result holds no binding.
#[verifier::external_body]
pub(crate) fn chunkmap_new() -> (out: MapT)
    ensures
        bindings(&out) == unbound(),
{
    immutable_chunkmap::map::Map::new()
}

/// `Map::get` of `immutable_chunkmap`: the value bound to `name`, if there
/// is one.
#[verifier::external_body]
pub(crate) fn chunkmap_get(m: &MapT, name: &String) -> (out: Option<ScalarType>)
    ensures
        out == (if bindings(m).contains_key(name@) {
            Some(bindings(m)[name@])
        } else {
            None
        }),
{
    m.get(name).copied()
}

/// `Map::insert` of `immutable_chunkmap`: a new map that differs from `m`
/// in binding `name` to `typ`, whether or not `name` was bound before.
#[verifier::external_body]
pub(crate) fn chunkmap_insert(m: &MapT, name: String, typ: ScalarType) -> (out: MapT)
    ensures
        bindings(&out) == bindings(m).insert(name@, typ),
{
    m.insert(name, typ).0
}

/// `Clone::clone` of `immutable_chunkmap`'s map: a map with the same
/// bindings.
#[verifier::external_body]
pub(crate) fn chunkmap_clone(m: &MapT) -> (out: MapT)
    ensures
        bindings(&out) == bindings(m),
{
    m.clone()
}

/// `IntoIterator::into_iter` of `immutable_chunkmap`'s map, collected: every
/// item is a binding of `m`, and every bound name is among the items.
#[verifier::external_body]
pub(crate) fn chunkmap_entries<'a>(m: &'a MapT) -> (out: Vec<(&'a String, &'a ScalarType)>)
    ensures
        forall|i: int|
            0 <= i < out.len() ==> bindings(m).contains_pair((#[trigger] out[i]).0@, *out[i].1),
        forall|name: Seq<char>|
            (#[trigger] bindings(m).contains_key(name)) ==> exists|i: int|
                0 <= i < out.len() && (#[trigger] out[i]).0@ == name,
{
    m.into_iter().collect()
}

/// Whether `name` is the name of one of the first `n` of `entries`.
spec fn among(entries: Seq<(&String, &ScalarType)>, n: int, name: Seq<char>) -> bool {
    exists|i: int| 0 <= i < n && (#[trigger] entries[i]).0@ == name
}

/// Joins every binding of `from` into `into`.
fn merge_into(into: MapT, from: &MapT) -> (merged: MapT)
    ensures
        bindings(&merged) == merge(bindings(&into), bindings(from)),
{
    let entries = chunkmap_entries(from);
    let mut merged = into;
    let ghost start = bindings(&merged);
    let ghost other = bindings(from);
    let mut i: usize = 0;
    while i < entries.len()
        invariant
            i <= entries.len(),
            other == bindings(from),
            forall|j: int|
                0 <= j < entries.len() ==> other.contains_pair(
                    (#[trigger] entries[j]).0@,
                    *entries[j].1,
                ),
            forall|name: Seq<char>|
                bindings(&merged).contains_key(name) <==> start.contains_key(name) || among(
                    entries@,
                    i as int,
                    name,
                ),
            forall|name: Seq<char>|
                bindings(&merged).contains_key(name) ==> bindings(&merged)[name] == (if among(
                    entries@,
                    i as int,
                    name,
                ) {
                    merge(start, other)[name]
                } else {
                    start[name]
                }),
        decreases entries.len() - i,
    {
        let (name, var_type) = entries[i];
        let ghost before = bindings(&merged);
        if let Some(existing_type) = chunkmap_get(&merged, name) {
            let joined = merge_types(&existing_type, var_type);
            merged = chunkmap_insert(&merged, name.clone(), joined);
        } else {
            merged = chunkmap_insert(&merged, name.clone(), *var_type);
        }
        proof {
            let after = bindings(&merged);
            assert(entries@[i as int].0@ == name@);
            assert(other.contains_pair(name@, *var_type));
            assert forall|n: Seq<char>| among(entries@, i + 1, n) == (among(entries@, i as int, n)
                || n == name@) by {
                if among(entries@, i + 1, n) {
                    let j = choose|j: int| 0 <= j < i + 1 && (#[trigger] entries@[j]).0@ == n;
                    if j < i {
                        assert(among(entries@, i as int, n));
                    }
                }
                if among(entries@, i as int, n) {
                    let j = choose|j: int| 0 <= j < i && (#[trigger] entries@[j]).0@ == n;
                    assert(0 <= j < i + 1 && entries@[j].0@ == n);
                }
                if n == name@ {
                    assert(0 <= i < i + 1 && entries@[i as int].0@ == n);
                }
            }
            assert forall|n: Seq<char>| after.contains_key(n) == (start.contains_key(n) || among(
                entries@,
                i + 1,
                n,
            )) by {
                assert(after.contains_key(n) == (before.contains_key(n) || n == name@));
            }
            assert forall|n: Seq<char>| after.contains_key(n) implies after[n] == (if among(
                entries@,
                i + 1,
                n,
            ) {
                merge(start, other)[n]
            } else {
                start[n]
            }) by {
                if n != name@ {
                    assert(after[n] == before[n]);
                    assert(before.contains_key(n));
                }
            }
        }
        i += 1;
    }
    proof {
        assert forall|name: Seq<char>| other.contains_key(name) implies among(
            entries@,
            entries.len() as int,
            name,
        ) by {
            let j = choose|j: int| 0 <= j < entries.len() && (#[trigger] entries[j]).0@ == name;
            assert(entries@[j].0@ == name);
        }
        assert(bindings(&merged) =~= merge(start, other));
    }
    merged
}

/// Merges environments coming from different control-flow paths: the
/// pointwise join over the union of their keys.
pub fn merge_maps(children: &[&MapT]) -> (merged: MapT)
    ensures
        bindings(&merged) == merge_all(bindings_of(children@)),
{
    let mut merged = chunkmap_new();
    let mut i: usize = 0;
    while i < children.len()
        invariant
            i <= children.len(),
            bindings(&merged) == merge_all(bindings_of(children@.take(i as int))),
        decreases children.len() - i,
    {
        merged = merge_into(merged, children[i]);
        proof {
            let next = bindings_of(children@.take(i + 1));
            assert(next.drop_last() =~= bindings_of(children@.take(i as int)));
            assert(next.last() == bindings(children@[i as int]));
        }
        i += 1;
    }
    proof {
        assert(children@.take(children.len() as int) =~= children@);
    }
    merged
}

/// Merging a list of two environments is the merge of the two.
pub proof fn lemma_merge_all_pair(maps: Seq<&MapT>)
    requires
        maps.len() == 2,
    ensures
        merge_all(bindings_of(maps)) == merge(bindings(maps[0]), bindings(maps[1])),
{
    let envs = bindings_of(maps);
    assert(envs.drop_last().drop_last().len() == 0);
    assert(merge(unbound(), envs[0]) =~= envs[0]);
    assert(merge_all(envs.drop_last()) == envs[0]) by {
        assert(envs.drop_last().last() == envs[0]);
        assert(merge_all(envs.drop_last().drop_last()) == unbound());
    }
}

/// Merging environments that agree on a name keeps the type they agree on.
pub proof fn lemma_merge_agreement(a: Bindings, b: Bindings, name: Seq<char>)
    requires
        a.contains_key(name),
        b.contains_key(name),
        a[name] == b[name],
    ensures
        merge(a, b).contains_key(name),
        merge(a, b)[name] == a[name],
{
}

/// A name bound on one side only passes through a merge with its type
/// unchanged, whichever side binds it.
pub proof fn lemma_merge_one_sided(a: Bindings, b: Bindings, name: Seq<char>)
    requires
        a.contains_key(name),
        !b.contains_key(name),
    ensures
        merge(a, b).contains_key(name),
        merge(a, b)[name] == a[name],
        merge(b, a).contains_key(name),
        merge(b, a)[name] == a[name],
{
}

} // verus!
