//! Entities kept in vectors and found by identifier: the operations that the
//! in-memory repositories share.
use vstd::prelude::*;
use crate::common::{contains_str, str_set};
use crate::specification::{eval, LeafSpecification, SpecificationExpression};

verus! {

broadcast use vstd::seq_lib::group_seq_properties;

/// An entity with a string identifier.
pub trait Entity: View + Sized {
    /// The identifier of an entity, read from its view.
    spec fn key(v: Self::V) -> Seq<char>;

    /// The entity's own well-formedness.
    spec fn inv(&self) -> bool;

    /// The identifier.
    fn id(&self) -> (r: &String)
        ensures
            r@ == Self::key(self@),
    ;

    /// A copy of the entity.
    fn duplicate(&self) -> (r: Self)
        ensures
            r@ == self@,
            self.inv() ==> r.inv(),
    ;
}

/// The views of a sequence of values.
pub open spec fn views<E: View>(s: Seq<E>) -> Seq<E::V> {
    s.map_values(|e: E| e@)
}

/// No two entries have the same identifier.
pub open spec fn unique_keys<E: Entity>(s: Seq<E::V>) -> bool {
    forall|i: int, j: int|
        0 <= i < s.len() && 0 <= j < s.len() && i != j ==> E::key(#[trigger] s[i]) != E::key(
            #[trigger] s[j],
        )
}

/// Every entry is well formed.
pub open spec fn all_inv<E: Entity>(s: Seq<E>) -> bool {
    forall|i: int| 0 <= i < s.len() ==> (#[trigger] s[i]).inv()
}

/// A store: well-formed entries with distinct identifiers.
pub open spec fn store_wf<E: Entity>(s: Seq<E>) -> bool {
    &&& unique_keys::<E>(views(s))
    &&& all_inv(s)
}

/// The identifiers of a sequence of entity views.
pub open spec fn keys<E: Entity>(s: Seq<E::V>) -> Seq<Seq<char>> {
    s.map_values(|v: E::V| E::key(v))
}

/// The entry has one of the identifiers.
pub open spec fn key_in<E: Entity>(ids: Set<Seq<char>>) -> spec_fn(E::V) -> bool {
    |v: E::V| ids.contains(E::key(v))
}

/// The entry has none of the identifiers.
pub open spec fn key_not_in<E: Entity>(ids: Set<Seq<char>>) -> spec_fn(E::V) -> bool {
    |v: E::V| !ids.contains(E::key(v))
}

/// The entry satisfies the specification expression.
pub open spec fn satisfying<E: View, S: LeafSpecification<E>>(
    spec: SpecificationExpression<S>,
) -> spec_fn(E::V) -> bool {
    |v: E::V| eval::<S, E>(spec, v)
}

/// The first `limit` entries, or all of them when there is no limit.
pub open spec fn take_limit<A>(s: Seq<A>, limit: Option<usize>) -> Seq<A> {
    match limit {
        Some(n) => if n < s.len() {
            s.take(n as int)
        } else {
            s
        },
        None => s,
    }
}

/// The entry of `s` with identifier `id`, if any.
pub open spec fn lookup<E: Entity>(s: Seq<E::V>, id: Seq<char>) -> Option<E::V> {
    if exists|i: int| 0 <= i < s.len() && E::key(#[trigger] s[i]) == id {
        let i = choose|i: int| 0 <= i < s.len() && E::key(#[trigger] s[i]) == id;
        Some(s[i])
    } else {
        None
    }
}

/// Stores `v`: it replaces the entry with its identifier, or is appended.
pub open spec fn upsert<E: Entity>(s: Seq<E::V>, v: E::V) -> Seq<E::V> {
    if exists|i: int| 0 <= i < s.len() && E::key(#[trigger] s[i]) == E::key(v) {
        let i = choose|i: int| 0 <= i < s.len() && E::key(#[trigger] s[i]) == E::key(v);
        s.update(i, v)
    } else {
        s.push(v)
    }
}

/// Stores each of `vs` in turn.
pub open spec fn upsert_all<E: Entity>(s: Seq<E::V>, vs: Seq<E::V>) -> Seq<E::V>
    decreases vs.len(),
{
    if vs.len() == 0 {
        s
    } else {
        upsert::<E>(upsert_all::<E>(s, vs.drop_last()), vs.last())
    }
}

pub proof fn lemma_views_push<E: View>(s: Seq<E>, x: E)
    ensures
        views(s.push(x)) == views(s).push(x@),
{
    assert(views(s.push(x)) =~= views(s).push(x@));
}

pub proof fn lemma_views_update<E: View>(s: Seq<E>, i: int, x: E)
    requires
        0 <= i < s.len(),
    ensures
        views(s.update(i, x)) == views(s).update(i, x@),
{
    assert(views(s.update(i, x)) =~= views(s).update(i, x@));
}

pub proof fn lemma_views_prefix<E: View>(s: Seq<E>, i: int)
    requires
        0 <= i < s.len(),
    ensures
        views(s.subrange(0, i + 1)) == views(s.subrange(0, i)).push(s[i]@),
{
    assert(s.subrange(0, i + 1) =~= s.subrange(0, i).push(s[i]));
    lemma_views_push(s.subrange(0, i), s[i]);
}

/// With distinct identifiers, `lookup` finds the entry at a known index.
pub proof fn lemma_lookup_at<E: Entity>(s: Seq<E::V>, i: int)
    requires
        unique_keys::<E>(s),
        0 <= i < s.len(),
    ensures
        lookup::<E>(s, E::key(s[i])) == Some(s[i]),
{
    let id = E::key(s[i]);
    assert(exists|k: int| 0 <= k < s.len() && E::key(#[trigger] s[k]) == id);
}

/// The index of the entry with identifier `id`.
pub fn position<E: Entity>(store: &Vec<E>, id: &String) -> (r: Option<usize>)
    ensures
        match r {
            Some(i) => i < store@.len() && E::key(store@[i as int]@) == id@ && forall|j: int|
                0 <= j < i ==> E::key(#[trigger] store@[j]@) != id@,
            None => forall|j: int| 0 <= j < store@.len() ==> E::key(#[trigger] store@[j]@) != id@,
        },
{
    let n = store.len();
    let mut i: usize = 0;
    while i < n
        invariant
            n == store@.len(),
            i <= n,
            forall|j: int| 0 <= j < i ==> E::key(#[trigger] store@[j]@) != id@,
        decreases n - i,
    {
        if *store[i].id() == *id {
            return Some(i);
        }
        i = i + 1;
    }
    None
}

/// The entry with identifier `id`, if any.
pub fn find_by_id<'a, E: Entity>(store: &'a Vec<E>, id: &String) -> (r: Option<&'a E>)
    requires
        unique_keys::<E>(views(store@)),
    ensures
        match r {
            Some(e) => lookup::<E>(views(store@), id@) == Some(e@) && (all_inv(store@) ==> e.inv()),
            None => lookup::<E>(views(store@), id@) is None,
        },
{
    match position(store, id) {
        Some(i) => {
            proof {
                lemma_lookup_at::<E>(views(store@), i as int);
            }
            Some(&store[i])
        },
        None => {
            proof {
                if exists|k: int|
                    0 <= k < views(store@).len() && E::key(#[trigger] views(store@)[k]) == id@ {
                    let k = choose|k: int|
                        0 <= k < views(store@).len() && E::key(#[trigger] views(store@)[k]) == id@;
                    assert(E::key(store@[k]@) == id@);
                }
            }
            None
        },
    }
}

/// The entries whose identifier is one of `ids`, in store order.
pub fn select_by_ids<E: Entity>(store: &Vec<E>, ids: &Vec<String>) -> (r: Vec<E>)
    ensures
        views(r@) == views(store@).filter(key_in::<E>(str_set(ids@))),
        all_inv(store@) ==> all_inv(r@),
{
    let ghost p = key_in::<E>(str_set(ids@));
    let mut r: Vec<E> = Vec::new();
    let n = store.len();
    let mut i: usize = 0;
    assert(views(store@.subrange(0, 0)) =~= Seq::<E::V>::empty());
    while i < n
        invariant
            n == store@.len(),
            i <= n,
            p == key_in::<E>(str_set(ids@)),
            views(r@) == views(store@.subrange(0, i as int)).filter(p),
            all_inv(store@) ==> all_inv(r@),
        decreases n - i,
    {
        proof {
            lemma_views_prefix(store@, i as int);
            views(store@.subrange(0, i as int)).lemma_filter_push(store@[i as int]@, p);
        }
        if contains_str(ids, store[i].id()) {
            let ghost before = r@;
            r.push(store[i].duplicate());
            proof {
                lemma_views_push(before, r@.last());
            }
        }
        i = i + 1;
    }
    assert(store@.subrange(0, n as int) =~= store@);
    r
}

/// The entries whose identifier is none of `ids`, in store order.
pub fn select_missing<E: Entity>(store: &Vec<E>, ids: &Vec<String>) -> (r: Vec<E>)
    ensures
        views(r@) == views(store@).filter(key_not_in::<E>(str_set(ids@))),
        all_inv(store@) ==> all_inv(r@),
{
    let ghost p = key_not_in::<E>(str_set(ids@));
    let mut r: Vec<E> = Vec::new();
    let n = store.len();
    let mut i: usize = 0;
    assert(views(store@.subrange(0, 0)) =~= Seq::<E::V>::empty());
    while i < n
        invariant
            n == store@.len(),
            i <= n,
            p == key_not_in::<E>(str_set(ids@)),
            views(r@) == views(store@.subrange(0, i as int)).filter(p),
            all_inv(store@) ==> all_inv(r@),
        decreases n - i,
    {
        proof {
            lemma_views_prefix(store@, i as int);
            views(store@.subrange(0, i as int)).lemma_filter_push(store@[i as int]@, p);
        }
        if !contains_str(ids, store[i].id()) {
            let ghost before = r@;
            r.push(store[i].duplicate());
            proof {
                lemma_views_push(before, r@.last());
            }
        }
        i = i + 1;
    }
    assert(store@.subrange(0, n as int) =~= store@);
    r
}

/// The first `limit` entries that satisfy `spec`, in store order.
pub fn select_matching<E: Entity, S: LeafSpecification<E>>(
    store: &Vec<E>,
    spec: &SpecificationExpression<S>,
    limit: Option<usize>,
) -> (r: Vec<E>)
    ensures
        views(r@) == take_limit(views(store@).filter(satisfying::<E, S>(*spec)), limit),
        all_inv(store@) ==> all_inv(r@),
{
    let ghost p = satisfying::<E, S>(*spec);
    let mut r: Vec<E> = Vec::new();
    let n = store.len();
    let mut i: usize = 0;
    assert(views(store@.subrange(0, 0)) =~= Seq::<E::V>::empty());
    while i < n
        invariant
            n == store@.len(),
            i <= n,
            p == satisfying::<E, S>(*spec),
            views(r@) == take_limit(views(store@.subrange(0, i as int)).filter(p), limit),
            all_inv(store@) ==> all_inv(r@),
        decreases n - i,
    {
        let ghost f = views(store@.subrange(0, i as int)).filter(p);
        proof {
            lemma_views_prefix(store@, i as int);
            views(store@.subrange(0, i as int)).lemma_filter_push(store@[i as int]@, p);
        }
        let room = match limit {
            Some(k) => r.len() < k,
            None => true,
        };
        if spec.evaluate(&store[i]) {
            if room {
                let ghost before = r@;
                r.push(store[i].duplicate());
                proof {
                    lemma_views_push(before, r@.last());
                }
            } else {
                let k = limit.unwrap();
                assert(f.push(store@[i as int]@).take(k as int) =~= f.take(k as int));
            }
        }
        i = i + 1;
    }
    assert(store@.subrange(0, n as int) =~= store@);
    r
}

/// Stores `e`, replacing the entry with its identifier or appending it.
pub fn upsert_one<E: Entity>(store: &mut Vec<E>, e: E)
    requires
        store_wf(old(store)@),
        e.inv(),
    ensures
        store_wf(final(store)@),
        views(final(store)@) == upsert::<E>(views(old(store)@), e@),
{
    let ghost s = views(store@);
    match position(store, e.id()) {
        Some(i) => {
            proof {
                assert(E::key(s[i as int]) == E::key(e@));
                let c = choose|c: int| 0 <= c < s.len() && E::key(#[trigger] s[c]) == E::key(e@);
                assert(c == i);
                lemma_views_update(store@, i as int, e);
            }
            store.set(i, e);
            proof {
                let t = views(store@);
                assert forall|a: int, b: int|
                    0 <= a < t.len() && 0 <= b < t.len() && a != b implies E::key(
                    #[trigger] t[a],
                ) != E::key(#[trigger] t[b]) by {
                    assert(E::key(t[a]) == E::key(s[a]));
                    assert(E::key(t[b]) == E::key(s[b]));
                }
            }
        },
        None => {
            proof {
                lemma_views_push(store@, e);
                assert(!exists|c: int| 0 <= c < s.len() && E::key(#[trigger] s[c]) == E::key(e@))
                    by {
                    assert forall|c: int| 0 <= c < s.len() implies E::key(#[trigger] s[c])
                        != E::key(e@) by {
                        assert(s[c] == store@[c]@);
                    }
                }
            }
            store.push(e);
        },
    }
}

/// Stores each of `es` in turn.
pub fn upsert_many<E: Entity>(store: &mut Vec<E>, es: &Vec<E>)
    requires
        store_wf(old(store)@),
        all_inv(es@),
    ensures
        store_wf(final(store)@),
        views(final(store)@) == upsert_all::<E>(views(old(store)@), views(es@)),
{
    let ghost s0 = views(store@);
    let n = es.len();
    let mut i: usize = 0;
    assert(views(es@.subrange(0, 0)) =~= Seq::<E::V>::empty());
    while i < n
        invariant
            n == es@.len(),
            i <= n,
            all_inv(es@),
            store_wf(store@),
            views(store@) == upsert_all::<E>(s0, views(es@.subrange(0, i as int))),
        decreases n - i,
    {
        proof {
            lemma_views_prefix(es@, i as int);
            let t = views(es@.subrange(0, i + 1));
            assert(t.drop_last() == views(es@.subrange(0, i as int)));
        }
        upsert_one(store, es[i].duplicate());
        i = i + 1;
    }
    assert(es@.subrange(0, n as int) =~= es@);
}

/// Removes the entries whose identifier is one of `ids`.
pub fn remove_ids<E: Entity>(store: &mut Vec<E>, ids: &Vec<String>)
    requires
        store_wf(old(store)@),
    ensures
        store_wf(final(store)@),
        views(final(store)@) == views(old(store)@).filter(key_not_in::<E>(str_set(ids@))),
{
    let ghost p = key_not_in::<E>(str_set(ids@));
    let mut kept: Vec<E> = Vec::new();
    let n = store.len();
    let mut i: usize = 0;
    assert(views(store@.subrange(0, 0)) =~= Seq::<E::V>::empty());
    while i < n
        invariant
            n == store@.len(),
            i <= n,
            p == key_not_in::<E>(str_set(ids@)),
            store_wf(store@),
            views(kept@) == views(store@.subrange(0, i as int)).filter(p),
            all_inv(kept@),
            unique_keys::<E>(views(kept@)),
            forall|k: int|
                0 <= k < kept@.len() ==> exists|j: int|
                    0 <= j < i && E::key(#[trigger] kept@[k]@) == E::key(store@[j]@),
        decreases n - i,
    {
        proof {
            lemma_views_prefix(store@, i as int);
            views(store@.subrange(0, i as int)).lemma_filter_push(store@[i as int]@, p);
        }
        if !contains_str(ids, store[i].id()) {
            let ghost before = kept@;
            let d = store[i].duplicate();
            kept.push(d);
            proof {
                lemma_views_push(before, d);
                let t = views(kept@);
                assert forall|a: int, b: int|
                    0 <= a < t.len() && 0 <= b < t.len() && a != b implies E::key(
                    #[trigger] t[a],
                ) != E::key(#[trigger] t[b]) by {
                    if a < before.len() && b < before.len() {
                        assert(t[a] == views(before)[a]);
                        assert(t[b] == views(before)[b]);
                    } else if a < before.len() {
                        assert(t[a] == before[a]@);
                        let j = choose|j: int|
                            0 <= j < i && E::key(#[trigger] before[a]@) == E::key(store@[j]@);
                        assert(views(store@)[j] == store@[j]@);
                        assert(views(store@)[i as int] == store@[i as int]@);
                    } else if b < before.len() {
                        assert(t[b] == before[b]@);
                        let j = choose|j: int|
                            0 <= j < i && E::key(#[trigger] before[b]@) == E::key(store@[j]@);
                        assert(views(store@)[j] == store@[j]@);
                        assert(views(store@)[i as int] == store@[i as int]@);
                    }
                }
                assert forall|k: int| 0 <= k < kept@.len() implies exists|j: int|
                    0 <= j < i + 1 && E::key(#[trigger] kept@[k]@) == E::key(store@[j]@) by {
                    if k < before.len() {
                        assert(kept@[k] == before[k]);
                        let j = choose|j: int|
                            0 <= j < i && E::key(#[trigger] before[k]@) == E::key(store@[j]@);
                        assert(E::key(kept@[k]@) == E::key(store@[j]@));
                    } else {
                        assert(E::key(kept@[k]@) == E::key(store@[i as int]@));
                    }
                }
            }
        }
        i = i + 1;
    }
    assert(store@.subrange(0, n as int) =~= store@);
    *store = kept;
}

/// A copy of every entry.
pub fn copy_all<E: Entity>(store: &Vec<E>) -> (r: Vec<E>)
    ensures
        views(r@) == views(store@),
        all_inv(store@) ==> all_inv(r@),
{
    let mut r: Vec<E> = Vec::new();
    let n = store.len();
    let mut i: usize = 0;
    assert(views(store@.subrange(0, 0)) =~= Seq::<E::V>::empty());
    while i < n
        invariant
            n == store@.len(),
            i <= n,
            views(r@) == views(store@.subrange(0, i as int)),
            r@.len() == i,
            forall|k: int| 0 <= k < i ==> (store@[k].inv() ==> (#[trigger] r@[k]).inv()),
        decreases n - i,
    {
        proof {
            lemma_views_prefix(store@, i as int);
        }
        let ghost before = r@;
        r.push(store[i].duplicate());
        proof {
            lemma_views_push(before, r@.last());
        }
        i = i + 1;
    }
    assert(store@.subrange(0, n as int) =~= store@);
    r
}

/// A filtered store still has distinct identifiers.
pub proof fn lemma_filter_unique<E: Entity>(s: Seq<E::V>, p: spec_fn(E::V) -> bool)
    requires
        unique_keys::<E>(s),
    ensures
        unique_keys::<E>(s.filter(p)),
    decreases s.len(),
{
    reveal(Seq::filter);
    if s.len() > 0 {
        let t = s.drop_last();
        assert(unique_keys::<E>(t)) by {
            assert forall|a: int, b: int|
                0 <= a < t.len() && 0 <= b < t.len() && a != b implies E::key(#[trigger] t[a])
                != E::key(#[trigger] t[b]) by {
                assert(t[a] == s[a] && t[b] == s[b]);
            }
        }
        lemma_filter_unique::<E>(t, p);
        let f = t.filter(p);
        if p(s.last()) {
            let g = f.push(s.last());
            assert(s.filter(p) == g);
            assert forall|a: int, b: int|
                0 <= a < g.len() && 0 <= b < g.len() && a != b implies E::key(#[trigger] g[a])
                != E::key(#[trigger] g[b]) by {
                if a < f.len() && b < f.len() {
                    assert(g[a] == f[a] && g[b] == f[b]);
                } else if a < f.len() {
                    assert(f.contains(g[a]));
                    t.lemma_filter_contains_rev(p, g[a]);
                    let k = choose|k: int| 0 <= k < t.len() && t[k] == g[a];
                    assert(s[k] == g[a]);
                    assert(g[b] == s[s.len() - 1]);
                } else if b < f.len() {
                    assert(f.contains(g[b]));
                    t.lemma_filter_contains_rev(p, g[b]);
                    let k = choose|k: int| 0 <= k < t.len() && t[k] == g[b];
                    assert(s[k] == g[b]);
                    assert(g[a] == s[s.len() - 1]);
                }
            }
        }
    }
}

/// Looking an identifier up among the entries whose identifiers include it
/// finds what looking it up in the whole store finds.
pub proof fn lemma_lookup_filter<E: Entity>(s: Seq<E::V>, ids: Set<Seq<char>>, id: Seq<char>)
    requires
        unique_keys::<E>(s),
        ids.contains(id),
    ensures
        lookup::<E>(s.filter(key_in::<E>(ids)), id) == lookup::<E>(s, id),
{
    let p = key_in::<E>(ids);
    let f = s.filter(p);
    lemma_filter_unique::<E>(s, p);
    if exists|i: int| 0 <= i < s.len() && E::key(#[trigger] s[i]) == id {
        let i = choose|i: int| 0 <= i < s.len() && E::key(#[trigger] s[i]) == id;
        s.lemma_filter_contains(p, i);
        let k = choose|k: int| 0 <= k < f.len() && f[k] == s[i];
        assert(E::key(f[k]) == id);
        let k2 = choose|k2: int| 0 <= k2 < f.len() && E::key(#[trigger] f[k2]) == id;
        assert(k2 == k);
    } else {
        if exists|k: int| 0 <= k < f.len() && E::key(#[trigger] f[k]) == id {
            let k = choose|k: int| 0 <= k < f.len() && E::key(#[trigger] f[k]) == id;
            assert(f.contains(f[k]));
            s.lemma_filter_contains_rev(p, f[k]);
            let i = choose|i: int| 0 <= i < s.len() && s[i] == f[k];
            assert(E::key(s[i]) == id);
        }
    }
}

/// The first element that passes a filter is the first one that satisfies
/// its predicate.
pub proof fn lemma_filter_first<A>(f: Seq<A>, q: spec_fn(A) -> bool, k: int)
    requires
        0 <= k < f.len(),
        q(f[k]),
        forall|j: int| 0 <= j < k ==> !q(#[trigger] f[j]),
    ensures
        f.filter(q).len() > 0,
        f.filter(q)[0] == f[k],
{
    let a = f.take(k);
    let b = f.skip(k + 1);
    assert(f =~= a + (seq![f[k]] + b));
    Seq::filter_distributes_over_add(a, seq![f[k]] + b, q);
    assert forall|j: int| 0 <= j < a.len() implies !q(#[trigger] a[j]) by {
        assert(a[j] == f[j]);
    }
    a.lemma_all_neg_filter_empty(q);
    b.lemma_filter_prepend(f[k], q);
}

/// Nothing passes a filter that no element satisfies.
pub proof fn lemma_filter_none<A>(f: Seq<A>, q: spec_fn(A) -> bool)
    requires
        forall|j: int| 0 <= j < f.len() ==> !q(#[trigger] f[j]),
    ensures
        f.filter(q).len() == 0,
{
    f.lemma_all_neg_filter_empty(q);
}

/// What `lookup` finds has the identifier looked up and is in the store.
pub proof fn lemma_lookup_some<E: Entity>(s: Seq<E::V>, id: Seq<char>)
    ensures
        lookup::<E>(s, id) matches Some(v) ==> E::key(v) == id && s.contains(v),
{
    if exists|i: int| 0 <= i < s.len() && E::key(#[trigger] s[i]) == id {
        let i = choose|i: int| 0 <= i < s.len() && E::key(#[trigger] s[i]) == id;
        assert(s[i] == s[i]);
    }
}

/// Each entry of `s` replaced by the entry of `u` with its identifier, if
/// there is one.
pub open spec fn replaced<E: Entity>(s: Seq<E::V>, u: Seq<E::V>) -> Seq<E::V> {
    s.map_values(
        |v: E::V|
            match lookup::<E>(u, E::key(v)) {
                Some(w) => w,
                None => v,
            },
    )
}

/// With distinct identifiers, `lookup` finds exactly the entry with the
/// identifier.
pub proof fn lemma_lookup_unique<E: Entity>(s: Seq<E::V>, id: Seq<char>)
    requires
        unique_keys::<E>(s),
    ensures
        forall|i: int| 0 <= i < s.len() && E::key(#[trigger] s[i]) == id ==> lookup::<E>(s, id) == Some(s[i]),
        (forall|i: int| 0 <= i < s.len() ==> E::key(#[trigger] s[i]) != id) ==> lookup::<E>(s, id) is None,
{
    assert forall|i: int| 0 <= i < s.len() && E::key(#[trigger] s[i]) == id implies lookup::<E>(s, id) == Some(s[i]) by {
        lemma_lookup_at::<E>(s, i);
    }
}

/// Storing entries whose identifiers are all in the store replaces them
/// in place.
pub proof fn lemma_upsert_all_existing<E: Entity>(s: Seq<E::V>, u: Seq<E::V>)
    requires
        unique_keys::<E>(s),
        unique_keys::<E>(u),
        forall|k: int| 0 <= k < u.len() ==> #[trigger] lookup::<E>(s, E::key(u[k])) is Some,
    ensures
        upsert_all::<E>(s, u) == replaced::<E>(s, u),
    decreases u.len(),
{
    if u.len() == 0 {
        assert forall|j: int| 0 <= j < s.len() implies #[trigger] replaced::<E>(s, u)[j] == s[j] by {
            lemma_lookup_unique::<E>(u, E::key(s[j]));
        }
        assert(replaced::<E>(s, u) =~= s);
    } else {
        let w = u.drop_last();
        let x = u.last();
        assert(unique_keys::<E>(w)) by {
            assert forall|a: int, b: int| 0 <= a < w.len() && 0 <= b < w.len() && a != b implies E::key(#[trigger] w[a]) != E::key(#[trigger] w[b]) by {
                assert(w[a] == u[a] && w[b] == u[b]);
            }
        }
        assert forall|k: int| 0 <= k < w.len() implies #[trigger] lookup::<E>(s, E::key(w[k])) is Some by {
            assert(w[k] == u[k]);
        }
        lemma_upsert_all_existing::<E>(s, w);
        let t = replaced::<E>(s, w);
        assert(lookup::<E>(s, E::key(u[u.len() - 1])) is Some);
        lemma_lookup_some::<E>(s, E::key(x));
        let v = lookup::<E>(s, E::key(x))->0;
        let i = choose|i: int| 0 <= i < s.len() && s[i] == v;
        // Entries of `t` keep the identifiers of `s`.
        assert forall|j: int| 0 <= j < s.len() implies E::key(#[trigger] t[j]) == E::key(s[j]) by {
            lemma_lookup_some::<E>(w, E::key(s[j]));
            if lookup::<E>(w, E::key(s[j])) is Some {
                let y = lookup::<E>(w, E::key(s[j]))->0;
                assert(E::key(y) == E::key(s[j]));
            }
        }
        assert(E::key(t[i]) == E::key(x));
        assert(exists|c: int| 0 <= c < t.len() && E::key(#[trigger] t[c]) == E::key(x));
        let c = choose|c: int| 0 <= c < t.len() && E::key(#[trigger] t[c]) == E::key(x);
        assert(c == i) by {
            assert(E::key(s[c]) == E::key(s[i]));
        }
        let r = replaced::<E>(s, u);
        assert forall|j: int| 0 <= j < s.len() implies #[trigger] r[j] == t.update(i, x)[j] by {
            lemma_lookup_unique::<E>(u, E::key(s[j]));
            lemma_lookup_unique::<E>(w, E::key(s[j]));
            if j == i {
                assert(u[u.len() - 1] == x);
            } else {
                assert(E::key(s[j]) != E::key(x));
                assert forall|k: int| 0 <= k < u.len() && E::key(#[trigger] u[k]) == E::key(s[j]) implies k < w.len() && w[k] == u[k] by {}
                if exists|k: int| 0 <= k < u.len() && E::key(#[trigger] u[k]) == E::key(s[j]) {
                    let k = choose|k: int| 0 <= k < u.len() && E::key(#[trigger] u[k]) == E::key(s[j]);
                    assert(w[k] == u[k]);
                } else {
                    assert forall|k: int| 0 <= k < w.len() implies E::key(#[trigger] w[k]) != E::key(s[j]) by {
                        assert(w[k] == u[k]);
                    }
                }
            }
        }
        assert(r =~= t.update(i, x));
    }
}

/// Storing `v` keeps identifiers distinct; afterwards `v` is found under
/// its identifier, and every other identifier finds what it found before.
pub proof fn lemma_upsert_lookup<E: Entity>(s: Seq<E::V>, v: E::V, id: Seq<char>)
    requires
        unique_keys::<E>(s),
    ensures
        unique_keys::<E>(upsert::<E>(s, v)),
        lookup::<E>(upsert::<E>(s, v), id) == (if id == E::key(v) {
            Some(v)
        } else {
            lookup::<E>(s, id)
        }),
{
    let t = upsert::<E>(s, v);
    if exists|i: int| 0 <= i < s.len() && E::key(#[trigger] s[i]) == E::key(v) {
        let i = choose|i: int| 0 <= i < s.len() && E::key(#[trigger] s[i]) == E::key(v);
        assert(t == s.update(i, v));
        assert forall|a: int, b: int|
            0 <= a < t.len() && 0 <= b < t.len() && a != b implies E::key(#[trigger] t[a])
            != E::key(#[trigger] t[b]) by {
            assert(E::key(t[a]) == E::key(s[a]));
            assert(E::key(t[b]) == E::key(s[b]));
        }
        lemma_lookup_unique::<E>(t, id);
        lemma_lookup_unique::<E>(s, id);
        if id == E::key(v) {
            assert(E::key(t[i]) == id);
        } else {
            assert forall|j: int| 0 <= j < s.len() implies (E::key(#[trigger] t[j]) == id) == (
            E::key(s[j]) == id) && (E::key(s[j]) == id ==> t[j] == s[j]) by {
                if j == i {
                    assert(E::key(t[j]) == E::key(v));
                }
            }
            if exists|j: int| 0 <= j < s.len() && E::key(#[trigger] s[j]) == id {
                let j = choose|j: int| 0 <= j < s.len() && E::key(#[trigger] s[j]) == id;
                assert(t[j] == s[j]);
            }
        }
    } else {
        assert(t == s.push(v));
        assert forall|a: int, b: int|
            0 <= a < t.len() && 0 <= b < t.len() && a != b implies E::key(#[trigger] t[a])
            != E::key(#[trigger] t[b]) by {
            if a < s.len() && b < s.len() {
                assert(t[a] == s[a] && t[b] == s[b]);
            } else if a < s.len() {
                assert(t[a] == s[a]);
            } else {
                assert(t[b] == s[b]);
            }
        }
        lemma_lookup_unique::<E>(t, id);
        lemma_lookup_unique::<E>(s, id);
        if id == E::key(v) {
            assert(t[s.len() as int] == v);
        } else {
            if exists|j: int| 0 <= j < s.len() && E::key(#[trigger] s[j]) == id {
                let j = choose|j: int| 0 <= j < s.len() && E::key(#[trigger] s[j]) == id;
                assert(t[j] == s[j]);
            }
            assert forall|j: int| 0 <= j < t.len() && E::key(#[trigger] t[j]) == id implies j
                < s.len() && t[j] == s[j] by {}
        }
    }
}

} // verus!
