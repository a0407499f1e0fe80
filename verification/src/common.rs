//! Sets of strings held in vectors: tag sets and identifier sets.
use vstd::prelude::*;
use crate::error::strs_view;
use crate::text::{
    chars_of, is_blank, is_blank_chars, lower_contains, lower_eq, lower_trim, query_key,
    spec_contains, spec_to_lowercase, to_lowercase,
};

verus! {

/// The set of strings a vector holds, by view.
pub open spec fn str_set(v: Seq<String>) -> Set<Seq<char>> {
    strs_view(v).to_set()
}

/// A vector of strings that holds each string at most once.
pub open spec fn distinct_strs(v: Seq<String>) -> bool {
    strs_view(v).no_duplicates()
}

/// Tags as an entity keeps them: no duplicates, none blank.
pub open spec fn tags_wf(v: Seq<String>) -> bool {
    &&& distinct_strs(v)
    &&& forall|i: int| 0 <= i < v.len() ==> !is_blank(#[trigger] v[i]@)
}

/// The tag set made from candidate strings: the non-blank ones.
pub open spec fn tag_set_of(v: Seq<String>) -> Set<Seq<char>> {
    str_set(v).filter(|t: Seq<char>| !is_blank(t))
}

/// Pushing a string adds its view to the set.
pub proof fn lemma_str_set_push(s: Seq<String>, x: String)
    ensures
        str_set(s.push(x)) == str_set(s).insert(x@),
        strs_view(s.push(x)) == strs_view(s).push(x@),
{
    let a = strs_view(s.push(x));
    let b = strs_view(s);
    assert(a =~= b.push(x@));
    assert forall|y: Seq<char>| a.contains(y) <==> #[trigger] b.to_set().insert(x@).contains(y) by {
        if a.contains(y) {
            let k = choose|k: int| 0 <= k < a.len() && a[k] == y;
            if k < b.len() {
                assert(b[k] == y);
            }
        }
        if b.contains(y) {
            let k = choose|k: int| 0 <= k < b.len() && b[k] == y;
            assert(a[k] == y);
        }
        if y == x@ {
            assert(a[b.len() as int] == y);
        }
    }
    assert(a.to_set() =~= b.to_set().insert(x@));
}

/// Whether `v` holds a string equal to `s`.
pub fn contains_str(v: &Vec<String>, s: &String) -> (r: bool)
    ensures
        r == strs_view(v@).contains(s@),
{
    let n = v.len();
    let mut i: usize = 0;
    while i < n
        invariant
            n == v@.len(),
            i <= n,
            forall|k: int| 0 <= k < i ==> v@[k]@ != s@,
        decreases n - i,
    {
        if v[i] == *s {
            assert(strs_view(v@)[i as int] == s@);
            return true;
        }
        i = i + 1;
    }
    proof {
        if strs_view(v@).contains(s@) {
            let k = choose|k: int| 0 <= k < strs_view(v@).len() && strs_view(v@)[k] == s@;
            assert(v@[k]@ == s@);
        }
    }
    false
}

/// Adds `s` to `v` unless it is already there.
pub fn insert_str(v: &mut Vec<String>, s: String)
    requires
        distinct_strs(old(v)@),
    ensures
        distinct_strs(final(v)@),
        str_set(final(v)@) == str_set(old(v)@).insert(s@),
        strs_view(old(v)@).contains(s@) ==> final(v)@ == old(v)@,
        !strs_view(old(v)@).contains(s@) ==> final(v)@ == old(v)@.push(s),
{
    if !contains_str(v, &s) {
        let ghost before = v@;
        v.push(s);
        proof {
            lemma_str_set_push(before, v@.last());
            assert(v@ == before.push(v@.last()));
            assert(strs_view(v@).no_duplicates()) by {
                assert(strs_view(v@) == strs_view(before).push(v@.last()@));
            }
        }
    } else {
        assert(strs_view(v@).to_set().contains(s@));
        assert(str_set(v@) =~= str_set(v@).insert(s@));
    }
}

/// The distinct strings of `v`, in order of first appearance.
pub fn dedup_strs(v: &Vec<String>) -> (r: Vec<String>)
    ensures
        distinct_strs(r@),
        str_set(r@) == str_set(v@),
{
    let mut r: Vec<String> = Vec::new();
    let n = v.len();
    let mut i: usize = 0;
    assert(str_set(r@) =~= str_set(v@.subrange(0, 0)));
    while i < n
        invariant
            n == v@.len(),
            i <= n,
            distinct_strs(r@),
            str_set(r@) == str_set(v@.subrange(0, i as int)),
        decreases n - i,
    {
        insert_str(&mut r, v[i].clone());
        proof {
            assert(v@.subrange(0, i + 1) =~= v@.subrange(0, i as int).push(v@[i as int]));
            lemma_str_set_push(v@.subrange(0, i as int), v@[i as int]);
        }
        i = i + 1;
    }
    assert(v@.subrange(0, n as int) =~= v@);
    r
}

/// The tag set of candidate strings: blank ones dropped, duplicates merged.
pub fn collect_tags(v: &Vec<String>) -> (r: Vec<String>)
    ensures
        tags_wf(r@),
        str_set(r@) == tag_set_of(v@),
{
    let mut r: Vec<String> = Vec::new();
    let n = v.len();
    let mut i: usize = 0;
    assert(str_set(r@) =~= tag_set_of(v@.subrange(0, 0)));
    while i < n
        invariant
            n == v@.len(),
            i <= n,
            tags_wf(r@),
            str_set(r@) == tag_set_of(v@.subrange(0, i as int)),
        decreases n - i,
    {
        let t = &v[i];
        let cs = chars_of(t.as_str());
        let ghost before = r@;
        proof {
            assert(v@.subrange(0, i + 1) =~= v@.subrange(0, i as int).push(v@[i as int]));
            lemma_str_set_push(v@.subrange(0, i as int), v@[i as int]);
        }
        if !is_blank_chars(&cs) {
            insert_str(&mut r, t.clone());
            proof {
                assert(tag_set_of(v@.subrange(0, i + 1)) =~= tag_set_of(
                    v@.subrange(0, i as int),
                ).insert(t@));
                assert forall|k: int| 0 <= k < r@.len() implies !is_blank(#[trigger] r@[k]@) by {
                    if k < before.len() {
                        assert(r@[k] == before[k]);
                    }
                }
            }
        } else {
            assert(tag_set_of(v@.subrange(0, i + 1)) =~= tag_set_of(v@.subrange(0, i as int)));
        }
        i = i + 1;
    }
    assert(v@.subrange(0, n as int) =~= v@);
    r
}

/// Clones a vector of strings, keeping every view.
pub fn clone_strs(v: &Vec<String>) -> (r: Vec<String>)
    ensures
        r@ == v@,
{
    let mut r: Vec<String> = Vec::new();
    let n = v.len();
    let mut i: usize = 0;
    while i < n
        invariant
            n == v@.len(),
            i <= n,
            r@ == v@.subrange(0, i as int),
        decreases n - i,
    {
        r.push(v[i].clone());
        i = i + 1;
        assert(r@ =~= v@.subrange(0, i as int));
    }
    assert(r@ =~= v@);
    r
}

/// Clones an optional string.
pub fn clone_opt_str(o: &Option<String>) -> (r: Option<String>)
    ensures
        r == *o,
{
    match o {
        Some(s) => Some(s.clone()),
        None => None,
    }
}

/// A string is in `str_set(v)` exactly when some element of `v` has it as
/// its view.
pub proof fn lemma_str_set_contains(v: Seq<String>, x: Seq<char>)
    ensures
        str_set(v).contains(x) <==> exists|i: int| 0 <= i < v.len() && #[trigger] v[i]@ == x,
{
    if str_set(v).contains(x) {
        assert(strs_view(v).contains(x));
        let k = choose|k: int| 0 <= k < strs_view(v).len() && strs_view(v)[k] == x;
        assert(v[k]@ == x);
    }
    if exists|i: int| 0 <= i < v.len() && #[trigger] v[i]@ == x {
        let k = choose|i: int| 0 <= i < v.len() && #[trigger] v[i]@ == x;
        assert(strs_view(v)[k] == x);
        assert(strs_view(v).contains(x));
    }
}

/// Some candidate name, trimmed and lower-cased, is not empty and equals the
/// lower-cased `name`.
pub open spec fn any_name_matches(names: Seq<String>, name: Seq<char>) -> bool {
    exists|i: int|
        0 <= i < names.len() && query_key(#[trigger] names[i]@).len() > 0 && query_key(names[i]@)
            == spec_to_lowercase(name)
}

/// Whether some candidate name matches `name` (see `any_name_matches`).
pub fn names_match(names: &Vec<String>, name: &str) -> (r: bool)
    ensures
        r == any_name_matches(names@, name@),
{
    let lower_name = to_lowercase(name);
    let n = names.len();
    let mut i: usize = 0;
    while i < n
        invariant
            n == names@.len(),
            i <= n,
            lower_name@ == spec_to_lowercase(name@),
            forall|k: int|
                0 <= k < i ==> !(query_key(#[trigger] names@[k]@).len() > 0 && query_key(
                    names@[k]@,
                ) == spec_to_lowercase(name@)),
        decreases n - i,
    {
        let key = lower_trim(names[i].as_str());
        if key.unicode_len() > 0 && key == lower_name {
            return true;
        }
        i = i + 1;
    }
    false
}

/// Some tag, lower-cased, contains `key`.
pub open spec fn any_tag_contains(tags: Set<Seq<char>>, key: Seq<char>) -> bool {
    exists|t: Seq<char>| #[trigger] tags.contains(t) && spec_contains(spec_to_lowercase(t), key)
}

/// Whether some tag of `tags`, lower-cased, contains `key`.
pub fn tags_contain(tags: &Vec<String>, key: &str) -> (r: bool)
    ensures
        r == any_tag_contains(str_set(tags@), key@),
{
    let n = tags.len();
    let mut i: usize = 0;
    while i < n
        invariant
            n == tags@.len(),
            i <= n,
            forall|k: int|
                0 <= k < i ==> !spec_contains(spec_to_lowercase(#[trigger] tags@[k]@), key@),
        decreases n - i,
    {
        if lower_contains(tags[i].as_str(), key) {
            proof {
                lemma_str_set_contains(tags@, tags@[i as int]@);
            }
            return true;
        }
        i = i + 1;
    }
    proof {
        if any_tag_contains(str_set(tags@), key@) {
            let t = choose|t: Seq<char>|
                #[trigger] str_set(tags@).contains(t) && spec_contains(spec_to_lowercase(t), key@);
            lemma_str_set_contains(tags@, t);
        }
    }
    false
}

/// Some tag is one of `wanted`.
pub open spec fn any_tag_in(tags: Set<Seq<char>>, wanted: Set<Seq<char>>) -> bool {
    exists|t: Seq<char>| #[trigger] tags.contains(t) && wanted.contains(t)
}

/// Whether some tag of `tags` is one of `wanted`.
pub fn tags_intersect(tags: &Vec<String>, wanted: &Vec<String>) -> (r: bool)
    ensures
        r == any_tag_in(str_set(tags@), str_set(wanted@)),
{
    let n = tags.len();
    let mut i: usize = 0;
    while i < n
        invariant
            n == tags@.len(),
            i <= n,
            forall|k: int| 0 <= k < i ==> !str_set(wanted@).contains(#[trigger] tags@[k]@),
        decreases n - i,
    {
        if contains_str(wanted, &tags[i]) {
            proof {
                lemma_str_set_contains(tags@, tags@[i as int]@);
            }
            return true;
        }
        i = i + 1;
    }
    proof {
        if any_tag_in(str_set(tags@), str_set(wanted@)) {
            let t = choose|t: Seq<char>|
                #[trigger] str_set(tags@).contains(t) && str_set(wanted@).contains(t);
            lemma_str_set_contains(tags@, t);
        }
    }
    false
}

/// Some candidate equals `s` once both are lower-cased.
pub open spec fn any_lower_eq(cands: Seq<String>, s: Seq<char>) -> bool {
    exists|i: int|
        0 <= i < cands.len() && spec_to_lowercase(#[trigger] cands[i]@) == spec_to_lowercase(s)
}

/// Whether some candidate equals `s` once both are lower-cased.
pub fn lower_eq_any(cands: &Vec<String>, s: &str) -> (r: bool)
    ensures
        r == any_lower_eq(cands@, s@),
{
    let n = cands.len();
    let mut i: usize = 0;
    while i < n
        invariant
            n == cands@.len(),
            i <= n,
            forall|k: int|
                0 <= k < i ==> spec_to_lowercase(#[trigger] cands@[k]@) != spec_to_lowercase(s@),
        decreases n - i,
    {
        if lower_eq(cands[i].as_str(), s) {
            return true;
        }
        i = i + 1;
    }
    false
}

/// Some tag equals one of `wanted` once both are lower-cased.
pub open spec fn any_tag_lower_in(tags: Set<Seq<char>>, wanted: Seq<String>) -> bool {
    exists|t: Seq<char>| #[trigger] tags.contains(t) && any_lower_eq(wanted, t)
}

/// Whether some tag equals one of `wanted` once both are lower-cased.
pub fn tags_intersect_lower(tags: &Vec<String>, wanted: &Vec<String>) -> (r: bool)
    ensures
        r == any_tag_lower_in(str_set(tags@), wanted@),
{
    let n = tags.len();
    let mut i: usize = 0;
    while i < n
        invariant
            n == tags@.len(),
            i <= n,
            forall|k: int| 0 <= k < i ==> !any_lower_eq(wanted@, #[trigger] tags@[k]@),
        decreases n - i,
    {
        if lower_eq_any(wanted, tags[i].as_str()) {
            proof {
                lemma_str_set_contains(tags@, tags@[i as int]@);
            }
            return true;
        }
        i = i + 1;
    }
    proof {
        if any_tag_lower_in(str_set(tags@), wanted@) {
            let t = choose|t: Seq<char>| #[trigger] str_set(tags@).contains(t) && any_lower_eq(wanted@, t);
            lemma_str_set_contains(tags@, t);
        }
    }
    false
}

/// The three fields a full-text query searches: the lower-cased `name`,
/// `description` or some tag contains the trimmed, lower-cased query.
pub open spec fn full_text_matches(
    query: Seq<char>,
    name: Seq<char>,
    description: Seq<char>,
    tags: Set<Seq<char>>,
) -> bool {
    let key = query_key(query);
    ||| spec_contains(spec_to_lowercase(name), key)
    ||| spec_contains(spec_to_lowercase(description), key)
    ||| any_tag_contains(tags, key)
}

/// Whether a full-text query matches (see `full_text_matches`).
pub fn full_text_match(query: &str, name: &str, description: &str, tags: &Vec<String>) -> (r: bool)
    ensures
        r == full_text_matches(query@, name@, description@, str_set(tags@)),
{
    let key = lower_trim(query);
    lower_contains(name, key.as_str()) || lower_contains(description, key.as_str()) || tags_contain(
        tags,
        key.as_str(),
    )
}

/// The least index in `[from, n)` at which `p` holds, or `n` where none
/// does.
pub open spec fn first_from(from: int, n: int, p: spec_fn(int) -> bool) -> int
    decreases n - from,
{
    if from >= n {
        n
    } else if p(from) {
        from
    } else {
        first_from(from + 1, n, p)
    }
}

/// `first_from` is the index `k` at which `p` first holds.
pub proof fn lemma_first_from(from: int, n: int, p: spec_fn(int) -> bool, k: int)
    requires
        from <= k <= n,
        forall|j: int| from <= j < k ==> !#[trigger] p(j),
        k == n || p(k),
    ensures
        first_from(from, n, p) == k,
    decreases k - from,
{
    if from < k {
        lemma_first_from(from + 1, n, p, k);
    }
}

/// `p` holds nowhere before `first_from`.
pub proof fn lemma_first_from_before(from: int, n: int, p: spec_fn(int) -> bool)
    requires
        from <= n,
    ensures
        from <= first_from(from, n, p) <= n,
        forall|j: int| from <= j < first_from(from, n, p) ==> !#[trigger] p(j),
        first_from(from, n, p) < n ==> p(first_from(from, n, p)),
    decreases n - from,
{
    if from < n && !p(from) {
        lemma_first_from_before(from + 1, n, p);
    }
}

/// The strings of a concatenation are those of both parts.
pub proof fn lemma_str_set_append(a: Seq<String>, b: Seq<String>)
    ensures
        str_set(a + b) == str_set(a) + str_set(b),
{
    assert forall|x: Seq<char>| str_set(a + b).contains(x) <==> (str_set(a) + str_set(b)).contains(x) by {
        lemma_str_set_contains(a + b, x);
        lemma_str_set_contains(a, x);
        lemma_str_set_contains(b, x);
        if str_set(a + b).contains(x) {
            let k = choose|k: int| 0 <= k < (a + b).len() && #[trigger] (a + b)[k]@ == x;
            if k < a.len() {
                assert(a[k]@ == x);
            } else {
                assert(b[k - a.len()]@ == x);
            }
        }
        if str_set(a).contains(x) {
            let k = choose|k: int| 0 <= k < a.len() && #[trigger] a[k]@ == x;
            assert((a + b)[k]@ == x);
        }
        if str_set(b).contains(x) {
            let k = choose|k: int| 0 <= k < b.len() && #[trigger] b[k]@ == x;
            assert((a + b)[k + a.len()]@ == x);
        }
    }
    assert(str_set(a + b) =~= str_set(a) + str_set(b));
}

/// What a service reports: the stored entities it changed and the events.
#[derive(Debug)]
pub struct HandleResult<E, V> {
    pub entities: Vec<E>,
    pub events: Vec<V>,
}

} // verus!
