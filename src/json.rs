use vstd::prelude::*;

use crate::text::same_text;

verus! {

/// A JSON value as the library sees it.
pub enum Json {
    Null,
    Bool(bool),
    Int(int),
    Decimal(Seq<char>),
    Str(Seq<char>),
    Arr(Seq<Json>),
    Obj(Map<Seq<char>, Json>),
}

/// `patch` merged into `base`: a null member of `patch` removes that key, two objects merge
/// member by member, and anything else replaces `base` whole.
pub open spec fn merged(base: Json, patch: Json) -> Json
    decreases patch,
{
    match patch {
        Json::Obj(pm) => match base {
            Json::Obj(bm) => Json::Obj(
                Map::new(
                    |k: Seq<char>|
                        (bm.contains_key(k) || pm.contains_key(k)) && !(pm.contains_key(k)
                            && pm[k] is Null),
                    |k: Seq<char>|
                        if pm.contains_key(k) {
                            if bm.contains_key(k) {
                                merged(bm[k], pm[k])
                            } else {
                                pm[k]
                            }
                        } else {
                            bm[k]
                        },
                ),
            ),
            _ => patch,
        },
        _ => patch,
    }
}

/// The members of `merged(Json::Obj(bm), Json::Obj(pm))`.
pub open spec fn merged_members(bm: Map<Seq<char>, Json>, pm: Map<Seq<char>, Json>) -> Map<
    Seq<char>,
    Json,
> {
    Map::new(
        |k: Seq<char>|
            (bm.contains_key(k) || pm.contains_key(k)) && !(pm.contains_key(k) && pm[k] is Null),
        |k: Seq<char>|
            if pm.contains_key(k) {
                if bm.contains_key(k) {
                    merged(bm[k], pm[k])
                } else {
                    pm[k]
                }
            } else {
                bm[k]
            },
    )
}

/// No member of `patch`, at any depth, is null.
pub open spec fn null_free(patch: Json) -> bool
    decreases patch,
{
    match patch {
        Json::Obj(pm) => forall|k: Seq<char>|
            #[trigger] pm.contains_key(k) ==> !(pm[k] is Null) && null_free(pm[k]),
        _ => true,
    }
}

/// Merging the same null-free patch a second time changes nothing.
pub proof fn lemma_merge_idempotent(base: Json, patch: Json)
    requires
        null_free(patch),
    ensures
        merged(merged(base, patch), patch) == merged(base, patch),
    decreases patch,
{
    if let Json::Obj(pm) = patch {
        assert forall|k: Seq<char>| #[trigger] pm.contains_key(k) implies merged(
            merged(Json::Null, pm[k]),
            pm[k],
        ) == merged(Json::Null, pm[k]) by {
            lemma_merge_idempotent(Json::Null, pm[k]);
        }
        if let Json::Obj(bm) = base {
            assert forall|k: Seq<char>|
                #[trigger] pm.contains_key(k) && bm.contains_key(k) implies merged(
                merged(bm[k], pm[k]),
                pm[k],
            ) == merged(bm[k], pm[k]) by {
                lemma_merge_idempotent(bm[k], pm[k]);
            }
            if let Json::Obj(m1) = merged(base, patch) {
                if let Json::Obj(m2) = merged(merged(base, patch), patch) {
                    assert(m2 =~= m1);
                }
            }
        } else {
            if let Json::Obj(m1) = merged(patch, patch) {
                assert(m1 =~= pm);
            }
        }
    }
}

/// A JSON value held by the program. Numbers that are neither an unsigned nor a negative
/// 64-bit integer are kept in their decimal text.
pub enum JsonValue {
    Null,
    Bool(bool),
    Unsigned(u64),
    Signed(i64),
    Decimal(String),
    Str(String),
    Array(Vec<JsonValue>),
    Object(Vec<(String, JsonValue)>),
}

/// Whether `k` is the key of one of `e`'s members.
pub open spec fn has_key(e: Seq<(String, JsonValue)>, k: Seq<char>) -> bool {
    exists|i: int| 0 <= i < e.len() && (#[trigger] e[i]).0@ == k
}

/// The position of a member of `e` whose key is `k`.
pub open spec fn key_index(e: Seq<(String, JsonValue)>, k: Seq<char>) -> int {
    choose|i: int| 0 <= i < e.len() && (#[trigger] e[i]).0@ == k
}

/// No two members of `e` share a key.
pub open spec fn keys_unique(e: Seq<(String, JsonValue)>) -> bool {
    forall|i: int, j: int|
        0 <= i < e.len() && 0 <= j < e.len() && i != j ==> (#[trigger] e[i]).0@ != (#[trigger] e[j]).0@
}

impl JsonValue {
    /// The value this one holds; an object's members are keyed by their keys.
    pub open spec fn view(&self) -> Json
        decreases self,
    {
        match self {
            JsonValue::Null => Json::Null,
            JsonValue::Bool(b) => Json::Bool(*b),
            JsonValue::Unsigned(n) => Json::Int(*n as int),
            JsonValue::Signed(n) => Json::Int(*n as int),
            JsonValue::Decimal(t) => Json::Decimal(t@),
            JsonValue::Str(t) => Json::Str(t@),
            JsonValue::Array(a) => Json::Arr(
                Seq::new(
                    a.len() as nat,
                    |i: int|
                        if 0 <= i < a.len() {
                            a[i].view()
                        } else {
                            Json::Null
                        },
                ),
            ),
            JsonValue::Object(e) => Json::Obj(
                Map::new(
                    |k: Seq<char>| has_key(e@, k),
                    |k: Seq<char>|
                        if 0 <= key_index(e@, k) < e.len() {
                            e[key_index(e@, k)].1.view()
                        } else {
                            Json::Null
                        },
                ),
            ),
        }
    }

    /// Every object in the value, at any depth, has distinct keys.
    pub open spec fn wf(&self) -> bool
        decreases self,
    {
        match self {
            JsonValue::Array(a) => forall|i: int| 0 <= i < a.len() ==> (#[trigger] a[i]).wf(),
            JsonValue::Object(e) => keys_unique(e@) && forall|i: int|
                0 <= i < e.len() ==> (#[trigger] e[i]).1.wf(),
            _ => true,
        }
    }
}

/// The members of an object, keyed by their keys.
pub open spec fn members(e: Seq<(String, JsonValue)>) -> Map<Seq<char>, Json> {
    Map::new(
        |k: Seq<char>| has_key(e, k),
        |k: Seq<char>| e[key_index(e, k)].1@,
    )
}

/// The members of an object have distinct keys, and each value is well formed.
pub open spec fn members_wf(e: Seq<(String, JsonValue)>) -> bool {
    keys_unique(e) && forall|i: int| 0 <= i < e.len() ==> (#[trigger] e[i]).1.wf()
}

/// An object's view holds its members.
pub proof fn lemma_object_view(e: Vec<(String, JsonValue)>)
    ensures
        JsonValue::Object(e)@ == Json::Obj(members(e@)),
{
    assert(members(e@) =~= match JsonValue::Object(e)@ {
        Json::Obj(m) => m,
        _ => Map::empty(),
    });
}

/// With distinct keys, each member is found under its own key.
pub proof fn lemma_members_at(e: Seq<(String, JsonValue)>, i: int)
    requires
        keys_unique(e),
        0 <= i < e.len(),
    ensures
        members(e).contains_key(e[i].0@),
        members(e)[e[i].0@] == e[i].1@,
{
    assert(has_key(e, e[i].0@));
    let j = key_index(e, e[i].0@);
    assert(e[j].0@ == e[i].0@);
}

/// Removing a member removes its key.
pub proof fn lemma_members_remove(e: Seq<(String, JsonValue)>, i: int)
    requires
        members_wf(e),
        0 <= i < e.len(),
    ensures
        members_wf(e.remove(i)),
        members(e.remove(i)) == members(e).remove(e[i].0@),
{
    let f = e.remove(i);
    assert forall|a: int, b: int|
        0 <= a < f.len() && 0 <= b < f.len() && a != b implies (#[trigger] f[a]).0@ != (
    #[trigger] f[b]).0@ by {
        let a0 = if a < i { a } else { a + 1 };
        let b0 = if b < i { b } else { b + 1 };
        assert(f[a] == e[a0] && f[b] == e[b0]);
    }
    assert forall|a: int| 0 <= a < f.len() implies (#[trigger] f[a]).1.wf() by {
        let a0 = if a < i { a } else { a + 1 };
        assert(f[a] == e[a0]);
    }
    assert forall|k: Seq<char>| #[trigger]
        members(f).contains_key(k) <==> members(e).remove(e[i].0@).contains_key(k) by {
        if has_key(f, k) {
            let a = choose|a: int| 0 <= a < f.len() && (#[trigger] f[a]).0@ == k;
            let a0 = if a < i { a } else { a + 1 };
            assert(f[a] == e[a0]);
            assert(has_key(e, k));
        }
        if has_key(e, k) && k != e[i].0@ {
            let a0 = choose|a: int| 0 <= a < e.len() && (#[trigger] e[a]).0@ == k;
            let a = if a0 < i { a0 } else { a0 - 1 };
            assert(f[a] == e[a0]);
        }
    }
    assert forall|k: Seq<char>| #[trigger] members(f).contains_key(k) implies members(f)[k]
        == members(e)[k] by {
        let a = choose|a: int| 0 <= a < f.len() && (#[trigger] f[a]).0@ == k;
        let a0 = if a < i { a } else { a + 1 };
        assert(f[a] == e[a0]);
        lemma_members_at(f, a);
        lemma_members_at(e, a0);
    }
    assert(members(f) =~= members(e).remove(e[i].0@));
}

/// Appending a member under a new key adds that key.
pub proof fn lemma_members_push(e: Seq<(String, JsonValue)>, m: (String, JsonValue))
    requires
        members_wf(e),
        m.1.wf(),
        !has_key(e, m.0@),
    ensures
        members_wf(e.push(m)),
        members(e.push(m)) == members(e).insert(m.0@, m.1@),
{
    let f = e.push(m);
    assert forall|a: int| 0 <= a < e.len() implies #[trigger] f[a] == e[a] by {}
    assert(f[e.len() as int] == m);
    assert forall|a: int, b: int|
        0 <= a < f.len() && 0 <= b < f.len() && a != b implies (#[trigger] f[a]).0@ != (
    #[trigger] f[b]).0@ by {
        if a < e.len() && b < e.len() {
        } else if a < e.len() {
            assert(e[a].0@ != m.0@);
        } else {
            assert(e[b].0@ != m.0@);
        }
    }
    assert forall|k: Seq<char>| #[trigger]
        members(f).contains_key(k) <==> members(e).insert(m.0@, m.1@).contains_key(k) by {
        if has_key(e, k) {
            let a = choose|a: int| 0 <= a < e.len() && (#[trigger] e[a]).0@ == k;
            assert(f[a] == e[a]);
        }
        if has_key(f, k) && k != m.0@ {
            let a = choose|a: int| 0 <= a < f.len() && (#[trigger] f[a]).0@ == k;
            assert(f[a] == e[a]);
        }
    }
    assert forall|k: Seq<char>| #[trigger] members(f).contains_key(k) implies members(f)[k]
        == members(e).insert(m.0@, m.1@)[k] by {
        let a = choose|a: int| 0 <= a < f.len() && (#[trigger] f[a]).0@ == k;
        lemma_members_at(f, a);
        if a < e.len() {
            lemma_members_at(e, a);
        }
    }
    assert(members(f) =~= members(e).insert(m.0@, m.1@));
}

/// The position of the member of `e` whose key is `k`, if there is one.
pub fn find_key(e: &Vec<(String, JsonValue)>, k: &str) -> (r: Option<usize>)
    ensures
        match r {
            Some(i) => i < e.len() && e@[i as int].0@ == k@,
            None => !has_key(e@, k@),
        },
{
    let mut i: usize = 0;
    while i < e.len()
        invariant
            i <= e.len(),
            forall|j: int| 0 <= j < i ==> (#[trigger] e@[j]).0@ != k@,
        decreases e.len() - i,
    {
        if same_text(e[i].0.as_str(), k) {
            return Some(i);
        }
        i = i + 1;
    }
    None
}

/// `patch` merged into `base`, as `merged` says.
pub fn merge_values(base: JsonValue, patch: JsonValue) -> (r: JsonValue)
    requires
        base.wf(),
        patch.wf(),
    ensures
        r.wf(),
        r@ == merged(base@, patch@),
    decreases patch,
{
    let ghost patch0 = patch;
    match patch {
        JsonValue::Object(pe) => match base {
            JsonValue::Object(be) => {
                let ghost pe0 = pe@;
                let ghost bm = members(be@);
                let ghost pm = members(pe0);
                proof {
                    lemma_object_view(be);
                    lemma_object_view(pe);
                    assert(pe0 =~= pe0.take(pe0.len() as int));
                    assert(Set::new(|k: Seq<char>| has_key(pe0, k)) =~= pm.dom());
                    assert(bm =~= merged_members(bm, pm.remove_keys(pm.dom())));
                    assert forall|i: int| 0 <= i < pe0.len() implies #[trigger] decreases_to!(
                        patch0 => pe0[i].1) by {
                        assert(decreases_to!(pe => pe@));
                        assert(decreases_to!(pe@ => pe@[i]));
                    }
                }
                let mut rest = pe;
                let mut cur = be;
                while rest.len() > 0
                    invariant
                        members_wf(pe0),
                        members_wf(cur@),
                        pm == members(pe0),
                        patch0 == patch,
                        rest.len() <= pe0.len(),
                        rest@ == pe0.take(rest.len() as int),
                        members(cur@) == merged_members(
                            bm,
                            pm.remove_keys(Set::new(|k: Seq<char>| has_key(rest@, k))),
                        ),
                        forall|i: int| 0 <= i < pe0.len() ==> #[trigger] decreases_to!(
                            patch0 => pe0[i].1),
                    decreases rest.len(),
                {
                    let ghost n = rest.len() - 1;
                    let ghost rest0 = rest@;
                    let ghost done0 = pm.remove_keys(Set::new(|k: Seq<char>| has_key(rest0, k)));
                    let (k, v) = rest.pop().unwrap();
                    proof {
                        assert(pe0[n] == (k, v));
                        lemma_members_at(pe0, n);
                        assert(rest@ =~= pe0.take(n));
                        assert forall|j: int| 0 <= j < n implies (#[trigger] pe0[j]).0@ != k@ by {}
                        assert(Set::new(|q: Seq<char>| has_key(rest@, q)) =~= Set::new(
                            |q: Seq<char>| has_key(pe0.take(n + 1), q),
                        ).remove(k@)) by {
                            assert forall|q: Seq<char>| has_key(pe0.take(n + 1), q) && q != k@
                                implies has_key(rest@, q) by {
                                let j = choose|j: int|
                                    0 <= j < n + 1 && (#[trigger] pe0.take(n + 1)[j]).0@ == q;
                                assert(rest@[j] == pe0.take(n + 1)[j]);
                            }
                            assert forall|q: Seq<char>| has_key(rest@, q) implies has_key(
                                pe0.take(n + 1),
                                q,
                            ) && q != k@ by {
                                let j = choose|j: int| 0 <= j < n && (#[trigger] rest@[j]).0@ == q;
                                assert(pe0.take(n + 1)[j] == rest@[j]);
                            }
                        }
                        assert(rest0 == pe0.take(n + 1));
                        assert(pe0[n].0@ == k@ && pe0[n].1@ == v@);
                        assert(pm.contains_key(k@));
                        assert(pm[k@] == v@);
                        assert(decreases_to!(patch0 => v));
                        assert(!done0.contains_key(k@));
                        assert(has_key(rest0, k@)) by {
                            assert(rest0[n].0@ == k@);
                        }
                        assert(pm.remove_keys(Set::new(|q: Seq<char>| has_key(rest@, q)))
                            =~= done0.insert(k@, v@));
                    }
                    let ghost done1 = done0.insert(k@, v@);
                    let is_null = matches!(v, JsonValue::Null);
                    match find_key(&cur, k.as_str()) {
                        Some(i) => {
                            proof {
                                lemma_members_at(cur@, i as int);
                                lemma_members_remove(cur@, i as int);
                            }
                            let (bk, bv) = cur.remove(i);
                            if !is_null {
                                let nv = merge_values(bv, v);
                                proof {
                                    lemma_members_push(cur@, (bk, nv));
                                }
                                cur.push((bk, nv));
                            }
                            proof {
                                assert(members(cur@) =~= merged_members(bm, done1));
                            }
                        },
                        None => {
                            proof {
                                assert(!members(cur@).contains_key(k@));
                                assert(!bm.contains_key(k@));
                            }
                            if !is_null {
                                proof {
                                    lemma_members_push(cur@, (k, v));
                                }
                                cur.push((k, v));
                            }
                            proof {
                                assert(members(cur@) =~= merged_members(bm, done1));
                            }
                        },
                    }
                }
                proof {
                    assert(Set::new(|k: Seq<char>| has_key(rest@, k)) =~= Set::empty());
                    assert(pm.remove_keys(Set::empty()) =~= pm);
                    lemma_object_view(cur);
                    assert(merged_members(bm, pm) =~= match merged(base@, patch0@) {
                        Json::Obj(m) => m,
                        _ => Map::empty(),
                    });
                }
                JsonValue::Object(cur)
            },
            _ => JsonValue::Object(pe),
        },
        _ => patch,
    }
}

/// Merges `patch` into `*doc` in place.
pub fn merge_json(doc: &mut JsonValue, patch: JsonValue)
    requires
        old(doc).wf(),
        patch.wf(),
    ensures
        final(doc).wf(),
        final(doc)@ == merged(old(doc)@, patch@),
{
    let mut base = JsonValue::Null;
    std::mem::swap(doc, &mut base);
    *doc = merge_values(base, patch);
}

} // verus!
