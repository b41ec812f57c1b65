//! A JSON document model and the merge of a partial status report (a delta)
//! into the last full one: objects are merged key by key, recursively, and
//! anything else in the delta replaces what was there.

use vstd::prelude::*;

use crate::text::str_eq;

verus! {

broadcast use vstd::std_specs::vec::axiom_vec_index_decreases;

/// A JSON number: an integer as an integer, any other number as its text.
#[derive(Debug, PartialEq)]
pub enum JsonNumber {
    PosInt(u64),
    NegInt(i64),
    Float(String),
}

/// A JSON value. Object entries keep their order.
#[derive(Debug, PartialEq)]
pub enum Json {
    Null,
    Bool(bool),
    Number(JsonNumber),
    Text(String),
    Array(Vec<Json>),
    Object(Vec<(String, Json)>),
}

#[verifier::ext_equal]
pub enum NumberView {
    PosInt(u64),
    NegInt(i64),
    Float(Seq<char>),
}

#[verifier::ext_equal]
pub enum JsonView {
    Null,
    Bool(bool),
    Number(NumberView),
    Text(Seq<char>),
    Array(Seq<JsonView>),
    Object(Seq<(Seq<char>, JsonView)>),
}

pub open spec fn number_view(n: JsonNumber) -> NumberView {
    match n {
        JsonNumber::PosInt(u) => NumberView::PosInt(u),
        JsonNumber::NegInt(i) => NumberView::NegInt(i),
        JsonNumber::Float(s) => NumberView::Float(s@),
    }
}

/// The mathematical value of a document.
pub open spec fn jv(j: Json) -> JsonView
    decreases j,
{
    match j {
        Json::Null => JsonView::Null,
        Json::Bool(b) => JsonView::Bool(b),
        Json::Number(n) => JsonView::Number(number_view(n)),
        Json::Text(s) => JsonView::Text(s@),
        Json::Array(v) => JsonView::Array(
            Seq::new(
                v@.len(),
                |i: int|
                    if 0 <= i < v.len() {
                        jv(v[i])
                    } else {
                        JsonView::Null
                    },
            ),
        ),
        Json::Object(v) => JsonView::Object(
            Seq::new(
                v@.len(),
                |i: int|
                    if 0 <= i < v.len() {
                        (v[i].0@, jv(v[i].1))
                    } else {
                        (Seq::empty(), JsonView::Null)
                    },
            ),
        ),
    }
}

/// The position of the first entry with a key, or -1.
pub open spec fn key_index(entries: Seq<(Seq<char>, JsonView)>, k: Seq<char>) -> int
    decreases entries.len(),
{
    if entries.len() == 0 {
        -1
    } else {
        let p = key_index(entries.drop_last(), k);
        if p >= 0 {
            p
        } else if entries.last().0 == k {
            entries.len() - 1
        } else {
            -1
        }
    }
}

/// Whether no key occurs twice.
pub open spec fn unique_keys(entries: Seq<(Seq<char>, JsonView)>) -> bool {
    forall|i: int, j: int|
        0 <= i < entries.len() && 0 <= j < entries.len() && i != j ==> entries[i].0 != entries[j].0
}

/// Whether no object, at any depth, repeats a key.
pub open spec fn well_formed(j: JsonView) -> bool
    decreases j,
{
    match j {
        JsonView::Array(a) => forall|i: int| 0 <= i < a.len() ==> well_formed(#[trigger] a[i]),
        JsonView::Object(e) => unique_keys(e) && forall|i: int|
            0 <= i < e.len() ==> well_formed(#[trigger] e[i].1),
        _ => true,
    }
}

/// The delta entries whose keys the base lacks, in the delta's order.
pub open spec fn new_entries(
    base: Seq<(Seq<char>, JsonView)>,
    delta: Seq<(Seq<char>, JsonView)>,
) -> Seq<(Seq<char>, JsonView)>
    decreases delta.len(),
{
    if delta.len() == 0 {
        seq![]
    } else {
        new_entries(base, delta.drop_last()) + if key_index(base, delta.last().0) < 0 {
            seq![delta.last()]
        } else {
            seq![]
        }
    }
}

/// The merge of a delta into a base. When both are objects, every base
/// entry stays in place, merged with the delta's value under the same key
/// if the delta has one, and the delta's other entries follow in order.
/// Otherwise the delta replaces the base.
pub open spec fn merge_view(base: JsonView, delta: JsonView) -> JsonView
    decreases delta,
{
    match delta {
        JsonView::Object(de) => match base {
            JsonView::Object(be) => JsonView::Object(
                Seq::new(
                    be.len(),
                    |i: int|
                        {
                            let j = key_index(de, be[i].0);
                            if 0 <= j < de.len() {
                                (be[i].0, merge_view(be[i].1, de[j].1))
                            } else {
                                be[i]
                            }
                        },
                ) + new_entries(be, de),
            ),
            _ => delta,
        },
        _ => delta,
    }
}

// ---------------------------------------------------------------------------

/// `key_index` finds the first entry with the key, or reports that none has it.
pub proof fn lemma_key_index(entries: Seq<(Seq<char>, JsonView)>, k: Seq<char>)
    ensures
        -1 <= key_index(entries, k) < entries.len(),
        key_index(entries, k) >= 0 ==> entries[key_index(entries, k)].0 == k,
        key_index(entries, k) >= 0 ==> forall|i: int|
            0 <= i < key_index(entries, k) ==> entries[i].0 != k,
        key_index(entries, k) < 0 ==> forall|i: int| 0 <= i < entries.len() ==> entries[i].0 != k,
    decreases entries.len(),
{
    if entries.len() > 0 {
        let d = entries.drop_last();
        lemma_key_index(d, k);
        let p = key_index(d, k);
        if p >= 0 {
            assert forall|i: int| 0 <= i < p implies entries[i].0 != k by {
                assert(entries[i] == d[i]);
            }
        } else if entries.last().0 == k {
            assert forall|i: int| 0 <= i < entries.len() - 1 implies entries[i].0 != k by {
                assert(entries[i] == d[i]);
            }
        } else {
            assert forall|i: int| 0 <= i < entries.len() implies entries[i].0 != k by {
                if i < entries.len() - 1 {
                    assert(entries[i] == d[i]);
                }
            }
        }
    }
}

proof fn lemma_key_index_unique(entries: Seq<(Seq<char>, JsonView)>, p: int)
    requires
        unique_keys(entries),
        0 <= p < entries.len(),
    ensures
        key_index(entries, entries[p].0) == p,
{
    lemma_key_index(entries, entries[p].0);
}

proof fn lemma_key_index_prefix(entries: Seq<(Seq<char>, JsonView)>, n: int, k: Seq<char>)
    requires
        0 <= n <= entries.len(),
    ensures
        key_index(entries.subrange(0, n), k) == if 0 <= key_index(entries, k) < n {
            key_index(entries, k)
        } else {
            -1
        },
{
    let pre = entries.subrange(0, n);
    lemma_key_index(entries, k);
    lemma_key_index(pre, k);
    let p = key_index(entries, k);
    let q = key_index(pre, k);
    if 0 <= p < n {
        assert(pre[p] == entries[p]);
    }
    if q >= 0 {
        assert(pre[q] == entries[q]);
    }
}

fn clone_number(n: &JsonNumber) -> (r: JsonNumber)
    ensures
        number_view(r) == number_view(*n),
{
    match n {
        JsonNumber::PosInt(u) => JsonNumber::PosInt(*u),
        JsonNumber::NegInt(i) => JsonNumber::NegInt(*i),
        JsonNumber::Float(s) => JsonNumber::Float(s.clone()),
    }
}

/// A copy of a document.
pub fn clone_json(j: &Json) -> (r: Json)
    ensures
        jv(r) == jv(*j),
    decreases j,
{
    match j {
        Json::Null => Json::Null,
        Json::Bool(b) => Json::Bool(*b),
        Json::Number(n) => Json::Number(clone_number(n)),
        Json::Text(s) => Json::Text(s.clone()),
        Json::Array(v) => {
            assert(decreases_to!(*j => *v));
            let mut out: Vec<Json> = Vec::new();
            let mut i: usize = 0;
            while i < v.len()
                invariant
                    i <= v@.len(),
                    out@.len() == i,
                    forall|x: int| 0 <= x < i ==> #[trigger] jv(out@[x]) == jv(v@[x]),
                    decreases_to!(*j => *v),
                decreases v@.len() - i,
            {
                assert(decreases_to!(*v => v[i as int]));
                let c = clone_json(&v[i]);
                out.push(c);
                i += 1;
            }
            let ghost a = Seq::new(
                out@.len(),
                |x: int|
                    if 0 <= x < out.len() {
                        jv(out[x])
                    } else {
                        JsonView::Null
                    },
            );
            let ghost b = Seq::new(
                v@.len(),
                |x: int|
                    if 0 <= x < v.len() {
                        jv(v[x])
                    } else {
                        JsonView::Null
                    },
            );
            assert(a =~= b);
            let r = Json::Array(out);
            assert(jv(r) is Array);
            assert(jv(*j) is Array);
            assert(jv(r)->Array_0 =~= a);
            assert(jv(*j)->Array_0 =~= b);
            assert(jv(r) == jv(*j));
            r
        },
        Json::Object(v) => {
            let out = clone_entries(v);
            let ghost a = Seq::new(
                out@.len(),
                |x: int|
                    if 0 <= x < out.len() {
                        (out[x].0@, jv(out[x].1))
                    } else {
                        (Seq::empty(), JsonView::Null)
                    },
            );
            let ghost b = Seq::new(
                v@.len(),
                |x: int|
                    if 0 <= x < v.len() {
                        (v[x].0@, jv(v[x].1))
                    } else {
                        (Seq::empty(), JsonView::Null)
                    },
            );
            assert(a =~= b) by {
                assert forall|x: int| 0 <= x < a.len() implies a[x] == b[x] by {
                    assert(entry_view(out@[x]) == entry_view(v@[x]));
                }
            }
            let r = Json::Object(out);
            assert(jv(r) is Object);
            assert(jv(*j) is Object);
            assert(jv(r)->Object_0 =~= a);
            assert(jv(*j)->Object_0 =~= b);
            assert(jv(r) == jv(*j));
            r
        },
    }
}

/// The value of an entry.
pub open spec fn entry_view(e: (String, Json)) -> (Seq<char>, JsonView) {
    (e.0@, jv(e.1))
}

fn clone_entries(v: &Vec<(String, Json)>) -> (out: Vec<(String, Json)>)
    ensures
        out@.len() == v@.len(),
        forall|x: int| 0 <= x < v@.len() ==> #[trigger] entry_view(out@[x]) == entry_view(v@[x]),
    decreases v,
{
    let mut out: Vec<(String, Json)> = Vec::new();
    let mut i: usize = 0;
    while i < v.len()
        invariant
            i <= v@.len(),
            out@.len() == i,
            forall|x: int| 0 <= x < i ==> #[trigger] entry_view(out@[x]) == entry_view(v@[x]),
        decreases v@.len() - i,
    {
        let c = clone_json(&v[i].1);
        out.push((v[i].0.clone(), c));
        i += 1;
    }
    out
}

/// The entries of an object.
pub open spec fn entries_view(v: Seq<(String, Json)>) -> Seq<(Seq<char>, JsonView)> {
    v.map_values(|e: (String, Json)| entry_view(e))
}

/// The value of an object is the sequence of the values of its entries.
pub proof fn lemma_object_view(v: Vec<(String, Json)>)
    ensures
        jv(Json::Object(v)) == JsonView::Object(entries_view(v@)),
{
    let a = Seq::new(
        v@.len(),
        |i: int|
            if 0 <= i < v.len() {
                (v[i].0@, jv(v[i].1))
            } else {
                (Seq::empty(), JsonView::Null)
            },
    );
    assert(jv(Json::Object(v)) is Object);
    assert(jv(Json::Object(v))->Object_0 =~= a);
    assert(a =~= entries_view(v@));
}

/// The base entries after the first `i` delta entries were merged in.
pub open spec fn merged_prefix(
    be: Seq<(Seq<char>, JsonView)>,
    de: Seq<(Seq<char>, JsonView)>,
    i: int,
) -> Seq<(Seq<char>, JsonView)> {
    let done = de.subrange(0, i);
    Seq::new(
        be.len(),
        |x: int|
            {
                let j = key_index(done, be[x].0);
                if 0 <= j < i {
                    (be[x].0, merge_view(be[x].1, de[j].1))
                } else {
                    be[x]
                }
            },
    )
}

/// The merge after the first `i` delta entries.
pub open spec fn partial_merge(
    be: Seq<(Seq<char>, JsonView)>,
    de: Seq<(Seq<char>, JsonView)>,
    i: int,
) -> Seq<(Seq<char>, JsonView)> {
    merged_prefix(be, de, i) + new_entries(be, de.subrange(0, i))
}

fn find_key(entries: &Vec<(String, Json)>, k: &str) -> (r: Option<usize>)
    ensures
        match r {
            Some(p) => p as int == key_index(entries_view(entries@), k@),
            None => key_index(entries_view(entries@), k@) < 0,
        },
{
    let ghost ev = entries_view(entries@);
    proof {
        lemma_key_index(ev, k@);
    }
    let mut i: usize = 0;
    while i < entries.len()
        invariant
            i <= entries@.len(),
            ev == entries_view(entries@),
            -1 <= key_index(ev, k@) < ev.len(),
            key_index(ev, k@) >= 0 ==> ev[key_index(ev, k@)].0 == k@,
            key_index(ev, k@) >= 0 ==> forall|x: int|
                0 <= x < key_index(ev, k@) ==> ev[x].0 != k@,
            key_index(ev, k@) < 0 ==> forall|x: int| 0 <= x < ev.len() ==> ev[x].0 != k@,
            forall|x: int| 0 <= x < i ==> ev[x].0 != k@,
        decreases entries@.len() - i,
    {
        if str_eq(entries[i].0.as_str(), k) {
            assert(ev[i as int].0 == k@);
            return Some(i);
        }
        assert(ev[i as int].0 != k@);
        i += 1;
    }
    None
}

proof fn lemma_partial_step(
    be: Seq<(Seq<char>, JsonView)>,
    de: Seq<(Seq<char>, JsonView)>,
    i: int,
    x: int,
)
    requires
        unique_keys(de),
        0 <= i < de.len(),
        0 <= x < be.len(),
        be[x].0 != de[i].0,
    ensures
        partial_merge(be, de, i + 1)[x] == partial_merge(be, de, i)[x],
{
    let k = be[x].0;
    lemma_key_index_prefix(de, i, k);
    lemma_key_index_prefix(de, i + 1, k);
    lemma_key_index(de, k);
}

proof fn lemma_partial_hit(
    be: Seq<(Seq<char>, JsonView)>,
    de: Seq<(Seq<char>, JsonView)>,
    i: int,
    x: int,
)
    requires
        unique_keys(de),
        0 <= i < de.len(),
        0 <= x < be.len(),
        be[x].0 == de[i].0,
    ensures
        partial_merge(be, de, i + 1)[x] == (be[x].0, merge_view(be[x].1, de[i].1)),
{
    let k = be[x].0;
    lemma_key_index_unique(de, i);
    lemma_key_index_prefix(de, i + 1, k);
}

/// Merges a delta into a base document.
pub fn recursive_merge(base: &Json, delta: &Json) -> (r: Json)
    requires
        well_formed(jv(*base)),
        well_formed(jv(*delta)),
    ensures
        jv(r) == merge_view(jv(*base), jv(*delta)),
    decreases delta,
{
    match delta {
        Json::Object(de) => match base {
            Json::Object(be) => {
                let ghost bev = entries_view(be@);
                let ghost dev = entries_view(de@);
                proof {
                    lemma_object_view(*be);
                    lemma_object_view(*de);
                    assert(decreases_to!(*delta => *de));
                }
                let mut merged = clone_entries(be);
                proof {
                    assert(de@.subrange(0, 0) =~= seq![]);
                    assert(entries_view(merged@) =~= partial_merge(bev, dev, 0)) by {
                        assert forall|x: int| 0 <= x < bev.len() implies #[trigger] partial_merge(
                            bev,
                            dev,
                            0,
                        )[x] == bev[x] by {
                            assert(dev.subrange(0, 0) =~= seq![]);
                        }
                    }
                }
                let mut i: usize = 0;
                while i < de.len()
                    invariant
                        i <= de@.len(),
                        bev == entries_view(be@),
                        dev == entries_view(de@),
                        well_formed(JsonView::Object(bev)),
                        well_formed(JsonView::Object(dev)),
                        entries_view(merged@) == partial_merge(bev, dev, i as int),
                        merged@.len() >= be@.len(),
                        decreases_to!(*delta => *de),
                    decreases de@.len() - i,
                {
                    assert(decreases_to!(*de => de[i as int]));
                    assert(dev[i as int] == entry_view(de@[i as int]));
                    proof {
                        lemma_key_index(bev, dev[i as int].0);
                    }
                    let ghost old_m = merged@;
                    let ghost n = bev.len();
                    let ghost done0 = dev.subrange(0, i as int);
                    let ghost done1 = dev.subrange(0, i + 1);
                    proof {
                        assert(done1.drop_last() =~= done0);
                        assert(done1.last() == dev[i as int]);
                        assert(merged_prefix(bev, dev, i as int).len() == n);
                        assert(merged_prefix(bev, dev, i + 1).len() == n);
                        assert(entries_view(old_m).len() == old_m.len());
                        assert(partial_merge(bev, dev, i as int).len() == n + new_entries(
                            bev,
                            done0,
                        ).len());
                        assert(old_m.len() == n + new_entries(bev, done0).len());
                    }
                    match find_key(be, de[i].0.as_str()) {
                        Some(p) => {
                            assert(bev[p as int].0 == dev[i as int].0);
                            assert(well_formed(bev[p as int].1));
                            assert(well_formed(dev[i as int].1));
                            let mv = recursive_merge(&be[p].1, &de[i].1);
                            let k = de[i].0.clone();
                            merged.set(p, (k, mv));
                            proof {
                                assert(new_entries(bev, done1) =~= new_entries(bev, done0));
                                assert(merged@.len() == old_m.len());
                                assert forall|x: int| 0 <= x < merged@.len() implies #[trigger] partial_merge(
                                    bev,
                                    dev,
                                    i + 1,
                                )[x] == entry_view(merged@[x]) by {
                                    if x < n {
                                        if x == p {
                                            lemma_partial_hit(bev, dev, i as int, x);
                                        } else {
                                            lemma_partial_step(bev, dev, i as int, x);
                                            assert(merged@[x] == old_m[x]);
                                            assert(entries_view(old_m)[x] == entry_view(old_m[x]));
                                        }
                                    } else {
                                        assert(merged@[x] == old_m[x]);
                                        assert(entries_view(old_m)[x] == entry_view(old_m[x]));
                                        assert(partial_merge(bev, dev, i as int)[x] == new_entries(
                                            bev,
                                            done0,
                                        )[x - n]);
                                    }
                                }
                                assert(entries_view(merged@) =~= partial_merge(
                                    bev,
                                    dev,
                                    i + 1,
                                ));
                            }
                        },
                        None => {
                            let c = clone_json(&de[i].1);
                            let k = de[i].0.clone();
                            merged.push((k, c));
                            proof {
                                lemma_key_index(bev, dev[i as int].0);
                                assert(new_entries(bev, done1) =~= new_entries(bev, done0).push(
                                    dev[i as int],
                                ));
                                assert(merged@.len() == old_m.len() + 1);
                                assert forall|x: int| 0 <= x < merged@.len() implies #[trigger] partial_merge(
                                    bev,
                                    dev,
                                    i + 1,
                                )[x] == entry_view(merged@[x]) by {
                                    if x < n {
                                        lemma_partial_step(bev, dev, i as int, x);
                                        assert(merged@[x] == old_m[x]);
                                        assert(entries_view(old_m)[x] == entry_view(old_m[x]));
                                    } else if x < old_m.len() {
                                        assert(merged@[x] == old_m[x]);
                                        assert(entries_view(old_m)[x] == entry_view(old_m[x]));
                                        assert(partial_merge(bev, dev, i as int)[x] == new_entries(
                                            bev,
                                            done0,
                                        )[x - n]);
                                    } else {
                                        assert(merged@[x] == (de@[i as int].0, c));
                                    }
                                }
                                assert(entries_view(merged@) =~= partial_merge(
                                    bev,
                                    dev,
                                    i + 1,
                                ));
                            }
                        },
                    }
                    i += 1;
                }
                proof {
                    assert(dev.subrange(0, dev.len() as int) =~= dev);
                    lemma_object_view(merged);
                    assert(partial_merge(bev, dev, dev.len() as int) =~= merge_view(
                        JsonView::Object(bev),
                        JsonView::Object(dev),
                    )->Object_0);
                }
                Json::Object(merged)
            },
            _ => clone_json(delta),
        },
        _ => clone_json(delta),
    }
}


/// The value of a document's field: what an object stores under the key;
/// nothing for anything else.
pub open spec fn field_view(j: JsonView, k: Seq<char>) -> Option<JsonView> {
    match j {
        JsonView::Object(e) => lookup(e, k),
        _ => None,
    }
}

/// The value stored under a key, if any.
pub open spec fn lookup(entries: Seq<(Seq<char>, JsonView)>, k: Seq<char>) -> Option<JsonView> {
    let p = key_index(entries, k);
    if 0 <= p < entries.len() {
        Some(entries[p].1)
    } else {
        None
    }
}

proof fn lemma_key_index_same_keys(s1: Seq<(Seq<char>, JsonView)>, s2: Seq<(Seq<char>, JsonView)>, k: Seq<char>)
    requires
        s1.len() == s2.len(),
        forall|x: int| 0 <= x < s1.len() ==> s1[x].0 == s2[x].0,
    ensures
        key_index(s1, k) == key_index(s2, k),
    decreases s1.len(),
{
    if s1.len() > 0 {
        lemma_key_index_same_keys(s1.drop_last(), s2.drop_last(), k);
    }
}

proof fn lemma_key_index_concat(s: Seq<(Seq<char>, JsonView)>, t: Seq<(Seq<char>, JsonView)>, k: Seq<char>)
    ensures
        key_index(s + t, k) == if key_index(s, k) >= 0 {
            key_index(s, k)
        } else if key_index(t, k) >= 0 {
            s.len() + key_index(t, k)
        } else {
            -1
        },
    decreases t.len(),
{
    if t.len() == 0 {
        assert(s + t =~= s);
    } else {
        assert((s + t).drop_last() =~= s + t.drop_last());
        assert((s + t).last() == t.last());
        lemma_key_index_concat(s, t.drop_last(), k);
    }
}

proof fn lemma_key_index_single(e: (Seq<char>, JsonView), k: Seq<char>)
    ensures
        key_index(seq![e], k) == if e.0 == k {
            0int
        } else {
            -1int
        },
{
    assert(seq![e].drop_last() =~= Seq::<(Seq<char>, JsonView)>::empty());
    assert(key_index(Seq::<(Seq<char>, JsonView)>::empty(), k) == -1);
}

proof fn lemma_new_entries_absent(
    be: Seq<(Seq<char>, JsonView)>,
    de: Seq<(Seq<char>, JsonView)>,
    k: Seq<char>,
)
    requires
        key_index(de, k) < 0 || key_index(be, k) >= 0,
    ensures
        key_index(new_entries(be, de), k) < 0,
    decreases de.len(),
{
    if de.len() > 0 {
        let d = de.drop_last();
        lemma_key_index(de, k);
        lemma_key_index(d, k);
        lemma_new_entries_absent(be, d, k);
        let tail = if key_index(be, de.last().0) < 0 {
            seq![de.last()]
        } else {
            seq![]
        };
        assert(new_entries(be, de) == new_entries(be, d) + tail);
        lemma_key_index_concat(new_entries(be, d), tail, k);
        lemma_key_index_single(de.last(), k);
        assert(key_index(Seq::<(Seq<char>, JsonView)>::empty(), k) == -1);
    }
}

proof fn lemma_new_entries_present(
    be: Seq<(Seq<char>, JsonView)>,
    de: Seq<(Seq<char>, JsonView)>,
    k: Seq<char>,
)
    requires
        key_index(de, k) >= 0,
        key_index(be, k) < 0,
    ensures
        lookup(new_entries(be, de), k) == lookup(de, k),
    decreases de.len(),
{
    let d = de.drop_last();
    lemma_key_index(de, k);
    lemma_key_index(d, k);
    let tail = if key_index(be, de.last().0) < 0 {
        seq![de.last()]
    } else {
        seq![]
    };
    assert(new_entries(be, de) == new_entries(be, d) + tail);
    lemma_key_index_concat(new_entries(be, d), tail, k);
    lemma_key_index_single(de.last(), k);
    if key_index(d, k) >= 0 {
        lemma_new_entries_present(be, d, k);
        assert(de[key_index(d, k)] == d[key_index(d, k)]);
        lemma_key_index(new_entries(be, d), k);
        assert((new_entries(be, d) + tail)[key_index(new_entries(be, d), k)] == new_entries(
            be,
            d,
        )[key_index(new_entries(be, d), k)]);
    } else {
        lemma_new_entries_absent(be, d, k);
        assert(tail.len() == 1);
        assert(key_index(tail, k) == 0);
        assert((new_entries(be, d) + tail)[new_entries(be, d).len() as int] == de.last());
    }
}

/// Reading a key after a merge of two objects: a key that only the base
/// holds keeps its value, a key that only the delta holds takes the delta's
/// value, a key that both hold takes the merge of the two values, and a key
/// that neither holds is still absent.
pub proof fn lemma_merge_lookup(
    be: Seq<(Seq<char>, JsonView)>,
    de: Seq<(Seq<char>, JsonView)>,
    k: Seq<char>,
)
    requires
        unique_keys(be),
    ensures
        merge_view(JsonView::Object(be), JsonView::Object(de)) is Object,
        lookup(merge_view(JsonView::Object(be), JsonView::Object(de))->Object_0, k) == match (
            lookup(be, k),
            lookup(de, k),
        ) {
            (Some(bv), Some(dv)) => Some(merge_view(bv, dv)),
            (Some(bv), None) => Some(bv),
            (None, Some(dv)) => Some(dv),
            (None, None) => None,
        },
{
    let pre = merged_prefix(be, de, de.len() as int);
    let ne = new_entries(be, de);
    assert(de.subrange(0, de.len() as int) =~= de);
    let m = merge_view(JsonView::Object(be), JsonView::Object(de))->Object_0;
    assert(m =~= pre + ne);
    assert forall|x: int| 0 <= x < be.len() implies pre[x].0 == be[x].0 by {}
    lemma_key_index_same_keys(pre, be, k);
    lemma_key_index_concat(pre, ne, k);
    lemma_key_index(be, k);
    lemma_key_index(de, k);
    if key_index(be, k) >= 0 {
        let p = key_index(be, k);
        assert(m[p] == pre[p]);
    } else if key_index(de, k) >= 0 {
        lemma_new_entries_present(be, de, k);
        lemma_key_index(ne, k);
        assert(m[pre.len() + key_index(ne, k)] == ne[key_index(ne, k)]);
    } else {
        lemma_new_entries_absent(be, de, k);
    }
}

proof fn lemma_new_entries_wf(be: Seq<(Seq<char>, JsonView)>, de: Seq<(Seq<char>, JsonView)>)
    requires
        unique_keys(de),
        forall|i: int| 0 <= i < de.len() ==> well_formed(#[trigger] de[i].1),
    ensures
        unique_keys(new_entries(be, de)),
        forall|y: int|
            0 <= y < new_entries(be, de).len() ==> key_index(be, (#[trigger] new_entries(be, de)[y]).0)
                < 0 && well_formed(new_entries(be, de)[y].1),
    decreases de.len(),
{
    if de.len() > 0 {
        let d = de.drop_last();
        assert forall|i: int| 0 <= i < d.len() implies well_formed(#[trigger] d[i].1) by {
            assert(d[i] == de[i]);
        }
        assert(unique_keys(d)) by {
            assert forall|i: int, j: int|
                0 <= i < d.len() && 0 <= j < d.len() && i != j implies d[i].0 != d[j].0 by {
                assert(d[i] == de[i] && d[j] == de[j]);
            }
        }
        lemma_new_entries_wf(be, d);
        let last = de.last();
        let tail = if key_index(be, last.0) < 0 {
            seq![last]
        } else {
            seq![]
        };
        assert(new_entries(be, de) == new_entries(be, d) + tail);
        let nd = new_entries(be, d);
        let ne = new_entries(be, de);
        if tail.len() == 1 {
            lemma_key_index(de, last.0);
            assert(key_index(d, last.0) < 0) by {
                lemma_key_index(d, last.0);
                if key_index(d, last.0) >= 0 {
                    let q = key_index(d, last.0);
                    assert(de[q] == d[q]);
                    assert(de[q].0 == de[de.len() - 1].0);
                }
            }
            lemma_new_entries_absent(be, d, last.0);
            lemma_key_index(nd, last.0);
            assert forall|i: int, j: int|
                0 <= i < ne.len() && 0 <= j < ne.len() && i != j implies ne[i].0 != ne[j].0 by {
                if i < nd.len() && j < nd.len() {
                    assert(ne[i] == nd[i] && ne[j] == nd[j]);
                } else if i < nd.len() {
                    assert(ne[i] == nd[i] && ne[j] == last);
                } else if j < nd.len() {
                    assert(ne[j] == nd[j] && ne[i] == last);
                }
            }
            assert forall|y: int| 0 <= y < ne.len() implies key_index(be, (#[trigger] ne[y]).0) < 0
                && well_formed(ne[y].1) by {
                if y < nd.len() {
                    assert(ne[y] == nd[y]);
                } else {
                    assert(ne[y] == last);
                }
            }
        } else {
            assert(ne =~= nd);
        }
    }
}

/// Merging a well-formed delta into a well-formed document gives a
/// well-formed document, so deltas can be merged one after another.
pub proof fn lemma_merge_well_formed(base: JsonView, delta: JsonView)
    requires
        well_formed(base),
        well_formed(delta),
    ensures
        well_formed(merge_view(base, delta)),
    decreases delta,
{
    match delta {
        JsonView::Object(de) => match base {
            JsonView::Object(be) => {
                let pre = merged_prefix(be, de, de.len() as int);
                let ne = new_entries(be, de);
                assert(de.subrange(0, de.len() as int) =~= de);
                let m = merge_view(base, delta)->Object_0;
                assert(m =~= pre + ne);
                lemma_new_entries_wf(be, de);
                assert forall|x: int| 0 <= x < pre.len() implies pre[x].0 == be[x].0
                    && well_formed(#[trigger] pre[x].1) by {
                    let j = key_index(de, be[x].0);
                    lemma_key_index(de, be[x].0);
                    if 0 <= j < de.len() {
                        assert(decreases_to!(delta => de));
                        assert(decreases_to!(de => de[j]));
                        assert(decreases_to!(de[j] => de[j].1));
                        lemma_merge_well_formed(be[x].1, de[j].1);
                    }
                }
                assert forall|i: int, j: int|
                    0 <= i < m.len() && 0 <= j < m.len() && i != j implies m[i].0 != m[j].0 by {
                    let n = pre.len();
                    if i < n && j < n {
                        assert(m[i] == pre[i] && m[j] == pre[j]);
                    } else if i < n {
                        assert(m[i] == pre[i] && m[j] == ne[j - n]);
                        lemma_key_index(be, ne[j - n].0);
                    } else if j < n {
                        assert(m[j] == pre[j] && m[i] == ne[i - n]);
                        lemma_key_index(be, ne[i - n].0);
                    } else {
                        assert(m[i] == ne[i - n] && m[j] == ne[j - n]);
                    }
                }
                assert forall|i: int| 0 <= i < m.len() implies well_formed(#[trigger] m[i].1) by {
                    if i < pre.len() {
                        assert(m[i] == pre[i]);
                    } else {
                        assert(m[i] == ne[i - pre.len()]);
                    }
                }
            },
            _ => {},
        },
        _ => {},
    }
}

proof fn lemma_new_entries_none(be: Seq<(Seq<char>, JsonView)>, de: Seq<(Seq<char>, JsonView)>)
    requires
        forall|y: int| 0 <= y < de.len() ==> key_index(be, #[trigger] de[y].0) >= 0,
    ensures
        new_entries(be, de) == Seq::<(Seq<char>, JsonView)>::empty(),
    decreases de.len(),
{
    if de.len() > 0 {
        let d = de.drop_last();
        assert forall|y: int| 0 <= y < d.len() implies key_index(be, #[trigger] d[y].0) >= 0 by {
            assert(d[y] == de[y]);
        }
        lemma_new_entries_none(be, d);
        assert(key_index(be, de[de.len() - 1].0) >= 0);
        assert(new_entries(be, de) =~= Seq::<(Seq<char>, JsonView)>::empty());
    }
}

/// Merging a well-formed document into itself changes nothing.
pub proof fn lemma_merge_self(x: JsonView)
    requires
        well_formed(x),
    ensures
        merge_view(x, x) == x,
    decreases x,
{
    if let JsonView::Object(e) = x {
        assert forall|y: int| 0 <= y < e.len() implies key_index(e, #[trigger] e[y].0) >= 0 by {
            lemma_key_index_unique(e, y);
        }
        lemma_new_entries_none(e, e);
        let m = merge_view(x, x)->Object_0;
        assert forall|i: int| 0 <= i < e.len() implies #[trigger] m[i] == e[i] by {
            lemma_key_index_unique(e, i);
            assert(decreases_to!(x => e));
            assert(decreases_to!(e => e[i]));
            assert(decreases_to!(e[i] => e[i].1));
            lemma_merge_self(e[i].1);
        }
        assert(m =~= e);
    }
}

/// Merging the same delta twice gives what merging it once gives: a status
/// push that is delivered again changes nothing.
pub proof fn lemma_merge_idempotent(base: JsonView, delta: JsonView)
    requires
        well_formed(delta),
    ensures
        merge_view(merge_view(base, delta), delta) == merge_view(base, delta),
    decreases delta,
{
    match delta {
        JsonView::Object(de) => match base {
            JsonView::Object(be) => {
                let pre = merged_prefix(be, de, de.len() as int);
                let ne = new_entries(be, de);
                assert(de.subrange(0, de.len() as int) =~= de);
                let me = merge_view(base, delta)->Object_0;
                assert(me =~= pre + ne);
                let n = pre.len();
                assert forall|x: int| 0 <= x < n implies pre[x].0 == be[x].0 by {}
                lemma_new_entries_wf(be, de);
                assert forall|y: int| 0 <= y < de.len() implies key_index(me, #[trigger] de[y].0) >= 0 by {
                    let k = de[y].0;
                    lemma_key_index(de, k);
                    lemma_key_index_same_keys(pre, be, k);
                    lemma_key_index_concat(pre, ne, k);
                    lemma_key_index(be, k);
                    if key_index(be, k) < 0 {
                        lemma_new_entries_present(be, de, k);
                        lemma_key_index(ne, k);
                    }
                }
                lemma_new_entries_none(me, de);
                let r = merge_view(JsonView::Object(me), delta)->Object_0;
                assert forall|i: int| 0 <= i < me.len() implies #[trigger] r[i] == me[i] by {
                    let k = me[i].0;
                    lemma_key_index(de, k);
                    let j = key_index(de, k);
                    if i < n {
                        if 0 <= j < de.len() {
                            assert(decreases_to!(delta => de));
                            assert(decreases_to!(de => de[j]));
                            assert(decreases_to!(de[j] => de[j].1));
                            lemma_merge_idempotent(be[i].1, de[j].1);
                        }
                    } else {
                        let y = i - n;
                        assert(me[i] == ne[y]);
                        assert(key_index(be, ne[y].0) < 0);
                        lemma_key_index_unique(ne, y);
                        if key_index(de, k) < 0 {
                            lemma_new_entries_absent(be, de, k);
                        }
                        lemma_new_entries_present(be, de, k);
                        assert(ne[y].1 == de[j].1);
                        lemma_merge_self(de[j].1);
                    }
                }
                assert(r =~= me);
            },
            _ => {
                lemma_merge_self(delta);
            },
        },
        _ => {},
    }
}

/// Merging an empty object into an object changes nothing.
pub proof fn lemma_merge_empty(base: Seq<(Seq<char>, JsonView)>)
    ensures
        merge_view(JsonView::Object(base), JsonView::Object(Seq::empty())) == JsonView::Object(base),
{
    let de = Seq::<(Seq<char>, JsonView)>::empty();
    assert(new_entries(base, de) =~= de);
    let m = merge_view(JsonView::Object(base), JsonView::Object(de))->Object_0;
    assert forall|i: int| 0 <= i < base.len() implies #[trigger] m[i] == base[i] by {
        assert(key_index(de, base[i].0) == -1);
    }
    assert(m =~= base);
}

impl Json {
    /// The value under a key, when this is an object that has the key.
    pub fn get(&self, key: &str) -> (r: Option<&Json>)
        ensures
            match jv(*self) {
                JsonView::Object(e) => match r {
                    Some(v) => lookup(e, key@) == Some(jv(*v)),
                    None => lookup(e, key@) is None,
                },
                _ => r is None,
            },
    {
        match self {
            Json::Object(entries) => {
                proof {
                    lemma_object_view(*entries);
                    lemma_key_index(entries_view(entries@), key@);
                }
                match find_key(entries, key) {
                    Some(p) => {
                        assert(entries_view(entries@)[p as int] == entry_view(entries@[p as int]));
                        Some(&entries[p].1)
                    },
                    None => None,
                }
            },
            _ => None,
        }
    }
}

} // verus!
