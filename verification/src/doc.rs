//! The document model: a nested, untyped tree of scalars, sequences and
//! keyed entry lists, together with its mathematical view and the basic
//! operations on keyed entry lists.

use vstd::prelude::*;

verus! {

broadcast use vstd::std_specs::vec::group_vec_axioms;

/// Mathematical view of a document node.
///
/// An object is a sequence of key/value entries rather than a map, so that
/// the order of the entries in the incoming document is preserved exactly.
pub enum DocV {
    Null,
    Bool(bool),
    Num(Seq<char>),
    Str(Seq<char>),
    Arr(Seq<DocV>),
    Obj(Seq<(Seq<char>, DocV)>),
}

/// A document node. Numbers carry their literal text so that no numeric
/// precision is lost while a document passes through the engine.
#[derive(Debug, PartialEq, Eq)]
pub enum Doc {
    Null,
    Bool(bool),
    Num(String),
    Str(String),
    Arr(Vec<Doc>),
    Obj(Vec<(String, Doc)>),
}

impl View for Doc {
    type V = DocV;

    open spec fn view(&self) -> DocV
        decreases self,
    {
        match self {
            Doc::Null => DocV::Null,
            Doc::Bool(b) => DocV::Bool(*b),
            Doc::Num(s) => DocV::Num(s@),
            Doc::Str(s) => DocV::Str(s@),
            Doc::Arr(items) => DocV::Arr(items_view(items@)),
            Doc::Obj(entries) => DocV::Obj(entries_view(entries@)),
        }
    }
}

/// The view of a sequence of concrete object entries.
pub open spec fn entries_view(es: Seq<(String, Doc)>) -> Seq<(Seq<char>, DocV)>
    decreases es,
{
    if es.len() == 0 {
        Seq::empty()
    } else {
        seq![(es[0].0@, es[0].1@)] + entries_view(es.subrange(1, es.len() as int))
    }
}

/// The view of a sequence of concrete array items.
pub open spec fn items_view(items: Seq<Doc>) -> Seq<DocV>
    decreases items,
{
    if items.len() == 0 {
        Seq::empty()
    } else {
        seq![items[0]@] + items_view(items.subrange(1, items.len() as int))
    }
}

/// The view of an entry sequence reads off entry by entry.
pub proof fn lemma_entries_view(es: Seq<(String, Doc)>)
    ensures
        entries_view(es).len() == es.len(),
        forall|i: int|
            0 <= i < es.len() ==> #[trigger] entries_view(es)[i] == (es[i].0@, es[i].1@),
    decreases es.len(),
{
    if es.len() > 0 {
        let tail = es.subrange(1, es.len() as int);
        lemma_entries_view(tail);
        assert(entries_view(es) == seq![(es[0].0@, es[0].1@)] + entries_view(tail));
        assert(entries_view(es).len() == es.len());
        assert forall|i: int| 0 <= i < es.len() implies #[trigger] entries_view(es)[i] == (
            es[i].0@,
            es[i].1@,
        ) by {
            let head = seq![(es[0].0@, es[0].1@)];
            assert(entries_view(es) == head + entries_view(tail));
            assert(head.len() == 1);
            if i > 0 {
                assert(entries_view(es)[i] == entries_view(tail)[i - 1]);
                assert(tail[i - 1] == es[i]);
            }
        }
    }
}

/// The view of an item sequence reads off item by item.
pub proof fn lemma_items_view(items: Seq<Doc>)
    ensures
        items_view(items).len() == items.len(),
        forall|i: int| 0 <= i < items.len() ==> #[trigger] items_view(items)[i] == items[i]@,
    decreases items.len(),
{
    if items.len() > 0 {
        let tail = items.subrange(1, items.len() as int);
        lemma_items_view(tail);
        assert(items_view(items) == seq![items[0]@] + items_view(tail));
        assert(items_view(items).len() == items.len());
        assert forall|i: int| 0 <= i < items.len() implies #[trigger] items_view(items)[i]
            == items[i]@ by {
            let head = seq![items[0]@];
            assert(items_view(items) == head + items_view(tail));
            assert(head.len() == 1);
            if i > 0 {
                assert(items_view(items)[i] == items_view(tail)[i - 1]);
                assert(tail[i - 1] == items[i]);
            }
        }
    }
}

/// The value under the first entry carrying `key`, if any.
pub open spec fn obj_get(es: Seq<(Seq<char>, DocV)>, key: Seq<char>) -> Option<DocV>
    decreases es.len(),
{
    if es.len() == 0 {
        None
    } else if es[0].0 == key {
        Some(es[0].1)
    } else {
        obj_get(es.subrange(1, es.len() as int), key)
    }
}

/// The entry list with `val` stored under `key`: the first entry carrying
/// `key` is replaced in place, and if none carries it a new entry is
/// appended at the end.
pub open spec fn obj_set(
    es: Seq<(Seq<char>, DocV)>,
    key: Seq<char>,
    val: DocV,
) -> Seq<(Seq<char>, DocV)>
    decreases es.len(),
{
    if es.len() == 0 {
        seq![(key, val)]
    } else if es[0].0 == key {
        seq![(key, val)] + es.subrange(1, es.len() as int)
    } else {
        seq![es[0]] + obj_set(es.subrange(1, es.len() as int), key, val)
    }
}

/// At the first index carrying `key`, `obj_get` reads that entry and
/// `obj_set` updates exactly that entry.
pub proof fn lemma_obj_at_first(es: Seq<(Seq<char>, DocV)>, key: Seq<char>, val: DocV, i: int)
    requires
        0 <= i < es.len(),
        es[i].0 == key,
        forall|j: int| 0 <= j < i ==> es[j].0 != key,
    ensures
        obj_get(es, key) == Some(es[i].1),
        obj_set(es, key, val) =~= es.update(i, (key, val)),
    decreases i,
{
    let tail = es.subrange(1, es.len() as int);
    if i == 0 {
        assert(obj_set(es, key, val) =~= es.update(0, (key, val)));
    } else {
        assert(es[0].0 != key);
        lemma_obj_at_first(tail, key, val, i - 1);
        assert(obj_set(es, key, val) =~= es.update(i, (key, val)));
    }
}

/// When no entry carries `key`, `obj_get` finds nothing and `obj_set`
/// appends a new entry.
pub proof fn lemma_obj_absent(es: Seq<(Seq<char>, DocV)>, key: Seq<char>, val: DocV)
    requires
        forall|j: int| 0 <= j < es.len() ==> es[j].0 != key,
    ensures
        obj_get(es, key) is None,
        obj_set(es, key, val) =~= es.push((key, val)),
    decreases es.len(),
{
    if es.len() > 0 {
        lemma_obj_absent(es.subrange(1, es.len() as int), key, val);
        assert(obj_set(es, key, val) =~= es.push((key, val)));
    }
}

/// Reading back the key just written yields the written value.
pub proof fn lemma_obj_set_get(es: Seq<(Seq<char>, DocV)>, key: Seq<char>, val: DocV)
    ensures
        obj_get(obj_set(es, key, val), key) == Some(val),
    decreases es.len(),
{
    let r = obj_set(es, key, val);
    if es.len() == 0 {
    } else if es[0].0 == key {
        assert(r[0] == (key, val));
    } else {
        lemma_obj_set_get(es.subrange(1, es.len() as int), key, val);
        assert(r[0] == es[0]);
        assert(r.subrange(1, r.len() as int) =~= obj_set(
            es.subrange(1, es.len() as int),
            key,
            val,
        ));
    }
}

/// Writing one key leaves every other key unread and unchanged.
pub proof fn lemma_obj_set_other(
    es: Seq<(Seq<char>, DocV)>,
    key: Seq<char>,
    val: DocV,
    other: Seq<char>,
)
    requires
        other != key,
    ensures
        obj_get(obj_set(es, key, val), other) == obj_get(es, other),
    decreases es.len(),
{
    let r = obj_set(es, key, val);
    if es.len() == 0 {
        assert(r[0] == (key, val));
        assert(r.subrange(1, r.len() as int) =~= Seq::<(Seq<char>, DocV)>::empty());
        assert(obj_get(Seq::<(Seq<char>, DocV)>::empty(), other) is None);
    } else if es[0].0 == key {
        let tail = es.subrange(1, es.len() as int);
        assert(r[0] == (key, val));
        assert(r.subrange(1, r.len() as int) =~= tail);
    } else {
        let tail = es.subrange(1, es.len() as int);
        lemma_obj_set_other(tail, key, val, other);
        assert(r[0] == es[0]);
        assert(r.subrange(1, r.len() as int) =~= obj_set(tail, key, val));
    }
}

/// Writing the same key twice keeps only the second write.
pub proof fn lemma_obj_set_twice(
    es: Seq<(Seq<char>, DocV)>,
    key: Seq<char>,
    v1: DocV,
    v2: DocV,
)
    ensures
        obj_set(obj_set(es, key, v1), key, v2) =~= obj_set(es, key, v2),
    decreases es.len(),
{
    let r1 = obj_set(es, key, v1);
    if es.len() == 0 {
        assert(r1[0] == (key, v1));
        assert(obj_set(r1, key, v2) =~= obj_set(es, key, v2));
    } else if es[0].0 == key {
        assert(r1[0] == (key, v1));
        assert(r1.subrange(1, r1.len() as int) =~= es.subrange(1, es.len() as int));
        assert(obj_set(r1, key, v2) =~= obj_set(es, key, v2));
    } else {
        let tail = es.subrange(1, es.len() as int);
        lemma_obj_set_twice(tail, key, v1, v2);
        assert(r1[0] == es[0]);
        assert(r1.subrange(1, r1.len() as int) =~= obj_set(tail, key, v1));
        assert(obj_set(r1, key, v2) =~= obj_set(es, key, v2));
    }
}

/// The value under `key` when the node is an object carrying that key.
pub open spec fn doc_get(d: DocV, key: Seq<char>) -> Option<DocV> {
    match d {
        DocV::Obj(es) => obj_get(es, key),
        _ => None,
    }
}

/// The node with `val` stored under `key`, when the node is an object; any
/// other node is left as it is.
pub open spec fn doc_set(d: DocV, key: Seq<char>, val: DocV) -> DocV {
    match d {
        DocV::Obj(es) => DocV::Obj(obj_set(es, key, val)),
        _ => d,
    }
}

/// The value held by an optional lookup, defaulting to `Null`.
pub open spec fn got(o: Option<DocV>) -> DocV {
    match o {
        Some(v) => v,
        None => DocV::Null,
    }
}

/// Finds the value under the first entry carrying `key`, if any.
pub fn get_entry<'a>(entries: &'a Vec<(String, Doc)>, key: &String) -> (r: Option<&'a Doc>)
    ensures
        match r {
            Some(d) => obj_get(entries_view(entries@), key@) == Some(d@),
            None => obj_get(entries_view(entries@), key@) is None,
        },
{
    let mut i: usize = 0;
    while i < entries.len()
        invariant
            i <= entries@.len(),
            forall|j: int| 0 <= j < i ==> entries@[j].0@ != key@,
        decreases entries@.len() - i,
    {
        proof {
            lemma_entries_view(entries@);
        }
        let e = &entries[i];
        if e.0 == *key {
            proof {
                lemma_obj_at_first(entries_view(entries@), key@, DocV::Null, i as int);
            }
            return Some(&e.1);
        }
        i += 1;
    }
    proof {
        lemma_entries_view(entries@);
        lemma_obj_absent(entries_view(entries@), key@, DocV::Null);
    }
    None
}

/// Removes the first entry carrying `key` and hands back its position, its
/// key and its value, so that a reworked value can be put back in its place.
pub fn take_key(entries: &mut Vec<(String, Doc)>, key: &String) -> (r: Option<
    (usize, String, Doc),
>)
    ensures
        match r {
            Some(ikv) => {
                &&& 0 <= ikv.0 < old(entries)@.len()
                &&& ikv.1 == old(entries)@[ikv.0 as int].0
                &&& ikv.2 == old(entries)@[ikv.0 as int].1
                &&& ikv.1@ == key@
                &&& forall|j: int| 0 <= j < ikv.0 ==> old(entries)@[j].0@ != key@
                &&& final(entries)@ == old(entries)@.remove(ikv.0 as int)
                &&& obj_get(entries_view(old(entries)@), key@) == Some(ikv.2@)
            },
            None => {
                &&& final(entries)@ == old(entries)@
                &&& forall|j: int| 0 <= j < old(entries)@.len() ==> old(entries)@[j].0@ != key@
                &&& obj_get(entries_view(old(entries)@), key@) is None
            },
        },
{
    let mut i: usize = 0;
    while i < entries.len()
        invariant
            i <= entries@.len(),
            entries@ == old(entries)@,
            forall|j: int| 0 <= j < i ==> entries@[j].0@ != key@,
        decreases entries@.len() - i,
    {
        proof {
            lemma_entries_view(entries@);
        }
        let hit = entries[i].0 == *key;
        if hit {
            proof {
                lemma_obj_at_first(entries_view(entries@), key@, DocV::Null, i as int);
            }
            let pair = entries.remove(i);
            return Some((i, pair.0, pair.1));
        }
        i += 1;
    }
    proof {
        lemma_entries_view(entries@);
        lemma_obj_absent(entries_view(entries@), key@, DocV::Null);
    }
    None
}

/// Stores `val` under `key`: the first entry carrying the key is replaced in
/// place, and when none carries it a new entry is appended at the end.
pub fn obj_put(entries: &mut Vec<(String, Doc)>, key: String, val: Doc)
    ensures
        entries_view(final(entries)@) == obj_set(entries_view(old(entries)@), key@, val@),
{
    let r = take_key(entries, &key);
    match r {
        Some((i, _k, _v)) => {
            entries.insert(i, (key, val));
            proof {
                lemma_entries_view(old(entries)@);
                lemma_entries_view(entries@);
                lemma_obj_at_first(entries_view(old(entries)@), key@, val@, i as int);
                assert(entries@ =~= old(entries)@.update(i as int, (key, val)));
                assert(entries_view(entries@) =~= obj_set(
                    entries_view(old(entries)@),
                    key@,
                    val@,
                ));
            }
        },
        None => {
            entries.push((key, val));
            proof {
                lemma_entries_view(old(entries)@);
                lemma_entries_view(entries@);
                lemma_obj_absent(entries_view(old(entries)@), key@, val@);
                assert(entries_view(entries@) =~= obj_set(
                    entries_view(old(entries)@),
                    key@,
                    val@,
                ));
            }
        },
    }
}

/// Finds the value under `key` when the document node is an object.
pub fn doc_entry<'a>(d: &'a Doc, key: &String) -> (r: Option<&'a Doc>)
    ensures
        match r {
            Some(x) => doc_get(d@, key@) == Some(x@),
            None => doc_get(d@, key@) is None,
        },
{
    match d {
        Doc::Obj(entries) => get_entry(entries, key),
        _ => None,
    }
}

/// Reading back the key just stored yields the stored value.
pub proof fn lemma_doc_set_get(d: DocV, key: Seq<char>, val: DocV)
    requires
        d is Obj,
    ensures
        doc_get(doc_set(d, key, val), key) == Some(val),
{
    lemma_obj_set_get(d->Obj_0, key, val);
}

/// Storing under one key leaves every other key unchanged.
pub proof fn lemma_doc_set_other(d: DocV, key: Seq<char>, val: DocV, other: Seq<char>)
    requires
        other != key,
    ensures
        doc_get(doc_set(d, key, val), other) == doc_get(d, other),
{
    if d is Obj {
        lemma_obj_set_other(d->Obj_0, key, val, other);
    }
}

/// Storing under the same key twice keeps only the second value.
pub proof fn lemma_doc_set_set(d: DocV, key: Seq<char>, v1: DocV, v2: DocV)
    ensures
        doc_set(doc_set(d, key, v1), key, v2) == doc_set(d, key, v2),
{
    if d is Obj {
        lemma_obj_set_twice(d->Obj_0, key, v1, v2);
        assert(obj_set(obj_set(d->Obj_0, key, v1), key, v2) == obj_set(d->Obj_0, key, v2));
    }
}

} // verus!
