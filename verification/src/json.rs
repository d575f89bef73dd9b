//! A model of JSON documents.
//!
//! `Json` is the executable tree; `JsonV` is its mathematical image, used by
//! every contract of the crate. Numbers are held as `i64`: the envelope layer
//! never produces anything else, and a payload is opaque data that round-trips
//! through this tree.

use vstd::prelude::*;

verus! {

broadcast use vstd::std_specs::vec::group_vec_axioms;

/// An executable JSON document: the payloads and the wire image of an
/// envelope are values of this type.
#[derive(Debug, PartialEq, Eq)]
pub enum Json {
    Null,
    Bool(bool),
    Int(i64),
    Str(String),
    Arr(Vec<Json>),
    Obj(Vec<(String, Json)>),
}

/// The mathematical image of a `Json` tree.
#[verifier::ext_equal]
pub enum JsonV {
    Null,
    Bool(bool),
    Int(int),
    Str(Seq<char>),
    Arr(Seq<JsonV>),
    Obj(Seq<(Seq<char>, JsonV)>),
}

pub open spec fn json_view(j: Json) -> JsonV
    decreases j,
{
    match j {
        Json::Null => JsonV::Null,
        Json::Bool(b) => JsonV::Bool(b),
        Json::Int(n) => JsonV::Int(n as int),
        Json::Str(s) => JsonV::Str(s@),
        Json::Arr(v) => JsonV::Arr(list_view(v@)),
        Json::Obj(v) => JsonV::Obj(fields_view(v@)),
    }
}

pub open spec fn list_view(s: Seq<Json>) -> Seq<JsonV>
    decreases s,
{
    if s.len() == 0 {
        Seq::empty()
    } else {
        seq![json_view(s.first())] + list_view(s.drop_first())
    }
}

pub open spec fn fields_view(s: Seq<(String, Json)>) -> Seq<(Seq<char>, JsonV)>
    decreases s,
{
    if s.len() == 0 {
        Seq::empty()
    } else {
        seq![(s.first().0@, json_view(s.first().1))] + fields_view(s.drop_first())
    }
}

pub broadcast proof fn lemma_list_view_len(s: Seq<Json>)
    ensures
        (#[trigger] list_view(s)).len() == s.len(),
    decreases s.len(),
{
    if s.len() > 0 {
        lemma_list_view_len(s.drop_first());
    }
}

pub broadcast proof fn lemma_list_view_index(s: Seq<Json>, k: int)
    requires
        0 <= k < s.len(),
    ensures
        #[trigger] list_view(s)[k] == json_view(s[k]),
    decreases s.len(),
{
    lemma_list_view_len(s);
    if k > 0 {
        lemma_list_view_index(s.drop_first(), k - 1);
    }
}

pub broadcast proof fn lemma_fields_view_len(s: Seq<(String, Json)>)
    ensures
        (#[trigger] fields_view(s)).len() == s.len(),
    decreases s.len(),
{
    if s.len() > 0 {
        lemma_fields_view_len(s.drop_first());
    }
}

pub broadcast proof fn lemma_fields_view_index(s: Seq<(String, Json)>, k: int)
    requires
        0 <= k < s.len(),
    ensures
        #[trigger] fields_view(s)[k] == (s[k].0@, json_view(s[k].1)),
    decreases s.len(),
{
    lemma_fields_view_len(s);
    if k > 0 {
        lemma_fields_view_index(s.drop_first(), k - 1);
    }
}

/// There is an entry for key `k` in the field list.
pub open spec fn has_key(fs: Seq<(Seq<char>, JsonV)>, k: Seq<char>) -> bool {
    exists|i: int| 0 <= i < fs.len() && fs[i].0 == k
}

/// The value of the first entry for key `k` (the entry, under `keys_unique`).
pub open spec fn first_val(fs: Seq<(Seq<char>, JsonV)>, k: Seq<char>) -> JsonV
    decreases fs.len(),
{
    if fs.len() == 0 {
        JsonV::Null
    } else if fs[0].0 == k {
        fs[0].1
    } else {
        first_val(fs.drop_first(), k)
    }
}

/// No two entries of the field list share a key.
pub open spec fn keys_unique(fs: Seq<(Seq<char>, JsonV)>) -> bool {
    forall|i: int, j: int| 0 <= i < j < fs.len() ==> fs[i].0 != fs[j].0
}

/// If no entry of the prefix before position `i` has key `k` and the entry at
/// `i` does, then that entry is the first one for `k`.
pub proof fn lemma_first_val_at(fs: Seq<(Seq<char>, JsonV)>, k: Seq<char>, i: int)
    requires
        0 <= i < fs.len(),
        !has_key(fs.take(i), k),
        fs[i].0 == k,
    ensures
        has_key(fs, k),
        first_val(fs, k) == fs[i].1,
    decreases i,
{
    if i == 0 {
    } else {
        assert(fs.take(i)[0] == fs[0]);
        assert(fs[0].0 != k);
        assert(!has_key(fs.drop_first().take(i - 1), k)) by {
            if has_key(fs.drop_first().take(i - 1), k) {
                let w = choose|w: int| 0 <= w < fs.drop_first().take(i - 1).len()
                    && (#[trigger] fs.drop_first().take(i - 1)[w]).0 == k;
                assert(fs.take(i)[w + 1].0 == k);
            }
        }
        assert(fs.drop_first()[i - 1] == fs[i]);
        lemma_first_val_at(fs.drop_first(), k, i - 1);
    }
}

/// In the scanned prefix no entry has the key of the entry at `i`: used to
/// extend the key-uniqueness invariant by one entry.
pub proof fn lemma_no_dup_in_prefix(fs: Seq<(Seq<char>, JsonV)>, i: int, k: Seq<char>)
    requires
        0 <= i < fs.len(),
        fs[i].0 == k,
        !has_key(fs.take(i), k),
    ensures
        forall|k1: int| 0 <= k1 < i ==> (#[trigger] fs[k1]).0 != k,
{
    assert forall|k1: int| 0 <= k1 < i implies (#[trigger] fs[k1]).0 != k by {
        assert(fs.take(i)[k1] == fs[k1]);
        if fs[k1].0 == k {
            assert(has_key(fs.take(i), k));
        }
    };
}

/// The entry at `i` repeats a key already seen in the prefix: the whole field
/// list has a duplicate, so strict decoding fails.
pub proof fn lemma_dup_key(fs: Seq<(Seq<char>, JsonV)>, i: int, k: Seq<char>)
    requires
        0 <= i < fs.len(),
        fs[i].0 == k,
        has_key(fs.take(i), k),
    ensures
        !keys_unique(fs),
{
    let w = choose|w: int| 0 <= w < fs.take(i).len() && (#[trigger] fs.take(i)[w]).0 == k;
    assert(fs[w].0 == k);
    assert(!keys_unique(fs)) by {
        if keys_unique(fs) {
            assert(fs[w].0 != fs[i].0);
        }
    }
}

/// Extending the scanned prefix by an entry with a different key changes
/// nothing about key `k`.
pub proof fn lemma_step_other(fs: Seq<(Seq<char>, JsonV)>, i: int, k: Seq<char>)
    requires
        0 <= i < fs.len(),
        fs[i].0 != k,
    ensures
        has_key(fs.take(i + 1), k) == has_key(fs.take(i), k),
        first_val(fs.take(i + 1), k) == first_val(fs.take(i), k),
{
    assert(fs.take(i + 1).drop_last() =~= fs.take(i));
    lemma_first_val_drop_last(fs.take(i + 1), k);
    assert(has_key(fs.take(i + 1), k) == has_key(fs.take(i), k)) by {
        if has_key(fs.take(i + 1), k) {
            let w = choose|w: int| 0 <= w < fs.take(i + 1).len() && (#[trigger] fs.take(i + 1)[w]).0
                == k;
            assert(w < i);
            assert(fs.take(i)[w].0 == k);
        }
        if has_key(fs.take(i), k) {
            let w = choose|w: int| 0 <= w < fs.take(i).len() && (#[trigger] fs.take(i)[w]).0 == k;
            assert(fs.take(i + 1)[w].0 == k);
        }
    }
}

/// `first_val` ignores a last entry whose key differs from `k`.
pub proof fn lemma_first_val_drop_last(fs: Seq<(Seq<char>, JsonV)>, k: Seq<char>)
    requires
        fs.len() > 0,
        fs.last().0 != k,
    ensures
        first_val(fs, k) == first_val(fs.drop_last(), k),
    decreases fs.len(),
{
    if fs.len() == 1 {
        assert(fs.drop_first() =~= fs.drop_last());
    } else {
        if fs[0].0 == k {
            assert(fs.drop_last()[0] == fs[0]);
        } else {
            assert(fs.drop_first().last() == fs.last());
            lemma_first_val_drop_last(fs.drop_first(), k);
            assert(fs.drop_first().drop_last() =~= fs.drop_last().drop_first());
            assert(fs.drop_last()[0] == fs[0]);
        }
    }
}


impl View for Json {
    type V = JsonV;

    open spec fn view(&self) -> JsonV {
        json_view(*self)
    }
}

/// A size measure of a `Json` tree; recursive executable walks of a tree
/// terminate because this measure shrinks at every child.
pub open spec fn jsize(j: Json) -> nat
    decreases j,
{
    match j {
        Json::Arr(v) => 1 + list_size(v@),
        Json::Obj(v) => 1 + fields_size(v@),
        _ => 1,
    }
}

pub open spec fn list_size(s: Seq<Json>) -> nat
    decreases s,
{
    if s.len() == 0 {
        0
    } else {
        jsize(s.first()) + list_size(s.drop_first())
    }
}

pub open spec fn fields_size(s: Seq<(String, Json)>) -> nat
    decreases s,
{
    if s.len() == 0 {
        0
    } else {
        jsize(s.first().1) + fields_size(s.drop_first())
    }
}

pub proof fn lemma_list_size_elem(s: Seq<Json>, i: int)
    requires
        0 <= i < s.len(),
    ensures
        jsize(s[i]) <= list_size(s),
    decreases s.len(),
{
    if i > 0 {
        lemma_list_size_elem(s.drop_first(), i - 1);
    }
}

pub proof fn lemma_fields_size_elem(s: Seq<(String, Json)>, i: int)
    requires
        0 <= i < s.len(),
    ensures
        jsize(s[i].1) <= fields_size(s),
    decreases s.len(),
{
    if i > 0 {
        lemma_fields_size_elem(s.drop_first(), i - 1);
    }
}

impl Json {
    /// A structural copy: the copy has the same mathematical image as the
    /// original.
    pub fn deep_clone(&self) -> (r: Json)
        ensures
            r@ == self@,
        decreases jsize(*self),
    {
        match self {
            Json::Null => Json::Null,
            Json::Bool(b) => Json::Bool(*b),
            Json::Int(n) => Json::Int(*n),
            Json::Str(s) => Json::Str(s.clone()),
            Json::Arr(v) => {
                let mut out: Vec<Json> = Vec::new();
                let mut i: usize = 0;
                while i < v.len()
                    invariant
                        i <= v.len(),
                        out@.len() == i as int,
                        *self == Json::Arr(*v),
                        forall|k: int| 0 <= k < i ==> json_view(#[trigger] out@[k]) == json_view(v@[k]),
                    decreases v.len() - i,
                {
                    proof {
                        lemma_list_size_elem(v@, i as int);
                    }
                    out.push(v[i].deep_clone());
                    i += 1;
                }
                let r = Json::Arr(out);
                proof {
                    broadcast use lemma_list_view_len, lemma_list_view_index;
                    assert(list_view(out@) =~= list_view(v@));
                    assert(r@ =~= self@);
                }
                r
            },
            Json::Obj(v) => {
                let mut out: Vec<(String, Json)> = Vec::new();
                let mut i: usize = 0;
                while i < v.len()
                    invariant
                        i <= v.len(),
                        out@.len() == i as int,
                        *self == Json::Obj(*v),
                        forall|k: int| 0 <= k < i ==> (#[trigger] out@[k]).0@ == v@[k].0@
                            && json_view(out@[k].1) == json_view(v@[k].1),
                    decreases v.len() - i,
                {
                    proof {
                        lemma_fields_size_elem(v@, i as int);
                    }
                    let key = v[i].0.clone();
                    let val = v[i].1.deep_clone();
                    out.push((key, val));
                    i += 1;
                }
                let r = Json::Obj(out);
                proof {
                    broadcast use lemma_fields_view_len, lemma_fields_view_index;
                    assert(fields_view(out@) =~= fields_view(v@));
                    assert(r@ =~= self@);
                }
                r
            },
        }
    }
}

} // verus!
