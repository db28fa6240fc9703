//! A JSON document model whose objects keep their keys in strictly
//! ascending order, so that two documents are equal exactly when they hold
//! the same members (as for a key-sorted map).
use vstd::prelude::*;

verus! {

/// The mathematical value of a JSON document.
pub enum JsonV {
    Null,
    Bool(bool),
    /// A number, held as its canonical decimal text.
    Number(Seq<char>),
    Str(Seq<char>),
    Array(Seq<JsonV>),
    /// Members in key order.
    Object(Seq<(Seq<char>, JsonV)>),
}

/// An executable JSON document.
#[derive(Debug)]
pub enum Json {
    Null,
    Bool(bool),
    /// A number, held as its canonical decimal text.
    Number(String),
    Str(String),
    Array(Vec<Json>),
    /// Members in key order.
    Object(Vec<(String, Json)>),
}

impl Json {
    pub open spec fn model(self) -> JsonV
        decreases self,
    {
        match self {
            Json::Null => JsonV::Null,
            Json::Bool(b) => JsonV::Bool(b),
            Json::Number(n) => JsonV::Number(n@),
            Json::Str(s) => JsonV::Str(s@),
            Json::Array(v) => JsonV::Array(
                Seq::new(
                    v@.len(),
                    |i: int|
                        if 0 <= i < v@.len() {
                            v@[i].model()
                        } else {
                            JsonV::Null
                        },
                ),
            ),
            Json::Object(v) => JsonV::Object(
                Seq::new(
                    v@.len(),
                    |i: int|
                        if 0 <= i < v@.len() {
                            (v@[i].0@, v@[i].1.model())
                        } else {
                            (Seq::empty(), JsonV::Null)
                        },
                ),
            ),
        }
    }
}

impl View for Json {
    type V = JsonV;

    open spec fn view(&self) -> JsonV {
        self.model()
    }
}

/// The models of the members of an object, in order.
pub open spec fn members_view(v: Seq<(String, Json)>) -> Seq<(Seq<char>, JsonV)> {
    Seq::new(v.len(), |i: int| (v[i].0@, v[i].1@))
}

/// The models of the elements of an array, in order.
pub open spec fn elements_view(v: Seq<Json>) -> Seq<JsonV> {
    Seq::new(v.len(), |i: int| v[i]@)
}

pub proof fn lemma_object_view(v: Vec<(String, Json)>)
    ensures
        Json::Object(v)@ == JsonV::Object(members_view(v@)),
{
    assert(Json::Object(v)@->Object_0 =~= members_view(v@));
}

pub proof fn lemma_array_view(v: Vec<Json>)
    ensures
        Json::Array(v)@ == JsonV::Array(elements_view(v@)),
{
    assert(Json::Array(v)@->Array_0 =~= elements_view(v@));
}

/// Strict lexicographic order of keys, by code point.
pub open spec fn key_lt(a: Seq<char>, b: Seq<char>) -> bool
    decreases a.len(),
{
    if b.len() == 0 {
        false
    } else if a.len() == 0 {
        true
    } else if (a[0] as int) < (b[0] as int) {
        true
    } else if a[0] == b[0] {
        key_lt(a.drop_first(), b.drop_first())
    } else {
        false
    }
}

pub proof fn lemma_key_lt_irreflexive(a: Seq<char>)
    ensures
        !key_lt(a, a),
    decreases a.len(),
{
    if a.len() > 0 {
        lemma_key_lt_irreflexive(a.drop_first());
    }
}

pub proof fn lemma_key_lt_asymmetric(a: Seq<char>, b: Seq<char>)
    ensures
        !(key_lt(a, b) && key_lt(b, a)),
    decreases a.len(),
{
    if a.len() > 0 && b.len() > 0 && a[0] == b[0] {
        lemma_key_lt_asymmetric(a.drop_first(), b.drop_first());
    }
}

pub proof fn lemma_key_lt_transitive(a: Seq<char>, b: Seq<char>, c: Seq<char>)
    requires
        key_lt(a, b),
        key_lt(b, c),
    ensures
        key_lt(a, c),
    decreases a.len(),
{
    if a.len() > 0 && a[0] == b[0] && b[0] == c[0] {
        lemma_key_lt_transitive(a.drop_first(), b.drop_first(), c.drop_first());
    }
}

pub proof fn lemma_key_lt_total(a: Seq<char>, b: Seq<char>)
    ensures
        a == b || key_lt(a, b) || key_lt(b, a),
    decreases a.len(),
{
    if a.len() == 0 && b.len() == 0 {
        assert(a =~= b);
    } else if a.len() > 0 && b.len() > 0 && a[0] == b[0] {
        lemma_key_lt_total(a.drop_first(), b.drop_first());
        if a.drop_first() == b.drop_first() {
            assert(a =~= seq![a[0]] + a.drop_first());
            assert(b =~= seq![b[0]] + b.drop_first());
        }
    } else if a.len() > 0 && b.len() > 0 {
        let x = a[0];
        let y = b[0];
        assert(x != y ==> (x as int) != (y as int));
    }
}

/// Comparing two keys after a common prefix.
pub proof fn lemma_key_lt_skip(a: Seq<char>, b: Seq<char>, i: int)
    requires
        0 <= i <= a.len(),
        i <= b.len(),
        a.take(i) == b.take(i),
    ensures
        key_lt(a, b) == key_lt(a.skip(i), b.skip(i)),
    decreases i,
{
    if i > 0 {
        assert(a[0] == a.take(i)[0]);
        assert(b[0] == b.take(i)[0]);
        assert(a.drop_first().take(i - 1) =~= a.take(i).drop_first());
        assert(b.drop_first().take(i - 1) =~= b.take(i).drop_first());
        lemma_key_lt_skip(a.drop_first(), b.drop_first(), i - 1);
        assert(a.drop_first().skip(i - 1) =~= a.skip(i));
        assert(b.drop_first().skip(i - 1) =~= b.skip(i));
    } else {
        assert(a.skip(0) =~= a);
        assert(b.skip(0) =~= b);
    }
}

/// The keys of an object's members strictly ascend.
pub open spec fn sorted_keys(e: Seq<(Seq<char>, JsonV)>) -> bool {
    forall|i: int, j: int| 0 <= i < j < e.len() ==> key_lt(#[trigger] e[i].0, #[trigger] e[j].0)
}

/// The value of the first member with key `k`.
pub open spec fn obj_get(e: Seq<(Seq<char>, JsonV)>, k: Seq<char>) -> Option<JsonV>
    decreases e.len(),
{
    if e.len() == 0 {
        None
    } else if e[0].0 == k {
        Some(e[0].1)
    } else {
        obj_get(e.drop_first(), k)
    }
}

/// Sets member `k` to `v`: replaces the member with that key, or inserts it
/// before the first greater key.
pub open spec fn obj_insert(e: Seq<(Seq<char>, JsonV)>, k: Seq<char>, v: JsonV) -> Seq<
    (Seq<char>, JsonV),
>
    decreases e.len(),
{
    if e.len() == 0 {
        seq![(k, v)]
    } else if e[0].0 == k {
        seq![(k, v)] + e.drop_first()
    } else if key_lt(k, e[0].0) {
        seq![(k, v)] + e
    } else {
        seq![e[0]] + obj_insert(e.drop_first(), k, v)
    }
}

/// Removes the first member with key `k`.
pub open spec fn obj_remove(e: Seq<(Seq<char>, JsonV)>, k: Seq<char>) -> Seq<(Seq<char>, JsonV)>
    decreases e.len(),
{
    if e.len() == 0 {
        e
    } else if e[0].0 == k {
        e.drop_first()
    } else {
        seq![e[0]] + obj_remove(e.drop_first(), k)
    }
}

impl JsonV {
    /// Every object inside keeps its keys strictly ascending.
    pub open spec fn wf(self) -> bool
        decreases self,
    {
        match self {
            JsonV::Array(s) => forall|i: int| 0 <= i < s.len() ==> (#[trigger] s[i]).wf(),
            JsonV::Object(e) => sorted_keys(e) && forall|i: int|
                0 <= i < e.len() ==> (#[trigger] e[i]).1.wf(),
            _ => true,
        }
    }

    /// The member `k` of an object; `None` for a missing key or a non-object.
    pub open spec fn get(self, k: Seq<char>) -> Option<JsonV> {
        match self {
            JsonV::Object(e) => obj_get(e, k),
            _ => None,
        }
    }

    /// The member `k` of an object, or an empty object where it is missing.
    pub open spec fn get_or_empty(self, k: Seq<char>) -> JsonV {
        match self.get(k) {
            Some(v) => v,
            None => JsonV::Object(seq![]),
        }
    }

    /// The object with member `k` set to `v`; a non-object is left as it is.
    pub open spec fn set(self, k: Seq<char>, v: JsonV) -> JsonV {
        match self {
            JsonV::Object(e) => JsonV::Object(obj_insert(e, k, v)),
            _ => self,
        }
    }
}

// ---------------------------------------------------------------------------
// Facts about members
pub proof fn lemma_get_insert(e: Seq<(Seq<char>, JsonV)>, k: Seq<char>, v: JsonV, k2: Seq<char>)
    ensures
        obj_get(obj_insert(e, k, v), k2) == if k2 == k {
            Some(v)
        } else {
            obj_get(e, k2)
        },
    decreases e.len(),
{
    let r = obj_insert(e, k, v);
    if e.len() == 0 {
        assert(r[0] == (k, v));
        assert(r.drop_first() =~= Seq::<(Seq<char>, JsonV)>::empty());
        assert(obj_get(r, k2) == if k2 == k { Some(v) } else { obj_get(r.drop_first(), k2) });
    } else if e[0].0 == k {
        assert(r[0] == (k, v));
        assert(r.drop_first() =~= e.drop_first());
        assert(obj_get(r, k2) == if k2 == k { Some(v) } else { obj_get(r.drop_first(), k2) });
        assert(obj_get(e, k2) == if k2 == k { Some(e[0].1) } else { obj_get(e.drop_first(), k2) });
    } else if key_lt(k, e[0].0) {
        assert(r[0] == (k, v));
        assert(r.drop_first() =~= e);
        assert(obj_get(r, k2) == if k2 == k { Some(v) } else { obj_get(r.drop_first(), k2) });
    } else {
        assert(r[0] == e[0]);
        assert(r.drop_first() =~= obj_insert(e.drop_first(), k, v));
        lemma_get_insert(e.drop_first(), k, v, k2);
        assert(obj_get(r, k2) == if e[0].0 == k2 { Some(e[0].1) } else { obj_get(r.drop_first(), k2) });
        assert(obj_get(e, k2) == if e[0].0 == k2 { Some(e[0].1) } else { obj_get(e.drop_first(), k2) });
    }
}

/// Every member of `obj_insert(e, k, v)` is `(k, v)` or a member of `e`.
pub proof fn lemma_insert_members(e: Seq<(Seq<char>, JsonV)>, k: Seq<char>, v: JsonV)
    ensures
        forall|i: int|
            0 <= i < obj_insert(e, k, v).len() ==> #[trigger] obj_insert(e, k, v)[i] == (k, v)
                || exists|j: int| 0 <= j < e.len() && e[j] == obj_insert(e, k, v)[i],
    decreases e.len(),
{
    let r = obj_insert(e, k, v);
    if e.len() == 0 {
    } else if e[0].0 == k {
        assert forall|i: int| 0 <= i < r.len() implies #[trigger] r[i] == (k, v) || exists|j: int|
            0 <= j < e.len() && e[j] == r[i] by {
            if i > 0 {
                assert(e[i] == r[i]);
            }
        }
    } else if key_lt(k, e[0].0) {
        assert forall|i: int| 0 <= i < r.len() implies #[trigger] r[i] == (k, v) || exists|j: int|
            0 <= j < e.len() && e[j] == r[i] by {
            if i > 0 {
                assert(e[i - 1] == r[i]);
            }
        }
    } else {
        let t = e.drop_first();
        lemma_insert_members(t, k, v);
        assert forall|i: int| 0 <= i < r.len() implies #[trigger] r[i] == (k, v) || exists|j: int|
            0 <= j < e.len() && e[j] == r[i] by {
            if i == 0 {
                assert(e[0] == r[0]);
            } else {
                assert(r[i] == obj_insert(t, k, v)[i - 1]);
                if r[i] != (k, v) {
                    let j = choose|j: int| 0 <= j < t.len() && t[j] == obj_insert(t, k, v)[i - 1];
                    assert(e[j + 1] == r[i]);
                }
            }
        }
    }
}

pub proof fn lemma_insert_sorted(e: Seq<(Seq<char>, JsonV)>, k: Seq<char>, v: JsonV)
    requires
        sorted_keys(e),
    ensures
        sorted_keys(obj_insert(e, k, v)),
    decreases e.len(),
{
    let r = obj_insert(e, k, v);
    if e.len() == 0 {
    } else if e[0].0 == k {
        assert forall|i: int, j: int| 0 <= i < j < r.len() implies key_lt(
            #[trigger] r[i].0,
            #[trigger] r[j].0,
        ) by {
            assert(r[j] == e[j]);
            if i > 0 {
                assert(r[i] == e[i]);
            }
        }
    } else if key_lt(k, e[0].0) {
        assert forall|i: int, j: int| 0 <= i < j < r.len() implies key_lt(
            #[trigger] r[i].0,
            #[trigger] r[j].0,
        ) by {
            assert(r[j] == e[j - 1]);
            if i > 0 {
                assert(r[i] == e[i - 1]);
            } else if j > 1 {
                assert(key_lt(e[0].0, e[j - 1].0));
                lemma_key_lt_transitive(k, e[0].0, e[j - 1].0);
            }
        }
    } else {
        let t = e.drop_first();
        lemma_key_lt_total(k, e[0].0);
        lemma_insert_sorted(t, k, v);
        lemma_insert_members(t, k, v);
        let rt = obj_insert(t, k, v);
        assert forall|i: int, j: int| 0 <= i < j < r.len() implies key_lt(
            #[trigger] r[i].0,
            #[trigger] r[j].0,
        ) by {
            assert(r[j] == rt[j - 1]);
            if i > 0 {
                assert(r[i] == rt[i - 1]);
            } else {
                assert(r[0] == e[0]);
                if rt[j - 1] != (k, v) {
                    let m = choose|m: int| 0 <= m < t.len() && t[m] == rt[j - 1];
                    assert(e[m + 1] == t[m]);
                }
            }
        }
    }
}

/// Setting a member to the value it already holds changes nothing.
pub proof fn lemma_insert_present(e: Seq<(Seq<char>, JsonV)>, k: Seq<char>, v: JsonV)
    requires
        sorted_keys(e),
        obj_get(e, k) == Some(v),
    ensures
        obj_insert(e, k, v) == e,
    decreases e.len(),
{
    if e[0].0 == k {
        assert(obj_insert(e, k, v) =~= e);
    } else if key_lt(k, e[0].0) {
        lemma_get_absent(e, k);
    } else {
        let t = e.drop_first();
        assert(sorted_keys(t)) by {
            assert forall|i: int, j: int| 0 <= i < j < t.len() implies key_lt(
                #[trigger] t[i].0,
                #[trigger] t[j].0,
            ) by {
                assert(t[i] == e[i + 1] && t[j] == e[j + 1]);
            }
        }
        lemma_insert_present(t, k, v);
        assert(obj_insert(e, k, v) =~= e);
    }
}

/// A key below the first key of a sorted object is absent from it.
pub proof fn lemma_get_absent(e: Seq<(Seq<char>, JsonV)>, k: Seq<char>)
    requires
        sorted_keys(e),
        e.len() > 0,
        key_lt(k, e[0].0),
    ensures
        obj_get(e, k) == None::<JsonV>,
        obj_remove(e, k) == e,
    decreases e.len(),
{
    lemma_key_lt_irreflexive(k);
    assert(e[0].0 != k);
    let t = e.drop_first();
    if t.len() > 0 {
        assert(t[0] == e[1]);
        assert(key_lt(e[0].0, e[1].0));
        lemma_key_lt_transitive(k, e[0].0, e[1].0);
        assert(sorted_keys(t)) by {
            assert forall|i: int, j: int| 0 <= i < j < t.len() implies key_lt(
                #[trigger] t[i].0,
                #[trigger] t[j].0,
            ) by {
                assert(t[i] == e[i + 1] && t[j] == e[j + 1]);
            }
        }
        lemma_get_absent(t, k);
    }
    assert(obj_get(e, k) == obj_get(t, k));
    assert(obj_remove(e, k) == seq![e[0]] + obj_remove(t, k));
    assert(obj_remove(e, k) =~= e);
}


pub proof fn lemma_sorted_tail(e: Seq<(Seq<char>, JsonV)>)
    requires
        sorted_keys(e),
        e.len() > 0,
    ensures
        sorted_keys(e.drop_first()),
{
    let t = e.drop_first();
    assert forall|i: int, j: int| 0 <= i < j < t.len() implies key_lt(
        #[trigger] t[i].0,
        #[trigger] t[j].0,
    ) by {
        assert(t[i] == e[i + 1] && t[j] == e[j + 1]);
    }
}

/// Members before position `i` whose keys are below `k` play no part.
pub proof fn lemma_prefix_below(e: Seq<(Seq<char>, JsonV)>, k: Seq<char>, v: JsonV, i: int)
    requires
        0 <= i <= e.len(),
        forall|j: int| 0 <= j < i ==> key_lt(#[trigger] e[j].0, k),
    ensures
        obj_get(e, k) == obj_get(e.skip(i), k),
        obj_insert(e, k, v) == e.take(i) + obj_insert(e.skip(i), k, v),
        obj_remove(e, k) == e.take(i) + obj_remove(e.skip(i), k),
    decreases i,
{
    if i == 0 {
        assert(e.skip(0) =~= e);
        assert(e.take(0) + obj_insert(e, k, v) =~= obj_insert(e, k, v));
        assert(e.take(0) + obj_remove(e, k) =~= obj_remove(e, k));
    } else {
        let t = e.drop_first();
        assert(key_lt(e[0].0, k));
        lemma_key_lt_irreflexive(k);
        lemma_key_lt_asymmetric(e[0].0, k);
        assert(e[0].0 != k);
        assert forall|j: int| 0 <= j < i - 1 implies key_lt(#[trigger] t[j].0, k) by {
            assert(t[j] == e[j + 1]);
        }
        lemma_prefix_below(t, k, v, i - 1);
        assert(t.skip(i - 1) =~= e.skip(i));
        assert(e.take(i) =~= seq![e[0]] + t.take(i - 1));
        assert(obj_insert(e, k, v) =~= e.take(i) + obj_insert(e.skip(i), k, v));
        assert(obj_remove(e, k) =~= e.take(i) + obj_remove(e.skip(i), k));
    }
}

/// A member `(k, x)` of `e` is what `obj_get` finds once the members below `k`
/// are passed.
pub proof fn lemma_found_at(e: Seq<(Seq<char>, JsonV)>, k: Seq<char>, v: JsonV, i: int)
    requires
        0 <= i < e.len(),
        e[i].0 == k,
        forall|j: int| 0 <= j < i ==> key_lt(#[trigger] e[j].0, k),
    ensures
        obj_get(e, k) == Some(e[i].1),
        obj_insert(e, k, v) == e.update(i, (k, v)),
        obj_remove(e, k) == e.remove(i),
{
    lemma_prefix_below(e, k, v, i);
    let s = e.skip(i);
    assert(s[0] == e[i]);
    assert(obj_insert(s, k, v) =~= seq![(k, v)] + s.drop_first());
    assert(e.update(i, (k, v)) =~= e.take(i) + (seq![(k, v)] + s.drop_first()));
    assert(e.remove(i) =~= e.take(i) + s.drop_first());
}

/// In a sorted object, a key that is not found at the first position whose key
/// is not below it is absent.
pub proof fn lemma_absent_at(e: Seq<(Seq<char>, JsonV)>, k: Seq<char>, v: JsonV, i: int)
    requires
        sorted_keys(e),
        0 <= i <= e.len(),
        i < e.len() ==> key_lt(k, e[i].0),
        forall|j: int| 0 <= j < i ==> key_lt(#[trigger] e[j].0, k),
    ensures
        obj_get(e, k) == None::<JsonV>,
        obj_insert(e, k, v) == e.insert(i, (k, v)),
        obj_remove(e, k) == e,
{
    lemma_prefix_below(e, k, v, i);
    let s = e.skip(i);
    if i < e.len() {
        assert(s[0] == e[i]);
        assert(sorted_keys(s)) by {
            assert forall|a: int, b: int| 0 <= a < b < s.len() implies key_lt(
                #[trigger] s[a].0,
                #[trigger] s[b].0,
            ) by {
                assert(s[a] == e[a + i] && s[b] == e[b + i]);
            }
        }
        lemma_get_absent(s, k);
        assert(obj_insert(s, k, v) =~= seq![(k, v)] + s);
    } else {
        assert(obj_insert(s, k, v) =~= seq![(k, v)]);
    }
    assert(e.insert(i, (k, v)) =~= e.take(i) + obj_insert(s, k, v));
    assert(e =~= e.take(i) + s);
}

/// The value found for a key is one of the members' values.
pub proof fn lemma_get_member(e: Seq<(Seq<char>, JsonV)>, k: Seq<char>)
    ensures
        obj_get(e, k) matches Some(x) ==> exists|j: int| 0 <= j < e.len() && e[j] == (k, x),
    decreases e.len(),
{
    if e.len() > 0 && e[0].0 != k {
        let t = e.drop_first();
        lemma_get_member(t, k);
        if let Some(x) = obj_get(t, k) {
            let j = choose|j: int| 0 <= j < t.len() && t[j] == (k, x);
            assert(e[j + 1] == (k, x));
        }
    } else if e.len() > 0 {
        assert(e[0] == (k, e[0].1));
    }
}

/// Setting a member after removing it is setting it.
pub proof fn lemma_insert_after_remove(e: Seq<(Seq<char>, JsonV)>, k: Seq<char>, v: JsonV)
    requires
        sorted_keys(e),
    ensures
        obj_insert(obj_remove(e, k), k, v) == obj_insert(e, k, v),
    decreases e.len(),
{
    if e.len() == 0 {
    } else if e[0].0 == k {
        let t = e.drop_first();
        lemma_sorted_tail(e);
        if t.len() > 0 {
            assert(t[0] == e[1]);
            assert(key_lt(k, t[0].0));
            lemma_key_lt_irreflexive(k);
            assert(obj_insert(t, k, v) =~= seq![(k, v)] + t);
        }
    } else if key_lt(k, e[0].0) {
        lemma_get_absent(e, k);
    } else {
        let t = e.drop_first();
        lemma_sorted_tail(e);
        lemma_insert_after_remove(t, k, v);
        let r = obj_remove(e, k);
        assert(r == seq![e[0]] + obj_remove(t, k));
        assert(r[0] == e[0]);
        assert(r.drop_first() =~= obj_remove(t, k));
    }
}

pub proof fn lemma_remove_members(e: Seq<(Seq<char>, JsonV)>, k: Seq<char>)
    ensures
        forall|i: int|
            0 <= i < obj_remove(e, k).len() ==> exists|j: int|
                0 <= j < e.len() && e[j] == #[trigger] obj_remove(e, k)[i],
    decreases e.len(),
{
    let r = obj_remove(e, k);
    if e.len() == 0 {
    } else if e[0].0 == k {
        assert forall|i: int| 0 <= i < r.len() implies exists|j: int|
            0 <= j < e.len() && e[j] == #[trigger] r[i] by {
            assert(e[i + 1] == r[i]);
        }
    } else {
        let t = e.drop_first();
        lemma_remove_members(t, k);
        let rt = obj_remove(t, k);
        assert(r == seq![e[0]] + rt);
        assert forall|i: int| 0 <= i < r.len() implies exists|j: int|
            0 <= j < e.len() && e[j] == #[trigger] r[i] by {
            if i == 0 {
                assert(e[0] == r[0]);
            } else {
                assert(r[i] == rt[i - 1]);
                let j = choose|j: int| 0 <= j < t.len() && t[j] == rt[i - 1];
                assert(e[j + 1] == r[i]);
            }
        }
    }
}

pub proof fn lemma_remove_sorted(e: Seq<(Seq<char>, JsonV)>, k: Seq<char>)
    requires
        sorted_keys(e),
    ensures
        sorted_keys(obj_remove(e, k)),
    decreases e.len(),
{
    if e.len() > 0 {
        let t = e.drop_first();
        lemma_sorted_tail(e);
        if e[0].0 != k {
            lemma_remove_sorted(t, k);
            lemma_remove_members(t, k);
            let rt = obj_remove(t, k);
            let r = obj_remove(e, k);
            assert(r == seq![e[0]] + rt);
            assert forall|i: int, j: int| 0 <= i < j < r.len() implies key_lt(
                #[trigger] r[i].0,
                #[trigger] r[j].0,
            ) by {
                assert(r[j] == rt[j - 1]);
                if i == 0 {
                    let b = choose|b: int| 0 <= b < t.len() && t[b] == rt[j - 1];
                    assert(e[b + 1] == r[j]);
                    assert(r[0] == e[0]);
                } else {
                    assert(r[i] == rt[i - 1]);
                }
            }
        }
    }
}

/// Setting a member keeps an object well formed.
pub proof fn lemma_set_wf(o: JsonV, k: Seq<char>, v: JsonV)
    requires
        o.wf(),
        o is Object,
        v.wf(),
    ensures
        o.set(k, v).wf(),
        o.set(k, v) is Object,
{
    let e = o->Object_0;
    lemma_insert_sorted(e, k, v);
    lemma_insert_members(e, k, v);
    let r = obj_insert(e, k, v);
    assert forall|i: int| 0 <= i < r.len() implies (#[trigger] r[i]).1.wf() by {
        if r[i] != (k, v) {
            let j = choose|j: int| 0 <= j < e.len() && e[j] == r[i];
            assert(e[j].1.wf());
        }
    }
}

/// Removing a member keeps an object well formed.
pub proof fn lemma_remove_wf(o: JsonV, k: Seq<char>)
    requires
        o.wf(),
        o is Object,
    ensures
        JsonV::Object(obj_remove(o->Object_0, k)).wf(),
{
    let e = o->Object_0;
    lemma_remove_members(e, k);
    lemma_remove_sorted(e, k);
    let r = obj_remove(e, k);
    assert forall|i: int| 0 <= i < r.len() implies (#[trigger] r[i]).1.wf() by {
        let j = choose|j: int| 0 <= j < e.len() && e[j] == r[i];
        assert(e[j].1.wf());
    }
}

/// A member of a well-formed object is well formed.
pub proof fn lemma_get_wf(o: JsonV, k: Seq<char>)
    requires
        o.wf(),
    ensures
        o.get(k) matches Some(x) ==> x.wf(),
        o.get_or_empty(k).wf(),
{
    if let JsonV::Object(e) = o {
        lemma_get_member(e, k);
        if let Some(x) = obj_get(e, k) {
            let j = choose|j: int| 0 <= j < e.len() && e[j] == (k, x);
            assert(e[j].1.wf());
        }
    }
}


// ---------------------------------------------------------------------------
// Executable operations
/// The characters of a string, in order.
pub fn chars_of(s: &str) -> (v: Vec<char>)
    ensures
        v@ == s@,
{
    let mut v: Vec<char> = Vec::new();
    for c in it: s.chars()
        invariant
            v@ == it.seq().take(it.index() as int),
            it.seq() == s@,
    {
        v.push(c);
    }
    v
}

/// Whether key `a` orders strictly before key `b`.
pub fn key_less(a: &str, b: &str) -> (r: bool)
    ensures
        r == key_lt(a@, b@),
{
    let x = chars_of(a);
    let y = chars_of(b);
    let mut i: usize = 0;
    while i < x.len() && i < y.len()
        invariant
            x@ == a@,
            y@ == b@,
            i <= x.len(),
            i <= y.len(),
            x@.take(i as int) == y@.take(i as int),
        decreases x.len() - i,
    {
        if x[i] != y[i] {
            let r = x[i] < y[i];
            proof {
                lemma_key_lt_skip(x@, y@, i as int);
                assert(x@.skip(i as int)[0] == x@[i as int]);
                assert(y@.skip(i as int)[0] == y@[i as int]);
            }
            return r;
        }
        assert(x@.take(i + 1) =~= x@.take(i as int).push(x@[i as int]));
        assert(y@.take(i + 1) =~= y@.take(i as int).push(y@[i as int]));
        i += 1;
    }
    proof {
        lemma_key_lt_skip(x@, y@, i as int);
    }
    i < y.len()
}

/// Locates key `key` among the members `entries` of a sorted object: the
/// position of the first member whose key is not below `key`, and whether
/// that member has the key.
pub fn find_member(entries: &Vec<(String, Json)>, key: &str) -> (r: (usize, bool))
    ensures
        r.0 <= entries@.len(),
        forall|j: int| 0 <= j < r.0 ==> key_lt(#[trigger] entries@[j].0@, key@),
        r.1 ==> r.0 < entries@.len() && entries@[r.0 as int].0@ == key@,
        !r.1 ==> r.0 == entries@.len() || key_lt(key@, entries@[r.0 as int].0@),
{
    let mut i: usize = 0;
    while i < entries.len()
        invariant
            i <= entries@.len(),
            forall|j: int| 0 <= j < i ==> key_lt(#[trigger] entries@[j].0@, key@),
        decreases entries.len() - i,
    {
        let k = entries[i].0.as_str();
        if !key_less(k, key) {
            let greater = key_less(key, k);
            proof {
                lemma_key_lt_total(k@, key@);
            }
            return (i, !greater);
        }
        i += 1;
    }
    (i, false)
}

impl Json {
    /// An object without members.
    pub fn new_object() -> (r: Json)
        ensures
            r@ == JsonV::Object(seq![]),
            r@.wf(),
    {
        let v: Vec<(String, Json)> = Vec::new();
        proof {
            lemma_object_view(v);
            assert(members_view(v@) =~= Seq::<(Seq<char>, JsonV)>::empty());
        }
        Json::Object(v)
    }

    /// An array without elements.
    pub fn new_array() -> (r: Json)
        ensures
            r@ == JsonV::Array(seq![]),
            r@.wf(),
    {
        let v: Vec<Json> = Vec::new();
        proof {
            lemma_array_view(v);
            assert(elements_view(v@) =~= Seq::<JsonV>::empty());
        }
        Json::Array(v)
    }

    /// Appends an element to an array.
    pub fn push(&mut self, value: Json)
        requires
            old(self)@.wf(),
            old(self)@ is Array,
            value@.wf(),
        ensures
            final(self)@ == JsonV::Array(old(self)@->Array_0.push(value@)),
            final(self)@.wf(),
    {
        let ghost a = self@;
        let ghost v = value@;
        proof {
            lemma_array_update_wf(a, 0, v, true);
        }
        let mut me = Json::Null;
        std::mem::swap(&mut me, self);
        if let Json::Array(mut items) = me {
            proof {
                lemma_array_view(items);
            }
            let ghost before = items@;
            items.push(value);
            proof {
                lemma_array_view(items);
                assert(elements_view(items@) =~= elements_view(before).push(v));
            }
            *self = Json::Array(items);
        }
    }

    /// A string value.
    pub fn string(s: &str) -> (r: Json)
        ensures
            r@ == JsonV::Str(s@),
            r@.wf(),
    {
        Json::Str(s.to_owned())
    }

    pub fn is_object(&self) -> (r: bool)
        ensures
            r == (self@ is Object),
    {
        match self {
            Json::Object(_) => true,
            _ => false,
        }
    }

    pub fn is_array(&self) -> (r: bool)
        ensures
            r == (self@ is Array),
    {
        match self {
            Json::Array(_) => true,
            _ => false,
        }
    }

    /// Member `key` of an object; `None` where it is missing or `self` is
    /// not an object.
    pub fn member<'a>(&'a self, key: &str) -> (r: Option<&'a Json>)
        requires
            self@.wf(),
        ensures
            r matches Some(x) ==> self@.get(key@) == Some(x@),
            r is None ==> self@.get(key@) is None,
    {
        match self {
            Json::Object(entries) => {
                let (i, found) = find_member(entries, key);
                proof {
                    lemma_object_view(*entries);
                    let e = members_view(entries@);
                    assert forall|j: int| 0 <= j < i implies key_lt(#[trigger] e[j].0, key@) by {
                        assert(e[j].0 == entries@[j].0@);
                    }
                    let ghost dummy = JsonV::Null;
                    if found {
                        lemma_found_at(e, key@, dummy, i as int);
                    } else {
                        if i < e.len() {
                            assert(e[i as int].0 == entries@[i as int].0@);
                        }
                        lemma_absent_at(e, key@, dummy, i as int);
                    }
                }
                if found {
                    Some(&entries[i].1)
                } else {
                    None
                }
            },
            _ => None,
        }
    }

    /// Sets member `key` of an object to `value`.
    pub fn set(&mut self, key: &str, value: Json)
        requires
            old(self)@.wf(),
            old(self)@ is Object,
            value@.wf(),
        ensures
            final(self)@ == old(self)@.set(key@, value@),
            final(self)@.wf(),
    {
        let ghost old_view = self@;
        proof {
            lemma_set_wf(old_view, key@, value@);
        }
        let mut me = Json::Null;
        std::mem::swap(&mut me, self);
        if let Json::Object(mut entries) = me {
            let (i, found) = find_member(&entries, key);
            let ghost vv = value@;
            proof {
                lemma_object_view(entries);
                let e = members_view(entries@);
                assert forall|j: int| 0 <= j < i implies key_lt(#[trigger] e[j].0, key@) by {
                    assert(e[j].0 == entries@[j].0@);
                }
                if found {
                    lemma_found_at(e, key@, vv, i as int);
                } else {
                    if i < e.len() {
                        assert(e[i as int].0 == entries@[i as int].0@);
                    }
                    lemma_absent_at(e, key@, vv, i as int);
                }
            }
            let ghost before = entries@;
            let k = key.to_owned();
            if found {
                entries.set(i, (k, value));
                proof {
                    assert(members_view(entries@) =~= members_view(before).update(
                        i as int,
                        (key@, vv),
                    ));
                }
            } else {
                entries.insert(i, (k, value));
                proof {
                    assert(members_view(entries@) =~= members_view(before).insert(
                        i as int,
                        (key@, vv),
                    ));
                }
            }
            proof {
                lemma_object_view(entries);
            }
            *self = Json::Object(entries);
        }
    }

    /// Removes member `key` of an object and hands it back.
    pub fn take(&mut self, key: &str) -> (r: Option<Json>)
        requires
            old(self)@.wf(),
            old(self)@ is Object,
        ensures
            final(self)@ == JsonV::Object(obj_remove(old(self)@->Object_0, key@)),
            final(self)@.wf(),
            r matches Some(x) ==> old(self)@.get(key@) == Some(x@),
            r is None ==> old(self)@.get(key@) is None,
    {
        let ghost old_view = self@;
        proof {
            lemma_remove_wf(old_view, key@);
        }
        let mut me = Json::Null;
        std::mem::swap(&mut me, self);
        if let Json::Object(mut entries) = me {
            let (i, found) = find_member(&entries, key);
            proof {
                lemma_object_view(entries);
                let e = members_view(entries@);
                assert forall|j: int| 0 <= j < i implies key_lt(#[trigger] e[j].0, key@) by {
                    assert(e[j].0 == entries@[j].0@);
                }
                let ghost dummy = JsonV::Null;
                if found {
                    lemma_found_at(e, key@, dummy, i as int);
                } else {
                    if i < e.len() {
                        assert(e[i as int].0 == entries@[i as int].0@);
                    }
                    lemma_absent_at(e, key@, dummy, i as int);
                }
            }
            let ghost before = entries@;
            if found {
                let (_k, v) = entries.remove(i);
                proof {
                    assert(members_view(entries@) =~= members_view(before).remove(i as int));
                    lemma_object_view(entries);
                }
                *self = Json::Object(entries);
                Some(v)
            } else {
                *self = Json::Object(entries);
                None
            }
        } else {
            None
        }
    }
}

/// Whether two texts are equal.
pub fn text_eq(a: &str, b: &str) -> (r: bool)
    ensures
        r == (a@ == b@),
{
    let x = crate::json::chars_of(a);
    let y = crate::json::chars_of(b);
    if x.len() != y.len() {
        return false;
    }
    let mut i: usize = 0;
    while i < x.len()
        invariant
            x@ == a@,
            y@ == b@,
            x.len() == y.len(),
            i <= x.len(),
            forall|j: int| 0 <= j < i ==> x@[j] == y@[j],
        decreases x.len() - i,
    {
        if x[i] != y[i] {
            return false;
        }
        i += 1;
    }
    assert(x@ =~= y@);
    true
}


/// Reading a member after setting one.
pub proof fn lemma_set_get(o: JsonV, k: Seq<char>, v: JsonV, k2: Seq<char>)
    requires
        o is Object,
    ensures
        o.set(k, v) is Object,
        o.set(k, v).get(k2) == if k2 == k {
            Some(v)
        } else {
            o.get(k2)
        },
{
    lemma_get_insert(o->Object_0, k, v, k2);
}


/// Whether two documents are equal.
#[verifier::loop_isolation(false)]
pub fn json_equal(a: &Json, b: &Json) -> (r: bool)
    ensures
        r == (a@ == b@),
    decreases a,
{
    match (a, b) {
        (Json::Null, Json::Null) => true,
        (Json::Bool(x), Json::Bool(y)) => *x == *y,
        (Json::Number(x), Json::Number(y)) => *x == *y,
        (Json::Str(x), Json::Str(y)) => *x == *y,
        (Json::Array(v), Json::Array(w)) => {
            proof {
                lemma_array_view(*v);
                lemma_array_view(*w);
            }
            if v.len() != w.len() {
                assert(elements_view(v@).len() != elements_view(w@).len());
                return false;
            }
            let mut i: usize = 0;
            while i < v.len()
                invariant
                    v.len() == w.len(),
                    i <= v.len(),
                    forall|j: int| 0 <= j < i ==> v@[j]@ == w@[j]@,
                decreases v.len() - i,
            {
                proof {
                    assert(decreases_to!(*v => v@));
                    assert(decreases_to!(v@ => v@[i as int]));
                }
                if !json_equal(&v[i], &w[i]) {
                    assert(elements_view(v@)[i as int] != elements_view(w@)[i as int]);
                    return false;
                }
                i += 1;
            }
            assert(elements_view(v@) =~= elements_view(w@));
            true
        },
        (Json::Object(v), Json::Object(w)) => {
            proof {
                lemma_object_view(*v);
                lemma_object_view(*w);
            }
            if v.len() != w.len() {
                assert(members_view(v@).len() != members_view(w@).len());
                return false;
            }
            let mut i: usize = 0;
            while i < v.len()
                invariant
                    v.len() == w.len(),
                    i <= v.len(),
                    forall|j: int| 0 <= j < i ==> v@[j].0@ == w@[j].0@ && v@[j].1@ == w@[j].1@,
                decreases v.len() - i,
            {
                proof {
                    assert(decreases_to!(*v => v@));
                    assert(decreases_to!(v@ => v@[i as int]));
                    assert(decreases_to!(v@[i as int] => v@[i as int].1));
                }
                if v[i].0 != w[i].0 || !json_equal(&v[i].1, &w[i].1) {
                    assert(members_view(v@)[i as int] != members_view(w@)[i as int]);
                    return false;
                }
                i += 1;
            }
            assert(members_view(v@) =~= members_view(w@));
            true
        },
        _ => false,
    }
}


/// A copy of a document.
#[verifier::loop_isolation(false)]
pub fn duplicate(a: &Json) -> (r: Json)
    ensures
        r@ == a@,
    decreases a,
{
    match a {
        Json::Null => Json::Null,
        Json::Bool(x) => Json::Bool(*x),
        Json::Number(x) => Json::Number(x.clone()),
        Json::Str(x) => Json::Str(x.clone()),
        Json::Array(v) => {
            proof {
                lemma_array_view(*v);
            }
            let mut w: Vec<Json> = Vec::new();
            let mut i: usize = 0;
            while i < v.len()
                invariant
                    i <= v.len(),
                    w.len() == i,
                    forall|j: int| 0 <= j < i ==> w@[j]@ == v@[j]@,
                decreases v.len() - i,
            {
                proof {
                    assert(decreases_to!(*v => v@));
                    assert(decreases_to!(v@ => v@[i as int]));
                }
                let x = duplicate(&v[i]);
                w.push(x);
                i += 1;
            }
            proof {
                lemma_array_view(w);
            }
            assert(elements_view(w@) =~= elements_view(v@));
            Json::Array(w)
        },
        Json::Object(v) => {
            proof {
                lemma_object_view(*v);
            }
            let mut w: Vec<(String, Json)> = Vec::new();
            let mut i: usize = 0;
            while i < v.len()
                invariant
                    i <= v.len(),
                    w.len() == i,
                    forall|j: int| 0 <= j < i ==> w@[j].0@ == v@[j].0@ && w@[j].1@ == v@[j].1@,
                decreases v.len() - i,
            {
                proof {
                    assert(decreases_to!(*v => v@));
                    assert(decreases_to!(v@ => v@[i as int]));
                    assert(decreases_to!(v@[i as int] => v@[i as int].1));
                }
                let x = duplicate(&v[i].1);
                let k = v[i].0.clone();
                w.push((k, x));
                i += 1;
            }
            proof {
                lemma_object_view(w);
            }
            assert(members_view(w@) =~= members_view(v@));
            Json::Object(w)
        },
    }
}


/// Replacing or appending a well-formed element keeps an array well formed.
pub proof fn lemma_array_update_wf(a: JsonV, j: int, x: JsonV, push: bool)
    requires
        a is Array,
        a.wf(),
        x.wf(),
        push || 0 <= j < a->Array_0.len(),
    ensures
        JsonV::Array(
            if push {
                a->Array_0.push(x)
            } else {
                a->Array_0.update(j, x)
            },
        ).wf(),
{
    let ms = a->Array_0;
    assert(forall|k: int| 0 <= k < ms.len() ==> (#[trigger] ms[k]).wf());
    if push {
        let r = ms.push(x);
        assert forall|i: int| 0 <= i < r.len() implies (#[trigger] r[i]).wf() by {
            if i < ms.len() {
                assert(r[i] == ms[i]);
                assert(ms[i].wf());
            } else {
                assert(r[i] == x);
            }
        }
        assert(JsonV::Array(r).wf());
    } else {
        let r = ms.update(j, x);
        assert forall|i: int| 0 <= i < r.len() implies (#[trigger] r[i]).wf() by {
            if i != j {
                assert(r[i] == ms[i]);
                assert(ms[i].wf());
            }
        }
        assert(JsonV::Array(r).wf());
    }
}


// ---------------------------------------------------------------------------
// Decimal numbers
pub open spec fn is_digit(c: char) -> bool {
    48 <= (c as int) <= 57
}

/// A nonempty run of decimal digits.
pub open spec fn is_digits(s: Seq<char>) -> bool {
    s.len() > 0 && forall|i: int| 0 <= i < s.len() ==> is_digit(#[trigger] s[i])
}

/// The value of a run of decimal digits.
pub open spec fn digits_value(s: Seq<char>) -> nat
    decreases s.len(),
{
    if s.len() == 0 {
        0
    } else {
        (digits_value(s.drop_last()) * 10 + ((s.last() as int) - 48)) as nat
    }
}

/// The JSON number text that deserializes to a `u32`, and its value.
pub open spec fn u32_of(x: Option<JsonV>) -> Option<u32> {
    match x {
        Some(JsonV::Number(t)) => if is_digits(t) && digits_value(t) <= u32::MAX {
            Some(digits_value(t) as u32)
        } else {
            None
        },
        _ => None,
    }
}

/// The text of a JSON string.
pub open spec fn str_of(x: Option<JsonV>) -> Option<Seq<char>> {
    match x {
        Some(JsonV::Str(t)) => Some(t),
        _ => None,
    }
}

pub proof fn lemma_digits_prefix_grows(s: Seq<char>, i: int, j: int)
    requires
        0 <= i <= j <= s.len(),
        forall|k: int| 0 <= k < s.len() ==> is_digit(#[trigger] s[k]),
    ensures
        digits_value(s.take(i)) <= digits_value(s.take(j)),
    decreases j - i,
{
    if i < j {
        lemma_digits_prefix_grows(s, i, j - 1);
        assert(s.take(j).drop_last() =~= s.take(j - 1));
        assert(s.take(j).last() == s[j - 1]);
    }
}

/// The `u32` that a number's text denotes, where it is a run of digits
/// within range.
pub fn parse_u32(t: &str) -> (r: Option<u32>)
    ensures
        r == u32_of(Some(JsonV::Number(t@))),
{
    let chars = chars_of(t);
    if chars.len() == 0 {
        return None;
    }
    let mut acc: u64 = 0;
    let mut i: usize = 0;
    while i < chars.len()
        invariant
            chars@ == t@,
            i <= chars.len(),
            forall|k: int| 0 <= k < i ==> is_digit(#[trigger] chars@[k]),
            acc == digits_value(chars@.take(i as int)),
            acc <= u32::MAX,
        decreases chars.len() - i,
    {
        let c = chars[i];
        if !('0' <= c && c <= '9') {
            assert(!is_digit(chars@[i as int]));
            return None;
        }
        let d = (c as u32 - '0' as u32) as u64;
        proof {
            assert(chars@.take(i + 1).drop_last() =~= chars@.take(i as int));
            assert(chars@.take(i + 1).last() == c);
        }
        acc = acc * 10 + d;
        if acc > 0xFFFF_FFFF {
            proof {
                if is_digits(t@) {
                    lemma_digits_prefix_grows(t@, i + 1, t@.len() as int);
                    assert(t@.take(t@.len() as int) =~= t@);
                }
            }
            return None;
        }
        i += 1;
    }
    proof {
        assert(chars@.take(chars@.len() as int) =~= chars@);
    }
    Some(acc as u32)
}

impl Json {
    /// The text of a string value.
    pub fn as_text(&self) -> (r: Option<&String>)
        ensures
            r matches Some(s) ==> self@ == JsonV::Str(s@),
            r is None ==> !(self@ is Str),
    {
        match self {
            Json::Str(s) => Some(s),
            _ => None,
        }
    }

    /// The text of string member `key` of an object.
    pub fn text_member(&self, key: &str) -> (r: Option<String>)
        requires
            self@.wf(),
        ensures
            r matches Some(s) ==> str_of(self@.get(key@)) == Some(s@),
            r is None ==> str_of(self@.get(key@)) is None,
    {
        match self.member(key) {
            Some(x) => match x.as_text() {
                Some(s) => Some(s.clone()),
                None => None,
            },
            None => None,
        }
    }

    /// The `u32` that member `key` of an object denotes.
    pub fn u32_member(&self, key: &str) -> (r: Option<u32>)
        requires
            self@.wf(),
        ensures
            r == u32_of(self@.get(key@)),
    {
        match self.member(key) {
            Some(x) => match x {
                Json::Number(t) => parse_u32(t.as_str()),
                _ => None,
            },
            None => None,
        }
    }

    /// The number of members of an object or elements of an array.
    pub fn size(&self) -> (r: usize)
        ensures
            self@ matches JsonV::Object(e) ==> r == e.len(),
            self@ matches JsonV::Array(a) ==> r == a.len(),
    {
        match self {
            Json::Object(v) => {
                proof {
                    lemma_object_view(*v);
                }
                v.len()
            },
            Json::Array(v) => {
                proof {
                    lemma_array_view(*v);
                }
                v.len()
            },
            _ => 0,
        }
    }

    /// Element `i` of an array.
    pub fn element<'a>(&'a self, i: usize) -> (r: Option<&'a Json>)
        ensures
            r matches Some(x) ==> self@ is Array && i < self@->Array_0.len() && self@->Array_0[i as int]
                == x@,
            r is None ==> !(self@ is Array && i < self@->Array_0.len()),
    {
        match self {
            Json::Array(v) => {
                proof {
                    lemma_array_view(*v);
                }
                if i < v.len() {
                    Some(&v[i])
                } else {
                    None
                }
            },
            _ => None,
        }
    }
}

} // verus!
