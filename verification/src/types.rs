//! A dynamic, recursively typed dictionary value, used to assemble the
//! capability objects and request parameters that the driver protocol
//! expects.
//!
//! [`DictType`] is the executable value; [`DictVal`] is its mathematical
//! mirror, over which every contract in this module is stated.  Inserting at
//! an existing key merges: a scalar is overwritten by the newer value, an
//! array has the newer value appended, and two objects are merged key by
//! key, recursively.
use vstd::prelude::*;

verus! {

/// The mathematical mirror of [`DictType`]: objects are association
/// sequences so that insertion order is part of the model.
pub enum DictVal {
    Int(int),
    Str(Seq<char>),
    Flag(bool),
    Arr(Seq<DictVal>),
    Obj(Seq<(Seq<char>, DictVal)>),
}

/// Entries of an object bind distinct keys.
pub open spec fn obj_keys_unique(m: Seq<(Seq<char>, DictVal)>) -> bool {
    forall|i: int, j: int|
        0 <= i < j < m.len() ==> (#[trigger] m[i]).0 != (#[trigger] m[j]).0
}

/// A value is well formed when every object in it binds distinct keys.
pub open spec fn val_wf(v: DictVal) -> bool
    decreases v,
{
    match v {
        DictVal::Arr(items) => forall|i: int|
            0 <= i < items.len() ==> val_wf(#[trigger] items[i]),
        DictVal::Obj(m) => obj_keys_unique(m) && forall|i: int|
            0 <= i < m.len() ==> val_wf((#[trigger] m[i]).1),
        _ => true,
    }
}

/// All entries of an object are well formed and bind distinct keys.
pub open spec fn entries_wf(m: Seq<(Seq<char>, DictVal)>) -> bool {
    val_wf(DictVal::Obj(m))
}

/// Whether some entry of `m` binds the key `k`.
pub open spec fn obj_has_key(m: Seq<(Seq<char>, DictVal)>, k: Seq<char>) -> bool {
    exists|i: int| 0 <= i < m.len() && (#[trigger] m[i]).0 == k
}

/// The index of the entry binding `k`; meaningful when the keys are unique
/// and `k` is bound.
pub open spec fn obj_index_of(m: Seq<(Seq<char>, DictVal)>, k: Seq<char>) -> int {
    choose|i: int| 0 <= i < m.len() && (#[trigger] m[i]).0 == k
}

/// The value bound to `k`.
pub open spec fn obj_val(m: Seq<(Seq<char>, DictVal)>, k: Seq<char>) -> DictVal {
    m[obj_index_of(m, k)].1
}

/// Binding `k` to `v` in an object: a fresh key is appended, an existing
/// binding is merged with `v` by [`val_merge`].
pub open spec fn obj_insert1(
    m: Seq<(Seq<char>, DictVal)>,
    k: Seq<char>,
    v: DictVal,
) -> Seq<(Seq<char>, DictVal)>
    decreases v, 1int,
{
    if !obj_has_key(m, k) {
        m.push((k, v))
    } else {
        let i = obj_index_of(m, k);
        m.update(i, (m[i].0, val_merge(m[i].1, v)))
    }
}

/// How a newer value lands on an older one under the same key: append to an
/// array, merge object into object, and otherwise let the newer value win.
pub open spec fn val_merge(old_v: DictVal, new_v: DictVal) -> DictVal
    decreases new_v, 0int,
{
    match old_v {
        DictVal::Arr(items) => DictVal::Arr(items.push(new_v)),
        DictVal::Obj(om) => match new_v {
            DictVal::Obj(nm) => DictVal::Obj(obj_merge(om, nm)),
            _ => new_v,
        },
        _ => new_v,
    }
}

/// Binding every entry of `adds` in `base`, in order, by [`obj_insert1`].
pub open spec fn obj_merge(
    base: Seq<(Seq<char>, DictVal)>,
    adds: Seq<(Seq<char>, DictVal)>,
) -> Seq<(Seq<char>, DictVal)>
    decreases adds, 2int,
{
    if adds.len() == 0 {
        base
    } else {
        obj_merge(obj_insert1(base, adds[0].0, adds[0].1), adds.drop_first())
    }
}

/// The executable dictionary value.
#[derive(Debug)]
pub enum DictType {
    Number(i32),
    Str(String),
    Bool(bool),
    Arr(Vec<DictType>),
    Obj(Vec<(String, DictType)>),
}

/// The mathematical value an executable one stands for.
pub open spec fn dict_view(d: DictType) -> DictVal
    decreases d, 0int,
{
    match d {
        DictType::Number(n) => DictVal::Int(n as int),
        DictType::Str(s) => DictVal::Str(s@),
        DictType::Bool(b) => DictVal::Flag(b),
        DictType::Arr(items) => DictVal::Arr(arr_view(items@)),
        DictType::Obj(entries) => DictVal::Obj(entries_view(entries@)),
    }
}

/// The mathematical values of a sequence of executable ones.
pub open spec fn arr_view(items: Seq<DictType>) -> Seq<DictVal>
    decreases items, 1int,
{
    if items.len() == 0 {
        Seq::empty()
    } else {
        seq![dict_view(items[0])] + arr_view(items.drop_first())
    }
}

/// The mathematical entries of a sequence of executable bindings.
pub open spec fn entries_view(s: Seq<(String, DictType)>) -> Seq<(Seq<char>, DictVal)>
    decreases s, 1int,
{
    if s.len() == 0 {
        Seq::empty()
    } else {
        seq![(s[0].0@, dict_view(s[0].1))] + entries_view(s.drop_first())
    }
}

/// Pointwise reading of [`arr_view`].
pub proof fn lemma_arr_view(items: Seq<DictType>)
    ensures
        arr_view(items).len() == items.len(),
        forall|i: int| 0 <= i < items.len() ==> arr_view(items)[i] == dict_view(#[trigger] items[i]),
    decreases items.len(),
{
    if items.len() > 0 {
        lemma_arr_view(items.drop_first());
        assert forall|i: int| 0 <= i < items.len() implies arr_view(items)[i] == dict_view(
            #[trigger] items[i],
        ) by {
            if i > 0 {
                assert(items.drop_first()[i - 1] == items[i]);
            }
        }
    }
}

/// Pointwise reading of [`entries_view`].
pub proof fn lemma_entries_view(s: Seq<(String, DictType)>)
    ensures
        entries_view(s).len() == s.len(),
        forall|i: int| 0 <= i < s.len() ==> entries_view(s)[i] == ((#[trigger] s[i]).0@, dict_view(s[i].1)),
    decreases s.len(),
{
    if s.len() > 0 {
        lemma_entries_view(s.drop_first());
        assert forall|i: int| 0 <= i < s.len() implies entries_view(s)[i] == (
            (#[trigger] s[i]).0@,
            dict_view(s[i].1),
        ) by {
            if i > 0 {
                assert(s.drop_first()[i - 1] == s[i]);
            }
        }
    }
}

impl View for DictType {
    type V = DictVal;

    open spec fn view(&self) -> DictVal {
        dict_view(*self)
    }
}

/// An index that binds `k` in an object with unique keys is the index
/// [`obj_index_of`] picks.
pub proof fn lemma_index_unique(m: Seq<(Seq<char>, DictVal)>, k: Seq<char>, i: int)
    requires
        obj_keys_unique(m),
        0 <= i < m.len(),
        m[i].0 == k,
    ensures
        obj_has_key(m, k),
        obj_index_of(m, k) == i,
{
    assert(obj_has_key(m, k));
    let j = obj_index_of(m, k);
    if i != j {
        assert(m[i].0 != m[j].0);
    }
}

/// [`obj_insert1`] keeps an object well formed, binds the inserted key, and
/// leaves every other binding alone.
pub proof fn lemma_insert1_wf(m: Seq<(Seq<char>, DictVal)>, k: Seq<char>, v: DictVal)
    requires
        entries_wf(m),
        val_wf(v),
    ensures
        entries_wf(obj_insert1(m, k, v)),
        obj_insert1(m, k, v).len() == if obj_has_key(m, k) {
            m.len()
        } else {
            m.len() + 1
        },
        forall|i: int|
            0 <= i < m.len() ==> (#[trigger] obj_insert1(m, k, v)[i]).0 == m[i].0,
    decreases v, 1int,
{
    let r = obj_insert1(m, k, v);
    if !obj_has_key(m, k) {
        assert forall|i: int| 0 <= i < r.len() implies val_wf((#[trigger] r[i]).1) by {
            if i < m.len() {
                assert(val_wf(m[i].1));
            }
        }
        assert(entries_wf(r));
    } else {
        let i = obj_index_of(m, k);
        assert(0 <= i < m.len() && m[i].0 == k);
        assert(val_wf(m[i].1));
        lemma_merge_wf(m[i].1, v);
        assert forall|a: int| 0 <= a < r.len() implies val_wf((#[trigger] r[a]).1) by {
            if a != i {
                assert(val_wf(m[a].1));
            }
        }
        assert(entries_wf(r));
    }
}

/// [`val_merge`] of two well-formed values is well formed.
pub proof fn lemma_merge_wf(old_v: DictVal, new_v: DictVal)
    requires
        val_wf(old_v),
        val_wf(new_v),
    ensures
        val_wf(val_merge(old_v, new_v)),
    decreases new_v, 0int,
{
    match old_v {
        DictVal::Arr(items) => {
            let r = items.push(new_v);
            assert forall|i: int| 0 <= i < r.len() implies val_wf(#[trigger] r[i]) by {
                if i < items.len() {
                    assert(val_wf(items[i]));
                }
            }
        }
        DictVal::Obj(om) => {
            if new_v is Obj {
                lemma_obj_merge_wf(om, new_v->Obj_0);
            }
        }
        _ => {}
    }
}

/// [`obj_merge`] of two well-formed objects is well formed.
pub proof fn lemma_obj_merge_wf(
    base: Seq<(Seq<char>, DictVal)>,
    adds: Seq<(Seq<char>, DictVal)>,
)
    requires
        entries_wf(base),
        entries_wf(adds),
    ensures
        entries_wf(obj_merge(base, adds)),
    decreases adds, 2int,
{
    if adds.len() > 0 {
        assert(val_wf(adds[0].1));
        lemma_insert1_wf(base, adds[0].0, adds[0].1);
        let rest = adds.drop_first();
        assert forall|i: int| 0 <= i < rest.len() implies val_wf((#[trigger] rest[i]).1) by {
            assert(rest[i] == adds[i + 1]);
            assert(val_wf(adds[i + 1].1));
        }
        assert forall|i: int, j: int|
            0 <= i < j < rest.len() implies (#[trigger] rest[i]).0 != (#[trigger] rest[j]).0 by {
            assert(rest[i] == adds[i + 1]);
            assert(rest[j] == adds[j + 1]);
        }
        assert(entries_wf(rest));
        lemma_obj_merge_wf(obj_insert1(base, adds[0].0, adds[0].1), rest);
    }
}

/// Dropping the first entry of a well-formed object keeps it well formed.
pub proof fn lemma_entries_wf_drop_first(m: Seq<(Seq<char>, DictVal)>)
    requires
        entries_wf(m),
        m.len() > 0,
    ensures
        entries_wf(m.drop_first()),
{
    let rest = m.drop_first();
    assert forall|i: int| 0 <= i < rest.len() implies val_wf((#[trigger] rest[i]).1) by {
        assert(rest[i] == m[i + 1]);
        assert(val_wf(m[i + 1].1));
    }
    assert forall|i: int, j: int|
        0 <= i < j < rest.len() implies (#[trigger] rest[i]).0 != (#[trigger] rest[j]).0 by {
        assert(rest[i] == m[i + 1]);
        assert(rest[j] == m[j + 1]);
    }
}

/// Viewing a pushed binding appends its mathematical pair.
pub proof fn lemma_entries_view_push(s: Seq<(String, DictType)>, e: (String, DictType))
    ensures
        entries_view(s.push(e)) == entries_view(s).push((e.0@, dict_view(e.1))),
{
    lemma_entries_view(s);
    lemma_entries_view(s.push(e));
    let lhs = entries_view(s.push(e));
    let rhs = entries_view(s).push((e.0@, dict_view(e.1)));
    assert forall|i: int| 0 <= i < lhs.len() implies lhs[i] == rhs[i] by {
        if i < s.len() {
            assert(s.push(e)[i] == s[i]);
        } else {
            assert(s.push(e)[i] == e);
        }
    }
    assert(lhs =~= rhs);
}

/// Viewing an updated binding updates its mathematical pair.
pub proof fn lemma_entries_view_update(s: Seq<(String, DictType)>, i: int, e: (String, DictType))
    requires
        0 <= i < s.len(),
    ensures
        entries_view(s.update(i, e)) == entries_view(s).update(i, (e.0@, dict_view(e.1))),
{
    lemma_entries_view(s);
    lemma_entries_view(s.update(i, e));
    let lhs = entries_view(s.update(i, e));
    let rhs = entries_view(s).update(i, (e.0@, dict_view(e.1)));
    assert forall|j: int| 0 <= j < lhs.len() implies lhs[j] == rhs[j] by {
        if j == i {
            assert(s.update(i, e)[j] == e);
        } else {
            assert(s.update(i, e)[j] == s[j]);
        }
    }
    assert(lhs =~= rhs);
}

/// Viewing all bindings but the first drops the first mathematical pair.
pub proof fn lemma_entries_view_drop_first(s: Seq<(String, DictType)>)
    requires
        s.len() > 0,
    ensures
        entries_view(s.drop_first()) == entries_view(s).drop_first(),
{
    lemma_entries_view(s);
    lemma_entries_view(s.drop_first());
    let lhs = entries_view(s.drop_first());
    let rhs = entries_view(s).drop_first();
    assert forall|i: int| 0 <= i < lhs.len() implies lhs[i] == rhs[i] by {
        assert(s.drop_first()[i] == s[i + 1]);
    }
    assert(lhs =~= rhs);
}

/// Viewing a pushed element appends its mathematical value.
pub proof fn lemma_arr_view_push(s: Seq<DictType>, e: DictType)
    ensures
        arr_view(s.push(e)) == arr_view(s).push(dict_view(e)),
{
    lemma_arr_view(s);
    lemma_arr_view(s.push(e));
    let lhs = arr_view(s.push(e));
    let rhs = arr_view(s).push(dict_view(e));
    assert forall|i: int| 0 <= i < lhs.len() implies lhs[i] == rhs[i] by {
        if i < s.len() {
            assert(s.push(e)[i] == s[i]);
        } else {
            assert(s.push(e)[i] == e);
        }
    }
    assert(lhs =~= rhs);
}

impl DictType {
    /// The index of the binding for `key`, when there is one.
    fn find_key(entries: &Vec<(String, DictType)>, key: &str) -> (r: Option<usize>)
        ensures
            match r {
                Some(i) => i < entries@.len() && entries@[i as int].0@ == key@,
                None => forall|i: int|
                    0 <= i < entries@.len() ==> (#[trigger] entries@[i]).0@ != key@,
            },
    {
        let k = key.to_owned();
        let mut i: usize = 0;
        while i < entries.len()
            invariant
                i <= entries@.len(),
                k@ == key@,
                forall|j: int| 0 <= j < i ==> (#[trigger] entries@[j]).0@ != key@,
            decreases entries@.len() - i,
        {
            if entries[i].0 == k {
                return Some(i);
            }
            i = i + 1;
        }
        None
    }

    /// Lands `new_v` on `old_v` as [`val_merge`] describes: append to an
    /// array, merge object into object, otherwise replace.
    pub fn merge_value(old_v: DictType, new_v: DictType) -> (r: DictType)
        requires
            val_wf(old_v@),
            val_wf(new_v@),
        ensures
            r@ == val_merge(old_v@, new_v@),
            val_wf(r@),
        decreases new_v@, 0int,
    {
        proof {
            lemma_merge_wf(old_v@, new_v@);
        }
        let ghost g_new = new_v;
        match old_v {
            DictType::Arr(items) => {
                let ghost old_items = items@;
                let mut items = items;
                items.push(new_v);
                proof {
                    lemma_arr_view_push(old_items, g_new);
                }
                DictType::Arr(items)
            }
            DictType::Obj(om) => {
                match new_v {
                    DictType::Obj(nm) => {
                        proof {
                            assert(dict_view(g_new) == DictVal::Obj(entries_view(nm@)));
                        }
                        DictType::Obj(Self::merge_entries(om, nm))
                    }
                    other => other,
                }
            }
            _ => new_v,
        }
    }

    /// Binds every entry of `adds` in `base`, in order.
    fn merge_entries(
        base: Vec<(String, DictType)>,
        adds: Vec<(String, DictType)>,
    ) -> (r: Vec<(String, DictType)>)
        requires
            entries_wf(entries_view(base@)),
            entries_wf(entries_view(adds@)),
        ensures
            entries_view(r@) == obj_merge(entries_view(base@), entries_view(adds@)),
            entries_wf(entries_view(r@)),
        decreases entries_view(adds@), 2int,
    {
        let ghost g_vec = adds@;
        let ghost g_adds = entries_view(adds@);
        proof {
            lemma_obj_merge_wf(entries_view(base@), g_adds);
            lemma_entries_view(g_vec);
        }
        let mut base = base;
        let mut adds = adds;
        if adds.len() == 0 {
            base
        } else {
            let (k0, v0) = adds.remove(0);
            proof {
                assert(adds@ =~= g_vec.drop_first());
                lemma_entries_view_drop_first(g_vec);
                assert(g_adds[0] == (k0@, dict_view(v0)));
                assert(val_wf(dict_view(v0))) by {
                    assert(entries_wf(g_adds));
                }
                lemma_entries_wf_drop_first(g_adds);
            }
            Self::insert_entry(&mut base, k0, v0);
            Self::merge_entries(base, adds)
        }
    }

    /// Binds `key` to `value` in `entries` as [`obj_insert1`] describes.
    pub fn insert_entry(entries: &mut Vec<(String, DictType)>, key: String, value: DictType)
        requires
            entries_wf(entries_view(old(entries)@)),
            val_wf(value@),
        ensures
            entries_view(final(entries)@) == obj_insert1(
                entries_view(old(entries)@),
                key@,
                value@,
            ),
            entries_wf(entries_view(final(entries)@)),
        decreases value@, 1int,
    {
        let ghost m = entries_view(old(entries)@);
        proof {
            lemma_entries_view(old(entries)@);
            lemma_insert1_wf(m, key@, value@);
        }
        match Self::find_key(entries, key.as_str()) {
            None => {
                proof {
                    assert forall|i: int| 0 <= i < m.len() implies (#[trigger] m[i]).0 != key@ by {
                        assert(m[i].0 == entries@[i].0@);
                    }
                    assert(!obj_has_key(m, key@));
                    lemma_entries_view_push(entries@, (key, value));
                }
                entries.push((key, value));
            }
            Some(i) => {
                proof {
                    assert(m[i as int].0 == key@);
                    lemma_index_unique(m, key@, i as int);
                }
                let ghost before = entries@;
                let (k0, old_v) = entries.remove(i);
                proof {
                    assert(val_wf(m[i as int].1)) by {
                        assert(entries_wf(m));
                    }
                    assert(dict_view(old_v) == m[i as int].1) by {
                        lemma_entries_view(before);
                    }
                }
                let merged = Self::merge_value(old_v, value);
                entries.insert(i, (k0, merged));
                proof {
                    assert(entries@ =~= before.update(i as int, (k0, merged)));
                    lemma_entries_view_update(before, i as int, (k0, merged));
                    assert(entries_view(entries@) =~= obj_insert1(m, key@, value@));
                }
            }
        }
    }
}

/// The number of immediate children of a container value.
pub open spec fn val_len(v: DictVal) -> nat {
    match v {
        DictVal::Obj(m) => m.len(),
        DictVal::Arr(items) => items.len(),
        _ => 0,
    }
}

/// Extending one container with another of the same shape: objects merge
/// key by key, arrays concatenate.
pub open spec fn val_extend(a: DictVal, b: DictVal) -> DictVal {
    match a {
        DictVal::Obj(m) => DictVal::Obj(obj_merge(m, b->Obj_0)),
        DictVal::Arr(items) => DictVal::Arr(items + b->Arr_0),
        _ => a,
    }
}

/// Viewing concatenated elements concatenates their mathematical values.
pub proof fn lemma_arr_view_concat(a: Seq<DictType>, b: Seq<DictType>)
    ensures
        arr_view(a + b) == arr_view(a) + arr_view(b),
{
    lemma_arr_view(a);
    lemma_arr_view(b);
    lemma_arr_view(a + b);
    let lhs = arr_view(a + b);
    let rhs = arr_view(a) + arr_view(b);
    assert forall|i: int| 0 <= i < lhs.len() implies lhs[i] == rhs[i] by {
        if i < a.len() {
            assert((a + b)[i] == a[i]);
        } else {
            assert((a + b)[i] == b[i - a.len()]);
        }
    }
    assert(lhs =~= rhs);
}

impl DictType {
    /// Extends this container with `other`: an object merges in the entries
    /// of another object, an array appends the elements of another array.
    pub fn extend(&mut self, other: DictType)
        requires
            val_wf(old(self)@),
            val_wf(other@),
            (old(self)@ is Obj && other@ is Obj) || (old(self)@ is Arr && other@ is Arr),
        ensures
            final(self)@ == val_extend(old(self)@, other@),
            val_wf(final(self)@),
    {
        let ghost g_other = other;
        let mut tmp = DictType::Bool(false);
        core::mem::swap(self, &mut tmp);
        match (tmp, other) {
            (DictType::Obj(m), DictType::Obj(n)) => {
                *self = DictType::Obj(Self::merge_entries(m, n));
            }
            (DictType::Arr(a), DictType::Arr(b)) => {
                let ghost g_a = a@;
                let ghost g_b = b@;
                let mut a = a;
                let mut b = b;
                a.append(&mut b);
                proof {
                    assert(a@ =~= g_a + g_b);
                    lemma_arr_view_concat(g_a, g_b);
                    lemma_arr_view(g_a);
                    lemma_arr_view(g_b);
                    lemma_arr_view(a@);
                    assert(val_wf(DictVal::Arr(arr_view(a@))));
                }
                *self = DictType::Arr(a);
            }
            _ => {
                unreached()
            }
        }
    }

    /// The number of immediate children of an object or array.
    pub fn len(&self) -> (n: usize)
        requires
            self@ is Obj || self@ is Arr,
        ensures
            n == val_len(self@),
    {
        match self {
            DictType::Obj(m) => {
                proof {
                    lemma_entries_view(m@);
                }
                m.len()
            }
            DictType::Arr(items) => {
                proof {
                    lemma_arr_view(items@);
                }
                items.len()
            }
            _ => unreached(),
        }
    }

    /// Takes the bindings out of an object.
    pub fn take_map(self) -> (r: Vec<(String, DictType)>)
        requires
            self@ is Obj,
        ensures
            entries_view(r@) == self@->Obj_0,
    {
        match self {
            DictType::Obj(m) => m,
            _ => unreached(),
        }
    }

    /// Takes the elements out of an array.
    pub fn take_vec(self) -> (r: Vec<DictType>)
        requires
            self@ is Arr,
        ensures
            arr_view(r@) == self@->Arr_0,
    {
        match self {
            DictType::Arr(items) => items,
            _ => unreached(),
        }
    }

    /// The value an object binds to `key`, when it binds one.
    pub fn get(&self, key: &str) -> (r: Option<&DictType>)
        requires
            self@ is Obj,
            entries_wf(self@->Obj_0),
        ensures
            match r {
                Some(v) => obj_has_key(self@->Obj_0, key@) && v@ == obj_val(self@->Obj_0, key@),
                None => !obj_has_key(self@->Obj_0, key@),
            },
    {
        match self {
            DictType::Obj(entries) => {
                proof {
                    lemma_entries_view(entries@);
                }
                match Self::find_key(entries, key) {
                    Some(i) => {
                        proof {
                            lemma_index_unique(self@->Obj_0, key@, i as int);
                        }
                        Some(&entries[i].1)
                    }
                    None => {
                        proof {
                            assert forall|j: int|
                                0 <= j < self@->Obj_0.len() implies (#[trigger] self@->Obj_0[j]).0
                                != key@ by {
                                assert(self@->Obj_0[j].0 == entries@[j].0@);
                            }
                        }
                        None
                    }
                }
            }
            _ => unreached(),
        }
    }

    /// The element an array holds at `i`, when `i` is in bounds.
    pub fn at(&self, i: usize) -> (r: Option<&DictType>)
        requires
            self@ is Arr,
        ensures
            match r {
                Some(v) => i < self@->Arr_0.len() && v@ == self@->Arr_0[i as int],
                None => i >= self@->Arr_0.len(),
            },
    {
        match self {
            DictType::Arr(items) => {
                proof {
                    lemma_arr_view(items@);
                }
                if i < items.len() {
                    Some(&items[i])
                } else {
                    None
                }
            }
            _ => unreached(),
        }
    }

    /// A deep copy standing for the same mathematical value.
    pub fn deep_clone(&self) -> (r: DictType)
        ensures
            r@ == self@,
        decreases *self,
    {
        match self {
            DictType::Number(n) => DictType::Number(*n),
            DictType::Str(s) => DictType::Str(s.clone()),
            DictType::Bool(b) => DictType::Bool(*b),
            DictType::Arr(items) => {
                let mut out: Vec<DictType> = Vec::new();
                let mut i: usize = 0;
                while i < items.len()
                    invariant
                        i <= items@.len(),
                        out@.len() == i,
                        forall|j: int|
                            0 <= j < i ==> dict_view(#[trigger] out@[j]) == dict_view(items@[j]),
                        *self == DictType::Arr(*items),
                    decreases items@.len() - i,
                {
                    proof {
                        assert(decreases_to!(*self => (*self)->Arr_0));
                        assert(decreases_to!(*items => items@));
                        assert(decreases_to!(items@ => items@[i as int]));
                    }
                    out.push(items[i].deep_clone());
                    i = i + 1;
                }
                proof {
                    lemma_arr_view(out@);
                    lemma_arr_view(items@);
                    assert forall|j: int|
                        0 <= j < arr_view(out@).len() implies arr_view(out@)[j] == arr_view(
                        items@,
                    )[j] by {
                        assert(dict_view(out@[j]) == dict_view(items@[j]));
                    }
                    assert(arr_view(out@) =~= arr_view(items@));
                }
                DictType::Arr(out)
            }
            DictType::Obj(entries) => {
                let mut out: Vec<(String, DictType)> = Vec::new();
                let mut i: usize = 0;
                while i < entries.len()
                    invariant
                        i <= entries@.len(),
                        out@.len() == i,
                        forall|j: int| 0 <= j < i ==> (#[trigger] out@[j]).0@ == entries@[j].0@
                            && dict_view(out@[j].1) == dict_view(entries@[j].1),
                        *self == DictType::Obj(*entries),
                    decreases entries@.len() - i,
                {
                    proof {
                        assert(decreases_to!(*self => (*self)->Obj_0));
                        assert(decreases_to!(*entries => entries@));
                        assert(decreases_to!(entries@ => entries@[i as int]));
                        assert(decreases_to!(entries@[i as int] => entries@[i as int].1));
                    }
                    let k = entries[i].0.clone();
                    let v = entries[i].1.deep_clone();
                    out.push((k, v));
                    i = i + 1;
                }
                proof {
                    lemma_entries_view(out@);
                    lemma_entries_view(entries@);
                    assert forall|j: int|
                        0 <= j < entries_view(out@).len() implies entries_view(out@)[j]
                        == entries_view(entries@)[j] by {
                        assert(out@[j].0@ == entries@[j].0@);
                        assert(dict_view(out@[j].1) == dict_view(entries@[j].1));
                    }
                    assert(entries_view(out@) =~= entries_view(entries@));
                }
                DictType::Obj(out)
            }
        }
    }
}

impl Clone for DictType {
    /// Clones stand for the same mathematical value.
    fn clone(&self) -> (r: DictType)
        ensures
            r@ == self@,
    {
        self.deep_clone()
    }
}

/// A dictionary whose top level is always an object: the shape the driver
/// protocol's parameter and capability bodies take.
#[derive(Debug)]
pub struct Dict {
    values: DictType,
    num_entries: usize,
}

impl View for Dict {
    type V = DictVal;

    /// The mathematical object this dictionary stands for.
    closed spec fn view(&self) -> DictVal {
        self.values@
    }
}

impl Dict {
    /// The top level is an object, it is well formed, and the cached entry
    /// count is its width.
    pub closed spec fn wf(&self) -> bool {
        &&& self.values@ is Obj
        &&& val_wf(self.values@)
        &&& self.num_entries == self.values@->Obj_0.len()
    }

    /// The top-level entries.
    pub open spec fn entries(&self) -> Seq<(Seq<char>, DictVal)> {
        self@->Obj_0
    }

    /// An empty dictionary.
    pub fn new() -> (r: Dict)
        ensures
            r.wf(),
            r.entries() == Seq::<(Seq<char>, DictVal)>::empty(),
    {
        let values = DictType::Obj(Vec::new());
        proof {
            lemma_entries_view(Seq::<(String, DictType)>::empty());
        }
        Dict { values, num_entries: 0 }
    }

    /// Binds `k` to `new_value`, merging with any value already bound, as
    /// [`obj_insert1`] describes.
    pub fn insert(&mut self, k: &str, new_value: DictType)
        requires
            old(self).wf(),
            val_wf(new_value@),
        ensures
            final(self).wf(),
            final(self).entries() == obj_insert1(old(self).entries(), k@, new_value@),
    {
        let mut tmp = DictType::Bool(false);
        core::mem::swap(&mut self.values, &mut tmp);
        match tmp {
            DictType::Obj(mut entries) => {
                DictType::insert_entry(&mut entries, k.to_owned(), new_value);
                self.num_entries = entries.len();
                proof {
                    lemma_entries_view(entries@);
                }
                self.values = DictType::Obj(entries);
            }
            _ => {
                unreached()
            }
        }
    }

    /// Merges every entry of `dict` into this dictionary, in order.
    pub fn extend(&mut self, dict: Dict)
        requires
            old(self).wf(),
            dict.wf(),
        ensures
            final(self).wf(),
            final(self).entries() == obj_merge(old(self).entries(), dict.entries()),
    {
        self.values.extend(dict.values);
        match &self.values {
            DictType::Obj(entries) => {
                proof {
                    lemma_entries_view(entries@);
                }
                self.num_entries = entries.len();
            }
            _ => {
                unreached()
            }
        }
    }

    /// The value bound to `k`, when one is.
    pub fn get(&self, k: &str) -> (r: Option<&DictType>)
        requires
            self.wf(),
        ensures
            match r {
                Some(v) => obj_has_key(self.entries(), k@) && v@ == obj_val(self.entries(), k@),
                None => !obj_has_key(self.entries(), k@),
            },
    {
        match &self.values {
            DictType::Obj(entries) => {
                proof {
                    lemma_entries_view(entries@);
                }
                match DictType::find_key(entries, k) {
                    Some(i) => {
                        proof {
                            lemma_index_unique(self.entries(), k@, i as int);
                        }
                        Some(&entries[i].1)
                    }
                    None => {
                        proof {
                            assert forall|j: int|
                                0 <= j < self.entries().len() implies (#[trigger] self.entries()[j]).0
                                != k@ by {
                                assert(self.entries()[j].0 == entries@[j].0@);
                            }
                        }
                        None
                    }
                }
            }
            _ => unreached(),
        }
    }

    /// The number of top-level entries.
    pub fn len(&self) -> (r: Option<usize>)
        requires
            self.wf(),
        ensures
            r == Some((self.entries().len() as usize)),
    {
        Some(self.num_entries)
    }

    /// A borrow of the underlying object value.
    pub fn value_ref(&self) -> (r: &DictType)
        ensures
            r@ == self@,
    {
        &self.values
    }

    /// Takes the underlying object value out of the dictionary.
    pub fn into_value(self) -> (r: DictType)
        ensures
            r@ == self@,
    {
        self.values
    }
}

/// What [`Dict::wf`] gives a caller: the value is a well-formed object
/// whose entries are [`Dict::entries`].
pub proof fn lemma_dict_wf(d: &Dict)
    requires
        d.wf(),
    ensures
        d@ is Obj,
        val_wf(d@),
        d@ == DictVal::Obj(d.entries()),
{
}

impl Clone for Dict {
    /// Clones stand for the same mathematical object and stay well formed.
    fn clone(&self) -> (r: Dict)
        ensures
            r@ == self@,
            self.wf() ==> r.wf(),
    {
        Dict { values: self.values.deep_clone(), num_entries: self.num_entries }
    }
}

impl From<i32> for DictType {
    /// A number value.
    fn from(v: i32) -> (r: DictType) {
        DictType::Number(v)
    }
}

impl vstd::std_specs::convert::FromSpecImpl<i32> for DictType {
    open spec fn obeys_from_spec() -> bool {
        true
    }

    open spec fn from_spec(v: i32) -> DictType {
        DictType::Number(v)
    }
}

impl From<bool> for DictType {
    /// A boolean value.
    fn from(v: bool) -> (r: DictType) {
        DictType::Bool(v)
    }
}

impl vstd::std_specs::convert::FromSpecImpl<bool> for DictType {
    open spec fn obeys_from_spec() -> bool {
        true
    }

    open spec fn from_spec(v: bool) -> DictType {
        DictType::Bool(v)
    }
}

impl From<String> for DictType {
    /// A string value.
    fn from(v: String) -> (r: DictType) {
        DictType::Str(v)
    }
}

impl vstd::std_specs::convert::FromSpecImpl<String> for DictType {
    open spec fn obeys_from_spec() -> bool {
        true
    }

    open spec fn from_spec(v: String) -> DictType {
        DictType::Str(v)
    }
}

impl<'a> From<&'a str> for DictType {
    /// A string value, copied out of a borrowed slice.
    fn from(v: &'a str) -> (r: DictType)
        ensures
            r@ == DictVal::Str(v@),
    {
        DictType::Str(v.to_owned())
    }
}

impl<'a> vstd::std_specs::convert::FromSpecImpl<&'a str> for DictType {
    open spec fn obeys_from_spec() -> bool {
        false
    }

    open spec fn from_spec(v: &'a str) -> DictType {
        arbitrary()
    }
}

impl From<Dict> for DictType {
    /// The object value a dictionary stands for.
    fn from(v: Dict) -> (r: DictType)
        ensures
            r@ == v@,
    {
        v.into_value()
    }
}

impl vstd::std_specs::convert::FromSpecImpl<Dict> for DictType {
    open spec fn obeys_from_spec() -> bool {
        false
    }

    open spec fn from_spec(v: Dict) -> DictType {
        arbitrary()
    }
}

} // verus!
