//! Namespaced configuration objects and the store they live in.
//!
//! The store mirrors the cluster's configuration state that this control
//! plane reads and writes: policy documents put there by operators, and the
//! rendered bootstrap artifacts the provisioner upserts. Writes use
//! merge-apply semantics keyed by (namespace, name), so repeated writes for
//! one key converge to the latest content instead of duplicating objects.

use vstd::pervasive::VecAdditionalExecFns;
use vstd::prelude::*;

verus! {

/// A namespaced key-value configuration object.
pub struct ConfigObject {
    pub namespace: String,
    pub name: String,
    pub data: Vec<(String, String)>,
}

/// The identity a write is keyed by.
pub open spec fn obj_key(o: ConfigObject) -> (Seq<char>, Seq<char>) {
    (o.namespace@, o.name@)
}

/// The result of upserting `o`: the first object with `o`'s key is replaced,
/// every other object is kept in place; a missing key appends `o`.
pub open spec fn spec_upsert(s: Seq<ConfigObject>, o: ConfigObject) -> Seq<ConfigObject>
    decreases s.len(),
{
    if s.len() == 0 {
        seq![o]
    } else if obj_key(s[0]) == obj_key(o) {
        seq![o] + s.subrange(1, s.len() as int)
    } else {
        seq![s[0]] + spec_upsert(s.subrange(1, s.len() as int), o)
    }
}

/// How many objects carry the given key.
pub open spec fn count_key(s: Seq<ConfigObject>, key: (Seq<char>, Seq<char>)) -> nat
    decreases s.len(),
{
    if s.len() == 0 {
        0
    } else {
        count_key(s.subrange(1, s.len() as int), key) + if obj_key(s[0]) == key {
            1nat
        } else {
            0nat
        }
    }
}

/// The first object carrying the given key, if any.
pub open spec fn lookup_key(s: Seq<ConfigObject>, key: (Seq<char>, Seq<char>)) -> Option<
    ConfigObject,
>
    decreases s.len(),
{
    if s.len() == 0 {
        None
    } else if obj_key(s[0]) == key {
        Some(s[0])
    } else {
        lookup_key(s.subrange(1, s.len() as int), key)
    }
}

/// A store holds at most one object per key.
pub struct ConfigStore {
    pub objects: Vec<ConfigObject>,
}

impl ConfigStore {
    pub open spec fn wf(self) -> bool {
        forall|i: int, j: int|
            0 <= i < j < self.objects.len() ==> obj_key(self.objects[i]) != obj_key(
                self.objects[j],
            )
    }

    pub fn new() -> (r: ConfigStore)
        ensures
            r.wf(),
            r.objects@.len() == 0,
    {
        ConfigStore { objects: Vec::new() }
    }

    /// Reads the object with the given key, if the store holds one.
    pub fn get(&self, namespace: &String, name: &String) -> (r: Option<&ConfigObject>)
        ensures
            match r {
                Some(o) => lookup_key(self.objects@, (namespace@, name@)) == Some(*o),
                None => lookup_key(self.objects@, (namespace@, name@)) is None,
            },
    {
        let n = self.objects.len();
        proof {
            assert(self.objects@.subrange(0, n as int) =~= self.objects@);
        }
        let mut i: usize = 0;
        while i < n
            invariant
                i <= n,
                n == self.objects@.len(),
                lookup_key(self.objects@, (namespace@, name@)) == lookup_key(
                    self.objects@.subrange(i as int, n as int),
                    (namespace@, name@),
                ),
            decreases n - i,
        {
            proof {
                let cur = self.objects@.subrange(i as int, n as int);
                assert(cur[0] == self.objects@[i as int]);
                assert(cur.subrange(1, cur.len() as int) =~= self.objects@.subrange(
                    i + 1,
                    n as int,
                ));
            }
            let o = &self.objects[i];
            if o.namespace == *namespace && o.name == *name {
                return Some(o);
            }
            i = i + 1;
        }
        proof {
            assert(self.objects@.subrange(n as int, n as int)
                =~= Seq::<ConfigObject>::empty());
        }
        None
    }

    /// Merge-apply write: replaces the object with `obj`'s key or appends it.
    pub fn upsert(&mut self, obj: ConfigObject)
        requires
            old(self).wf(),
        ensures
            final(self).wf(),
            final(self).objects@ == spec_upsert(old(self).objects@, obj),
    {
        let n = self.objects.len();
        let mut i: usize = 0;
        while i < n
            invariant
                i <= n,
                n == self.objects@.len(),
                old(self).wf(),
                self.objects@ == old(self).objects@,
                forall|k: int| 0 <= k < i ==> obj_key(self.objects@[k]) != obj_key(obj),
            decreases n - i,
        {
            let same = {
                let o = &self.objects[i];
                o.namespace == obj.namespace && o.name == obj.name
            };
            if same {
                proof {
                    lemma_upsert_found(self.objects@, obj, i as int);
                }
                self.objects.set(i, obj);
                proof {
                    assert(self.objects@ == spec_upsert(old(self).objects@, obj));
                    let s = old(self).objects@;
                    assert forall|x: int, y: int|
                        0 <= x < y < self.objects@.len() implies obj_key(self.objects@[x])
                        != obj_key(self.objects@[y]) by {
                        if x == i as int {
                            assert(self.objects@[x] == obj);
                            assert(self.objects@[y] == s[y]);
                            assert(obj_key(s[y]) != obj_key(s[i as int]));
                        } else if y == i as int {
                            assert(self.objects@[y] == obj);
                            assert(self.objects@[x] == s[x]);
                            assert(obj_key(s[x]) != obj_key(s[i as int]));
                        } else {
                            assert(self.objects@[x] == s[x]);
                            assert(self.objects@[y] == s[y]);
                        }
                    };
                }
                return ;
            }
            i = i + 1;
        }
        proof {
            lemma_upsert_absent(self.objects@, obj);
        }
        self.objects.push(obj);
        proof {
            assert(self.objects@ == spec_upsert(old(self).objects@, obj));
            let s = old(self).objects@;
            assert forall|x: int, y: int|
                0 <= x < y < self.objects@.len() implies obj_key(self.objects@[x]) != obj_key(
                self.objects@[y],
            ) by {
                assert(self.objects@[x] == s[x]);
                if y == s.len() {
                    assert(self.objects@[y] == obj);
                    assert(obj_key(s[x]) != obj_key(obj));
                } else {
                    assert(self.objects@[y] == s[y]);
                }
            };
        }
    }
}

/// Where the key already sits at position `i` (and nowhere earlier), the
/// upsert is exactly an update at `i`.
proof fn lemma_upsert_found(s: Seq<ConfigObject>, o: ConfigObject, i: int)
    requires
        0 <= i < s.len(),
        obj_key(s[i]) == obj_key(o),
        forall|k: int| 0 <= k < i ==> obj_key(s[k]) != obj_key(o),
    ensures
        spec_upsert(s, o) == s.update(i, o),
    decreases s.len(),
{
    if i == 0 {
        assert(seq![o] + s.subrange(1, s.len() as int) =~= s.update(0, o));
    } else {
        let rest = s.subrange(1, s.len() as int);
        lemma_upsert_found(rest, o, i - 1);
        assert(seq![s[0]] + rest.update(i - 1, o) =~= s.update(i, o));
    }
}

/// Where the key is absent, the upsert is exactly an append.
proof fn lemma_upsert_absent(s: Seq<ConfigObject>, o: ConfigObject)
    requires
        forall|k: int| 0 <= k < s.len() ==> obj_key(s[k]) != obj_key(o),
    ensures
        spec_upsert(s, o) == s.push(o),
    decreases s.len(),
{
    if s.len() == 0 {
        assert(seq![o] =~= s.push(o));
    } else {
        let rest = s.subrange(1, s.len() as int);
        lemma_upsert_absent(rest, o);
        assert(seq![s[0]] + rest.push(o) =~= s.push(o));
    }
}

/// Idempotent provisioning: writing twice under one key leaves exactly the
/// store of the single, latest write; with equal artifacts, of a single one.
pub proof fn lemma_upsert_idempotent(s: Seq<ConfigObject>, a1: ConfigObject, a2: ConfigObject)
    requires
        obj_key(a1) == obj_key(a2),
    ensures
        spec_upsert(spec_upsert(s, a1), a2) == spec_upsert(s, a2),
    decreases s.len(),
{
    if s.len() == 0 {
        assert(spec_upsert(seq![a1], a2) =~= seq![a2]);
        assert(spec_upsert(s, a2) =~= seq![a2]);
    } else if obj_key(s[0]) == obj_key(a1) {
        let rest = s.subrange(1, s.len() as int);
        let u1 = seq![a1] + rest;
        assert(u1[0] == a1);
        assert(spec_upsert(u1, a2) =~= seq![a2] + rest);
        assert(u1.subrange(1, u1.len() as int) =~= rest);
    } else {
        let rest = s.subrange(1, s.len() as int);
        lemma_upsert_idempotent(rest, a1, a2);
        let u1 = seq![s[0]] + spec_upsert(rest, a1);
        assert(u1[0] == s[0]);
        assert(u1.subrange(1, u1.len() as int) =~= spec_upsert(rest, a1));
        assert(seq![s[0]] + spec_upsert(spec_upsert(rest, a1), a2) =~= spec_upsert(u1, a2));
    }
}

/// After an upsert exactly one object carries the written key.
pub proof fn lemma_upsert_unique(s: Seq<ConfigObject>, o: ConfigObject)
    requires
        count_key(s, obj_key(o)) <= 1,
    ensures
        count_key(spec_upsert(s, o), obj_key(o)) == 1,
    decreases s.len(),
{
    let key = obj_key(o);
    if s.len() == 0 {
        let u = seq![o];
        assert(u[0] == o);
        assert(u.subrange(1, 1) =~= Seq::<ConfigObject>::empty());
        assert(count_key(u.subrange(1, 1), key) == 0);
        assert(count_key(u, key) == 1);
    } else if obj_key(s[0]) == key {
        let rest = s.subrange(1, s.len() as int);
        let u = seq![o] + rest;
        assert(u[0] == o);
        assert(u.subrange(1, u.len() as int) =~= rest);
        assert(count_key(rest, key) == 0);
    } else {
        let rest = s.subrange(1, s.len() as int);
        lemma_upsert_unique(rest, o);
        let u = seq![s[0]] + spec_upsert(rest, o);
        assert(u[0] == s[0]);
        assert(u.subrange(1, u.len() as int) =~= spec_upsert(rest, o));
    }
}

/// With pairwise-distinct keys, the only object carrying the written key
/// after an upsert is the written object itself.
pub proof fn lemma_upsert_content(s: Seq<ConfigObject>, o: ConfigObject)
    requires
        forall|i: int, j: int| 0 <= i < j < s.len() ==> obj_key(s[i]) != obj_key(s[j]),
    ensures
        forall|i: int|
            0 <= i < spec_upsert(s, o).len() && obj_key(#[trigger] spec_upsert(s, o)[i])
                == obj_key(o) ==> spec_upsert(s, o)[i] == o,
    decreases s.len(),
{
    let u = spec_upsert(s, o);
    if s.len() == 0 {
        assert(u[0] == o);
    } else if obj_key(s[0]) == obj_key(o) {
        let rest = s.subrange(1, s.len() as int);
        assert(u[0] == o);
        assert forall|i: int|
            0 <= i < u.len() && obj_key(#[trigger] u[i]) == obj_key(o) implies u[i] == o by {
            if i > 0 {
                assert(u[i] == rest[i - 1]);
                assert(rest[i - 1] == s[i]);
                assert(obj_key(s[i]) != obj_key(s[0]));
            }
        };
    } else {
        let rest = s.subrange(1, s.len() as int);
        assert forall|i: int, j: int|
            0 <= i < j < rest.len() implies obj_key(rest[i]) != obj_key(rest[j]) by {
            assert(rest[i] == s[i + 1]);
            assert(rest[j] == s[j + 1]);
        };
        lemma_upsert_content(rest, o);
        let ur = spec_upsert(rest, o);
        assert forall|i: int|
            0 <= i < u.len() && obj_key(#[trigger] u[i]) == obj_key(o) implies u[i] == o by {
            if i == 0 {
                assert(u[0] == s[0]);
            } else {
                assert(u[i] == ur[i - 1]);
            }
        };
    }
}

/// The written object is always among the upsert's results.
pub proof fn lemma_upsert_contains(s: Seq<ConfigObject>, o: ConfigObject)
    ensures
        spec_upsert(s, o).contains(o),
    decreases s.len(),
{
    let u = spec_upsert(s, o);
    if s.len() == 0 {
        assert(u[0] == o);
    } else if obj_key(s[0]) == obj_key(o) {
        assert(u[0] == o);
    } else {
        let rest = s.subrange(1, s.len() as int);
        lemma_upsert_contains(rest, o);
        let ur = spec_upsert(rest, o);
        let k = choose|k: int| 0 <= k < ur.len() && ur[k] == o;
        assert(u[k + 1] == o);
    }
}

/// A key that no object carries has count zero.
pub proof fn lemma_count_zero(s: Seq<ConfigObject>, key: (Seq<char>, Seq<char>))
    requires
        forall|i: int| 0 <= i < s.len() ==> obj_key(s[i]) != key,
    ensures
        count_key(s, key) == 0,
    decreases s.len(),
{
    if s.len() > 0 {
        let rest = s.subrange(1, s.len() as int);
        assert(forall|i: int| 0 <= i < rest.len() ==> rest[i] == s[i + 1]);
        lemma_count_zero(rest, key);
    }
}

/// Pairwise-distinct keys mean no key is carried twice.
pub proof fn lemma_wf_count(s: Seq<ConfigObject>, key: (Seq<char>, Seq<char>))
    requires
        forall|i: int, j: int| 0 <= i < j < s.len() ==> obj_key(s[i]) != obj_key(s[j]),
    ensures
        count_key(s, key) <= 1,
    decreases s.len(),
{
    if s.len() > 0 {
        let rest = s.subrange(1, s.len() as int);
        assert(forall|i: int| 0 <= i < rest.len() ==> rest[i] == s[i + 1]);
        if obj_key(s[0]) == key {
            lemma_count_zero(rest, key);
        } else {
            lemma_wf_count(rest, key);
        }
    }
}

/// The value of the first field named `key`, as the document stores it.
pub open spec fn field_of(data: Seq<(String, String)>, key: Seq<char>) -> Option<Seq<char>>
    decreases data.len(),
{
    if data.len() == 0 {
        None
    } else if data[0].0@ == key {
        Some(data[0].1@)
    } else {
        field_of(data.subrange(1, data.len() as int), key)
    }
}

/// Looks up a field of a configuration object's data.
pub fn field_value<'a>(data: &'a Vec<(String, String)>, key: &String) -> (r: Option<&'a String>)
    ensures
        match r {
            Some(v) => field_of(data@, key@) == Some(v@),
            None => field_of(data@, key@) is None,
        },
{
    let n = data.len();
    proof {
        assert(data@.subrange(0, n as int) =~= data@);
    }
    let mut i: usize = 0;
    while i < n
        invariant
            i <= n,
            n == data@.len(),
            field_of(data@, key@) == field_of(data@.subrange(i as int, n as int), key@),
        decreases n - i,
    {
        proof {
            let cur = data@.subrange(i as int, n as int);
            assert(cur[0] == data@[i as int]);
            assert(cur.subrange(1, cur.len() as int) =~= data@.subrange(i + 1, n as int));
        }
        if data[i].0 == *key {
            return Some(&data[i].1);
        }
        i = i + 1;
    }
    proof {
        assert(data@.subrange(n as int, n as int) =~= Seq::<(String, String)>::empty());
    }
    None
}

} // verus!
