use vstd::prelude::*;
use crate::uniform::Uniform;

verus! {

/// Uniform entries as (name, value) pairs.
pub type UniformEntries = Seq<(Seq<char>, Uniform)>;

/// No two entries share a name.
pub open spec fn keys_unique(es: UniformEntries) -> bool {
    forall|i: int, j: int|
        0 <= i < es.len() && 0 <= j < es.len() && #[trigger] es[i].0 == #[trigger] es[j].0 ==> i == j
}

/// Some entry is named `k`.
pub open spec fn has_key(es: UniformEntries, k: Seq<char>) -> bool {
    exists|i: int| 0 <= i < es.len() && #[trigger] es[i].0 == k
}

/// The entries after setting `k` to `v`: the entry named `k` is overwritten in
/// place when there is one, otherwise a new entry is appended.
pub open spec fn insert_entry(es: UniformEntries, k: Seq<char>, v: Uniform) -> UniformEntries {
    if has_key(es, k) {
        let i = choose|i: int| 0 <= i < es.len() && #[trigger] es[i].0 == k;
        es.update(i, (k, v))
    } else {
        es.push((k, v))
    }
}

/// Setting `k` keeps names unique and leaves exactly one entry named `k`,
/// holding `v`.
pub proof fn lemma_insert_entry(es: UniformEntries, k: Seq<char>, v: Uniform)
    requires
        keys_unique(es),
    ensures
        keys_unique(insert_entry(es, k, v)),
        exists|i: int|
            0 <= i < insert_entry(es, k, v).len() && #[trigger] insert_entry(es, k, v)[i] == (k, v),
        forall|j: int|
            0 <= j < insert_entry(es, k, v).len() && (#[trigger] insert_entry(es, k, v)[j]).0 == k
                ==> insert_entry(es, k, v)[j] == (k, v),
{
    let r = insert_entry(es, k, v);
    if has_key(es, k) {
        let i = choose|i: int| 0 <= i < es.len() && #[trigger] es[i].0 == k;
        assert(r[i] == (k, v));
        assert forall|a: int, b: int|
            0 <= a < r.len() && 0 <= b < r.len() && #[trigger] r[a].0 == #[trigger] r[b].0 implies a
            == b by {
            assert(r[a].0 == es[a].0);
            assert(r[b].0 == es[b].0);
        }
        assert forall|j: int| 0 <= j < r.len() && (#[trigger] r[j]).0 == k implies r[j] == (k, v) by {
            assert(es[j].0 == k);
        }
    } else {
        assert(r[es.len() as int] == (k, v));
        assert forall|a: int, b: int|
            0 <= a < r.len() && 0 <= b < r.len() && #[trigger] r[a].0 == #[trigger] r[b].0 implies a
            == b by {
            if a < es.len() && b < es.len() {
                assert(r[a].0 == es[a].0);
                assert(r[b].0 == es[b].0);
            } else if a < es.len() {
                assert(es[a].0 == k);
            } else if b < es.len() {
                assert(es[b].0 == k);
            }
        }
        assert forall|j: int| 0 <= j < r.len() && (#[trigger] r[j]).0 == k implies r[j] == (k, v) by {
            if j < es.len() {
                assert(es[j].0 == k);
            }
        }
    }
}

/// Last write wins: setting `k` to `v1` and then to `v2` leaves exactly one
/// entry named `k`, and it holds `v2`.
pub proof fn lemma_set_twice_last_wins(es: UniformEntries, k: Seq<char>, v1: Uniform, v2: Uniform)
    requires
        keys_unique(es),
    ensures
        keys_unique(insert_entry(insert_entry(es, k, v1), k, v2)),
        exists|i: int|
            0 <= i < insert_entry(insert_entry(es, k, v1), k, v2).len()
                && #[trigger] insert_entry(insert_entry(es, k, v1), k, v2)[i] == (k, v2)
                && forall|j: int|
                0 <= j < insert_entry(insert_entry(es, k, v1), k, v2).len() && (
                #[trigger] insert_entry(insert_entry(es, k, v1), k, v2)[j]).0 == k ==> j == i,
{
    let once = insert_entry(es, k, v1);
    lemma_insert_entry(es, k, v1);
    lemma_insert_entry(once, k, v2);
    let twice = insert_entry(once, k, v2);
    let i = choose|i: int| 0 <= i < twice.len() && #[trigger] twice[i] == (k, v2);
    assert forall|j: int| 0 <= j < twice.len() && (#[trigger] twice[j]).0 == k implies j == i by {
        assert(twice[i].0 == twice[j].0);
    }
}

/// An item's uniforms after setting `k` to `v`: unchanged when it has none.
pub open spec fn uniforms_after_set(u: Option<UniformEntries>, k: Seq<char>, v: Uniform) -> Option<
    UniformEntries,
> {
    match u {
        Some(es) => Some(insert_entry(es, k, v)),
        None => None,
    }
}

/// An item's uniforms after setting each of `sets` in order.
pub open spec fn uniforms_after_sets(u: Option<UniformEntries>, sets: UniformEntries) -> Option<
    UniformEntries,
>
    decreases sets.len(),
{
    if sets.len() == 0 {
        u
    } else {
        uniforms_after_set(uniforms_after_sets(u, sets.drop_last()), sets.last().0, sets.last().1)
    }
}

/// However many uniforms are set on an item without uniforms, it still has
/// none.
pub proof fn lemma_absent_uniforms_stay_absent(sets: UniformEntries)
    ensures
        uniforms_after_sets(None, sets) is None,
    decreases sets.len(),
{
    if sets.len() > 0 {
        lemma_absent_uniforms_stay_absent(sets.drop_last());
    }
}

/// A mapping from uniform name to value, each name held at most once.
pub struct UniformMap {
    entries: Vec<(String, Uniform)>,
}

impl View for UniformMap {
    type V = UniformEntries;

    closed spec fn view(&self) -> UniformEntries {
        self.entries@.map_values(|e: (String, Uniform)| (e.0@, e.1))
    }
}

impl UniformMap {
    pub open spec fn wf(&self) -> bool {
        keys_unique(self@)
    }

    /// An empty mapping.
    pub fn new() -> (r: UniformMap)
        ensures
            r.wf(),
            r@ == Seq::<(Seq<char>, Uniform)>::empty(),
    {
        let r = UniformMap { entries: Vec::new() };
        assert(r@ =~= Seq::<(Seq<char>, Uniform)>::empty());
        r
    }

    /// Number of entries.
    pub fn len(&self) -> (r: usize)
        ensures
            r == self@.len(),
    {
        self.entries.len()
    }

    /// Position of the entry named `name`, if any.
    fn find(&self, name: &String) -> (r: Option<usize>)
        ensures
            match r {
                Some(i) => i < self@.len() && self@[i as int].0 == name@,
                None => !has_key(self@, name@),
            },
    {
        let mut i: usize = 0;
        while i < self.entries.len()
            invariant
                i <= self@.len(),
                self@.len() == self.entries@.len(),
                forall|j: int| 0 <= j < i ==> self@[j].0 != name@,
            decreases self.entries.len() - i,
        {
            if self.entries[i].0 == *name {
                return Some(i);
            }
            i = i + 1;
        }
        None
    }

    /// Name of the entry at position `i`.
    pub fn name_at(&self, i: usize) -> (r: &String)
        requires
            i < self@.len(),
        ensures
            r@ == self@[i as int].0,
    {
        &self.entries[i].0
    }

    /// Value of the entry at position `i`.
    pub fn value_at(&self, i: usize) -> (r: Uniform)
        requires
            i < self@.len(),
        ensures
            r == self@[i as int].1,
    {
        self.entries[i].1
    }

    /// The value held under `name`, if any.
    pub fn get(&self, name: &String) -> (r: Option<Uniform>)
        requires
            self.wf(),
        ensures
            match r {
                Some(v) => exists|i: int| 0 <= i < self@.len() && #[trigger] self@[i] == (name@, v),
                None => !has_key(self@, name@),
            },
    {
        match self.find(name) {
            Some(i) => Some(self.entries[i].1),
            None => None,
        }
    }

    /// Sets `name` to `value`, overwriting an entry of that name or adding one.
    pub fn insert(&mut self, name: String, value: Uniform)
        requires
            old(self).wf(),
        ensures
            final(self).wf(),
            final(self)@ == insert_entry(old(self)@, name@, value),
    {
        let ghost es = self@;
        match self.find(&name) {
            Some(i) => {
                proof {
                    let c = choose|c: int| 0 <= c < es.len() && #[trigger] es[c].0 == name@;
                    assert(c == i);
                }
                let ghost k = name@;
                self.entries[i] = (name, value);
                assert(self@ =~= es.update(i as int, (k, value)));
            },
            None => {
                let ghost k = name@;
                self.entries.push((name, value));
                assert(self@ =~= es.push((k, value)));
            },
        }
    }
}

/// What a render item is: vertex coordinates (IEEE-754 bit patterns, three
/// per vertex), the name of its shader, and its uniform entries, if it has any.
pub struct RenderItemView {
    pub vertices: Seq<u32>,
    pub shader_name: Seq<char>,
    pub uniforms: Option<UniformEntries>,
}

/// One drawable unit: triangle-list geometry, a shader looked up by name at
/// draw time, and optional uniform values.
pub struct RenderItem {
    vertices: Vec<u32>,
    shader_name: String,
    uniforms: Option<UniformMap>,
}

impl View for RenderItem {
    type V = RenderItemView;

    closed spec fn view(&self) -> RenderItemView {
        RenderItemView {
            vertices: self.vertices@,
            shader_name: self.shader_name@,
            uniforms: match self.uniforms {
                Some(m) => Some(m@),
                None => None,
            },
        }
    }
}

impl RenderItem {
    pub open spec fn wf(&self) -> bool {
        match self@.uniforms {
            Some(es) => keys_unique(es),
            None => true,
        }
    }

    pub fn new(vertices: Vec<u32>, shader_name: String, uniforms: Option<UniformMap>) -> (r:
        RenderItem)
        requires
            match uniforms {
                Some(m) => m.wf(),
                None => true,
            },
        ensures
            r.wf(),
            r@.vertices == vertices@,
            r@.shader_name == shader_name@,
            r@.uniforms == match uniforms {
                Some(m) => Some(m@),
                None => None::<UniformEntries>,
            },
    {
        RenderItem { vertices, shader_name, uniforms }
    }

    /// Sets a uniform value; an item built without uniforms is left as it is.
    pub fn set_uniform(&mut self, name: String, value: Uniform)
        requires
            old(self).wf(),
        ensures
            final(self).wf(),
            final(self)@.vertices == old(self)@.vertices,
            final(self)@.shader_name == old(self)@.shader_name,
            final(self)@.uniforms == uniforms_after_set(old(self)@.uniforms, name@, value),
    {
        if let Some(uniforms) = self.uniforms.as_mut() {
            uniforms.insert(name, value);
        }
    }

    pub fn vertices(&self) -> (r: &Vec<u32>)
        ensures
            r@ == self@.vertices,
    {
        &self.vertices
    }

    pub fn shader_name(&self) -> (r: &String)
        ensures
            r@ == self@.shader_name,
    {
        &self.shader_name
    }

    pub fn uniforms(&self) -> (r: &Option<UniformMap>)
        ensures
            match *r {
                Some(m) => self@.uniforms == Some(m@),
                None => self@.uniforms is None,
            },
    {
        &self.uniforms
    }
}

} // verus!
