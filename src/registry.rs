use vstd::prelude::*;

verus! {

/// Handle of a linked GPU program, issued by whoever owns the graphics context.
pub type ProgramHandle = u32;

/// The entries name a shader at most once each.
pub open spec fn names_unique(es: Seq<(Seq<char>, ProgramHandle)>) -> bool {
    forall|i: int, j: int|
        0 <= i < es.len() && 0 <= j < es.len() && #[trigger] es[i].0 == #[trigger] es[j].0 ==> i == j
}

/// The name-keyed table of linked programs.
pub struct ShaderRegistry {
    entries: Vec<(String, ProgramHandle)>,
}

impl ShaderRegistry {
    spec fn entries_view(&self) -> Seq<(Seq<char>, ProgramHandle)> {
        self.entries@.map_values(|e: (String, ProgramHandle)| (e.0@, e.1))
    }

    pub closed spec fn wf(&self) -> bool {
        names_unique(self.entries_view())
    }
}

impl View for ShaderRegistry {
    type V = Map<Seq<char>, ProgramHandle>;

    closed spec fn view(&self) -> Map<Seq<char>, ProgramHandle> {
        let es = self.entries_view();
        Map::new(
            |k: Seq<char>| exists|i: int| 0 <= i < es.len() && #[trigger] es[i].0 == k,
            |k: Seq<char>| es[choose|i: int| 0 <= i < es.len() && #[trigger] es[i].0 == k].1,
        )
    }
}

impl ShaderRegistry {
    /// An empty registry.
    pub fn new() -> (r: ShaderRegistry)
        ensures
            r.wf(),
            r@ == Map::<Seq<char>, ProgramHandle>::empty(),
    {
        let r = ShaderRegistry { entries: Vec::new() };
        assert(r@ =~= Map::<Seq<char>, ProgramHandle>::empty());
        r
    }

    /// Position of the entry for `name`, if any.
    fn find(&self, name: &String) -> (r: Option<usize>)
        requires
            self.wf(),
        ensures
            match r {
                Some(i) => i < self.entries_view().len() && self.entries_view()[i as int].0
                    == name@ && self@.contains_key(name@) && self@[name@]
                    == self.entries_view()[i as int].1,
                None => !self@.contains_key(name@),
            },
    {
        let ghost es = self.entries_view();
        let mut i: usize = 0;
        while i < self.entries.len()
            invariant
                i <= es.len(),
                es == self.entries_view(),
                names_unique(es),
                es.len() == self.entries@.len(),
                forall|j: int| 0 <= j < i ==> es[j].0 != name@,
            decreases self.entries.len() - i,
        {
            if self.entries[i].0 == *name {
                proof {
                    assert(es[i as int].0 == name@);
                    assert(names_unique(es));
                    let c = choose|c: int| 0 <= c < es.len() && #[trigger] es[c].0 == name@;
                    assert(c == i);
                }
                return Some(i);
            }
            i = i + 1;
        }
        None
    }

    /// The program registered under `name`, if any.
    pub fn get(&self, name: &String) -> (r: Option<ProgramHandle>)
        requires
            self.wf(),
        ensures
            r == (if self@.contains_key(name@) {
                Some(self@[name@])
            } else {
                None
            }),
    {
        match self.find(name) {
            Some(i) => Some(self.entries[i].1),
            None => None,
        }
    }

    /// Registers `program` under `name`, replacing any program of that name.
    pub fn insert(&mut self, name: String, program: ProgramHandle)
        requires
            old(self).wf(),
        ensures
            final(self).wf(),
            final(self)@ == old(self)@.insert(name@, program),
    {
        let ghost es = self.entries_view();
        let ghost k = name@;
        let ghost m = self@;
        match self.find(&name) {
            Some(i) => {
                self.entries[i] = (name, program);
                let ghost es2 = self.entries_view();
                assert(es2 =~= es.update(i as int, (k, program)));
                assert forall|a: int, b: int|
                    0 <= a < es2.len() && 0 <= b < es2.len() && #[trigger] es2[a].0
                        == #[trigger] es2[b].0 implies a == b by {
                    assert(es2[a].0 == es[a].0);
                    assert(es2[b].0 == es[b].0);
                }
                assert forall|key: Seq<char>|
                    self@.contains_key(key) == m.insert(k, program).contains_key(key) by {
                    if m.insert(k, program).contains_key(key) {
                        if key != k {
                            let c = choose|c: int| 0 <= c < es.len() && #[trigger] es[c].0 == key;
                            assert(es2[c].0 == key);
                        } else {
                            assert(es2[i as int].0 == key);
                        }
                    }
                    if self@.contains_key(key) {
                        let c = choose|c: int| 0 <= c < es2.len() && #[trigger] es2[c].0 == key;
                        assert(es[c].0 == key);
                    }
                }
                assert forall|key: Seq<char>| #[trigger]
                    self@.contains_key(key) implies self@[key] == m.insert(k, program)[key] by {
                    let c = choose|c: int| 0 <= c < es2.len() && #[trigger] es2[c].0 == key;
                    assert(es[c].0 == key);
                    if key == k {
                        assert(es2[i as int].0 == key);
                    } else {
                        let d = choose|d: int| 0 <= d < es.len() && #[trigger] es[d].0 == key;
                        assert(d == c);
                    }
                }
                assert(self@ =~= m.insert(k, program));
            },
            None => {
                self.entries.push((name, program));
                let ghost es2 = self.entries_view();
                assert(es2 =~= es.push((k, program)));
                assert forall|key: Seq<char>|
                    self@.contains_key(key) == m.insert(k, program).contains_key(key) by {
                    if m.insert(k, program).contains_key(key) {
                        if key != k {
                            let c = choose|c: int| 0 <= c < es.len() && #[trigger] es[c].0 == key;
                            assert(es2[c].0 == key);
                        } else {
                            assert(es2[es.len() as int].0 == key);
                        }
                    }
                    if self@.contains_key(key) {
                        let c = choose|c: int| 0 <= c < es2.len() && #[trigger] es2[c].0 == key;
                        if c < es.len() {
                            assert(es[c].0 == key);
                        }
                    }
                }
                assert forall|key: Seq<char>| #[trigger]
                    self@.contains_key(key) implies self@[key] == m.insert(k, program)[key] by {
                    let c = choose|c: int| 0 <= c < es2.len() && #[trigger] es2[c].0 == key;
                    if key == k {
                        assert(es2[es.len() as int].0 == key);
                    } else {
                        assert(es[c].0 == key);
                        let d = choose|d: int| 0 <= d < es.len() && #[trigger] es[d].0 == key;
                        assert(d == c);
                    }
                }
                assert(self@ =~= m.insert(k, program));
            },
        }
    }
}

} // verus!
