use vstd::prelude::*;

verus! {

/// The name under which the fallback material is registered.
pub open spec fn default_name() -> Seq<char> {
    "default"@
}

/// The name of the primitive that carries the playfield.
pub open spec fn playfield_mesh_name() -> Seq<char> {
    "playfield_mesh"@
}

/// The map that results from inserting each named entry of `entries` into `base`,
/// in order, a later entry replacing an earlier one of the same name.
pub open spec fn insert_all<H>(base: Map<Seq<char>, H>, entries: Seq<(String, H)>) -> Map<
    Seq<char>,
    H,
>
    decreases entries.len(),
{
    if entries.len() == 0 {
        base
    } else {
        insert_all(base, entries.drop_last()).insert(entries.last().0@, entries.last().1)
    }
}

/// No two entries carry the same name.
pub open spec fn unique_names<H>(entries: Seq<(String, H)>) -> bool {
    forall|i: int, j: int|
        0 <= i < entries.len() && 0 <= j < entries.len() && i != j ==> entries[i].0@
            != entries[j].0@
}

/// A name holds in the result exactly when it held in `base` or an entry carries it.
proof fn lemma_insert_all_dom<H>(base: Map<Seq<char>, H>, entries: Seq<(String, H)>, k: Seq<char>)
    ensures
        insert_all(base, entries).contains_key(k) <==> (base.contains_key(k) || exists|i: int|
            0 <= i < entries.len() && #[trigger] entries[i].0@ == k),
    decreases entries.len(),
{
    if entries.len() > 0 {
        let init = entries.drop_last();
        lemma_insert_all_dom(base, init, k);
        if exists|i: int| 0 <= i < entries.len() && #[trigger] entries[i].0@ == k {
            let i = choose|i: int| 0 <= i < entries.len() && #[trigger] entries[i].0@ == k;
            if i < entries.len() - 1 {
                assert(init[i].0@ == k);
            }
        }
        if exists|i: int| 0 <= i < init.len() && #[trigger] init[i].0@ == k {
            let i = choose|i: int| 0 <= i < init.len() && #[trigger] init[i].0@ == k;
            assert(entries[i].0@ == k);
        }
    }
}

/// The entry at `i` gives the value of its name when no later entry carries that name.
proof fn lemma_insert_all_last_wins<H>(base: Map<Seq<char>, H>, entries: Seq<(String, H)>, i: int)
    requires
        0 <= i < entries.len(),
        forall|j: int| i < j < entries.len() ==> #[trigger] entries[j].0@ != entries[i].0@,
    ensures
        insert_all(base, entries).contains_key(entries[i].0@),
        insert_all(base, entries)[entries[i].0@] == entries[i].1,
    decreases entries.len(),
{
    if i < entries.len() - 1 {
        let init = entries.drop_last();
        assert forall|j: int| i < j < init.len() implies #[trigger] init[j].0@ != init[i].0@ by {
            assert(init[j] == entries[j]);
        }
        lemma_insert_all_last_wins(base, init, i);
        assert(entries.last().0@ != entries[i].0@) by {
            assert(entries[entries.len() - 1].0@ != entries[i].0@);
        }
    }
}

/// A name that no entry carries keeps what `base` says of it.
proof fn lemma_insert_all_untouched<H>(
    base: Map<Seq<char>, H>,
    entries: Seq<(String, H)>,
    k: Seq<char>,
)
    requires
        forall|i: int| 0 <= i < entries.len() ==> #[trigger] entries[i].0@ != k,
    ensures
        insert_all(base, entries).contains_key(k) == base.contains_key(k),
        base.contains_key(k) ==> insert_all(base, entries)[k] == base[k],
    decreases entries.len(),
{
    if entries.len() > 0 {
        let init = entries.drop_last();
        assert forall|i: int| 0 <= i < init.len() implies #[trigger] init[i].0@ != k by {
            assert(init[i] == entries[i]);
        }
        lemma_insert_all_untouched(base, init, k);
        assert(entries[entries.len() - 1].0@ != k);
    }
}

/// Replacing the value of the entry at `i` is inserting its name with the new value,
/// when names are unique.
proof fn lemma_insert_all_update<H>(
    base: Map<Seq<char>, H>,
    entries: Seq<(String, H)>,
    i: int,
    e: (String, H),
)
    requires
        unique_names(entries),
        0 <= i < entries.len(),
        entries[i].0@ == e.0@,
    ensures
        insert_all(base, entries.update(i, e)) == insert_all(base, entries).insert(e.0@, e.1),
        unique_names(entries.update(i, e)),
{
    let updated = entries.update(i, e);
    let lhs = insert_all(base, updated);
    let rhs = insert_all(base, entries).insert(e.0@, e.1);
    assert forall|k: Seq<char>| #[trigger] lhs.contains_key(k) <==> rhs.contains_key(k) by {
        lemma_insert_all_dom(base, updated, k);
        lemma_insert_all_dom(base, entries, k);
        if exists|j: int| 0 <= j < entries.len() && #[trigger] entries[j].0@ == k {
            let j = choose|j: int| 0 <= j < entries.len() && #[trigger] entries[j].0@ == k;
            assert(updated[j].0@ == k);
        }
        if exists|j: int| 0 <= j < updated.len() && #[trigger] updated[j].0@ == k {
            let j = choose|j: int| 0 <= j < updated.len() && #[trigger] updated[j].0@ == k;
            assert(entries[j].0@ == k);
        }
    }
    assert forall|k: Seq<char>| #[trigger] lhs.contains_key(k) implies lhs[k] == rhs[k] by {
        if k == e.0@ {
            lemma_insert_all_last_wins(base, updated, i);
        } else if exists|j: int| 0 <= j < entries.len() && #[trigger] entries[j].0@ == k {
            let j = choose|j: int| 0 <= j < entries.len() && #[trigger] entries[j].0@ == k;
            assert(updated[j] == entries[j]);
            lemma_insert_all_last_wins(base, updated, j);
            lemma_insert_all_last_wins(base, entries, j);
        } else {
            assert forall|j: int| 0 <= j < updated.len() implies #[trigger] updated[j].0@ != k by {
                assert(entries[j].0@ != k);
            }
            lemma_insert_all_untouched(base, updated, k);
            lemma_insert_all_untouched(base, entries, k);
        }
    }
    assert(lhs =~= rhs);
}

/// The position of the entry named `name`, if one is.
fn position_of<H>(entries: &Vec<(String, H)>, name: &String) -> (idx: Option<usize>)
    ensures
        idx matches Some(i) ==> i < entries@.len() && entries@[i as int].0@ == name@,
        idx is None ==> forall|i: int| 0 <= i < entries@.len() ==> #[trigger] entries@[i].0@ != name@,
{
    let mut i: usize = 0;
    while i < entries.len()
        invariant
            i <= entries@.len(),
            forall|j: int| 0 <= j < i ==> #[trigger] entries@[j].0@ != name@,
        decreases entries@.len() - i,
    {
        if entries[i].0 == *name {
            return Some(i);
        }
        i = i + 1;
    }
    None
}

/// The materials of a table by name, each with the renderer's value for it.
pub struct MaterialMap<H> {
    entries: Vec<(String, H)>,
}

impl<H> View for MaterialMap<H> {
    type V = Map<Seq<char>, H>;

    closed spec fn view(&self) -> Map<Seq<char>, H> {
        insert_all(Map::empty(), self.entries@)
    }
}

impl<H> MaterialMap<H> {
    #[verifier::type_invariant]
    spec fn names_are_unique(self) -> bool {
        unique_names(self.entries@)
    }

    /// An empty map.
    pub fn new() -> (m: Self)
        ensures
            m@ == Map::<Seq<char>, H>::empty(),
    {
        MaterialMap { entries: Vec::new() }
    }

    /// Registers `value` under `name`, replacing what was registered under it.
    pub fn insert(&mut self, name: String, value: H)
        ensures
            final(self)@ == old(self)@.insert(name@, value),
    {
        proof {
            use_type_invariant(&*self);
        }
        let mut entries: Vec<(String, H)> = Vec::new();
        std::mem::swap(&mut entries, &mut self.entries);
        let ghost before = entries@;
        match position_of(&entries, &name) {
            Some(i) => {
                let ghost e = (name, value);
                proof {
                    lemma_insert_all_update(Map::empty(), before, i as int, e);
                }
                entries.set(i, (name, value));
            },
            None => {
                let ghost e = (name, value);
                entries.push((name, value));
                proof {
                    assert(entries@.drop_last() =~= before);
                    assert forall|a: int, b: int|
                        0 <= a < entries@.len() && 0 <= b < entries@.len() && a != b implies
                        entries@[a].0@ != entries@[b].0@ by {
                        if a < before.len() && b < before.len() {
                            assert(entries@[a] == before[a] && entries@[b] == before[b]);
                        } else if a < before.len() {
                            assert(entries@[a] == before[a]);
                        } else {
                            assert(entries@[b] == before[b]);
                        }
                    }
                }
            },
        }
        self.entries = entries;
    }

    /// The value registered under `name`, if one is.
    pub fn get(&self, name: &str) -> (res: Option<&H>)
        ensures
            res == (if self@.contains_key(name@) {
                Some(&self@[name@])
            } else {
                None
            }),
    {
        proof {
            use_type_invariant(self);
        }
        let key = name.to_owned();
        match position_of(&self.entries, &key) {
            Some(i) => {
                proof {
                    lemma_insert_all_last_wins(Map::empty(), self.entries@, i as int);
                }
                Some(&self.entries[i].1)
            },
            None => {
                proof {
                    lemma_insert_all_untouched(Map::empty(), self.entries@, name@);
                }
                None
            },
        }
    }

    /// Whether a value is registered under `name`.
    pub fn contains(&self, name: &str) -> (res: bool)
        ensures
            res == self@.contains_key(name@),
    {
        self.get(name).is_some()
    }
    /// The value registered under `name`, or the default material's when none is.
    pub fn get_or_default(&self, name: &str) -> (res: &H)
        requires
            self@.contains_key(name@) || self@.contains_key(default_name()),
        ensures
            *res == (if self@.contains_key(name@) {
                self@[name@]
            } else {
                self@[default_name()]
            }),
    {
        match self.get(name) {
            Some(v) => v,
            None => {
                let fallback = self.get("default");
                proof {
                    reveal_strlit("default");
                }
                fallback.unwrap()
            },
        }
    }

    /// The material of a primitive: the table's playfield material for the playfield
    /// mesh; otherwise the primitive's own material when it names one that is
    /// registered, and the default material when it names none or an unknown one.
    pub fn primitive_material(
        &self,
        primitive_name: &str,
        material: &str,
        playfield_material: &str,
    ) -> (res: &H)
        requires
            primitive_name@ == playfield_mesh_name() ==> self@.contains_key(playfield_material@),
            primitive_name@ != playfield_mesh_name() && (material@.len() == 0
                || !self@.contains_key(material@)) ==> self@.contains_key(default_name()),
        ensures
            *res == spec_primitive_material(self@, primitive_name@, material@, playfield_material@),
    {
        let playfield_mesh = "playfield_mesh".to_owned();
        if primitive_name.to_owned() == playfield_mesh {
            self.get(playfield_material).unwrap()
        } else if material.is_empty() {
            proof {
                reveal_strlit("default");
            }
            self.get_or_default("default")
        } else {
            self.get_or_default(material)
        }
    }
}

/// The material that a primitive is drawn with, as `primitive_material` chooses it.
pub open spec fn spec_primitive_material<H>(
    m: Map<Seq<char>, H>,
    primitive_name: Seq<char>,
    material: Seq<char>,
    playfield_material: Seq<char>,
) -> H {
    if primitive_name == playfield_mesh_name() {
        m[playfield_material]
    } else if material.len() == 0 || !m.contains_key(material) {
        m[default_name()]
    } else {
        m[material]
    }
}

/// The material map of a table: the default material first, then each of the
/// table's materials in order, a later one replacing an earlier one of the same name
/// (the default one too).
pub fn create_materials<H>(default_material: H, materials: Vec<(String, H)>) -> (m: MaterialMap<H>)
    ensures
        m@ == insert_all(Map::empty().insert(default_name(), default_material), materials@),
        m@.contains_key(default_name()),
        forall|i: int| 0 <= i < materials@.len() ==> m@.contains_key(#[trigger] materials@[i].0@),
        forall|k: Seq<char>|
            #[trigger] m@.contains_key(k) <==> (k == "default"@ || exists|i: int|
                0 <= i < materials@.len() && #[trigger] materials@[i].0@ == k),
        forall|i: int|
            0 <= i < materials@.len() && (forall|j: int|
                i < j < materials@.len() ==> #[trigger] materials@[j].0@ != materials@[i].0@)
                ==> m@[#[trigger] materials@[i].0@] == materials@[i].1,
        (forall|i: int| 0 <= i < materials@.len() ==> #[trigger] materials@[i].0@ != "default"@)
            ==> m@["default"@] == default_material,
{
    let mut m = MaterialMap::new();
    m.insert("default".to_owned(), default_material);
    let ghost base = m@;
    let ghost all = materials@;
    let mut rest = materials;
    let ghost mut done: Seq<(String, H)> = Seq::empty();
    while rest.len() > 0
        invariant
            done + rest@ == all,
            m@ == insert_all(base, done),
        decreases rest@.len(),
    {
        let (name, value) = rest.remove(0);
        let ghost e = (name, value);
        m.insert(name, value);
        proof {
            assert((done.push(e)).drop_last() =~= done);
            assert(done.push(e) + rest@ =~= all);
            done = done.push(e);
        }
    }
    proof {
        assert(done =~= all);
        lemma_created_map_names(default_material, all, default_name());
        assert forall|i: int| 0 <= i < all.len() implies m@.contains_key(#[trigger] all[i].0@) by {
            lemma_created_map_names(default_material, all, all[i].0@);
        }
        let b = Map::empty().insert(default_name(), default_material);
        assert forall|k: Seq<char>|
            #[trigger] m@.contains_key(k) <==> (k == "default"@ || exists|i: int|
                0 <= i < all.len() && #[trigger] all[i].0@ == k) by {
            lemma_insert_all_dom(b, all, k);
        }
        assert forall|i: int|
            0 <= i < all.len() && (forall|j: int| i < j < all.len() ==> #[trigger] all[j].0@ != all[i].0@)
                implies m@[#[trigger] all[i].0@] == all[i].1 by {
            lemma_insert_all_last_wins(b, all, i);
        }
        if forall|i: int| 0 <= i < all.len() ==> #[trigger] all[i].0@ != "default"@ {
            lemma_insert_all_untouched(b, all, default_name());
        }
    }
    m
}

/// The material a primitive is drawn with: the playfield mesh always takes the table's
/// playfield material, whatever its own material is; any other primitive takes its own
/// material whenever that names a registered material (whatever characters the name
/// holds), and the default material only when its material is empty or unknown.
pub proof fn lemma_primitive_material_choice<H>(
    m: Map<Seq<char>, H>,
    primitive_name: Seq<char>,
    material: Seq<char>,
    playfield_material: Seq<char>,
)
    ensures
        primitive_name == "playfield_mesh"@ ==> spec_primitive_material(
            m,
            primitive_name,
            material,
            playfield_material,
        ) == m[playfield_material],
        primitive_name != "playfield_mesh"@ && material.len() > 0 && m.contains_key(material)
            ==> spec_primitive_material(m, primitive_name, material, playfield_material)
            == m[material],
        primitive_name != "playfield_mesh"@ && (material.len() == 0 || !m.contains_key(material))
            ==> spec_primitive_material(m, primitive_name, material, playfield_material)
            == m["default"@],
{
}

/// Every name that the default material or one of the table's materials carries is
/// registered in the map that `create_materials` builds, so a lookup of the default
/// material there always succeeds.
pub proof fn lemma_created_map_names<H>(default_material: H, materials: Seq<(String, H)>, k: Seq<char>)
    requires
        k == default_name() || exists|i: int| 0 <= i < materials.len() && #[trigger] materials[i].0@ == k,
    ensures
        insert_all(Map::empty().insert(default_name(), default_material), materials).contains_key(k),
{
    lemma_insert_all_dom(Map::empty().insert(default_name(), default_material), materials, k);
}

/// Among the table's materials, the last one of a name is the one registered under it.
pub proof fn lemma_later_material_wins<H>(default_material: H, materials: Seq<(String, H)>, i: int)
    requires
        0 <= i < materials.len(),
        forall|j: int| i < j < materials.len() ==> #[trigger] materials[j].0@ != materials[i].0@,
    ensures
        insert_all(Map::empty().insert(default_name(), default_material), materials)[materials[i].0@]
            == materials[i].1,
{
    lemma_insert_all_last_wins(Map::empty().insert(default_name(), default_material), materials, i);
}

/// When no table material is named "default", the default material is the one given.
pub proof fn lemma_default_kept<H>(default_material: H, materials: Seq<(String, H)>)
    requires
        forall|i: int| 0 <= i < materials.len() ==> #[trigger] materials[i].0@ != default_name(),
    ensures
        insert_all(Map::empty().insert(default_name(), default_material), materials)[default_name()]
            == default_material,
{
    lemma_insert_all_untouched(
        Map::empty().insert(default_name(), default_material),
        materials,
        default_name(),
    );
}

/// A lookup after an insertion gives back what was inserted, and leaves every other
/// name as it was: `after` is a material map as `insert(name, value)` leaves
/// `before`, so `get(name)` on it returns the inserted value and `get(other)` what it
/// returned before.
pub proof fn lemma_read_after_insert<H>(
    before: MaterialMap<H>,
    after: MaterialMap<H>,
    name: Seq<char>,
    value: H,
    other: Seq<char>,
)
    requires
        after@ == before@.insert(name, value),
    ensures
        after@.contains_key(name),
        after@[name] == value,
        other != name ==> (after@.contains_key(other) == before@.contains_key(other)),
        other != name && before@.contains_key(other) ==> after@[other] == before@[other],
{
}

} // verus!
