//! Bookkeeping of a pass's program inputs: texture units for its samplers
//! and the memo of its uniform locations.
use vstd::prelude::*;

verus! {

/// How many of the first `i` sampler names the program has.
pub open spec fn units_before(found: Seq<bool>, i: int) -> nat
    decreases i,
{
    if i <= 0 {
        0
    } else {
        units_before(found, i - 1) + if found[i - 1] {
            1nat
        } else {
            0nat
        }
    }
}

proof fn lemma_units_before_bounded(found: Seq<bool>, i: int)
    requires
        0 <= i,
    ensures
        units_before(found, i) <= i,
    decreases i,
{
    if i > 0 {
        lemma_units_before_bounded(found, i - 1);
    }
}

/// Texture units for the sampler names of a pass, listed in binding order
/// (2D textures, then 3D textures, then cube maps); `found[i]` says whether
/// the program has name `i`. Each name that it has gets the next unit,
/// counting from 0; a name that it lacks gets none and takes no unit.
pub fn assign_texture_units(found: &Vec<bool>) -> (r: Vec<Option<u32>>)
    requires
        found.len() <= u32::MAX,
    ensures
        r.len() == found.len(),
        forall|i: int|
            0 <= i < r.len() ==> #[trigger] r@[i] == if found@[i] {
                Some(units_before(found@, i) as u32)
            } else {
                None
            },
{
    let mut r: Vec<Option<u32>> = Vec::new();
    let mut unit: u32 = 0;
    let mut i: usize = 0;
    while i < found.len()
        invariant
            found.len() <= u32::MAX,
            i <= found.len(),
            r.len() == i,
            unit as nat == units_before(found@, i as int),
            forall|k: int|
                0 <= k < i ==> #[trigger] r@[k] == if found@[k] {
                    Some(units_before(found@, k) as u32)
                } else {
                    None
                },
        decreases found.len() - i,
    {
        proof {
            lemma_units_before_bounded(found@, i as int);
        }
        if found[i] {
            r.push(Some(unit));
            unit = unit + 1;
        } else {
            r.push(None);
        }
        i = i + 1;
    }
    r
}

/// Sampler names that the program has take consecutive units: between two
/// of them, with only missing names in between, the unit goes up by one.
pub proof fn lemma_units_without_gaps(found: Seq<bool>, i: int, j: int)
    requires
        0 <= i < j < found.len(),
        found[i],
        found[j],
        forall|k: int| i < k < j ==> !found[k],
    ensures
        units_before(found, j) == units_before(found, i) + 1,
    decreases j - i,
{
    if j - 1 > i {
        lemma_units_skip_missing(found, i + 1, j);
    }
}

proof fn lemma_units_skip_missing(found: Seq<bool>, i: int, j: int)
    requires
        0 < i <= j <= found.len(),
        forall|k: int| i <= k < j ==> !found[k],
    ensures
        units_before(found, j) == units_before(found, i),
    decreases j - i,
{
    if j > i {
        lemma_units_skip_missing(found, i, j - 1);
    }
}

/// The uniform locations that a program has been asked for, each looked up
/// once and kept for the program's lifetime. A name that the program lacks
/// is kept too, with no location.
pub struct UniformCache<L> {
    names: Vec<String>,
    locations: Vec<Option<L>>,
}

impl<L> UniformCache<L> {
    /// The names asked for so far, in order of first request.
    pub closed spec fn names(&self) -> Seq<Seq<char>> {
        self.names@.map_values(|s: String| s@)
    }

    /// The location kept for each of `names`.
    pub closed spec fn locations(&self) -> Seq<Option<L>> {
        self.locations@
    }

    pub open spec fn wf(&self) -> bool {
        &&& self.names().len() == self.locations().len()
        &&& forall|i: int, j: int|
            0 <= i < j < self.names().len() ==> self.names()[i] != self.names()[j]
    }

    /// Whether a location is kept for `name`.
    pub open spec fn has(&self, name: Seq<char>) -> bool {
        exists|i: int| 0 <= i < self.names().len() && self.names()[i] == name
    }

    pub fn new() -> (r: Self)
        ensures
            r.wf(),
            r.names().len() == 0,
    {
        let r = UniformCache { names: Vec::new(), locations: Vec::new() };
        assert(r.names() =~= Seq::<Seq<char>>::empty());
        r
    }

    /// The location kept for `name`, if it was asked for before.
    pub fn get(&self, name: &str) -> (r: Option<&Option<L>>)
        requires
            self.wf(),
        ensures
            r is Some <==> self.has(name@),
            r is Some ==> exists|i: int|
                0 <= i < self.names().len() && self.names()[i] == name@ && *r->0
                    == self.locations()[i],
    {
        let key = String::from_str(name);
        let mut i: usize = 0;
        while i < self.names.len()
            invariant
                self.wf(),
                key@ == name@,
                i <= self.names().len(),
                forall|k: int| 0 <= k < i ==> self.names()[k] != name@,
            decreases self.names.len() - i,
        {
            assert(self.names()[i as int] == self.names@[i as int]@);
            if self.names[i] == key {
                return Some(&self.locations[i]);
            }
            i = i + 1;
        }
        None
    }

    /// Keeps `location` for `name`, which was not asked for before.
    pub fn insert(&mut self, name: &str, location: Option<L>)
        requires
            old(self).wf(),
            !old(self).has(name@),
        ensures
            final(self).wf(),
            final(self).names() == old(self).names().push(name@),
            final(self).locations() == old(self).locations().push(location),
    {
        let key = String::from_str(name);
        self.names.push(key);
        self.locations.push(location);
        proof {
            assert(self.names() =~= old(self).names().push(name@));
        }
    }
}

} // verus!
