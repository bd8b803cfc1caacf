use serde_json::Value;
use vstd::prelude::*;

verus! {

/// A pair of grid or pixel offsets.
#[derive(Clone, Copy, Debug, PartialEq, Eq, Hash, Structural)]
pub struct IVec2 {
    pub x: i32,
    pub y: i32,
}

/// A position in world pixels, with Y growing upward.
#[derive(Clone, Copy, Debug, PartialEq, Eq, Hash, Structural)]
pub struct WorldPixel {
    pub x: i64,
    pub y: i64,
}

/// A tile position inside one level, counted from the level's lower left tile.
#[derive(Clone, Copy, Debug, PartialEq, Eq, Hash, Structural)]
pub struct GridCoords {
    pub x: i32,
    pub y: i32,
}

/// An authored adjacency edge: the level on the other side of a border.
#[derive(Clone, Debug)]
pub struct NeighbourLevel {
    pub level_iid: String,
}

/// One authored map region, as the level data provider describes it.
#[derive(Clone, Debug)]
pub struct Level {
    pub iid: String,
    pub world_x: i32,
    pub world_y: i32,
    pub px_wid: i32,
    pub px_hei: i32,
    pub world_depth: i32,
    pub neighbours: Vec<NeighbourLevel>,
}

/// The identifiers that locate one entity instance in the authored world.
#[derive(Clone, Debug)]
pub struct EntityRef {
    pub entity_iid: String,
    pub level_iid: String,
}

/// One entity instance as the world's table of contents lists it: where it
/// stands in world pixels, how large it is, and its exported fields.
#[derive(Clone, Debug)]
pub struct TocInstance {
    pub fields: Option<Value>,
    pub hei_px: i32,
    pub iids: EntityRef,
    pub wid_px: i32,
    pub world_x: i32,
    pub world_y: i32,
}

/// All instances of one entity type across the whole world.
#[derive(Clone, Debug)]
pub struct TocEntry {
    pub identifier: String,
    pub instances_data: Vec<TocInstance>,
}

/// The index of the first level of `levels` named `iid`, if any is.
pub open spec fn first_level_with_iid(levels: Seq<Level>, iid: Seq<char>) -> Option<int> {
    if exists|i: int| 0 <= i < levels.len() && #[trigger] levels[i].iid@ == iid {
        Some(
            choose|i: int|
                0 <= i < levels.len() && #[trigger] levels[i].iid@ == iid && forall|j: int|
                    0 <= j < i ==> #[trigger] levels[j].iid@ != iid,
        )
    } else {
        None
    }
}

/// Looks a level up by its identifier. Where several levels share it, the
/// first one is meant.
pub fn find_level(levels: &Vec<Level>, iid: &String) -> (found: Option<usize>)
    ensures
        match found {
            Some(i) => first_level_with_iid(levels@, iid@) == Some(i as int),
            None => first_level_with_iid(levels@, iid@) is None,
        },
        found matches Some(i) ==> i < levels.len() && levels[i as int].iid@ == iid@ && forall|j: int|
            0 <= j < i ==> #[trigger] levels[j].iid@ != iid@,
        found is None ==> forall|j: int| 0 <= j < levels.len() ==> #[trigger] levels[j].iid@ != iid@,
{
    let mut i: usize = 0;
    while i < levels.len()
        invariant
            i <= levels.len(),
            forall|j: int| 0 <= j < i ==> #[trigger] levels[j].iid@ != iid@,
        decreases levels.len() - i,
    {
        if same_iid(&levels[i].iid, iid) {
            proof {
                let w = i as int;
                assert(0 <= w < levels.len() && levels[w].iid@ == iid@ && forall|j: int|
                    0 <= j < w ==> #[trigger] levels[j].iid@ != iid@);
                let c = first_level_with_iid(levels@, iid@).unwrap();
                assert(c == w) by {
                    if c < w {
                        assert(levels[c].iid@ != iid@);
                    }
                    if w < c {
                        assert(levels[w].iid@ != iid@);
                    }
                }
            }
            return Some(i);
        }
        i += 1;
    }
    None
}

/// The identifiers that occur in a list, as a set of texts.
pub open spec fn iids_of(iids: Seq<String>) -> Set<Seq<char>> {
    Set::new(|iid: Seq<char>| exists|i: int| 0 <= i < iids.len() && #[trigger] iids[i]@ == iid)
}

/// Whether `iid` occurs in the list `iids`.
pub fn contains_iid(iids: &Vec<String>, iid: &String) -> (found: bool)
    ensures
        found == iids_of(iids@).contains(iid@),
{
    let mut i: usize = 0;
    while i < iids.len()
        invariant
            i <= iids.len(),
            forall|j: int| 0 <= j < i ==> #[trigger] iids[j]@ != iid@,
        decreases iids.len() - i,
    {
        if same_iid(&iids[i], iid) {
            return true;
        }
        i += 1;
    }
    false
}

/// An optional identifier as its text.
pub open spec fn opt_iid_view(iid: Option<String>) -> Option<Seq<char>> {
    match iid {
        Some(iid) => Some(iid@),
        None => None,
    }
}

/// Whether two optional identifiers are both absent or the same text.
pub fn same_opt_iid(a: &Option<String>, b: &Option<String>) -> (r: bool)
    ensures
        r == (opt_iid_view(*a) == opt_iid_view(*b)),
{
    match (a, b) {
        (Some(a), Some(b)) => same_iid(a, b),
        (None, None) => true,
        _ => false,
    }
}

/// A set of level identifiers: the levels that are to be resident.
pub struct LevelSet {
    iids: Vec<String>,
}

impl View for LevelSet {
    type V = Set<Seq<char>>;

    closed spec fn view(&self) -> Set<Seq<char>> {
        iids_of(self.iids@)
    }
}

/// Whether no text occurs twice in a list of identifiers.
pub open spec fn distinct_iids(iids: Seq<String>) -> bool {
    forall|i: int, j: int|
        0 <= i < j < iids.len() ==> (#[trigger] iids[i])@ != (#[trigger] iids[j])@
}

impl LevelSet {
    /// What holds of every level set: it lists none of its identifiers twice.
    pub closed spec fn wf(&self) -> bool {
        distinct_iids(self.iids@)
    }

    /// The empty set.
    pub fn new() -> (set: Self)
        ensures
            set.wf(),
            set@ == Set::<Seq<char>>::empty(),
    {
        let set = LevelSet { iids: Vec::new() };
        assert(set@ =~= Set::<Seq<char>>::empty());
        set
    }

    /// Whether the set holds `iid`.
    pub fn contains(&self, iid: &String) -> (found: bool)
        ensures
            found == self@.contains(iid@),
    {
        contains_iid(&self.iids, iid)
    }

    /// Adds `iid` to the set. Returns whether it was new.
    pub fn insert(&mut self, iid: String) -> (added: bool)
        requires
            old(self).wf(),
        ensures
            final(self).wf(),
            final(self)@ == old(self)@.insert(iid@),
            added == !old(self)@.contains(iid@),
    {
        if contains_iid(&self.iids, &iid) {
            assert(self@ =~= old(self)@.insert(iid@));
            false
        } else {
            self.iids.push(iid);
            proof {
                assert forall|t: Seq<char>| self@.contains(t) <==> old(self)@.insert(
                    iid@,
                ).contains(t) by {
                    if self@.contains(t) {
                        let i = choose|i: int| 0 <= i < self.iids.len() && self.iids[i]@ == t;
                        if i < old(self).iids.len() {
                            assert(old(self).iids[i]@ == t);
                        }
                    }
                    if old(self)@.contains(t) {
                        let i = choose|i: int|
                            0 <= i < old(self).iids.len() && old(self).iids[i]@ == t;
                        assert(self.iids[i]@ == t);
                    }
                    if t == iid@ {
                        assert(self.iids[old(self).iids.len() as int]@ == t);
                    }
                }
                assert(self@ =~= old(self)@.insert(iid@));
                assert forall|i: int, j: int| 0 <= i < j < self.iids.len() implies (
                #[trigger] self.iids@[i])@ != (#[trigger] self.iids@[j])@ by {
                    if j == old(self).iids.len() {
                        assert(old(self).iids[i]@ != iid@);
                    } else {
                        assert(old(self).iids@[i]@ != old(self).iids@[j]@);
                    }
                }
            }
            true
        }
    }

    /// How many identifiers the set holds.
    pub fn len(&self) -> (n: usize)
        requires
            self.wf(),
        ensures
            n == self@.len(),
            self@.finite(),
    {
        proof {
            lemma_distinct_iids_len(self.iids@);
        }
        self.iids.len()
    }

    /// The identifiers of the set, each one once.
    pub fn iids(&self) -> (iids: &Vec<String>)
        requires
            self.wf(),
        ensures
            distinct_iids(iids@),
            iids_of(iids@) == self@,
    {
        &self.iids
    }

    /// A copy of the set.
    pub fn duplicate(&self) -> (copy: Self)
        requires
            self.wf(),
        ensures
            copy.wf(),
            copy@ == self@,
    {
        let mut iids: Vec<String> = Vec::new();
        let mut i: usize = 0;
        while i < self.iids.len()
            invariant
                i <= self.iids.len(),
                iids.len() == i,
                forall|j: int| 0 <= j < i ==> (#[trigger] iids[j])@ == self.iids[j]@,
            decreases self.iids.len() - i,
        {
            iids.push(self.iids[i].clone());
            i += 1;
        }
        let copy = LevelSet { iids };
        proof {
            assert forall|t: Seq<char>| copy@.contains(t) <==> self@.contains(t) by {
                if copy@.contains(t) {
                    let i = choose|i: int| 0 <= i < copy.iids.len() && copy.iids[i]@ == t;
                    assert(self.iids[i]@ == t);
                }
                if self@.contains(t) {
                    let i = choose|i: int| 0 <= i < self.iids.len() && self.iids[i]@ == t;
                    assert(copy.iids[i]@ == t);
                }
            }
            assert(copy@ =~= self@);
            assert forall|i: int, j: int| 0 <= i < j < copy.iids.len() implies (
            #[trigger] copy.iids@[i])@ != (#[trigger] copy.iids@[j])@ by {
                assert(self.iids@[i]@ != self.iids@[j]@);
            }
        }
        copy
    }
}

/// A list that names no identifier twice names as many as it is long.
pub proof fn lemma_distinct_iids_len(iids: Seq<String>)
    requires
        distinct_iids(iids),
    ensures
        iids_of(iids).finite(),
        iids_of(iids).len() == iids.len(),
    decreases iids.len(),
{
    if iids.len() == 0 {
        assert(iids_of(iids) =~= Set::<Seq<char>>::empty());
    } else {
        let rest = iids.drop_last();
        assert forall|i: int, j: int| 0 <= i < j < rest.len() implies (#[trigger] rest[i])@ != (
        #[trigger] rest[j])@ by {
            assert(iids[i]@ != iids[j]@);
        }
        lemma_distinct_iids_len(rest);
        let last = iids.last()@;
        assert forall|t: Seq<char>| iids_of(iids).contains(t) <==> iids_of(rest).insert(
            last,
        ).contains(t) by {
            if iids_of(iids).contains(t) {
                let i = choose|i: int| 0 <= i < iids.len() && #[trigger] iids[i]@ == t;
                if i < rest.len() {
                    assert(rest[i]@ == t);
                }
            }
            if iids_of(rest).contains(t) {
                let i = choose|i: int| 0 <= i < rest.len() && #[trigger] rest[i]@ == t;
                assert(iids[i]@ == t);
            }
            if t == last {
                assert(iids[iids.len() - 1]@ == t);
            }
        }
        assert(iids_of(iids) =~= iids_of(rest).insert(last));
        if iids_of(rest).contains(last) {
            let i = choose|i: int| 0 <= i < rest.len() && #[trigger] rest[i]@ == last;
            assert(iids[i]@ != iids[iids.len() - 1]@);
        }
    }
}

/// Whether two identifiers are the same text.
pub fn same_iid(a: &String, b: &String) -> (r: bool)
    ensures
        r == (a@ == b@),
{
    *a == *b
}

} // verus!
