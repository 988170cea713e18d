//! Named animation tracks and the table a layer looks them up in.

use vstd::prelude::*;

verus! {

/// A named animation: the frame indices it shows, in order.
#[derive(Debug)]
pub struct AnimationTrack {
    pub name: String,
    pub frames: Vec<u32>,
}

/// No two tracks share a name.
spec fn names_distinct(tracks: Seq<AnimationTrack>) -> bool {
    forall|i: int, j: int|
        0 <= i < j < tracks.len() ==> (#[trigger] tracks[i]).name@ != (#[trigger] tracks[j]).name@
}

/// Whether the track at `i` carries `name`.
spec fn named_at(tracks: Seq<AnimationTrack>, name: Seq<char>, i: int) -> bool {
    0 <= i < tracks.len() && tracks[i].name@ == name
}

/// The map from each track's name to its frames.
spec fn table_of(tracks: Seq<AnimationTrack>) -> Map<Seq<char>, Seq<u32>> {
    Map::new(
        |name: Seq<char>| exists|i: int| named_at(tracks, name, i),
        |name: Seq<char>| tracks[choose|i: int| named_at(tracks, name, i)].frames@,
    )
}

/// In a table of distinct names, the track at `i` is the one its name maps to.
proof fn lemma_table_at(tracks: Seq<AnimationTrack>, i: int)
    requires
        names_distinct(tracks),
        0 <= i < tracks.len(),
    ensures
        table_of(tracks).contains_key(tracks[i].name@),
        table_of(tracks)[tracks[i].name@] == tracks[i].frames@,
{
    let name = tracks[i].name@;
    assert(named_at(tracks, name, i));
    let j = choose|j: int| named_at(tracks, name, j);
    assert(named_at(tracks, name, j));
    if j < i {
        assert(tracks[j].name@ != tracks[i].name@);
    } else if i < j {
        assert(tracks[i].name@ != tracks[j].name@);
    }
}

/// A table from animation names to frame sequences, in which every name
/// occurs at most once. Its view is the map from name to frames.
#[derive(Debug)]
pub struct TrackTable {
    tracks: Vec<AnimationTrack>,
}

impl View for TrackTable {
    type V = Map<Seq<char>, Seq<u32>>;

    closed spec fn view(&self) -> Map<Seq<char>, Seq<u32>> {
        table_of(self.tracks@)
    }
}

impl TrackTable {
    #[verifier::type_invariant]
    spec fn inv(self) -> bool {
        names_distinct(self.tracks@)
    }

    /// The empty table.
    pub fn new() -> (table: TrackTable)
        ensures
            table@ == Map::<Seq<char>, Seq<u32>>::empty(),
    {
        let table = TrackTable { tracks: Vec::new() };
        assert(table@ =~= Map::<Seq<char>, Seq<u32>>::empty()) by {
            assert forall|name: Seq<char>| !table@.contains_key(name) by {
                if table@.contains_key(name) {
                    let i = choose|i: int| named_at(table.tracks@, name, i);
                    assert(named_at(table.tracks@, name, i));
                }
            }
        }
        table
    }

    /// Where the track named `name` stands, if the table has one.
    fn position(&self, name: &String) -> (at: Option<usize>)
        ensures
            match at {
                Some(i) => named_at(self.tracks@, name@, i as int),
                None => forall|i: int| !named_at(self.tracks@, name@, i),
            },
    {
        let mut i: usize = 0;
        while i < self.tracks.len()
            invariant
                i <= self.tracks.len(),
                forall|j: int| 0 <= j < i ==> !named_at(self.tracks@, name@, j),
            decreases self.tracks.len() - i,
        {
            if self.tracks[i].name == *name {
                return Some(i);
            }
            i = i + 1;
        }
        None
    }

    /// Whether the table has a track named `name`.
    pub fn contains(&self, name: &str) -> (found: bool)
        ensures
            found == self@.contains_key(name@),
    {
        let key: String = name.to_owned();
        match self.position(&key) {
            Some(i) => {
                assert(named_at(self.tracks@, name@, i as int));
                true
            },
            None => false,
        }
    }

    /// The frames of the track named `name`.
    pub fn get(&self, name: &str) -> (frames: Option<&Vec<u32>>)
        ensures
            match frames {
                Some(found) => self@.contains_key(name@) && found@ == self@[name@],
                None => !self@.contains_key(name@),
            },
    {
        let key: String = name.to_owned();
        match self.position(&key) {
            Some(i) => {
                proof {
                    use_type_invariant(self);
                    lemma_table_at(self.tracks@, i as int);
                }
                Some(&self.tracks[i].frames)
            },
            None => None,
        }
    }

    /// The tracks of the table, each name once, in the order in which the
    /// names first came in.
    pub fn tracks(&self) -> (tracks: &Vec<AnimationTrack>)
        ensures
            forall|i: int|
                0 <= i < tracks@.len() ==> self@.contains_key((#[trigger] tracks@[i]).name@)
                    && self@[tracks@[i].name@] == tracks@[i].frames@,
            forall|name: Seq<char>|
                self@.contains_key(name) ==> exists|i: int|
                    0 <= i < tracks@.len() && (#[trigger] tracks@[i]).name@ == name,
            forall|i: int, j: int|
                0 <= i < j < tracks@.len() ==> (#[trigger] tracks@[i]).name@ != (
                #[trigger] tracks@[j]).name@,
    {
        proof {
            use_type_invariant(self);
            assert forall|i: int| 0 <= i < self.tracks@.len() implies self@.contains_key(
                (#[trigger] self.tracks@[i]).name@,
            ) && self@[self.tracks@[i].name@] == self.tracks@[i].frames@ by {
                lemma_table_at(self.tracks@, i);
            }
            assert forall|name: Seq<char>| self@.contains_key(name) implies exists|i: int|
                0 <= i < self.tracks@.len() && (#[trigger] self.tracks@[i]).name@ == name by {
                let i = choose|i: int| named_at(self.tracks@, name, i);
                assert(named_at(self.tracks@, name, i));
            }
        }
        &self.tracks
    }

    /// Sets the frames of the track named `name`, adding the track where the
    /// table has none by that name.
    pub fn insert(&mut self, name: String, frames: Vec<u32>)
        ensures
            final(self)@ == old(self)@.insert(name@, frames@),
    {
        proof {
            use_type_invariant(&*self);
        }
        let ghost before = self.tracks@;
        let ghost key = name@;
        let ghost value = frames@;
        let at = self.position(&name);
        let mut tracks: Vec<AnimationTrack> = Vec::new();
        core::mem::swap(&mut self.tracks, &mut tracks);
        match at {
            Some(i) => {
                tracks.set(i, AnimationTrack { name, frames });
            },
            None => {
                tracks.push(AnimationTrack { name, frames });
            },
        }
        proof {
            let after = tracks@;
            let slot: int = match at {
                Some(i) => i as int,
                None => before.len() as int,
            };
            assert(after.len() >= before.len());
            assert(after[slot].name@ == key && after[slot].frames@ == value);
            assert forall|i: int| 0 <= i < before.len() && i != slot implies after[i]
                == before[i] by {}
            assert(names_distinct(after)) by {
                assert forall|i: int, j: int| 0 <= i < j < after.len() implies after[i].name@
                    != after[j].name@ by {
                    if i == slot {
                        assert(!named_at(before, key, j) || at.is_some());
                        if at.is_some() {
                            assert(before[i].name@ != before[j].name@);
                        }
                    } else if j == slot {
                        assert(!named_at(before, key, i) || at.is_some());
                        if at.is_some() {
                            assert(before[i].name@ != before[j].name@);
                        }
                    } else {
                        assert(before[i].name@ != before[j].name@);
                    }
                }
            }
            let wanted = table_of(before).insert(key, value);
            lemma_table_at(after, slot);
            assert forall|other: Seq<char>| #[trigger]
                table_of(after).dom().contains(other) == wanted.dom().contains(other) by {
                if other != key {
                    if table_of(before).dom().contains(other) {
                        let i = choose|i: int| named_at(before, other, i);
                        assert(named_at(before, other, i));
                        assert(named_at(after, other, i));
                    }
                    if table_of(after).dom().contains(other) {
                        let i = choose|i: int| named_at(after, other, i);
                        assert(named_at(after, other, i));
                        assert(named_at(before, other, i));
                    }
                }
            }
            assert forall|other: Seq<char>| #[trigger]
                wanted.dom().contains(other) implies table_of(after)[other] == wanted[other] by {
                if other != key {
                    let i = choose|i: int| named_at(before, other, i);
                    assert(named_at(before, other, i));
                    assert(named_at(after, other, i));
                    lemma_table_at(before, i);
                    lemma_table_at(after, i);
                }
            }
            assert(table_of(after) =~= wanted);
        }
        core::mem::swap(&mut self.tracks, &mut tracks);
    }
}

impl Clone for TrackTable {
    fn clone(&self) -> (table: TrackTable)
        ensures
            table@ == self@,
    {
        proof {
            use_type_invariant(self);
        }
        let mut tracks: Vec<AnimationTrack> = Vec::new();
        let mut i: usize = 0;
        while i < self.tracks.len()
            invariant
                i <= self.tracks.len(),
                tracks.len() == i,
                forall|j: int|
                    0 <= j < i ==> (#[trigger] tracks@[j]).name@ == self.tracks@[j].name@
                        && tracks@[j].frames@ == self.tracks@[j].frames@,
            decreases self.tracks.len() - i,
        {
            let name: String = self.tracks[i].name.clone();
            let frames: Vec<u32> = copy_frames(&self.tracks[i].frames);
            tracks.push(AnimationTrack { name, frames });
            i = i + 1;
        }
        proof {
            let mine = self.tracks@;
            let theirs = tracks@;
            assert(names_distinct(theirs)) by {
                assert forall|i: int, j: int| 0 <= i < j < theirs.len() implies theirs[i].name@
                    != theirs[j].name@ by {
                    assert(mine[i].name@ != mine[j].name@);
                }
            }
            assert forall|name: Seq<char>| #[trigger]
                table_of(theirs).dom().contains(name) == table_of(mine).dom().contains(name) by {
                if table_of(mine).dom().contains(name) {
                    let i = choose|i: int| named_at(mine, name, i);
                    assert(named_at(mine, name, i));
                    assert(named_at(theirs, name, i));
                }
                if table_of(theirs).dom().contains(name) {
                    let i = choose|i: int| named_at(theirs, name, i);
                    assert(named_at(theirs, name, i));
                    assert(named_at(mine, name, i));
                }
            }
            assert forall|name: Seq<char>| #[trigger]
                table_of(mine).dom().contains(name) implies table_of(theirs)[name] == table_of(
                mine,
            )[name] by {
                let i = choose|i: int| named_at(mine, name, i);
                assert(named_at(mine, name, i));
                assert(named_at(theirs, name, i));
                lemma_table_at(mine, i);
                lemma_table_at(theirs, i);
            }
            assert(table_of(theirs) =~= table_of(mine));
        }
        TrackTable { tracks }
    }
}

/// A fresh vector holding the same frames in the same order.
pub fn copy_frames(frames: &Vec<u32>) -> (copy: Vec<u32>)
    ensures
        copy@ == frames@,
{
    let mut copy: Vec<u32> = Vec::new();
    let mut i: usize = 0;
    while i < frames.len()
        invariant
            i <= frames.len(),
            copy@ == frames@.subrange(0, i as int),
        decreases frames.len() - i,
    {
        copy.push(frames[i]);
        assert(copy@ =~= frames@.subrange(0, i + 1));
        i = i + 1;
    }
    assert(frames@.subrange(0, frames.len() as int) =~= frames@);
    copy
}

} // verus!
