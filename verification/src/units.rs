//! Sets of residency units and texts that units are marked with.

use vstd::prelude::*;

use crate::offload::OffloadUnitId;
use crate::order::text_precedes;

verus! {

/// The texts of identifiers.
pub open spec fn id_texts(ids: Seq<OffloadUnitId>) -> Seq<Seq<char>> {
    ids.map_values(|id: OffloadUnitId| id@)
}

/// A set of residency units.
#[derive(Debug)]
pub struct UnitSet {
    ids: Vec<OffloadUnitId>,
}

impl View for UnitSet {
    type V = Set<Seq<char>>;

    closed spec fn view(&self) -> Set<Seq<char>> {
        id_texts(self.ids@).to_set()
    }
}

/// Copies an identifier.
pub fn copy_id(id: &OffloadUnitId) -> (copy: OffloadUnitId)
    ensures
        copy == *id,
{
    OffloadUnitId { id: id.id.clone() }
}

impl UnitSet {
    #[verifier::type_invariant]
    spec fn listed_once(self) -> bool {
        id_texts(self.ids@).no_duplicates()
    }

    /// The empty set.
    pub fn new() -> (set: Self)
        ensures
            set@ == Set::<Seq<char>>::empty(),
    {
        let ids: Vec<OffloadUnitId> = Vec::new();
        proof {
            assert(id_texts(ids@) =~= Seq::empty());
            assert(id_texts(ids@).to_set() =~= Set::<Seq<char>>::empty());
        }
        UnitSet { ids }
    }

    fn find(&self, id: &OffloadUnitId) -> (at: usize)
        ensures
            at <= self.ids@.len(),
            at < self.ids@.len() ==> self.ids@[at as int]@ == id@,
            at == self.ids@.len() <==> !self@.contains(id@),
    {
        let ghost texts = id_texts(self.ids@);
        let mut at: usize = 0;
        while at < self.ids.len()
            invariant
                at <= self.ids@.len(),
                texts == id_texts(self.ids@),
                forall|i: int| 0 <= i < at ==> #[trigger] texts[i] != id@,
            decreases self.ids@.len() - at,
        {
            if self.ids[at].id == id.id {
                assert(texts[at as int] == id@);
                assert(texts.to_set().contains(id@));
                return at;
            }
            assert(texts[at as int] == self.ids@[at as int]@);
            at = at + 1;
        }
        at
    }

    /// Whether a unit is in the set.
    pub fn contains(&self, id: &OffloadUnitId) -> (found: bool)
        ensures
            found == self@.contains(id@),
    {
        self.find(id) < self.ids.len()
    }

    /// How many units are in the set.
    pub fn len(&self) -> (count: usize)
        ensures
            count == self@.len(),
            self@.finite(),
    {
        proof {
            use_type_invariant(self);
            id_texts(self.ids@).unique_seq_to_set();
        }
        self.ids.len()
    }

    /// Puts a unit into the set.
    pub fn insert(&mut self, id: &OffloadUnitId)
        ensures
            final(self)@ == old(self)@.insert(id@),
    {
        proof {
            use_type_invariant(&*self);
        }
        if self.contains(id) {
            assert(self@.insert(id@) =~= self@);
            return;
        }
        let mut ids: Vec<OffloadUnitId> = Vec::new();
        std::mem::swap(&mut ids, &mut self.ids);
        let ghost before = ids@;
        proof {
            let texts = id_texts(before);
            assert(!texts.contains(id@)) by {
                if texts.contains(id@) {
                    assert(texts.to_set().contains(id@));
                }
            }
        }
        ids.push(copy_id(id));
        proof {
            let texts = id_texts(before);
            let longer = id_texts(ids@);
            assert(longer =~= texts.push(id@));
            assert(longer.no_duplicates());
            assert forall|text: Seq<char>| #[trigger] longer.to_set().contains(text)
                == texts.to_set().insert(id@).contains(text) by {
                vstd::seq_lib::lemma_seq_contains_after_push(texts, id@, text);
            }
            assert(longer.to_set() =~= texts.to_set().insert(id@));
        }
        self.ids = ids;
    }

    /// Takes a unit out of the set, and answers whether it was there.
    pub fn remove(&mut self, id: &OffloadUnitId) -> (found: bool)
        ensures
            found == old(self)@.contains(id@),
            final(self)@ == old(self)@.remove(id@),
    {
        proof {
            use_type_invariant(&*self);
        }
        let at: usize = self.find(id);
        if at == self.ids.len() {
            assert(self@.remove(id@) =~= self@);
            return false;
        }
        let mut ids: Vec<OffloadUnitId> = Vec::new();
        std::mem::swap(&mut ids, &mut self.ids);
        let ghost before = ids@;
        let _taken = ids.remove(at);
        proof {
            let texts = id_texts(before);
            let shorter = id_texts(ids@);
            assert(shorter =~= texts.remove(at as int));
            assert(texts[at as int] == id@);
            assert forall|text: Seq<char>| #[trigger] shorter.to_set().contains(text)
                == texts.to_set().remove(id@).contains(text) by {
                if shorter.contains(text) {
                    let i = choose|i: int| 0 <= i < shorter.len() && shorter[i] == text;
                    let j = if i < at {
                        i
                    } else {
                        i + 1
                    };
                    assert(texts[j] == text);
                    assert(texts.contains(text));
                    assert(j != at);
                }
                if texts.contains(text) && text != id@ {
                    let j = choose|j: int| 0 <= j < texts.len() && texts[j] == text;
                    let i = if j < at {
                        j
                    } else {
                        j - 1
                    };
                    assert(shorter[i] == text);
                    assert(shorter.contains(text));
                }
            }
            assert(shorter.to_set() =~= texts.to_set().remove(id@));
            assert forall|i: int, j: int|
                0 <= i < shorter.len() && 0 <= j < shorter.len() && i != j implies shorter[i]
                != shorter[j] by {
                let a = if i < at {
                    i
                } else {
                    i + 1
                };
                let b = if j < at {
                    j
                } else {
                    j + 1
                };
                assert(texts[a] != texts[b]);
            }
        }
        self.ids = ids;
        true
    }
}

/// A unit and the text that it is marked with.
#[derive(Debug)]
pub struct UnitNote {
    /// The unit.
    pub id: OffloadUnitId,
    /// The text.
    pub text: String,
}

/// The texts that units are marked with; of several for one unit the last counts.
pub open spec fn notes_map(notes: Seq<UnitNote>) -> Map<Seq<char>, Seq<char>>
    decreases notes.len(),
{
    if notes.len() == 0 {
        Map::empty()
    } else {
        notes_map(notes.drop_last()).insert(notes.last().id@, notes.last().text@)
    }
}

/// Units that are marked with a text.
#[derive(Debug)]
pub struct UnitNotes {
    notes: Vec<UnitNote>,
}

impl View for UnitNotes {
    type V = Map<Seq<char>, Seq<char>>;

    closed spec fn view(&self) -> Map<Seq<char>, Seq<char>> {
        notes_map(self.notes@)
    }
}

/// The first of the units in dictionary order.
pub open spec fn is_least(units: Set<Seq<char>>, id: Seq<char>) -> bool {
    &&& units.contains(id)
    &&& forall|other: Seq<char>| #[trigger]
        units.contains(other) ==> crate::order::text_order(id, other)
}

impl UnitNotes {
    /// No marks.
    pub fn new() -> (notes: Self)
        ensures
            notes@ == Map::<Seq<char>, Seq<char>>::empty(),
    {
        UnitNotes { notes: Vec::new() }
    }

    /// Marks a unit.
    pub fn insert(&mut self, id: &OffloadUnitId, text: String)
        ensures
            final(self)@ == old(self)@.insert(id@, text@),
    {
        let ghost before = self.notes@;
        self.notes.push(UnitNote { id: copy_id(id), text });
        assert(self.notes@.drop_last() =~= before);
    }

    /// Takes the mark of a unit away, and returns it.
    pub fn remove(&mut self, id: &OffloadUnitId) -> (text: Option<String>)
        ensures
            match text {
                Some(text) => old(self)@.contains_key(id@) && old(self)@[id@] == text@,
                None => !old(self)@.contains_key(id@),
            },
            final(self)@ == old(self)@.remove(id@),
    {
        let ghost all = self.notes@;
        let mut taken: Vec<UnitNote> = Vec::new();
        std::mem::swap(&mut taken, &mut self.notes);
        let mut kept: Vec<UnitNote> = Vec::new();
        let mut found: Option<String> = None;
        for note in walk: taken
            invariant
                walk.seq() == all,
                notes_map(kept@) == notes_map(all.take(walk.index() as int)).remove(id@),
                match found {
                    Some(text) => notes_map(all.take(walk.index() as int)).contains_key(id@)
                        && notes_map(all.take(walk.index() as int))[id@] == text@,
                    None => !notes_map(all.take(walk.index() as int)).contains_key(id@),
                },
        {
            let ghost at = walk.index() as int;
            let ghost before = kept@;
            proof {
                assert(note == all[at]);
                assert(all.take(at + 1).drop_last() =~= all.take(at));
            }
            if note.id.id == id.id {
                proof {
                    let map = notes_map(all.take(at));
                    assert(map.insert(id@, note.text@).remove(id@) =~= map.remove(id@));
                }
                found = Some(note.text);
            } else {
                proof {
                    let map = notes_map(all.take(at));
                    assert(map.insert(note.id@, note.text@).remove(id@) =~= map.remove(id@).insert(
                        note.id@,
                        note.text@,
                    ));
                }
                kept.push(note);
                assert(kept@.drop_last() =~= before);
            }
        }
        assert(all.take(all.len() as int) =~= all);
        self.notes = kept;
        found
    }

    /// Returns the first marked unit in dictionary order, with its text.
    pub fn first(&self) -> (first: Option<(OffloadUnitId, String)>)
        ensures
            match first {
                Some((id, text)) => {
                    &&& is_least(self@.dom(), id@)
                    &&& self@[id@] == text@
                },
                None => self@.dom() == Set::<Seq<char>>::empty(),
            },
    {
        let mut first: Option<usize> = None;
        let mut index: usize = 0;
        while index < self.notes.len()
            invariant
                index <= self.notes@.len(),
                match first {
                    Some(at) => {
                        &&& at < index
                        &&& is_least(
                            notes_map(self.notes@.take(index as int)).dom(),
                            self.notes@[at as int].id@,
                        )
                        &&& notes_map(self.notes@.take(index as int))[self.notes@[at as int].id@]
                            == self.notes@[at as int].text@
                    },
                    None => index == 0,
                },
            decreases self.notes@.len() - index,
        {
            let ghost map = notes_map(self.notes@.take(index as int));
            let ghost note = self.notes@[index as int];
            proof {
                assert(self.notes@.take(index + 1).drop_last() =~= self.notes@.take(index as int));
                assert(notes_map(self.notes@.take(index + 1)) == map.insert(note.id@, note.text@));
            }
            let replace = match first {
                Some(at) => text_precedes(
                    self.notes[index].id.as_str(),
                    self.notes[at].id.as_str(),
                ),
                None => true,
            };
            proof {
                let longer = map.insert(note.id@, note.text@);
                if first is Some {
                    let at = first->0 as int;
                    let least = self.notes@[at].id@;
                    crate::order::text_order_is_connected(note.id@, least);
                    if replace {
                        assert forall|other: Seq<char>| #[trigger]
                            longer.dom().contains(other) implies crate::order::text_order(
                            note.id@,
                            other,
                        ) by {
                            if map.dom().contains(other) {
                                crate::order::text_order_is_transitive(note.id@, least, other);
                            } else {
                                crate::order::text_order_is_connected(note.id@, note.id@);
                            }
                        }
                    } else if note.id@ == least {
                        crate::order::text_order_is_connected(least, least);
                    }
                } else {
                    crate::order::text_order_is_connected(note.id@, note.id@);
                    assert(self.notes@.take(0).len() == 0);
                }
            }
            if replace {
                first = Some(index);
            }
            index = index + 1;
        }
        assert(self.notes@.take(index as int) =~= self.notes@);
        match first {
            Some(at) => Some((copy_id(&self.notes[at].id), self.notes[at].text.clone())),
            None => None,
        }
    }
}

/// The last text that a unit is marked with counts, and marking one unit leaves the
/// others as they were.
pub proof fn the_last_note_counts(notes: Seq<UnitNote>, note: UnitNote, other: Seq<char>)
    ensures
        notes_map(notes.push(note)).contains_key(note.id@),
        notes_map(notes.push(note))[note.id@] == note.text@,
        other != note.id@ ==> notes_map(notes.push(note)).contains_key(other) == notes_map(
            notes,
        ).contains_key(other),
        other != note.id@ && notes_map(notes).contains_key(other) ==> notes_map(
            notes.push(note),
        )[other] == notes_map(notes)[other],
        !notes_map(Seq::empty()).contains_key(other),
{
    assert(notes.push(note).drop_last() =~= notes);
}

/// There is only one first unit.
pub proof fn only_one_unit_is_first(units: Set<Seq<char>>, left: Seq<char>, right: Seq<char>)
    requires
        is_least(units, left),
        is_least(units, right),
    ensures
        left == right,
{
    crate::order::text_order_is_antisymmetric(left, right);
}

} // verus!
