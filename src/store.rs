use vstd::prelude::*;
use crate::note::{Note, NoteView, Timestamp, UpdateNoteRequest, opt_view, updated_note};

verus! {

/// The notes of the service, keyed by id.
pub struct Store {
    notes: Vec<Note>,
    contents: Ghost<Map<Seq<char>, NoteView>>,
}

impl View for Store {
    type V = Map<Seq<char>, NoteView>;

    closed spec fn view(&self) -> Map<Seq<char>, NoteView> {
        self.contents@
    }
}

/// `l` lists the notes of `m`: each note once, in some order.
pub open spec fn lists(m: Map<Seq<char>, NoteView>, l: Seq<NoteView>) -> bool {
    &&& forall|i: int, j: int| 0 <= i < j < l.len() ==> l[i].id != l[j].id
    &&& forall|i: int| 0 <= i < l.len() ==> #[trigger] m.contains_key(l[i].id) && m[l[i].id] == l[i]
    &&& forall|k: Seq<char>| #[trigger] m.contains_key(k) ==> exists|i: int| 0 <= i < l.len() && l[i].id == k
}

/// Every note of `m` is filed under its own id and was not updated before it was created.
pub open spec fn notes_wf(m: Map<Seq<char>, NoteView>) -> bool {
    forall|k: Seq<char>| #[trigger] m.contains_key(k) ==> m[k].id == k && m[k].wf()
}

/// A list of a map's notes is as long as the map is large; in particular the
/// map is finite.
pub proof fn lemma_lists_len(m: Map<Seq<char>, NoteView>, l: Seq<NoteView>)
    requires
        lists(m, l),
    ensures
        m.dom().finite(),
        m.len() == l.len(),
{
    let ids = l.map_values(|n: NoteView| n.id);
    assert forall|i: int, j: int| 0 <= i < ids.len() && 0 <= j < ids.len() && i != j implies ids[i]
        != ids[j] by {
        if i < j {
            assert(l[i].id != l[j].id);
        } else {
            assert(l[j].id != l[i].id);
        }
    }
    ids.unique_seq_to_set();
    assert forall|k: Seq<char>| m.dom().contains(k) <==> ids.to_set().contains(k) by {
        if m.contains_key(k) {
            let i = choose|i: int| 0 <= i < l.len() && l[i].id == k;
            assert(ids[i] == k);
        }
        if ids.to_set().contains(k) {
            let i = choose|i: int| 0 <= i < ids.len() && ids[i] == k;
            assert(m.contains_key(l[i].id));
        }
    }
    assert(m.dom() =~= ids.to_set());
}

impl Store {
    /// The stored vector lists the contents, and each note in it is well formed.
    pub closed spec fn wf(&self) -> bool {
        &&& lists(self.contents@, self.notes@.map_values(|n: Note| n@))
        &&& notes_wf(self.contents@)
    }

    /// An empty store.
    pub fn new() -> (r: Store)
        ensures
            r.wf(),
            r@ == Map::<Seq<char>, NoteView>::empty(),
    {
        Store { notes: Vec::new(), contents: Ghost(Map::empty()) }
    }

    proof fn lemma_wf_facts(&self)
        requires
            self.wf(),
        ensures
            notes_wf(self@),
            forall|i: int| 0 <= i < self.notes@.len() ==> #[trigger] self@.contains_key(self.notes@[i]@.id)
                && self@[self.notes@[i]@.id] == self.notes@[i]@,
    {
        assert forall|i: int| 0 <= i < self.notes@.len() implies #[trigger] self@.contains_key(self.notes@[i]@.id)
            && self@[self.notes@[i]@.id] == self.notes@[i]@ by {
            let l = self.notes@.map_values(|n: Note| n@);
            assert(l[i] == self.notes@[i]@);
            assert(self@.contains_key(l[i].id));
        }
    }

    /// The index of the note with this id, if there is one.
    fn find(&self, id: &String) -> (r: Option<usize>)
        requires
            self.wf(),
        ensures
            match r {
                Some(i) => i < self.notes@.len() && self.notes@[i as int]@.id == id@,
                None => !self@.contains_key(id@),
            },
    {
        let ghost l = self.notes@.map_values(|n: Note| n@);
        let mut i: usize = 0;
        while i < self.notes.len()
            invariant
                i <= self.notes@.len(),
                l == self.notes@.map_values(|n: Note| n@),
                forall|j: int| 0 <= j < i ==> l[j].id != id@,
            decreases self.notes@.len() - i,
        {
            if self.notes[i].id == *id {
                return Some(i);
            }
            i = i + 1;
        }
        None
    }

    /// Adds the note, or replaces the one that has its id.
    pub fn insert(&mut self, note: Note)
        requires
            old(self).wf(),
            note@.wf(),
        ensures
            final(self).wf(),
            final(self)@ == old(self)@.insert(note@.id, note@),
    {
        let ghost v = note@;
        let ghost m0 = self@;
        let ghost l0 = self.notes@.map_values(|n: Note| n@);
        let ghost mut pos: int = 0;
        match self.find(&note.id) {
            Some(i) => {
                self.notes[i] = note;
                proof {
                    let l = self.notes@.map_values(|n: Note| n@);
                    assert(l =~= l0.update(i as int, v));
                    pos = i as int;
                    assert(l0[pos].id == v.id);
                }
            },
            None => {
                self.notes.push(note);
                proof {
                    let l = self.notes@.map_values(|n: Note| n@);
                    assert(l =~= l0.push(v));
                    pos = l0.len() as int;
                }
            },
        }
        self.contents = Ghost(self.contents@.insert(v.id, v));
        proof {
            let m = self@;
            let l = self.notes@.map_values(|n: Note| n@);
            assert(0 <= pos < l.len() && l[pos] == v);
            assert forall|i: int, j: int| 0 <= i < j < l.len() implies l[i].id != l[j].id by {
                if i != pos && j != pos {
                    assert(l0[i] == l[i] && l0[j] == l[j]);
                } else if i == pos {
                    assert(l[j] == l0[j]);
                    assert(l0[pos].id != l0[j].id);
                } else {
                    assert(l[i] == l0[i]);
                    assert(m0.contains_key(l0[i].id));
                    if pos < l0.len() {
                        assert(l0[i].id != l0[pos].id);
                    }
                }
            }
            assert forall|i: int| 0 <= i < l.len() implies #[trigger] m.contains_key(l[i].id) && m[l[i].id] == l[i] by {
                if i != pos {
                    assert(l[i] == l0[i]);
                    assert(m0.contains_key(l0[i].id));
                    assert(l0[i].id != v.id);
                }
            }
            assert(notes_wf(m));
            assert forall|k: Seq<char>| #[trigger] m.contains_key(k) implies exists|i: int|
                0 <= i < l.len() && l[i].id == k by {
                if k != v.id {
                    let j = choose|j: int| 0 <= j < l0.len() && l0[j].id == k;
                    assert(l[j].id == k);
                } else {
                    assert(l[pos].id == k);
                }
            }
            assert(lists(m, l));
            assert(self.wf());
        }
    }

    /// A copy of the note with this id, if there is one.
    pub fn get(&self, id: &String) -> (r: Option<Note>)
        requires
            self.wf(),
        ensures
            match r {
                Some(n) => self@.contains_key(id@) && n@ == self@[id@],
                None => !self@.contains_key(id@),
            },
    {
        proof {
            self.lemma_wf_facts();
        }
        match self.find(id) {
            Some(i) => Some(self.notes[i].copied()),
            None => None,
        }
    }

    /// A copy of every note, each once, in the order they were first added.
    pub fn list(&self) -> (r: Vec<Note>)
        requires
            self.wf(),
        ensures
            lists(self@, r@.map_values(|n: Note| n@)),
            self@.dom().finite(),
            r@.len() == self@.len(),
    {
        let ghost l = self.notes@.map_values(|n: Note| n@);
        let mut r: Vec<Note> = Vec::new();
        let mut i: usize = 0;
        while i < self.notes.len()
            invariant
                i <= self.notes@.len(),
                l == self.notes@.map_values(|n: Note| n@),
                r@.len() == i,
                r@.map_values(|n: Note| n@) == l.take(i as int),
            decreases self.notes@.len() - i,
        {
            let ghost r0 = r@;
            let c = self.notes[i].copied();
            r.push(c);
            proof {
                assert(r@ == r0.push(c));
                assert(c@ == l[i as int]);
                assert forall|j: int| 0 <= j < i implies r@.map_values(|n: Note| n@)[j] == l[j] by {
                    assert(r@[j] == r0[j]);
                    assert(r0.map_values(|n: Note| n@)[j] == l.take(i as int)[j]);
                }
                assert(r@.map_values(|n: Note| n@) =~= l.take(i + 1 as int));
            }
            i = i + 1;
        }
        proof {
            assert(l.take(i as int) =~= l);
            lemma_lists_len(self@, l);
        }
        r
    }

    /// Applies an update at time `now` to the note with this id, if there is
    /// one, and returns a copy of the note as it then stands.
    pub fn update(&mut self, id: &String, req: UpdateNoteRequest, now: Timestamp) -> (r: Option<Note>)
        requires
            old(self).wf(),
        ensures
            final(self).wf(),
            match r {
                Some(n) => old(self)@.contains_key(id@)
                    && n@ == updated_note(old(self)@[id@], opt_view(req.title), opt_view(req.content), now.micros as int)
                    && final(self)@ == old(self)@.insert(id@, n@),
                None => !old(self)@.contains_key(id@) && final(self)@ == old(self)@,
            },
    {
        proof {
            self.lemma_wf_facts();
        }
        match self.find(id) {
            Some(i) => {
                let mut n = self.notes[i].copied();
                proof {
                    assert(self@.contains_key(self.notes@[i as int]@.id));
                    assert(n@ == self@[id@]);
                }
                n.apply_update(req, now);
                let out = n.copied();
                self.insert(n);
                Some(out)
            },
            None => None,
        }
    }

    /// Removes the note with this id; says whether there was one.
    pub fn remove(&mut self, id: &String) -> (r: bool)
        requires
            old(self).wf(),
        ensures
            final(self).wf(),
            r == old(self)@.contains_key(id@),
            final(self)@ == old(self)@.remove(id@),
    {
        proof {
            self.lemma_wf_facts();
        }
        let ghost m0 = self@;
        let ghost l0 = self.notes@.map_values(|n: Note| n@);
        match self.find(id) {
            Some(i) => {
                self.notes.remove(i);
                self.contents = Ghost(self.contents@.remove(id@));
                proof {
                    let m = self@;
                    let l = self.notes@.map_values(|n: Note| n@);
                    assert(l =~= l0.remove(i as int));
                    assert forall|a: int, b: int| 0 <= a < b < l.len() implies l[a].id != l[b].id by {
                        let a0 = if a < i { a } else { a + 1 };
                        let b0 = if b < i { b } else { b + 1 };
                        assert(l[a] == l0[a0] && l[b] == l0[b0]);
                    }
                    assert forall|a: int| 0 <= a < l.len() implies #[trigger] m.contains_key(l[a].id) && m[l[a].id] == l[a] by {
                        let a0 = if a < i { a } else { a + 1 };
                        assert(l[a] == l0[a0]);
                        assert(m0.contains_key(l0[a0].id));
                        assert(l0[a0].id != l0[i as int].id);
                    }
                    assert forall|k: Seq<char>| #[trigger] m.contains_key(k) implies exists|a: int|
                        0 <= a < l.len() && l[a].id == k by {
                        let j = choose|j: int| 0 <= j < l0.len() && l0[j].id == k;
                        assert(j != i);
                        if j < i {
                            assert(l[j].id == k);
                        } else {
                            assert(l[j - 1].id == k);
                        }
                    }
                    assert(lists(m, l));
                }
                true
            },
            None => {
                proof {
                    assert(self@ =~= m0.remove(id@));
                }
                false
            },
        }
    }
}

} // verus!
