//! The in-memory note directory: which notes exist, which one is being
//! edited, and which deletions are pending.
//!
//! Notes are known here by plain 128-bit identifiers (UUIDs at the storage
//! boundary).  Deletion requested from a context menu is queued as an
//! explicit command and drained once per update cycle, so no shared
//! mutable state is needed between the menu and the update path.  Deleting
//! the active note falls back to the first remaining note.

use vstd::prelude::*;

verus! {

/// The identifiers of `s` with every occurrence of `id` removed, in order.
pub open spec fn remove_id(s: Seq<u128>, id: u128) -> Seq<u128>
    decreases s.len(),
{
    if s.len() == 0 {
        Seq::<u128>::empty()
    } else if s[0] == id {
        remove_id(s.skip(1), id)
    } else {
        seq![s[0]] + remove_id(s.skip(1), id)
    }
}

/// The note list, the active note, and the pending deletion commands.
pub struct NoteDirectory {
    ids: Vec<u128>,
    active: Option<u128>,
    pending_deletes: Vec<u128>,
}

impl View for NoteDirectory {
    type V = (Seq<u128>, Option<u128>, Seq<u128>);

    closed spec fn view(&self) -> (Seq<u128>, Option<u128>, Seq<u128>) {
        (self.ids@, self.active, self.pending_deletes@)
    }
}

impl NoteDirectory {
    /// An empty directory: no notes, none active, nothing pending.
    pub fn new() -> (r: NoteDirectory)
        ensures
            r@.0 == Seq::<u128>::empty(),
            r@.1 is None,
            r@.2 == Seq::<u128>::empty(),
    {
        let r = NoteDirectory { ids: Vec::new(), active: Option::None, pending_deletes: Vec::new() };
        proof {
            assert(r@.0 =~= Seq::<u128>::empty());
            assert(r@.2 =~= Seq::<u128>::empty());
        }
        r
    }

    /// Load the stored notes wholesale; the first becomes active.
    pub fn load(&mut self, ids: Vec<u128>)
        ensures
            final(self)@.0 == ids@,
            final(self)@.1 == (if ids@.len() > 0 {
                Option::Some(ids@[0])
            } else {
                Option::<u128>::None
            }),
            final(self)@.2 == old(self)@.2,
    {
        let active = if ids.len() > 0 {
            Option::Some(ids[0])
        } else {
            Option::None
        };
        self.ids = ids;
        self.active = active;
    }

    /// A newly created note goes at the end of the list and becomes
    /// active.
    pub fn add_note(&mut self, id: u128)
        ensures
            final(self)@.0 == old(self)@.0.push(id),
            final(self)@.1 == Option::Some(id),
            final(self)@.2 == old(self)@.2,
    {
        self.ids.push(id);
        self.active = Option::Some(id);
    }

    /// The identifiers, in display order.
    pub fn ids(&self) -> (r: &Vec<u128>)
        ensures
            r@ == self@.0,
    {
        &self.ids
    }

    /// The active note, if any.
    pub fn active(&self) -> (r: Option<u128>)
        ensures
            r == self@.1,
    {
        self.active
    }

    /// Make `id` the active note.
    pub fn set_active(&mut self, id: u128)
        ensures
            final(self)@.0 == old(self)@.0,
            final(self)@.1 == Option::Some(id),
            final(self)@.2 == old(self)@.2,
    {
        self.active = Option::Some(id);
    }

    /// Queue a deletion command from a menu action; it takes effect when
    /// the update cycle drains the queue.
    pub fn queue_delete(&mut self, id: u128)
        ensures
            final(self)@.0 == old(self)@.0,
            final(self)@.1 == old(self)@.1,
            final(self)@.2 == old(self)@.2.push(id),
    {
        self.pending_deletes.push(id);
    }

    /// Hand out the queued deletion commands and leave the queue empty.
    pub fn drain_pending(&mut self) -> (r: Vec<u128>)
        ensures
            r@ == old(self)@.2,
            final(self)@.0 == old(self)@.0,
            final(self)@.1 == old(self)@.1,
            final(self)@.2 == Seq::<u128>::empty(),
    {
        let mut out: Vec<u128> = Vec::new();
        std::mem::swap(&mut out, &mut self.pending_deletes);
        proof {
            assert(self@.2 =~= Seq::<u128>::empty());
        }
        out
    }

    /// Remove a note: it leaves the list, and when it was the active note
    /// the first remaining note (if any) becomes active instead.
    pub fn apply_delete(&mut self, id: u128)
        ensures
            final(self)@.0 == remove_id(old(self)@.0, id),
            final(self)@.1 == (if old(self)@.1 == Option::Some(id) {
                if remove_id(old(self)@.0, id).len() > 0 {
                    Option::Some(remove_id(old(self)@.0, id)[0])
                } else {
                    Option::<u128>::None
                }
            } else {
                old(self)@.1
            }),
            final(self)@.2 == old(self)@.2,
    {
        let ghost s = self.ids@;
        proof {
            assert(s.skip(0) =~= s);
        }
        let mut kept: Vec<u128> = Vec::new();
        let mut i: usize = 0;
        while i < self.ids.len()
            invariant
                s == self.ids@,
                i <= s.len(),
                remove_id(s, id) =~= kept@ + remove_id(s.skip(i as int), id),
            decreases s.len() - i,
        {
            proof {
                assert(s.skip(i as int)[0] == s[i as int]);
                assert(s.skip(i as int).skip(1) =~= s.skip(i + 1));
            }
            if self.ids[i] != id {
                kept.push(self.ids[i]);
            }
            i = i + 1;
        }
        proof {
            assert(s.skip(s.len() as int) =~= Seq::<u128>::empty());
            assert(kept@ + remove_id(s.skip(s.len() as int), id) =~= kept@);
        }
        let was_active = match self.active {
            Option::Some(a) => a == id,
            Option::None => false,
        };
        let new_active = if was_active {
            if kept.len() > 0 {
                Option::Some(kept[0])
            } else {
                Option::None
            }
        } else {
            self.active
        };
        self.ids = kept;
        self.active = new_active;
    }
}

} // verus!
