use vstd::prelude::*;

use crate::midi::{note_event_of, parse_note_event, NoteEvent};

verus! {

/// A pending note: its MIDI note number and its velocity.
pub type PendingNote = (u8, u8);

/// `s` with every entry whose note number is `note` taken out, the others
/// kept in their order.
pub open spec fn without_note(s: Seq<PendingNote>, note: u8) -> Seq<PendingNote>
    decreases s.len(),
{
    if s.len() == 0 {
        s
    } else {
        let rest = without_note(s.drop_last(), note);
        if s.last().0 == note {
            rest
        } else {
            rest.push(s.last())
        }
    }
}

/// The queue after one note event.
pub open spec fn after_event(s: Seq<PendingNote>, ev: NoteEvent) -> Seq<PendingNote> {
    match ev {
        NoteEvent::On(n, v) => s.push((n, v)),
        NoteEvent::Off(n) => without_note(s, n),
    }
}

/// The queue after a raw MIDI message: note events apply, anything else is
/// ignored.
pub open spec fn after_message(s: Seq<PendingNote>, bytes: Seq<u8>) -> Seq<PendingNote> {
    match note_event_of(bytes) {
        Some(ev) => after_event(s, ev),
        None => s,
    }
}

/// Taking out a note leaves no entry of it, and every entry left was there
/// before.
pub proof fn lemma_without_note(s: Seq<PendingNote>, note: u8)
    ensures
        forall|i: int| 0 <= i < without_note(s, note).len() ==> #[trigger] without_note(s, note)[i].0 != note,
        forall|i: int| 0 <= i < without_note(s, note).len() ==> s.contains(#[trigger] without_note(s, note)[i]),
        without_note(s, note).len() <= s.len(),
    decreases s.len(),
{
    if s.len() > 0 {
        lemma_without_note(s.drop_last(), note);
        let rest = without_note(s.drop_last(), note);
        assert forall|i: int| 0 <= i < rest.len() implies s.contains(rest[i]) by {
            let j = choose|j: int| 0 <= j < s.drop_last().len() && s.drop_last()[j] == rest[i];
            assert(s[j] == rest[i]);
        }
        assert(s[s.len() - 1] == s.last());
    }
}

/// A note-off takes out every entry of its note, however many note-ons put
/// them there, and keeps the entries of other notes after them in arrival
/// order.
pub proof fn lemma_note_off_after_note_ons(s: Seq<PendingNote>, a: u8, x: u8, b: u8, y: u8)
    ensures
        without_note(s.push((a, x)).push((a, y)), a) == without_note(s, a),
        a != b ==> without_note(s.push((a, x)).push((b, y)), a) == without_note(s, a).push((b, y)),
{
    assert(s.push((a, x)).push((a, y)).drop_last() =~= s.push((a, x)));
    assert(s.push((a, x)).drop_last() =~= s);
    assert(s.push((a, x)).push((b, y)).drop_last() =~= s.push((a, x)));
    assert(without_note(s.push((a, x)), a) == without_note(s, a));
    assert(without_note(s.push((a, x)).push((a, y)), a) == without_note(s.push((a, x)), a));
    if a != b {
        assert(without_note(s.push((a, x)).push((b, y)), a) == without_note(s.push((a, x)), a).push((b, y)));
    }
}

/// The notes that are held, in the order their note-on events arrived.
pub struct NoteQueue {
    notes: Vec<PendingNote>,
}

impl View for NoteQueue {
    type V = Seq<PendingNote>;

    closed spec fn view(&self) -> Seq<PendingNote> {
        self.notes@
    }
}

impl NoteQueue {
    /// An empty queue.
    pub fn new() -> (r: NoteQueue)
        ensures
            r@ == Seq::<PendingNote>::empty(),
    {
        NoteQueue { notes: Vec::with_capacity(1) }
    }

    /// The held notes, oldest first.
    pub fn notes(&self) -> (r: &Vec<PendingNote>)
        ensures
            r@ == self@,
    {
        &self.notes
    }

    /// The number of held notes.
    pub fn len(&self) -> (r: usize)
        ensures
            r == self@.len(),
    {
        self.notes.len()
    }

    /// Appends a note at the back, whether or not it is already held.
    pub fn note_on(&mut self, note: u8, velocity: u8)
        ensures
            final(self)@ == old(self)@.push((note, velocity)),
    {
        self.notes.push((note, velocity));
    }

    /// Takes out every entry of `note`; the others keep their order.
    pub fn note_off(&mut self, note: u8)
        ensures
            final(self)@ == without_note(old(self)@, note),
    {
        let mut kept: Vec<PendingNote> = Vec::with_capacity(self.notes.len());
        let mut i: usize = 0;
        while i < self.notes.len()
            invariant
                i <= self.notes@.len(),
                kept@ == without_note(self.notes@.take(i as int), note),
            decreases self.notes@.len() - i,
        {
            let entry = self.notes[i];
            proof {
                assert(self.notes@.take(i + 1).drop_last() =~= self.notes@.take(i as int));
            }
            if entry.0 != note {
                kept.push(entry);
            }
            i = i + 1;
        }
        assert(self.notes@.take(self.notes@.len() as int) =~= self.notes@);
        self.notes = kept;
    }

    /// Applies one note event.
    pub fn apply(&mut self, ev: NoteEvent)
        ensures
            final(self)@ == after_event(old(self)@, ev),
    {
        match ev {
            NoteEvent::On(n, v) => self.note_on(n, v),
            NoteEvent::Off(n) => self.note_off(n),
        }
    }

    /// Applies a raw MIDI message: note-on appends, note-off (or note-on
    /// with velocity zero) takes out every entry of the note, and anything
    /// else, malformed input included, is ignored.
    pub fn process_midi(&mut self, bytes: &[u8])
        ensures
            final(self)@ == after_message(old(self)@, bytes@),
    {
        match parse_note_event(bytes) {
            Some(ev) => self.apply(ev),
            None => {},
        }
    }
}

} // verus!
