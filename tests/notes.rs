use synthy::midi::{parse_note_event, NoteEvent};
use synthy::notes::NoteQueue;

const A: u8 = 57;
const B: u8 = 59;

#[test]
fn note_off_keeps_other_notes_in_order() {
    let mut q = NoteQueue::new();
    q.note_on(A, 10);
    q.note_on(B, 20);
    q.note_off(A);
    assert_eq!(q.notes().clone(), vec![(B, 20)]);
}

#[test]
fn note_off_removes_every_matching_entry() {
    let mut q = NoteQueue::new();
    q.note_on(A, 10);
    q.note_on(A, 10);
    q.note_off(A);
    assert_eq!(q.len(), 0);
}

#[test]
fn note_on_appends_in_arrival_order() {
    let mut q = NoteQueue::new();
    q.note_on(B, 1);
    q.note_on(A, 2);
    q.note_on(B, 3);
    assert_eq!(q.notes().clone(), vec![(B, 1), (A, 2), (B, 3)]);
    q.note_off(B);
    assert_eq!(q.notes().clone(), vec![(A, 2)]);
}

#[test]
fn note_off_of_absent_note_changes_nothing() {
    let mut q = NoteQueue::new();
    q.note_on(A, 5);
    q.note_off(B);
    assert_eq!(q.notes().clone(), vec![(A, 5)]);
}

#[test]
fn parse_note_on_and_off() {
    assert_eq!(parse_note_event(&[0x90, 60, 100]), Some(NoteEvent::On(60, 100)));
    assert_eq!(parse_note_event(&[0x93, 61, 1]), Some(NoteEvent::On(61, 1)));
    assert_eq!(parse_note_event(&[0x84, 64, 100]), Some(NoteEvent::Off(64)));
    assert_eq!(parse_note_event(&[0x90, 60, 0]), Some(NoteEvent::Off(60)));
}

#[test]
fn parse_rejects_other_and_malformed_messages() {
    assert_eq!(parse_note_event(&[]), None);
    assert_eq!(parse_note_event(&[0x00]), None);
    assert_eq!(parse_note_event(&[0x90, 60]), None);
    assert_eq!(parse_note_event(&[0x90, 0x80, 1]), None);
    assert_eq!(parse_note_event(&[0x90, 60, 0x80]), None);
    assert_eq!(parse_note_event(&[0xB0, 7, 100]), None);
    assert_eq!(parse_note_event(&[0xF0, 1, 2, 0xF7]), None);
}

#[test]
fn process_midi_feeds_the_queue() {
    let mut q = NoteQueue::new();
    q.process_midi(&[0x90, A, 10]);
    q.process_midi(&[0x90, B, 20]);
    q.process_midi(&[0xB0, 1, 2]);
    q.process_midi(&[0x90]);
    assert_eq!(q.notes().clone(), vec![(A, 10), (B, 20)]);
    q.process_midi(&[0x80, A, 0]);
    assert_eq!(q.notes().clone(), vec![(B, 20)]);
    q.process_midi(&[0x90, B, 0]);
    assert_eq!(q.len(), 0);
}
