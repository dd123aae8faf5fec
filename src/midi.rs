use vstd::prelude::*;

verus! {

/// The note events that the tracker reacts to; every other MIDI message is
/// ignored.
#[derive(Clone, Copy, Debug, PartialEq, Eq, Structural)]
pub enum NoteEvent {
    /// A key went down: note number and velocity.
    On(u8, u8),
    /// A key went up: note number.
    Off(u8),
}

/// Whether `b` is a data byte, that is a 7-bit value.
pub open spec fn is_data(b: u8) -> bool {
    b < 0x80
}

/// The note event that a raw MIDI message stands for, if any.
///
/// A message of three or more bytes whose status nibble is `0x8` is a
/// note-off; one whose status nibble is `0x9` is a note-on, except that a
/// velocity of zero makes it a note-off. Both data bytes must be 7-bit values.
/// Anything else (other messages, truncated or malformed input) is not a
/// note event.
pub open spec fn note_event_of(bytes: Seq<u8>) -> Option<NoteEvent> {
    if bytes.len() >= 3 && is_data(bytes[1]) && is_data(bytes[2]) {
        let kind = bytes[0] / 16;
        if kind == 8 {
            Some(NoteEvent::Off(bytes[1]))
        } else if kind == 9 {
            if bytes[2] == 0 {
                Some(NoteEvent::Off(bytes[1]))
            } else {
                Some(NoteEvent::On(bytes[1], bytes[2]))
            }
        } else {
            None
        }
    } else {
        None
    }
}

/// Relies on `wmidi::MidiMessage::try_from`: it decodes `0x8n` with two data
/// bytes as `NoteOff`, and `0x9n` with two data bytes as `NoteOn`, or as
/// `NoteOff` when the velocity byte is zero; it fails on fewer than three
/// bytes or on a data byte above `0x7F`, and decodes other status bytes as
/// other messages.
#[verifier::external_body]
fn decode_note_event(bytes: &[u8]) -> (r: Option<NoteEvent>)
    ensures
        r == note_event_of(bytes@),
{
    match wmidi::MidiMessage::try_from(bytes) {
        Ok(wmidi::MidiMessage::NoteOff(_, n, _)) => Some(NoteEvent::Off(u8::from(n))),
        Ok(wmidi::MidiMessage::NoteOn(_, n, v)) => Some(NoteEvent::On(u8::from(n), u8::from(v))),
        _ => None,
    }
}

/// Decodes a raw MIDI message into the note event it carries, if any.
pub fn parse_note_event(bytes: &[u8]) -> (r: Option<NoteEvent>)
    ensures
        r == note_event_of(bytes@),
        r matches Some(NoteEvent::On(n, v)) ==> n < 128 && 0 < v < 128,
        r matches Some(NoteEvent::Off(n)) ==> n < 128,
{
    decode_note_event(bytes)
}

} // verus!
