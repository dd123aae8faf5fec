use vstd::prelude::*;

use std::sync::Arc;

use crate::engine::{advance, blocks_for, stream_left, stream_right, Engine, StereoGraph};
use crate::notes::{after_message, NoteQueue};
use crate::params::Parameters;

verus! {

/// The plugin's core: the parameter store it shares with the control
/// context, the engine that owns the audio graph, and the note queue.
pub struct Synth<G> {
    params: Arc<Parameters>,
    engine: Engine<G>,
    notes: NoteQueue,
}

impl<G> Synth<G> {
    /// The current graph.
    pub closed spec fn graph_spec(&self) -> G {
        self.engine.current()
    }

    /// The note queue.
    pub closed spec fn notes_spec(&self) -> Seq<(u8, u8)> {
        self.notes@
    }

    /// A core around `params` that starts with `graph` (a placeholder until
    /// the first cycle rebuilds) and an empty note queue.
    pub fn new(params: Arc<Parameters>, graph: G) -> (r: Self)
        ensures
            r.graph_spec() == graph,
            r.notes_spec() == Seq::<(u8, u8)>::empty(),
    {
        Synth { params, engine: Engine::new(graph), notes: NoteQueue::new() }
    }

    /// Another handle on the shared parameter store.
    pub fn params(&self) -> Arc<Parameters> {
        Arc::clone(&self.params)
    }

    /// The note queue.
    pub fn notes(&self) -> (r: &NoteQueue)
        ensures
            r@ == self.notes_spec(),
    {
        &self.notes
    }

    /// The engine.
    pub fn engine(&self) -> (r: &Engine<G>)
        ensures
            r.current() == self.graph_spec(),
    {
        &self.engine
    }

    /// Feeds one raw MIDI message to the note queue.
    pub fn process_midi(&mut self, bytes: &[u8])
        ensures
            final(self).notes_spec() == after_message(old(self).notes_spec(), bytes@),
            final(self).graph_spec() == old(self).graph_spec(),
    {
        self.notes.process_midi(bytes);
    }

    /// The start of a processing cycle: reads and clears the shared dirty
    /// flag, then lets `finish_cycle` act on what it read. Another thread may
    /// write the flag at any time, so whether a rebuild happens is decided by
    /// that read alone; nothing is rendered.
    pub fn start_process<F: Fn(u32) -> G>(&mut self, build: F) -> (rebuilt: bool)
        requires
            forall|bits: u32| build.requires((bits,)),
        ensures
            rebuilt ==> exists|bits: u32| build.ensures((bits,), final(self).graph_spec()),
            !rebuilt ==> final(self).graph_spec() == old(self).graph_spec(),
            final(self).notes_spec() == old(self).notes_spec(),
    {
        let dirty = self.params.take_dirty();
        self.finish_cycle(dirty, build)
    }

    /// The decision of a cycle's start, given what the dirty flag held: when
    /// it was up, the graph is replaced by `build` applied to the pan read
    /// then; when it was down, nothing changes. Reports whether it rebuilt.
    pub fn finish_cycle<F: Fn(u32) -> G>(&mut self, dirty: bool, build: F) -> (rebuilt: bool)
        requires
            forall|bits: u32| build.requires((bits,)),
        ensures
            rebuilt == dirty,
            dirty ==> exists|bits: u32| build.ensures((bits,), final(self).graph_spec()),
            !dirty ==> final(self).graph_spec() == old(self).graph_spec(),
            final(self).notes_spec() == old(self).notes_spec(),
    {
        if dirty {
            let bits = self.params.get_pan();
            let graph = build(bits);
            self.engine.rebuild(graph);
            assert(exists|b: u32| build.ensures((b,), self.graph_spec())) by {
                assert(build.ensures((bits,), self.graph_spec()));
            }
            true
        } else {
            false
        }
    }

    /// Renders the cycle's output: the whole of both channels when the host
    /// hands exactly two outputs, nothing otherwise.
    pub fn process<S: Copy>(&mut self, output_count: usize, out_left: &mut [S], out_right: &mut [S])
        where G: StereoGraph<S>,
        requires
            old(out_left)@.len() == old(out_right)@.len(),
        ensures
            output_count != 2 ==> {
                &&& final(out_left)@ == old(out_left)@
                &&& final(out_right)@ == old(out_right)@
                &&& final(self).graph_spec() == old(self).graph_spec()
            },
            output_count == 2 ==> {
                let n = old(out_left)@.len();
                let g = old(self).graph_spec();
                &&& final(self).graph_spec() == advance::<S, G>(g, blocks_for(n))
                &&& final(out_left)@ == stream_left::<S, G>(g, blocks_for(n)).take(n as int)
                &&& final(out_right)@ == stream_right::<S, G>(g, blocks_for(n)).take(n as int)
            },
            final(self).notes_spec() == old(self).notes_spec(),
    {
        self.engine.process(output_count, out_left, out_right);
    }
}

} // verus!
