use vstd::prelude::*;

verus! {

/// The number of frames the graph computes per call: the engine's render
/// quantum.
pub const BLOCK_SIZE: usize = 64;

/// A signal-processing graph with no inputs and two outputs (left, right).
/// Each call advances its internal state (oscillator phase, filter history)
/// by one quantum of 64 frames and hands back the frames it computed.
///
/// A graph is deterministic: what the next quantum holds, and the state it
/// leaves behind, depend on the graph's current state alone.
pub trait StereoGraph<S>: Sized {
    /// The next quantum, left and right, that the graph computes from its
    /// current state.
    spec fn block(&self) -> ([S; 64], [S; 64]);

    /// The graph's state after it has computed its next quantum.
    spec fn advanced(&self) -> Self;

    fn process_block(&mut self) -> (r: ([S; 64], [S; 64]))
        ensures
            r == old(self).block(),
            *final(self) == old(self).advanced(),
    ;
}

/// The number of quanta that rendering `n` frames takes: a partial last
/// quantum is still computed whole.
pub open spec fn blocks_for(n: nat) -> nat {
    (n + 63) / 64
}

/// The state of `g` after `k` quanta.
pub open spec fn advance<S, G: StereoGraph<S>>(g: G, k: nat) -> G
    decreases k,
{
    if k == 0 {
        g
    } else {
        advance::<S, G>(g.advanced(), (k - 1) as nat)
    }
}

/// The left frames of the next `k` quanta of `g`, in time order.
pub open spec fn stream_left<S, G: StereoGraph<S>>(g: G, k: nat) -> Seq<S>
    decreases k,
{
    if k == 0 {
        Seq::empty()
    } else {
        g.block().0@ + stream_left::<S, G>(g.advanced(), (k - 1) as nat)
    }
}

/// The right frames of the next `k` quanta of `g`, in time order.
pub open spec fn stream_right<S, G: StereoGraph<S>>(g: G, k: nat) -> Seq<S>
    decreases k,
{
    if k == 0 {
        Seq::empty()
    } else {
        g.block().1@ + stream_right::<S, G>(g.advanced(), (k - 1) as nat)
    }
}

/// The output buffer after a render of `n` frames whose graph emitted the
/// frames `fresh`: the first `n` slots hold the first `n` fresh frames, the
/// rest of the buffer is untouched.
pub open spec fn rendered<S>(out: Seq<S>, fresh: Seq<S>, n: nat) -> Seq<S> {
    fresh.take(n as int) + out.skip(n as int)
}

/// One more quantum appends the graph's next block to the streams.
pub proof fn lemma_stream_step<S, G: StereoGraph<S>>(g: G, k: nat)
    ensures
        advance::<S, G>(g, k + 1) == advance::<S, G>(g, k).advanced(),
        stream_left::<S, G>(g, k + 1) == stream_left::<S, G>(g, k) + advance::<S, G>(g, k).block().0@,
        stream_right::<S, G>(g, k + 1) == stream_right::<S, G>(g, k) + advance::<S, G>(g, k).block().1@,
        stream_left::<S, G>(g, k).len() == 64 * k,
        stream_right::<S, G>(g, k).len() == 64 * k,
    decreases k,
{
    if k > 0 {
        lemma_stream_step::<S, G>(g.advanced(), (k - 1) as nat);
        assert(((k + 1) - 1) as nat == k);
        assert(advance::<S, G>(g, k + 1) == advance::<S, G>(g.advanced(), k));
        assert(advance::<S, G>(g, k) == advance::<S, G>(g.advanced(), (k - 1) as nat));
        assert(stream_left::<S, G>(g, k + 1) =~= stream_left::<S, G>(g, k) + advance::<S, G>(g, k).block().0@);
        assert(stream_right::<S, G>(g, k + 1) =~= stream_right::<S, G>(g, k) + advance::<S, G>(g, k).block().1@);
    } else {
        assert(stream_left::<S, G>(g.advanced(), 0) == Seq::<S>::empty());
        assert(stream_right::<S, G>(g.advanced(), 0) == Seq::<S>::empty());
        assert(advance::<S, G>(g, 1) == advance::<S, G>(g.advanced(), 0));
        assert(stream_left::<S, G>(g, 1) =~= g.block().0@);
        assert(stream_right::<S, G>(g, 1) =~= g.block().1@);
    }
}

/// Running `j` quanta and then `k` more is running `j + k` quanta.
pub proof fn lemma_stream_concat<S, G: StereoGraph<S>>(g: G, j: nat, k: nat)
    ensures
        advance::<S, G>(g, j + k) == advance::<S, G>(advance::<S, G>(g, j), k),
        stream_left::<S, G>(g, j + k) == stream_left::<S, G>(g, j) + stream_left::<S, G>(advance::<S, G>(g, j), k),
        stream_right::<S, G>(g, j + k) == stream_right::<S, G>(g, j) + stream_right::<S, G>(advance::<S, G>(g, j), k),
    decreases j,
{
    if j == 0 {
        assert(stream_left::<S, G>(g, j) + stream_left::<S, G>(g, k) =~= stream_left::<S, G>(g, k));
        assert(stream_right::<S, G>(g, j) + stream_right::<S, G>(g, k) =~= stream_right::<S, G>(g, k));
    } else {
        lemma_stream_concat::<S, G>(g.advanced(), (j - 1) as nat, k);
        assert((j + k - 1) as nat == (j - 1) as nat + k);
        assert(stream_left::<S, G>(g, j + k) =~= stream_left::<S, G>(g, j) + stream_left::<S, G>(advance::<S, G>(g, j), k));
        assert(stream_right::<S, G>(g, j + k) =~= stream_right::<S, G>(g, j) + stream_right::<S, G>(advance::<S, G>(g, j), k));
    }
}

/// Rendering happens in whole quanta and the graph's state runs on from one
/// call to the next: rendering `a` frames, `a` a multiple of 64, and then
/// `b` more frames from the state left behind advances the graph by exactly
/// as many quanta, and writes exactly the frames, that a single render of
/// `a + b` frames would.
pub proof fn lemma_split_render<S, G: StereoGraph<S>>(g: G, a: nat, b: nat)
    requires
        a % 64 == 0,
    ensures
        advance::<S, G>(g, blocks_for(a + b))
            == advance::<S, G>(advance::<S, G>(g, blocks_for(a)), blocks_for(b)),
        stream_left::<S, G>(g, blocks_for(a + b)).take((a + b) as int)
            == stream_left::<S, G>(g, blocks_for(a)).take(a as int)
            + stream_left::<S, G>(advance::<S, G>(g, blocks_for(a)), blocks_for(b)).take(b as int),
        stream_right::<S, G>(g, blocks_for(a + b)).take((a + b) as int)
            == stream_right::<S, G>(g, blocks_for(a)).take(a as int)
            + stream_right::<S, G>(advance::<S, G>(g, blocks_for(a)), blocks_for(b)).take(b as int),
{
    assert(blocks_for(a) == a / 64) by (nonlinear_arith)
        requires a % 64 == 0;
    assert(64 * blocks_for(a) == a) by (nonlinear_arith)
        requires a % 64 == 0, blocks_for(a) == a / 64;
    assert(blocks_for(a + b) == blocks_for(a) + blocks_for(b)) by (nonlinear_arith)
        requires a % 64 == 0, blocks_for(a) == a / 64;
    lemma_stream_concat::<S, G>(g, blocks_for(a), blocks_for(b));
    lemma_stream_step::<S, G>(g, blocks_for(a));
    lemma_stream_step::<S, G>(advance::<S, G>(g, blocks_for(a)), blocks_for(b));
    assert(b <= 64 * blocks_for(b)) by (nonlinear_arith);
    let first_l = stream_left::<S, G>(g, blocks_for(a));
    let first_r = stream_right::<S, G>(g, blocks_for(a));
    let second_l = stream_left::<S, G>(advance::<S, G>(g, blocks_for(a)), blocks_for(b));
    let second_r = stream_right::<S, G>(advance::<S, G>(g, blocks_for(a)), blocks_for(b));
    assert((first_l + second_l).take((a + b) as int) =~= first_l.take(a as int) + second_l.take(b as int));
    assert((first_r + second_r).take((a + b) as int) =~= first_r.take(a as int) + second_r.take(b as int));
}

/// Owns the current graph and renders it in quanta of 64 frames.
pub struct Engine<G> {
    graph: G,
}

impl<G> Engine<G> {
    /// The current graph.
    pub closed spec fn current(&self) -> G {
        self.graph
    }

    /// An engine over `graph`.
    pub fn new(graph: G) -> (r: Self)
        ensures
            r.current() == graph,
    {
        Engine { graph }
    }

    /// The current graph.
    pub fn graph(&self) -> (r: &G)
        ensures
            *r == self.current(),
    {
        &self.graph
    }

    /// Replaces the graph wholesale by one that the caller has finished
    /// building; the old one is dropped only then.
    pub fn rebuild(&mut self, graph: G)
        ensures
            final(self).current() == graph,
    {
        self.graph = graph;
    }

    /// Writes `frame_count` frames of each channel into the front of the
    /// output buffers. The graph is run in whole quanta of 64 frames, in time
    /// order; of the last quantum only the frames still needed are copied.
    pub fn render<S: Copy>(&mut self, frame_count: usize, out_left: &mut [S], out_right: &mut [S])
        where G: StereoGraph<S>,
        requires
            frame_count <= old(out_left)@.len(),
            frame_count <= old(out_right)@.len(),
        ensures
            final(self).current() == advance::<S, G>(old(self).current(), blocks_for(frame_count as nat)),
            final(out_left)@ == rendered(
                old(out_left)@,
                stream_left::<S, G>(old(self).current(), blocks_for(frame_count as nat)),
                frame_count as nat,
            ),
            final(out_right)@ == rendered(
                old(out_right)@,
                stream_right::<S, G>(old(self).current(), blocks_for(frame_count as nat)),
                frame_count as nat,
            ),
    {
        let ghost g0 = self.graph;
        let ghost out_l0 = out_left@;
        let ghost out_r0 = out_right@;
        let mut pos: usize = 0;
        let ghost mut done: nat = 0;
        proof {
            lemma_stream_step::<S, G>(g0, 0);
        }
        while pos < frame_count
            invariant
                frame_count <= out_l0.len(),
                frame_count <= out_r0.len(),
                pos <= frame_count,
                pos <= 64 * done < pos + 64,
                pos < frame_count ==> 64 * done == pos,
                self.graph == advance::<S, G>(g0, done),
                stream_left::<S, G>(g0, done).len() == 64 * done,
                stream_right::<S, G>(g0, done).len() == 64 * done,
                out_left@.len() == out_l0.len(),
                out_right@.len() == out_r0.len(),
                forall|i: int| 0 <= i < pos ==> out_left@[i] == #[trigger] stream_left::<S, G>(g0, done)[i],
                forall|i: int| 0 <= i < pos ==> out_right@[i] == #[trigger] stream_right::<S, G>(g0, done)[i],
                forall|i: int| pos <= i < out_l0.len() ==> out_left@[i] == #[trigger] out_l0[i],
                forall|i: int| pos <= i < out_r0.len() ==> out_right@[i] == #[trigger] out_r0[i],
            decreases frame_count - pos,
        {
            let (block_l, block_r) = self.graph.process_block();
            proof {
                lemma_stream_step::<S, G>(g0, done);
                lemma_stream_step::<S, G>(g0, done + 1);
                done = done + 1;
            }
            let remaining: usize = frame_count - pos;
            let take: usize = if remaining < BLOCK_SIZE { remaining } else { BLOCK_SIZE };
            let ghost sl = stream_left::<S, G>(g0, done);
            let ghost sr = stream_right::<S, G>(g0, done);
            assert(forall|k: int| 0 <= k < 64 ==> sl[pos + k] == block_l@[k]);
            assert(forall|k: int| 0 <= k < 64 ==> sr[pos + k] == block_r@[k]);
            let mut j: usize = 0;
            while j < take
                invariant
                    take <= 64,
                    pos + take <= frame_count,
                    j <= take,
                    frame_count <= out_l0.len(),
                    frame_count <= out_r0.len(),
                    sl.len() == pos + 64,
                    sr.len() == pos + 64,
                    forall|k: int| 0 <= k < 64 ==> sl[pos + k] == block_l@[k],
                    forall|k: int| 0 <= k < 64 ==> sr[pos + k] == block_r@[k],
                    out_left@.len() == out_l0.len(),
                    out_right@.len() == out_r0.len(),
                    forall|i: int| 0 <= i < pos + j ==> out_left@[i] == #[trigger] sl[i],
                    forall|i: int| 0 <= i < pos + j ==> out_right@[i] == #[trigger] sr[i],
                    forall|i: int| pos + j <= i < out_l0.len() ==> out_left@[i] == #[trigger] out_l0[i],
                    forall|i: int| pos + j <= i < out_r0.len() ==> out_right@[i] == #[trigger] out_r0[i],
                decreases take - j,
            {
                out_left[pos + j] = block_l[j];
                out_right[pos + j] = block_r[j];
                j = j + 1;
            }
            pos = pos + take;
        }
        proof {
            assert(done == blocks_for(frame_count as nat)) by (nonlinear_arith)
                requires 64 * done >= frame_count, 64 * done < frame_count + 64;
            let sl = stream_left::<S, G>(g0, done);
            let sr = stream_right::<S, G>(g0, done);
            assert(out_left@ =~= rendered(out_l0, sl, frame_count as nat));
            assert(out_right@ =~= rendered(out_r0, sr, frame_count as nat));
        }
    }

    /// One processing cycle's output: renders the whole of both channels
    /// when the host hands exactly two outputs, and leaves the buffers and
    /// the graph untouched otherwise.
    pub fn process<S: Copy>(&mut self, output_count: usize, out_left: &mut [S], out_right: &mut [S])
        where G: StereoGraph<S>,
        requires
            old(out_left)@.len() == old(out_right)@.len(),
        ensures
            output_count != 2 ==> {
                &&& final(out_left)@ == old(out_left)@
                &&& final(out_right)@ == old(out_right)@
                &&& final(self).current() == old(self).current()
            },
            output_count == 2 ==> {
                let n = old(out_left)@.len();
                let g = old(self).current();
                &&& final(self).current() == advance::<S, G>(g, blocks_for(n))
                &&& final(out_left)@ == stream_left::<S, G>(g, blocks_for(n)).take(n as int)
                &&& final(out_right)@ == stream_right::<S, G>(g, blocks_for(n)).take(n as int)
            },
    {
        if output_count == 2 {
            let n = out_left.len();
            self.render(n, out_left, out_right);
            proof {
                let g = old(self).current();
                assert(out_left@ =~= stream_left::<S, G>(g, blocks_for(n as nat)).take(n as int));
                assert(out_right@ =~= stream_right::<S, G>(g, blocks_for(n as nat)).take(n as int));
            }
        }
    }
}

} // verus!
