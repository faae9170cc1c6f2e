//! A batched line renderer.
use vstd::prelude::*;

verus! {

/// The four vertices that stand for one segment `(a, b, color)` in the
/// interleaved buffer: endpoint `a`, its colour, endpoint `b`, its colour.
pub open spec fn segment_vertices<P>(s: (P, P, P)) -> Seq<P> {
    seq![s.0, s.2, s.1, s.2]
}

/// The interleaved buffer that a sequence of segments fills, segment after
/// segment in the order of submission.
pub open spec fn batch_of<P>(segs: Seq<(P, P, P)>) -> Seq<P>
    decreases segs.len(),
{
    if segs.len() == 0 {
        Seq::empty()
    } else {
        batch_of(segs.drop_last()) + segment_vertices(segs.last())
    }
}

/// Whether a batch holding `segs` has anything to draw.
pub open spec fn pending<P>(segs: Seq<(P, P, P)>) -> bool {
    segs.len() > 0
}

/// One draw handed to the backend: upload the view matrix of render pass
/// `pass`, bind `vertices` as interleaved position/colour pairs, and draw
/// `count` vertices as independent line segments.
pub struct DrawCall<P> {
    pub pass: usize,
    pub vertices: Vec<P>,
    pub count: usize,
}

/// What a batch holding `segs` holds after a render: nothing, whatever it
/// held before.
pub open spec fn after_render<P>(segs: Seq<(P, P, P)>) -> Seq<(P, P, P)> {
    Seq::empty()
}

/// Structure which manages the display of short-living lines.
///
/// `P` is the point type of the backend; positions and colours share it.
pub struct LineRenderer<P> {
    lines: Vec<P>,
    segments: Ghost<Seq<(P, P, P)>>,
}

impl<P> View for LineRenderer<P> {
    type V = Seq<(P, P, P)>;

    /// The segments submitted since the last render, oldest first.
    closed spec fn view(&self) -> Seq<(P, P, P)> {
        self.segments@
    }
}

impl<P: Copy> LineRenderer<P> {
    /// The buffer always holds exactly the vertices of the submitted segments.
    pub closed spec fn well_formed(&self) -> bool {
        self.lines@ == batch_of(self.segments@)
    }

    /// The interleaved vertex buffer as it stands.
    pub closed spec fn buffer(&self) -> Seq<P> {
        self.lines@
    }

    /// Creates a new lines manager.
    pub fn new() -> (r: Self)
        ensures
            r.well_formed(),
            r@ == Seq::<(P, P, P)>::empty(),
            r.buffer() == Seq::<P>::empty(),
    {
        LineRenderer { lines: Vec::new(), segments: Ghost(Seq::empty()) }
    }

    /// Indicates whether some lines have to be drawn.
    pub fn needs_rendering(&self) -> (r: bool)
        requires
            self.well_formed(),
        ensures
            r == pending(self@),
            r == (self.buffer().len() > 0),
    {
        proof {
            lemma_batch_length(self@);
        }
        self.lines.len() != 0
    }

    /// Adds a line to be drawn during the next frame. Lines are not persistent between frames.
    /// This method must be called for each line to draw, and at each update loop iteration.
    pub fn draw_line(&mut self, a: P, b: P, color: P)
        requires
            old(self).well_formed(),
        ensures
            final(self).well_formed(),
            final(self)@ == old(self)@.push((a, b, color)),
            final(self).buffer() == old(self).buffer() + seq![a, color, b, color],
    {
        let ghost segs = self.segments@;
        self.lines.push(a);
        self.lines.push(color);
        self.lines.push(b);
        self.lines.push(color);
        self.segments = Ghost(segs.push((a, b, color)));
        proof {
            assert(segs.push((a, b, color)).drop_last() =~= segs);
            assert(self.lines@ =~= batch_of(segs) + seq![a, color, b, color]);
        }
    }

    /// Hands out the batch as one draw and leaves the batch empty.
    ///
    /// An empty batch gives `None`: nothing is to be bound, enabled or drawn.
    /// Otherwise the draw holds the whole interleaved buffer and covers half
    /// as many vertices as it holds values, that is two per segment.
    pub fn render(&mut self, pass: usize) -> (r: Option<DrawCall<P>>)
        requires
            old(self).well_formed(),
        ensures
            final(self).well_formed(),
            final(self)@ == after_render(old(self)@),
            final(self)@ == Seq::<(P, P, P)>::empty(),
            final(self).buffer() == Seq::<P>::empty(),
            r is Some <==> pending(old(self)@),
            r matches Some(d) ==> {
                &&& d.pass == pass
                &&& d.vertices@ == batch_of(old(self)@)
                &&& d.vertices@ == old(self).buffer()
                &&& d.count == 2 * old(self)@.len()
                &&& d.count == d.vertices@.len() / 2
            },
    {
        proof {
            lemma_batch_length(self@);
        }
        if self.lines.len() == 0 {
            proof {
                assert(self.segments@ =~= Seq::<(P, P, P)>::empty());
            }
            return None;
        }
        let mut vertices: Vec<P> = Vec::new();
        std::mem::swap(&mut vertices, &mut self.lines);
        self.segments = Ghost(Seq::empty());
        let count: usize = vertices.len() / 2;
        Some(DrawCall { pass, vertices, count })
    }
}

/// Every segment adds four vertices: a batch of `n` segments holds `4 * n`
/// vertices, and holds any at all exactly when a segment was submitted.
pub proof fn lemma_batch_length<P>(segs: Seq<(P, P, P)>)
    ensures
        batch_of(segs).len() == 4 * segs.len(),
        (batch_of(segs).len() > 0) == pending(segs),
    decreases segs.len(),
{
    if segs.len() > 0 {
        lemma_batch_length(segs.drop_last());
    }
}

/// Order is kept: the vertices of the `i`-th submitted segment stand at
/// positions `4 * i` to `4 * i + 3` of the buffer, as endpoint A, its colour,
/// endpoint B, its colour.
pub proof fn lemma_batch_order<P>(segs: Seq<(P, P, P)>)
    ensures
        forall|i: int|
            0 <= i < segs.len() ==> #[trigger] batch_of(segs).subrange(4 * i, 4 * i + 4)
                == segment_vertices(segs[i]),
    decreases segs.len(),
{
    if segs.len() > 0 {
        let init = segs.drop_last();
        lemma_batch_order(init);
        lemma_batch_length(init);
        let whole = batch_of(segs);
        assert forall|i: int| 0 <= i < segs.len() implies #[trigger] whole.subrange(
            4 * i,
            4 * i + 4,
        ) == segment_vertices(segs[i]) by {
            if i < init.len() {
                assert(batch_of(init).subrange(4 * i, 4 * i + 4) == segment_vertices(init[i]));
                assert(whole.subrange(4 * i, 4 * i + 4) =~= batch_of(init).subrange(
                    4 * i,
                    4 * i + 4,
                ));
            } else {
                assert(whole.subrange(4 * i, 4 * i + 4) =~= segment_vertices(segs.last()));
            }
        }
    }
}

/// A render leaves nothing pending, so a second render with no submission in
/// between draws nothing and leaves the batch as it was.
pub proof fn lemma_render_twice<P>(segs: Seq<(P, P, P)>)
    ensures
        !pending(after_render(segs)),
        after_render(after_render(segs)) == after_render(segs),
{
}

} // verus!
