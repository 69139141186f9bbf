//! What a frame hands to the rasterizer.

use vstd::prelude::*;
use crate::color::Color;
use crate::geometry::{Point, Rect, Size};

verus! {

/// One rectangle for the rasterizer: position, size, a two-stop gradient at an angle in
/// degrees, corner radius, border, drop shadow, and the clip it is drawn in.
#[derive(Clone, Copy, Debug, PartialEq, Eq, Structural)]
pub struct Instance {
    pub position: Point,
    pub size: Size,
    pub color_start: Color,
    pub color_end: Color,
    pub gradient_angle: i32,
    pub border_radius: i64,
    pub border_width: i64,
    pub border_color: Color,
    pub shadow_color: Color,
    pub shadow_offset: Point,
    pub shadow_blur: i64,
    pub shadow_spread: i64,
    pub clip_rect: Rect,
}

/// Where a texture's pixels come from: a file, bytes in memory, or a vector image file
/// rasterized at the given pixel size.
#[derive(Clone, Debug)]
pub enum TextureSource {
    Path(String),
    Bytes(Vec<u8>),
    Svg { path: String, width: u32, height: u32 },
}

/// A text to draw: its string, color, font size, position, optional clip, and the width
/// it wraps at (none: no wrapping).
#[derive(Clone, Debug)]
pub struct TextDraw {
    pub text: String,
    pub color: Color,
    pub size: u32,
    pub position: Point,
    pub clip: Option<Rect>,
    pub wrap_width: Option<i64>,
}

/// Image instances for one texture.
pub struct ImageBatch {
    pub texture_id: String,
    pub instances: Vec<Instance>,
}

/// Everything one frame draws.
pub struct RenderOutput {
    pub instances: Vec<Instance>,
    pub texts: Vec<TextDraw>,
    /// Image instances grouped by texture id, each id once, in order of first use.
    pub images: Vec<ImageBatch>,
    pub texture_loads: Vec<(String, TextureSource)>,
}

/// The position of the batch for `key`, if any.
pub open spec fn batch_index(b: Seq<(Seq<char>, Seq<Instance>)>, key: Seq<char>) -> Option<int>
    decreases b.len(),
{
    if b.len() == 0 {
        None
    } else if b.last().0 == key {
        Some(b.len() - 1)
    } else {
        batch_index(b.drop_last(), key)
    }
}

/// Adds instances to the batch for `key`, opening one at the end if there is none.
pub open spec fn add_batch(b: Seq<(Seq<char>, Seq<Instance>)>, key: Seq<char>, l: Seq<Instance>) -> Seq<
    (Seq<char>, Seq<Instance>),
> {
    match batch_index(b, key) {
        Some(i) => b.update(i, (key, b[i].1 + l)),
        None => b.push((key, l)),
    }
}

/// Merges the batches of `o` into `b`, in order.
pub open spec fn merge_batches(
    b: Seq<(Seq<char>, Seq<Instance>)>,
    o: Seq<(Seq<char>, Seq<Instance>)>,
) -> Seq<(Seq<char>, Seq<Instance>)>
    decreases o.len(),
{
    if o.len() == 0 {
        b
    } else {
        add_batch(merge_batches(b, o.drop_last()), o.last().0, o.last().1)
    }
}

proof fn lemma_batch_index(b: Seq<(Seq<char>, Seq<Instance>)>, key: Seq<char>)
    ensures
        batch_index(b, key) matches Some(i) ==> 0 <= i < b.len() && b[i].0 == key,
        batch_index(b, key) is None ==> forall|i: int| 0 <= i < b.len() ==> b[i].0 != key,
    decreases b.len(),
{
    if b.len() > 0 && b.last().0 != key {
        lemma_batch_index(b.drop_last(), key);
        if batch_index(b, key) is None {
            assert forall|i: int| 0 <= i < b.len() implies b[i].0 != key by {
                if i < b.len() - 1 {
                    assert(b.drop_last()[i] == b[i]);
                }
            }
        }
    }
}

impl RenderOutput {
    pub open spec fn batches(&self) -> Seq<(Seq<char>, Seq<Instance>)> {
        self.images@.map_values(|x: ImageBatch| (x.texture_id@, x.instances@))
    }

    pub fn new() -> (r: RenderOutput)
        ensures
            r.instances@.len() == 0,
            r.texts@.len() == 0,
            r.images@.len() == 0,
            r.texture_loads@.len() == 0,
    {
        RenderOutput {
            instances: Vec::new(),
            texts: Vec::new(),
            images: Vec::new(),
            texture_loads: Vec::new(),
        }
    }

    /// Adds one image instance to the batch of its texture.
    pub fn push_image(&mut self, texture_id: String, inst: Instance)
        ensures
            final(self).batches() == add_batch(old(self).batches(), texture_id@, seq![inst]),
            final(self).instances@ == old(self).instances@,
            final(self).texts@ == old(self).texts@,
            final(self).texture_loads@ == old(self).texture_loads@,
    {
        let mut one: Vec<Instance> = Vec::new();
        one.push(inst);
        self.add_to_batch(texture_id, one);
    }

    fn add_to_batch(&mut self, texture_id: String, items: Vec<Instance>)
        ensures
            final(self).batches() == add_batch(old(self).batches(), texture_id@, items@),
            final(self).instances@ == old(self).instances@,
            final(self).texts@ == old(self).texts@,
            final(self).texture_loads@ == old(self).texture_loads@,
    {
        let mut list = items;
        let ghost key = texture_id@;
        let ghost l = list@;
        let ghost b = self.batches();
        proof {
            lemma_batch_index(b, key);
        }
        let mut i: usize = self.images.len();
        assert(b.subrange(0, b.len() as int) =~= b);
        while i > 0
            invariant
                0 <= i <= self.images@.len(),
                self.batches() == b,
                b == old(self).batches(),
                l == items@,
                texture_id@ == key,
                list@ == l,
                batch_index(b, key) == batch_index(b.subrange(0, i as int), key),
                self.instances@ == old(self).instances@,
                self.texts@ == old(self).texts@,
                self.texture_loads@ == old(self).texture_loads@,
            decreases i,
        {
            proof {
                let sub = b.subrange(0, i as int);
                assert(sub.drop_last() =~= b.subrange(0, i - 1));
                assert(sub.last() == b[i - 1]);
            }
            if self.images[i - 1].texture_id == texture_id {
                assert(b[i - 1].0 == key);
                assert(batch_index(b, key) == Some(i - 1));
                let mut batch = self.images.remove(i - 1);
                batch.instances.append(&mut list);
                self.images.insert(i - 1, batch);
                proof {
                    assert(self.batches() =~= b.update(i - 1, (key, b[i - 1].1 + l)));
                }
                return;
            }
            i = i - 1;
        }
        assert(b.subrange(0, 0).len() == 0);
        assert(batch_index(b, key) is None);
        self.images.push(ImageBatch { texture_id, instances: list });
        proof {
            assert(self.batches() =~= b.push((key, l)));
        }
    }

    /// Appends everything `other` holds; image batches with the same texture id merge.
    pub fn extend(&mut self, other: RenderOutput)
        ensures
            final(self).instances@ == old(self).instances@ + other.instances@,
            final(self).texts@ == old(self).texts@ + other.texts@,
            final(self).texture_loads@ == old(self).texture_loads@ + other.texture_loads@,
            final(self).batches() == merge_batches(old(self).batches(), other.batches()),
    {
        let RenderOutput { instances: mut oi, texts: mut ot, images: oimg, texture_loads: mut ol } =
            other;
        self.instances.append(&mut oi);
        self.texts.append(&mut ot);
        self.texture_loads.append(&mut ol);
        let ghost orig = oimg@;
        let ghost ob = orig.map_values(|x: ImageBatch| (x.texture_id@, x.instances@));
        let ghost b0 = self.batches();
        let mut rest = oimg;
        let n = rest.len();
        let mut k: usize = 0;
        assert(ob.subrange(0, 0) =~= Seq::<(Seq<char>, Seq<Instance>)>::empty());
        assert(orig.subrange(0, n as int) =~= orig);
        while k < n
            invariant
                0 <= k <= n,
                n == orig.len(),
                rest@ == orig.subrange(k as int, n as int),
                ob == orig.map_values(|x: ImageBatch| (x.texture_id@, x.instances@)),
                self.batches() == merge_batches(b0, ob.subrange(0, k as int)),
                self.instances@ == old(self).instances@ + other.instances@,
                self.texts@ == old(self).texts@ + other.texts@,
                self.texture_loads@ == old(self).texture_loads@ + other.texture_loads@,
            decreases n - k,
        {
            let batch = rest.remove(0);
            assert(batch == orig[k as int]);
            let ImageBatch { texture_id, instances } = batch;
            self.add_to_batch(texture_id, instances);
            proof {
                let sub = ob.subrange(0, k + 1);
                assert(sub.drop_last() =~= ob.subrange(0, k as int));
                assert(sub.last() == ob[k as int]);
                assert(rest@ =~= orig.subrange(k + 1, n as int));
            }
            k = k + 1;
        }
        assert(ob.subrange(0, n as int) =~= ob);
    }
}

/// Every batched image instance is clipped within `c`.
pub open spec fn batches_within(b: Seq<(Seq<char>, Seq<Instance>)>, c: Rect) -> bool {
    forall|i: int, j: int|
        0 <= i < b.len() && 0 <= j < b[i].1.len() ==> (#[trigger] b[i].1[j]).clip_rect.clip_within(c)
}

/// Everything in the output is clipped within `c`.
pub open spec fn output_within(o: &RenderOutput, c: Rect) -> bool {
    &&& forall|i: int|
        0 <= i < o.instances@.len() ==> (#[trigger] o.instances@[i]).clip_rect.clip_within(c)
    &&& forall|i: int|
        0 <= i < o.texts@.len() ==> match (#[trigger] o.texts@[i]).clip {
            Some(r) => r.clip_within(c),
            None => false,
        }
    &&& batches_within(o.batches(), c)
}

proof fn lemma_add_batch_within(b: Seq<(Seq<char>, Seq<Instance>)>, key: Seq<char>, l: Seq<Instance>, c: Rect)
    requires
        batches_within(b, c),
        forall|j: int| 0 <= j < l.len() ==> (#[trigger] l[j]).clip_rect.clip_within(c),
    ensures
        batches_within(add_batch(b, key, l), c),
{
    lemma_batch_index(b, key);
    let r = add_batch(b, key, l);
    match batch_index(b, key) {
        Some(k) => {
            assert forall|i: int, j: int| 0 <= i < r.len() && 0 <= j < r[i].1.len() implies (#[trigger] r[i].1[j]).clip_rect.clip_within(c) by {
                if i == k {
                    if j < b[k].1.len() {
                        assert(r[i].1[j] == b[k].1[j]);
                    } else {
                        assert(r[i].1[j] == l[j - b[k].1.len()]);
                    }
                } else {
                    assert(r[i] == b[i]);
                }
            }
        },
        None => {
            assert forall|i: int, j: int| 0 <= i < r.len() && 0 <= j < r[i].1.len() implies (#[trigger] r[i].1[j]).clip_rect.clip_within(c) by {
                if i < b.len() {
                    assert(r[i] == b[i]);
                } else {
                    assert(r[i].1 == l);
                }
            }
        },
    }
}

proof fn lemma_merge_within(b: Seq<(Seq<char>, Seq<Instance>)>, o: Seq<(Seq<char>, Seq<Instance>)>, c: Rect)
    requires
        batches_within(b, c),
        batches_within(o, c),
    ensures
        batches_within(merge_batches(b, o), c),
    decreases o.len(),
{
    if o.len() > 0 {
        let ol = o.drop_last();
        assert forall|i: int, j: int| 0 <= i < ol.len() && 0 <= j < ol[i].1.len() implies (#[trigger] ol[i].1[j]).clip_rect.clip_within(c) by {
            assert(ol[i] == o[i]);
        }
        lemma_merge_within(b, ol, c);
        let last = o.last();
        assert forall|j: int| 0 <= j < last.1.len() implies (#[trigger] last.1[j]).clip_rect.clip_within(c) by {
            assert(o[o.len() - 1].1[j] == last.1[j]);
        }
        lemma_add_batch_within(merge_batches(b, ol), last.0, last.1, c);
    }
}

/// Extending an output within `c` by another within `c` stays within `c`.
pub proof fn lemma_extend_within(a: &RenderOutput, o: &RenderOutput, r: &RenderOutput, c: Rect)
    requires
        output_within(a, c),
        output_within(o, c),
        r.instances@ == a.instances@ + o.instances@,
        r.texts@ == a.texts@ + o.texts@,
        r.batches() == merge_batches(a.batches(), o.batches()),
    ensures
        output_within(r, c),
{
    assert forall|i: int| 0 <= i < r.instances@.len() implies (#[trigger] r.instances@[i]).clip_rect.clip_within(c) by {
        if i < a.instances@.len() {
            assert(r.instances@[i] == a.instances@[i]);
        } else {
            assert(r.instances@[i] == o.instances@[i - a.instances@.len()]);
        }
    }
    assert forall|i: int| 0 <= i < r.texts@.len() implies match (#[trigger] r.texts@[i]).clip {
        Some(q) => q.clip_within(c),
        None => false,
    } by {
        if i < a.texts@.len() {
            assert(r.texts@[i] == a.texts@[i]);
        } else {
            assert(r.texts@[i] == o.texts@[i - a.texts@.len()]);
        }
    }
    lemma_merge_within(a.batches(), o.batches(), c);
}

/// Adding one image instance clipped within `c` keeps an output within `c`.
pub proof fn lemma_push_image_within(
    before: &RenderOutput,
    after: &RenderOutput,
    key: Seq<char>,
    inst: Instance,
    c: Rect,
)
    requires
        output_within(before, c),
        inst.clip_rect.clip_within(c),
        after.batches() == add_batch(before.batches(), key, seq![inst]),
        after.instances@ == before.instances@,
        after.texts@ == before.texts@,
    ensures
        output_within(after, c),
{
    assert forall|j: int| 0 <= j < seq![inst].len() implies (#[trigger] seq![inst][j]).clip_rect.clip_within(c) by {
        assert(seq![inst][j] == inst);
    }
    lemma_add_batch_within(before.batches(), key, seq![inst], c);
}

} // verus!
