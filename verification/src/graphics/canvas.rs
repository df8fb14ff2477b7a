use vstd::prelude::*;
use crate::graphics::camera_manager::{BindGroupAlloc, ProjectionBindGroupAllocator};

verus! {

/// Identifies a shape's GPU data (two handles to the same data are equal).
pub type ShapeId = u64;

/// Identifies a texture's GPU data (two handles to the same data are equal).
pub type TextureId = u64;

/// Instances `start..end` of one shape, drawn with one call.
#[derive(Clone, Copy, PartialEq, Eq, Debug)]
pub struct ShapeBatch {
    pub shape: ShapeId,
    pub start: u32,
    pub end: u32,
}

/// Instances `start..end` of one texture and sampler, drawn with one call.
#[derive(Clone, Copy, PartialEq, Eq, Debug)]
pub struct SpriteBatch {
    pub texture: TextureId,
    pub smooth: bool,
    pub start: u32,
    pub end: u32,
}

/// A recorded canvas command. `V` is the viewport type.
#[derive(Clone, Copy, PartialEq, Eq, Debug)]
pub enum CanvasCommand<V> {
    /// Use the next projection.
    UpdateProjection,
    /// Use this viewport.
    UpdateViewport(V),
    DrawShapes(ShapeBatch),
    DrawSprites(SpriteBatch),
    /// Draw the texts `start..end`.
    DrawText(u32, u32),
}

/// What presenting a canvas does, step by step.
#[derive(Clone, Copy, PartialEq, Eq, Debug)]
pub enum RenderStep<V> {
    /// Bind the projection with this index.
    BindProjection(usize),
    SetViewport(V),
    /// Switch to the shape, sprite or text pipeline.
    PrepareShapes,
    PrepareSprites,
    PrepareText,
    DrawShapes(ShapeBatch),
    DrawSprites(SpriteBatch),
    DrawText(u32, u32),
}

/// The kinds of draw command, each with its own pipeline.
#[derive(Clone, Copy, PartialEq, Eq, Debug)]
pub enum DrawKind {
    Shapes,
    Sprites,
    Text,
}

/// The kind of a draw command; `None` for the others.
pub open spec fn draw_kind<V>(command: CanvasCommand<V>) -> Option<DrawKind> {
    match command {
        CanvasCommand::DrawShapes(_) => Some(DrawKind::Shapes),
        CanvasCommand::DrawSprites(_) => Some(DrawKind::Sprites),
        CanvasCommand::DrawText(_, _) => Some(DrawKind::Text),
        _ => None,
    }
}

/// The kind of the last draw command of `commands`.
pub open spec fn last_draw_kind<V>(commands: Seq<CanvasCommand<V>>) -> Option<DrawKind>
    decreases commands.len(),
{
    if commands.len() == 0 {
        None
    } else {
        match draw_kind(commands.last()) {
            Some(k) => Some(k),
            None => last_draw_kind(commands.drop_last()),
        }
    }
}

/// The step that switches to the pipeline of `kind`.
pub open spec fn prepare_step<V>(kind: DrawKind) -> RenderStep<V> {
    match kind {
        DrawKind::Shapes => RenderStep::PrepareShapes,
        DrawKind::Sprites => RenderStep::PrepareSprites,
        DrawKind::Text => RenderStep::PrepareText,
    }
}

/// The steps that present `command` after the commands `before`: a
/// projection command binds the next projection (counting from 0), a
/// viewport command sets the viewport, and a draw switches pipelines first
/// when the previous draw was of another kind.
pub open spec fn steps_for<V>(command: CanvasCommand<V>, before: Seq<CanvasCommand<V>>) -> Seq<
    RenderStep<V>,
> {
    let switch = match draw_kind(command) {
        Some(k) => if last_draw_kind(before) == Some(k) {
            Seq::empty()
        } else {
            seq![prepare_step::<V>(k)]
        },
        None => Seq::empty(),
    };
    match command {
        CanvasCommand::UpdateProjection => seq![RenderStep::BindProjection(projection_updates(before) as usize)],
        CanvasCommand::UpdateViewport(v) => seq![RenderStep::SetViewport(v)],
        CanvasCommand::DrawShapes(b) => switch.push(RenderStep::DrawShapes(b)),
        CanvasCommand::DrawSprites(b) => switch.push(RenderStep::DrawSprites(b)),
        CanvasCommand::DrawText(start, end) => switch.push(RenderStep::DrawText(start, end)),
    }
}

/// The steps that present `commands`, command by command.
pub open spec fn render_plan<V>(commands: Seq<CanvasCommand<V>>) -> Seq<RenderStep<V>>
    decreases commands.len(),
{
    if commands.len() == 0 {
        Seq::empty()
    } else {
        render_plan(commands.drop_last()) + steps_for(commands.last(), commands.drop_last())
    }
}

/// The number of `UpdateProjection` commands in `commands`.
pub open spec fn projection_updates<V>(commands: Seq<CanvasCommand<V>>) -> nat
    decreases commands.len(),
{
    if commands.len() == 0 {
        0
    } else {
        projection_updates(commands.drop_last()) + if commands.last() is UpdateProjection {
            1nat
        } else {
            0nat
        }
    }
}

/// The shape batches of `commands`, in order.
pub open spec fn shape_batches<V>(commands: Seq<CanvasCommand<V>>) -> Seq<ShapeBatch>
    decreases commands.len(),
{
    if commands.len() == 0 {
        Seq::empty()
    } else {
        let rest = shape_batches(commands.drop_last());
        match commands.last() {
            CanvasCommand::DrawShapes(b) => rest.push(b),
            _ => rest,
        }
    }
}

/// The sprite batches of `commands`, in order.
pub open spec fn sprite_batches<V>(commands: Seq<CanvasCommand<V>>) -> Seq<SpriteBatch>
    decreases commands.len(),
{
    if commands.len() == 0 {
        Seq::empty()
    } else {
        let rest = sprite_batches(commands.drop_last());
        match commands.last() {
            CanvasCommand::DrawSprites(b) => rest.push(b),
            _ => rest,
        }
    }
}

/// The text ranges of `commands`, in order.
pub open spec fn text_ranges<V>(commands: Seq<CanvasCommand<V>>) -> Seq<(u32, u32)>
    decreases commands.len(),
{
    if commands.len() == 0 {
        Seq::empty()
    } else {
        let rest = text_ranges(commands.drop_last());
        match commands.last() {
            CanvasCommand::DrawText(start, end) => rest.push((start, end)),
            _ => rest,
        }
    }
}

/// The ranges `ranges` are non-empty, follow each other without gap from 0,
/// and end at `count`: every item below `count` is in exactly one range,
/// in order.
pub open spec fn tiles(ranges: Seq<(u32, u32)>, count: u32) -> bool {
    &&& forall|i: int| 0 <= i < ranges.len() ==> #[trigger] ranges[i].0 < ranges[i].1
    &&& forall|i: int| 0 < i < ranges.len() ==> #[trigger] ranges[i].0 == ranges[i - 1].1
    &&& ranges.len() == 0 ==> count == 0
    &&& ranges.len() > 0 ==> ranges[0].0 == 0 && ranges.last().1 == count
}

/// The instance ranges of shape batches.
pub open spec fn shape_ranges(batches: Seq<ShapeBatch>) -> Seq<(u32, u32)> {
    batches.map_values(|b: ShapeBatch| (b.start, b.end))
}

/// The instance ranges of sprite batches.
pub open spec fn sprite_ranges(batches: Seq<SpriteBatch>) -> Seq<(u32, u32)> {
    batches.map_values(|b: SpriteBatch| (b.start, b.end))
}

/// Extending the last range by one item keeps the ranges tiling.
pub proof fn lemma_tiles_extend(ranges: Seq<(u32, u32)>, count: u32)
    requires
        tiles(ranges, count),
        ranges.len() > 0,
        count < u32::MAX,
    ensures
        tiles(ranges.update(ranges.len() - 1, (ranges.last().0, (count + 1) as u32)), (count + 1) as u32),
{
    let new_ranges = ranges.update(ranges.len() - 1, (ranges.last().0, (count + 1) as u32));
    assert forall|i: int| 0 < i < new_ranges.len() implies #[trigger] new_ranges[i].0 == new_ranges[i
        - 1].1 by {
        assert(ranges[i].0 == ranges[i - 1].1);
    }
    assert forall|i: int| 0 <= i < new_ranges.len() implies #[trigger] new_ranges[i].0 < new_ranges[i].1 by {
        assert(ranges[i].0 < ranges[i].1);
    }
}

/// Appending a one-item range after the last keeps the ranges tiling.
pub proof fn lemma_tiles_push(ranges: Seq<(u32, u32)>, count: u32)
    requires
        tiles(ranges, count),
        count < u32::MAX,
    ensures
        tiles(ranges.push((count, (count + 1) as u32)), (count + 1) as u32),
{
    let new_ranges = ranges.push((count, (count + 1) as u32));
    assert forall|i: int| 0 < i < new_ranges.len() implies #[trigger] new_ranges[i].0 == new_ranges[i
        - 1].1 by {
        if i < ranges.len() {
            assert(ranges[i].0 == ranges[i - 1].1);
        }
    }
    assert forall|i: int| 0 <= i < new_ranges.len() implies #[trigger] new_ranges[i].0 < new_ranges[i].1 by {
        if i < ranges.len() {
            assert(ranges[i].0 < ranges[i].1);
        }
    }
}

/// What a canvas has recorded: its commands, its projections, and how many
/// shape instances, sprite instances and texts were added.
pub ghost struct CanvasModel<P, V> {
    pub commands: Seq<CanvasCommand<V>>,
    pub projections: Seq<P>,
    pub shape_instances: u32,
    pub sprite_instances: u32,
    pub texts: u32,
}

/// Records drawing commands for one frame, merging consecutive draws that
/// can share one draw call. `P` is the projection type, `V` the viewport
/// type.
pub struct Canvas<P, V> {
    commands: Vec<CanvasCommand<V>>,
    projections: Vec<P>,
    shape_instances: u32,
    sprite_instances: u32,
    texts: u32,
}

impl<P, V> View for Canvas<P, V> {
    type V = CanvasModel<P, V>;

    closed spec fn view(&self) -> CanvasModel<P, V> {
        CanvasModel {
            commands: self.commands@,
            projections: self.projections@,
            shape_instances: self.shape_instances,
            sprite_instances: self.sprite_instances,
            texts: self.texts,
        }
    }
}

impl<P, V> Canvas<P, V> {
    /// The canvas's consistency: one projection per projection command, and
    /// the batches of shapes, sprites and texts cover every instance added,
    /// in order, each once.
    pub open spec fn wf(&self) -> bool {
        let m = self@;
        &&& m.commands.len() > 0
        &&& m.projections.len() == projection_updates(m.commands)
        &&& tiles(shape_ranges(shape_batches(m.commands)), m.shape_instances)
        &&& tiles(sprite_ranges(sprite_batches(m.commands)), m.sprite_instances)
        &&& tiles(text_ranges(m.commands), m.texts)
    }

    /// A canvas that starts with `projection` and has drawn nothing. The
    /// frame's projection bind groups are handed out anew: `allocator` is
    /// cleared.
    pub fn new(projection: P, allocator: &mut ProjectionBindGroupAllocator) -> (canvas: Self)
        ensures
            final(allocator).spec_used() == 0,
            final(allocator).spec_allocated() == old(allocator).spec_allocated(),
            canvas.wf(),
            canvas@.commands == seq![CanvasCommand::<V>::UpdateProjection],
            canvas@.projections == seq![projection],
            canvas@.shape_instances == 0,
            canvas@.sprite_instances == 0,
            canvas@.texts == 0,
    {
        allocator.clear();
        let mut commands = Vec::new();
        commands.push(CanvasCommand::UpdateProjection);
        let mut projections = Vec::new();
        projections.push(projection);
        let canvas = Canvas { commands, projections, shape_instances: 0, sprite_instances: 0, texts: 0 };
        proof {
            let c = canvas@.commands;
            assert(c.len() == 1);
            assert(c.last() is UpdateProjection);
            assert(c.drop_last() =~= Seq::<CanvasCommand<V>>::empty());
            assert(projection_updates(c.drop_last()) == 0);
            assert(shape_batches(c.drop_last()) =~= Seq::<ShapeBatch>::empty());
            assert(sprite_batches(c.drop_last()) =~= Seq::<SpriteBatch>::empty());
            assert(text_ranges(c.drop_last()) =~= Seq::<(u32, u32)>::empty());
            assert(projection_updates(c) == 1);
            assert(shape_batches(c) =~= Seq::<ShapeBatch>::empty());
            assert(sprite_batches(c) =~= Seq::<SpriteBatch>::empty());
            assert(text_ranges(c) =~= Seq::<(u32, u32)>::empty());
            assert(shape_ranges(shape_batches(c)) =~= Seq::<(u32, u32)>::empty());
            assert(sprite_ranges(sprite_batches(c)) =~= Seq::<(u32, u32)>::empty());
        }
        canvas
    }

    /// Uses `projection` from here on. Right after another projection
    /// command it replaces that command's projection.
    pub fn set_projection(&mut self, projection: P)
        requires
            old(self).wf(),
        ensures
            final(self).wf(),
            final(self)@ == if old(self)@.commands.last() is UpdateProjection {
                CanvasModel {
                    projections: old(self)@.projections.update(
                        old(self)@.projections.len() - 1,
                        projection,
                    ),
                    ..old(self)@
                }
            } else {
                CanvasModel {
                    commands: old(self)@.commands.push(CanvasCommand::UpdateProjection),
                    projections: old(self)@.projections.push(projection),
                    ..old(self)@
                }
            },
    {
        let last = self.commands.len() - 1;
        if let CanvasCommand::UpdateProjection = self.commands[last] {
            proof {
                let c = self.commands@;
                assert(c.drop_last().len() < c.len());
                assert(projection_updates(c) == projection_updates(c.drop_last()) + 1);
            }
            let p = self.projections.len() - 1;
            self.projections.set(p, projection);
        } else {
            let ghost c = self.commands@;
            self.commands.push(CanvasCommand::UpdateProjection);
            self.projections.push(projection);
            proof {
                assert(self.commands@.drop_last() =~= c);
            }
        }
    }

    /// Uses `viewport` from here on. Right after another viewport command it
    /// replaces that command's viewport.
    pub fn set_viewport(&mut self, viewport: V)
        requires
            old(self).wf(),
        ensures
            final(self).wf(),
            final(self)@ == if old(self)@.commands.last() is UpdateViewport {
                CanvasModel {
                    commands: old(self)@.commands.update(
                        old(self)@.commands.len() - 1,
                        CanvasCommand::UpdateViewport(viewport),
                    ),
                    ..old(self)@
                }
            } else {
                CanvasModel {
                    commands: old(self)@.commands.push(CanvasCommand::UpdateViewport(viewport)),
                    ..old(self)@
                }
            },
    {
        let last = self.commands.len() - 1;
        let ghost c = self.commands@;
        if let CanvasCommand::UpdateViewport(_) = self.commands[last] {
            self.commands.set(last, CanvasCommand::UpdateViewport(viewport));
            proof {
                assert(self.commands@.drop_last() =~= c.drop_last());
            }
        } else {
            self.commands.push(CanvasCommand::UpdateViewport(viewport));
            proof {
                assert(self.commands@.drop_last() =~= c);
            }
        }
    }
}

impl<P, V> Canvas<P, V> {
    /// The shape batch that a draw of `shape` extends: the last command's,
    /// when it draws the same shape.
    pub open spec fn extends_shapes(m: CanvasModel<P, V>, shape: ShapeId) -> bool {
        m.commands.last() matches CanvasCommand::DrawShapes(b) && b.shape == shape
    }

    /// Draws one more instance of `shape`: it extends the last command's
    /// batch when that draws the same shape, else starts a new batch.
    pub fn draw_shape(&mut self, shape: ShapeId)
        requires
            old(self).wf(),
            old(self)@.shape_instances < u32::MAX,
        ensures
            final(self).wf(),
            final(self)@ == if Self::extends_shapes(old(self)@, shape) {
                let b = old(self)@.commands.last()->DrawShapes_0;
                CanvasModel {
                    commands: old(self)@.commands.update(
                        old(self)@.commands.len() - 1,
                        CanvasCommand::DrawShapes(ShapeBatch { end: (b.end + 1) as u32, ..b }),
                    ),
                    shape_instances: (old(self)@.shape_instances + 1) as u32,
                    ..old(self)@
                }
            } else {
                CanvasModel {
                    commands: old(self)@.commands.push(
                        CanvasCommand::DrawShapes(
                            ShapeBatch {
                                shape,
                                start: old(self)@.shape_instances,
                                end: (old(self)@.shape_instances + 1) as u32,
                            },
                        ),
                    ),
                    shape_instances: (old(self)@.shape_instances + 1) as u32,
                    ..old(self)@
                }
            },
    {
        let ghost c = self.commands@;
        let ghost n = self.shape_instances;
        let last = self.commands.len() - 1;
        let mut merged = false;
        if let CanvasCommand::DrawShapes(batch) = self.commands[last] {
            if batch.shape == shape {
                proof {
                    assert(shape_batches(c) == shape_batches(c.drop_last()).push(batch));
                    assert(shape_ranges(shape_batches(c)).last() == (batch.start, batch.end));
                }
                self.commands.set(last, CanvasCommand::DrawShapes(ShapeBatch { end: batch.end + 1, ..batch }));
                merged = true;
                proof {
                    let c2 = self.commands@;
                    assert(c2.drop_last() =~= c.drop_last());
                    let old_ranges = shape_ranges(shape_batches(c));
                    let new_ranges = shape_ranges(shape_batches(c2));
                    assert(new_ranges =~= old_ranges.update(old_ranges.len() - 1, (batch.start, (batch.end + 1) as u32)));
                    assert(projection_updates(c2) == projection_updates(c));
                    assert(sprite_batches(c2) == sprite_batches(c));
                    assert(text_ranges(c2) == text_ranges(c));
                    lemma_tiles_extend(old_ranges, n);
                }
            }
        }
        if !merged {
            let count = self.shape_instances;
            self.commands.push(CanvasCommand::DrawShapes(ShapeBatch { shape, start: count, end: count + 1 }));
            proof {
                let c2 = self.commands@;
                assert(c2.drop_last() =~= c);
                let old_ranges = shape_ranges(shape_batches(c));
                let new_ranges = shape_ranges(shape_batches(c2));
                assert(new_ranges =~= old_ranges.push((n, (n + 1) as u32)));
                assert(projection_updates(c2) == projection_updates(c));
                assert(sprite_batches(c2) == sprite_batches(c));
                assert(text_ranges(c2) == text_ranges(c));
                lemma_tiles_push(old_ranges, n);
            }
        }
        self.shape_instances = self.shape_instances + 1;
    }
}

impl<P, V> Canvas<P, V> {
    /// The sprite batch that a draw of `texture` with `smooth` sampling
    /// extends: the last command's, when it draws with the same texture and
    /// sampling.
    pub open spec fn extends_sprites(m: CanvasModel<P, V>, texture: TextureId, smooth: bool) -> bool {
        m.commands.last() matches CanvasCommand::DrawSprites(b) && b.texture == texture && b.smooth
            == smooth
    }

    /// Draws one more sprite of `texture`, sampled smoothly or not: it
    /// extends the last command's batch when that draws with the same
    /// texture and sampling, else starts a new batch.
    pub fn draw_sprite(&mut self, texture: TextureId, smooth: bool)
        requires
            old(self).wf(),
            old(self)@.sprite_instances < u32::MAX,
        ensures
            final(self).wf(),
            final(self)@ == if Self::extends_sprites(old(self)@, texture, smooth) {
                let b = old(self)@.commands.last()->DrawSprites_0;
                CanvasModel {
                    commands: old(self)@.commands.update(
                        old(self)@.commands.len() - 1,
                        CanvasCommand::DrawSprites(SpriteBatch { end: (b.end + 1) as u32, ..b }),
                    ),
                    sprite_instances: (old(self)@.sprite_instances + 1) as u32,
                    ..old(self)@
                }
            } else {
                CanvasModel {
                    commands: old(self)@.commands.push(
                        CanvasCommand::DrawSprites(
                            SpriteBatch {
                                texture,
                                smooth,
                                start: old(self)@.sprite_instances,
                                end: (old(self)@.sprite_instances + 1) as u32,
                            },
                        ),
                    ),
                    sprite_instances: (old(self)@.sprite_instances + 1) as u32,
                    ..old(self)@
                }
            },
    {
        let ghost c = self.commands@;
        let ghost n = self.sprite_instances;
        let last = self.commands.len() - 1;
        let mut merged = false;
        if let CanvasCommand::DrawSprites(batch) = self.commands[last] {
            if batch.texture == texture && batch.smooth == smooth {
                proof {
                    assert(sprite_batches(c) == sprite_batches(c.drop_last()).push(batch));
                    assert(sprite_ranges(sprite_batches(c)).last() == (batch.start, batch.end));
                }
                self.commands.set(last, CanvasCommand::DrawSprites(SpriteBatch { end: batch.end + 1, ..batch }));
                merged = true;
                proof {
                    let c2 = self.commands@;
                    assert(c2.drop_last() =~= c.drop_last());
                    let old_ranges = sprite_ranges(sprite_batches(c));
                    let new_ranges = sprite_ranges(sprite_batches(c2));
                    assert(new_ranges =~= old_ranges.update(old_ranges.len() - 1, (batch.start, (batch.end + 1) as u32)));
                    assert(projection_updates(c2) == projection_updates(c));
                    assert(shape_batches(c2) == shape_batches(c));
                    assert(text_ranges(c2) == text_ranges(c));
                    lemma_tiles_extend(old_ranges, n);
                }
            }
        }
        if !merged {
            let count = self.sprite_instances;
            self.commands.push(
                CanvasCommand::DrawSprites(SpriteBatch { texture, smooth, start: count, end: count + 1 }),
            );
            proof {
                let c2 = self.commands@;
                assert(c2.drop_last() =~= c);
                let old_ranges = sprite_ranges(sprite_batches(c));
                let new_ranges = sprite_ranges(sprite_batches(c2));
                assert(new_ranges =~= old_ranges.push((n, (n + 1) as u32)));
                assert(projection_updates(c2) == projection_updates(c));
                assert(shape_batches(c2) == shape_batches(c));
                assert(text_ranges(c2) == text_ranges(c));
                lemma_tiles_push(old_ranges, n);
            }
        }
        self.sprite_instances = self.sprite_instances + 1;
    }

    /// Draws one more text, which gets the next text index: it extends the
    /// last command's range when that draws texts, else starts a new range.
    pub fn draw_text(&mut self) -> (text_index: u32)
        requires
            old(self).wf(),
            old(self)@.texts < u32::MAX,
        ensures
            final(self).wf(),
            text_index == old(self)@.texts,
            final(self)@ == if old(self)@.commands.last() is DrawText {
                let (start, end) = (old(self)@.commands.last()->DrawText_0, old(self)@.commands.last()->DrawText_1);
                CanvasModel {
                    commands: old(self)@.commands.update(
                        old(self)@.commands.len() - 1,
                        CanvasCommand::DrawText(start, (end + 1) as u32),
                    ),
                    texts: (old(self)@.texts + 1) as u32,
                    ..old(self)@
                }
            } else {
                CanvasModel {
                    commands: old(self)@.commands.push(
                        CanvasCommand::DrawText(old(self)@.texts, (old(self)@.texts + 1) as u32),
                    ),
                    texts: (old(self)@.texts + 1) as u32,
                    ..old(self)@
                }
            },
    {
        let ghost c = self.commands@;
        let text_index = self.texts;
        self.texts = self.texts + 1;
        let last = self.commands.len() - 1;
        if let CanvasCommand::DrawText(start, end) = self.commands[last] {
            proof {
                assert(text_ranges(c) == text_ranges(c.drop_last()).push((start, end)));
            }
            self.commands.set(last, CanvasCommand::DrawText(start, end + 1));
            proof {
                let c2 = self.commands@;
                assert(c2.drop_last() =~= c.drop_last());
                let old_ranges = text_ranges(c);
                assert(text_ranges(c2) =~= old_ranges.update(old_ranges.len() - 1, (start, (end + 1) as u32)));
                assert(projection_updates(c2) == projection_updates(c));
                assert(shape_batches(c2) == shape_batches(c));
                assert(sprite_batches(c2) == sprite_batches(c));
                lemma_tiles_extend(old_ranges, text_index);
            }
        } else {
            self.commands.push(CanvasCommand::DrawText(text_index, text_index + 1));
            proof {
                let c2 = self.commands@;
                assert(c2.drop_last() =~= c);
                assert(text_ranges(c2) =~= text_ranges(c).push((text_index, (text_index + 1) as u32)));
                assert(projection_updates(c2) == projection_updates(c));
                assert(shape_batches(c2) == shape_batches(c));
                assert(sprite_batches(c2) == sprite_batches(c));
                lemma_tiles_push(text_ranges(c), text_index);
            }
        }
        text_index
    }
}

impl<P, V: Copy> Canvas<P, V> {
    /// Presents what was recorded: first takes one projection bind group
    /// from `allocator` per recorded projection, in order (projection `k`
    /// gets the `k`-th allocation's group), then returns those allocations
    /// with the steps of the render pass (see `render_plan`).
    pub fn present(&self, allocator: &mut ProjectionBindGroupAllocator) -> (plan: (
        Vec<BindGroupAlloc>,
        Vec<RenderStep<V>>,
    ))
        requires
            self.wf(),
            old(allocator).wf(),
            old(allocator).spec_allocated() + self@.projections.len() < usize::MAX,
        ensures
            plan.0@.len() == self@.projections.len(),
            forall|k: int|
                0 <= k < self@.projections.len() ==> #[trigger] plan.0@[k] == if old(allocator).spec_used() + k
                    < old(allocator).spec_allocated() {
                    BindGroupAlloc::Reuse((old(allocator).spec_used() + k) as usize)
                } else {
                    BindGroupAlloc::Create((old(allocator).spec_used() + k) as usize)
                },
            final(allocator).wf(),
            final(allocator).spec_used() == old(allocator).spec_used() + self@.projections.len(),
            final(allocator).spec_allocated() == if old(allocator).spec_allocated() >= old(allocator).spec_used()
                + self@.projections.len() {
                old(allocator).spec_allocated()
            } else {
                old(allocator).spec_used() + self@.projections.len()
            },
            plan.1@ == render_plan(self@.commands),
    {
        let mut allocations: Vec<BindGroupAlloc> = Vec::new();
        let ghost used0 = allocator.spec_used();
        let ghost allocated0 = allocator.spec_allocated();
        let mut p: usize = 0;
        while p < self.projections.len()
            invariant
                p <= self@.projections.len(),
                allocated0 + self@.projections.len() < usize::MAX,
                used0 <= allocated0,
                allocator.wf(),
                allocator.spec_used() == used0 + p,
                allocator.spec_allocated() == if allocated0 >= used0 + p {
                    allocated0
                } else {
                    (used0 + p) as nat
                },
                allocations@.len() == p,
                forall|k: int|
                    0 <= k < p ==> #[trigger] allocations@[k] == if used0 + k < allocated0 {
                        BindGroupAlloc::Reuse((used0 + k) as usize)
                    } else {
                        BindGroupAlloc::Create((used0 + k) as usize)
                    },
            decreases self@.projections.len() - p,
        {
            let how = allocator.allocate();
            allocations.push(how);
            p = p + 1;
        }
        let mut steps: Vec<RenderStep<V>> = Vec::new();
        let mut projection_index: usize = 0;
        let mut last_kind: Option<DrawKind> = None;
        let mut i: usize = 0;
        let ghost c = self.commands@;
        proof {
            assert(c.take(0) =~= Seq::<CanvasCommand<V>>::empty());
        }
        while i < self.commands.len()
            invariant
                c == self.commands@,
                i <= c.len(),
                steps@ == render_plan(c.take(i as int)),
                projection_index == projection_updates(c.take(i as int)),
                last_kind == last_draw_kind(c.take(i as int)),
                projection_updates(c.take(i as int)) <= i,
            decreases c.len() - i,
        {
            let command = self.commands[i];
            let ghost prefix = c.take(i as int);
            proof {
                assert(c.take(i + 1).drop_last() =~= prefix);
                assert(c.take(i + 1).last() == command);
            }
            match command {
                CanvasCommand::UpdateProjection => {
                    steps.push(RenderStep::BindProjection(projection_index));
                    projection_index = projection_index + 1;
                },
                CanvasCommand::UpdateViewport(v) => {
                    steps.push(RenderStep::SetViewport(v));
                },
                CanvasCommand::DrawShapes(b) => {
                    if !matches!(last_kind, Some(DrawKind::Shapes)) {
                        steps.push(RenderStep::PrepareShapes);
                        last_kind = Some(DrawKind::Shapes);
                    }
                    steps.push(RenderStep::DrawShapes(b));
                },
                CanvasCommand::DrawSprites(b) => {
                    if !matches!(last_kind, Some(DrawKind::Sprites)) {
                        steps.push(RenderStep::PrepareSprites);
                        last_kind = Some(DrawKind::Sprites);
                    }
                    steps.push(RenderStep::DrawSprites(b));
                },
                CanvasCommand::DrawText(start, end) => {
                    if !matches!(last_kind, Some(DrawKind::Text)) {
                        steps.push(RenderStep::PrepareText);
                        last_kind = Some(DrawKind::Text);
                    }
                    steps.push(RenderStep::DrawText(start, end));
                },
            }
            proof {
                assert(steps@ =~= render_plan(prefix) + steps_for(command, prefix));
            }
            i = i + 1;
        }
        proof {
            assert(c.take(c.len() as int) =~= c);
        }
        (allocations, steps)
    }
}

/// Presenting binds projections 0, 1, 2, ... one per projection command, so
/// every bound index is below the number of projections recorded: the
/// canvas never binds a projection it did not allocate.
pub proof fn lemma_plan_binds_recorded_projections<V>(commands: Seq<CanvasCommand<V>>)
    ensures
        forall|j: int|
            0 <= j < render_plan(commands).len() ==> (#[trigger] render_plan(commands)[j] matches RenderStep::BindProjection(
                k,
            ) ==> k < projection_updates(commands)),
    decreases commands.len(),
{
    if commands.len() > 0 {
        let before = commands.drop_last();
        lemma_plan_binds_recorded_projections(before);
        let plan = render_plan(commands);
        let head = render_plan(before);
        let tail = steps_for(commands.last(), before);
        assert(plan == head + tail);
        assert forall|j: int|
            0 <= j < plan.len() implies (#[trigger] plan[j] matches RenderStep::BindProjection(k) ==> k
            < projection_updates(commands)) by {
            if j < head.len() {
                assert(plan[j] == head[j]);
            } else {
                assert(plan[j] == tail[j - head.len()]);
            }
        }
    }
}

/// The pipeline that a step switches to, if it prepares one.
pub open spec fn prepared_kind<V>(step: RenderStep<V>) -> Option<DrawKind> {
    match step {
        RenderStep::PrepareShapes => Some(DrawKind::Shapes),
        RenderStep::PrepareSprites => Some(DrawKind::Sprites),
        RenderStep::PrepareText => Some(DrawKind::Text),
        _ => None,
    }
}

/// The pipeline that a step draws with, if it draws.
pub open spec fn drawn_kind<V>(step: RenderStep<V>) -> Option<DrawKind> {
    match step {
        RenderStep::DrawShapes(_) => Some(DrawKind::Shapes),
        RenderStep::DrawSprites(_) => Some(DrawKind::Sprites),
        RenderStep::DrawText(_, _) => Some(DrawKind::Text),
        _ => None,
    }
}

/// The pipeline bound after `steps`: the last one prepared.
pub open spec fn bound_pipeline<V>(steps: Seq<RenderStep<V>>) -> Option<DrawKind>
    decreases steps.len(),
{
    if steps.len() == 0 {
        None
    } else {
        match prepared_kind(steps.last()) {
            Some(k) => Some(k),
            None => bound_pipeline(steps.drop_last()),
        }
    }
}

/// After `s` then `t`, the bound pipeline is the last one `t` prepared, or
/// else the one bound after `s`.
proof fn lemma_bound_pipeline_append<V>(s: Seq<RenderStep<V>>, t: Seq<RenderStep<V>>)
    ensures
        bound_pipeline(s + t) == match bound_pipeline(t) {
            Some(k) => Some(k),
            None => bound_pipeline(s),
        },
    decreases t.len(),
{
    if t.len() == 0 {
        assert(s + t =~= s);
    } else {
        lemma_bound_pipeline_append(s, t.drop_last());
        assert((s + t).drop_last() =~= s + t.drop_last());
        assert((s + t).last() == t.last());
    }
}

/// Presenting binds the right pipeline for every draw: each draw step of
/// shapes, sprites or text comes after a step preparing that same pipeline,
/// with no other pipeline prepared in between. After the whole plan the
/// pipeline of the last draw command is bound.
pub proof fn lemma_plan_draws_with_own_pipeline<V>(commands: Seq<CanvasCommand<V>>)
    ensures
        forall|j: int|
            0 <= j < render_plan(commands).len() ==> (drawn_kind(#[trigger] render_plan(commands)[j])
                matches Some(k) ==> bound_pipeline(render_plan(commands).take(j)) == Some(k)),
        bound_pipeline(render_plan(commands)) == last_draw_kind(commands),
    decreases commands.len(),
{
    if commands.len() > 0 {
        let before = commands.drop_last();
        let command = commands.last();
        lemma_plan_draws_with_own_pipeline(before);
        let head = render_plan(before);
        let tail = steps_for(command, before);
        let plan = render_plan(commands);
        assert(plan == head + tail);
        lemma_bound_pipeline_append(head, tail);
        assert forall|j: int| 0 <= j < plan.len() implies (drawn_kind(#[trigger] plan[j]) matches Some(k)
            ==> bound_pipeline(plan.take(j)) == Some(k)) by {
            if j < head.len() {
                assert(plan[j] == head[j]);
                assert(plan.take(j) =~= head.take(j));
            } else {
                let i = j - head.len();
                assert(plan[j] == tail[i]);
                assert(plan.take(j) =~= head + tail.take(i));
                lemma_bound_pipeline_append(head, tail.take(i));
                if i == 1 {
                    assert(tail.take(1) =~= seq![tail[0]]);
                    assert(seq![tail[0]].drop_last() =~= Seq::<RenderStep<V>>::empty());
                } else {
                    assert(tail.take(0) =~= Seq::<RenderStep<V>>::empty());
                }
            }
        }
        assert(prepared_kind(tail.last()) is None);
        if tail.len() == 2 {
            let first = seq![tail[0]];
            assert(tail.drop_last() =~= first);
            assert(first.drop_last() =~= Seq::<RenderStep<V>>::empty());
            assert(first.last() == tail[0]);
            assert(bound_pipeline(first) == prepared_kind(tail[0]));
            assert(bound_pipeline(tail) == bound_pipeline(first));
        } else {
            assert(tail.len() == 1);
            assert(tail.drop_last() =~= Seq::<RenderStep<V>>::empty());
            assert(bound_pipeline(tail) == bound_pipeline(Seq::<RenderStep<V>>::empty()));
        }
    }
}

} // verus!
