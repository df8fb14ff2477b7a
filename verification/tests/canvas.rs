use anchor::graphics::shapes::shape::Shape;
use anchor::graphics::camera_manager::{BindGroupAlloc, ProjectionBindGroupAllocator};
use anchor::graphics::shape::{InstanceBufferUpload, ShapeRenderer};
use anchor::graphics::canvas::{Canvas, CanvasCommand, RenderStep, ShapeBatch, SpriteBatch};
use anchor::graphics::shape_batch::{BufferUpload, Prepare, ShapeBatch as VertexBatch};
use anchor::graphics::shapes::shape_batch::{InstanceUpload, ShapeBatch as InstanceBatch};

#[test]
fn consecutive_draws_of_one_shape_share_a_batch() {
    let mut allocator = ProjectionBindGroupAllocator::new();
    let mut canvas: Canvas<u8, (i32, i32)> = Canvas::new(0, &mut allocator);
    canvas.draw_shape(7);
    canvas.draw_shape(7);
    canvas.draw_shape(8);
    canvas.draw_sprite(1, true);
    canvas.draw_sprite(1, true);
    canvas.draw_sprite(1, false);
    canvas.draw_shape(8);
    let (allocations, steps) = canvas.present(&mut allocator);
    assert_eq!(allocations, vec![BindGroupAlloc::Create(0)]);
    assert_eq!(
        steps,
        vec![
            RenderStep::BindProjection(0),
            RenderStep::PrepareShapes,
            RenderStep::DrawShapes(ShapeBatch { shape: 7, start: 0, end: 2 }),
            RenderStep::DrawShapes(ShapeBatch { shape: 8, start: 2, end: 3 }),
            RenderStep::PrepareSprites,
            RenderStep::DrawSprites(SpriteBatch { texture: 1, smooth: true, start: 0, end: 2 }),
            RenderStep::DrawSprites(SpriteBatch { texture: 1, smooth: false, start: 2, end: 3 }),
            RenderStep::PrepareShapes,
            RenderStep::DrawShapes(ShapeBatch { shape: 8, start: 3, end: 4 }),
        ]
    );
}

#[test]
fn projection_and_viewport_updates_merge() {
    let mut allocator = ProjectionBindGroupAllocator::new();
    // An earlier frame left two groups.
    allocator.allocate();
    allocator.allocate();
    let mut canvas: Canvas<u8, (i32, i32)> = Canvas::new(0, &mut allocator);
    canvas.set_projection(1);
    canvas.set_viewport((1, 1));
    canvas.set_viewport((2, 2));
    canvas.draw_shape(3);
    canvas.set_projection(4);
    canvas.set_projection(5);
    let first = canvas.draw_text();
    let second = canvas.draw_text();
    assert_eq!((first, second), (0, 1));
    let (allocations, steps) = canvas.present(&mut allocator);
    assert_eq!(allocations, vec![BindGroupAlloc::Reuse(0), BindGroupAlloc::Reuse(1)]);
    assert!(allocator.is_taken(1) && !allocator.is_taken(2));
    assert_eq!(
        steps,
        vec![
            RenderStep::BindProjection(0),
            RenderStep::SetViewport((2, 2)),
            RenderStep::PrepareShapes,
            RenderStep::DrawShapes(ShapeBatch { shape: 3, start: 0, end: 1 }),
            RenderStep::BindProjection(1),
            RenderStep::PrepareText,
            RenderStep::DrawText(0, 2),
        ]
    );
    let _ = CanvasCommand::<(i32, i32)>::UpdateProjection;
}

#[test]
fn vertex_batch_shifts_indexes_past_earlier_shapes() {
    let mut batch: VertexBatch<u16> = VertexBatch::new();
    batch.begin();
    batch.draw(&[10, 11, 12], &[0, 1, 2]);
    batch.draw(&[20, 21, 22, 23], &[0, 1, 3, 3, 1, 2]);
    assert_eq!(batch.prepare(), Prepare::Create);
    assert!(batch.can_draw());
    // Creating the buffers leaves the batch marked as changed, so the next
    // prepare writes both buffers once more.
    assert_eq!(batch.prepare(), Prepare::Update(BufferUpload::Write, BufferUpload::Write));
    assert_eq!(batch.prepare(), Prepare::Update(BufferUpload::Keep, BufferUpload::Keep));
    batch.begin();
    batch.draw(&[1, 2, 3], &[0, 1, 2]);
    assert_eq!(batch.prepare(), Prepare::Update(BufferUpload::Write, BufferUpload::Write));
    batch.draw(&[1, 2, 3, 4], &[0, 3, 3, 3, 3, 3, 3, 3, 3, 3]);
    assert_eq!(batch.prepare(), Prepare::Update(BufferUpload::Write, BufferUpload::Recreate));
    batch.draw(&[5], &[0]);
    assert_eq!(batch.prepare(), Prepare::Update(BufferUpload::Recreate, BufferUpload::Recreate));
    batch.begin();
    assert_eq!(batch.prepare(), Prepare::Skip);
    assert!(!batch.can_draw());
}

#[test]
fn instance_batch_uploads_only_new_instances() {
    let mut batch: InstanceBatch<&str, u32> = InstanceBatch::new("square");
    assert_eq!(batch.prepare(), InstanceUpload::Skip);
    assert!(!batch.can_draw());
    batch.add(1);
    batch.add(2);
    assert_eq!(batch.prepare(), InstanceUpload::Create);
    assert!(batch.can_draw());
    assert_eq!(batch.prepare(), InstanceUpload::Skip);
    batch.clear();
    batch.add(3);
    assert_eq!(batch.prepare(), InstanceUpload::Write);
    batch.add(4);
    batch.add(5);
    assert_eq!(batch.prepare(), InstanceUpload::Recreate);
    batch.set_shape("circle");
    assert_eq!(*batch.shape(), "circle");
}

#[test]
fn shape_renderer_writes_when_instances_fit() {
    let mut renderer: ShapeRenderer<u32> = ShapeRenderer::new(48);
    assert!(!renderer.prepare_pipeline());
    assert_eq!(renderer.end(), InstanceBufferUpload::Skip);
    assert_eq!(renderer.next_batch(5), ShapeBatch { shape: 5, start: 0, end: 1 });
    renderer.add(1);
    renderer.add(2);
    assert_eq!(renderer.next_batch(6), ShapeBatch { shape: 6, start: 2, end: 3 });
    assert_eq!(renderer.end(), InstanceBufferUpload::Create);
    assert!(renderer.prepare_pipeline());
    renderer.begin();
    renderer.add(3);
    assert_eq!(renderer.end(), InstanceBufferUpload::Write);
    renderer.add(4);
    assert_eq!(renderer.end(), InstanceBufferUpload::Write);
    renderer.add(5);
    assert_eq!(renderer.end(), InstanceBufferUpload::Create);
    assert_eq!(renderer.end(), InstanceBufferUpload::Write);
}

#[test]
fn shapes_index_their_vertexes() {
    let triangle = Shape::triangle('a', 'b', 'c');
    assert_eq!(triangle.vertexes(), &['a', 'b', 'c']);
    assert_eq!(triangle.indexes(), &[0, 1, 2]);
    assert_eq!((triangle.vertex_count(), triangle.index_count()), (3, 3));
    let copy = triangle.clone();
    assert_eq!(copy.vertexes(), triangle.vertexes());
    assert_eq!(copy.indexes(), triangle.indexes());
    let quad = Shape::quadrilateral(1u8, 2, 3, 4);
    assert_eq!(quad.indexes(), &[0, 1, 3, 3, 1, 2]);
    assert_eq!((quad.vertex_count(), quad.index_count()), (4, 6));
    let mesh = Shape::new_unchecked(vec![0u8; 5], vec![4, 0, 2]);
    assert_eq!((mesh.vertex_count(), mesh.index_count()), (5, 3));
}

#[test]
fn each_projection_gets_the_next_group() {
    let mut allocator = ProjectionBindGroupAllocator::new();
    allocator.allocate();
    let mut canvas: Canvas<u8, u8> = Canvas::new(0, &mut allocator);
    canvas.draw_shape(1);
    canvas.set_projection(1);
    canvas.draw_shape(1);
    canvas.set_projection(2);
    canvas.draw_text();
    let (allocations, steps) = canvas.present(&mut allocator);
    assert_eq!(
        allocations,
        vec![BindGroupAlloc::Reuse(0), BindGroupAlloc::Create(1), BindGroupAlloc::Create(2)]
    );
    let binds: Vec<usize> = steps
        .iter()
        .filter_map(|s| match s {
            RenderStep::BindProjection(k) => Some(*k),
            _ => None,
        })
        .collect();
    assert_eq!(binds, vec![0, 1, 2]);
}
