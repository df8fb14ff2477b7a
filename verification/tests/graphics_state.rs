use anchor::graphics::batch_status::BatchStatus;
use anchor::graphics::camera_manager::{BindGroupAlloc, ProjectionBindGroupAllocator};
use anchor::graphics::config::GraphicsConfig;
use anchor::graphics::consts::{BatchStatus as ConstBatchStatus, FilterMode};
use anchor::graphics::context::{
    choose_surface_format, multisample, set_multisample, set_vsync, vsync, vsync_to_present_mode, ConfigUpdate,
    GraphicsContext, PresentMode,
};
use anchor::graphics::font2::Font;
use anchor::graphics::relative_anchor::RelativeAnchor;

#[test]
fn defaults() {
    assert_eq!(BatchStatus::default(), BatchStatus::Empty);
    assert_eq!(ConstBatchStatus::default(), ConstBatchStatus::Empty);
    assert_eq!(RelativeAnchor::default(), RelativeAnchor::TopLeft);
    let config = GraphicsConfig::default();
    assert!(config.vsync);
    assert!(!config.multisample);
    assert_ne!(FilterMode::Nearest, FilterMode::Linear);
}

#[test]
fn present_mode_follows_vsync() {
    assert_eq!(vsync_to_present_mode(true), PresentMode::AutoVsync);
    assert_eq!(vsync_to_present_mode(false), PresentMode::AutoNoVsync);
}

#[test]
fn config_changes_apply_on_update() {
    let mut ctx = GraphicsContext::new(GraphicsConfig::default(), 640, 480);
    assert!(vsync(&ctx));
    assert!(!multisample(&ctx));
    set_vsync(&mut ctx, false);
    set_multisample(&mut ctx, true);
    // Requested settings wait for the next update.
    assert!(vsync(&ctx));
    let update = ctx.update_config();
    assert_eq!(
        update,
        ConfigUpdate { present_mode: Some(PresentMode::AutoNoVsync), sample_count: Some(4) }
    );
    assert!(!vsync(&ctx));
    assert!(multisample(&ctx));
    assert_eq!(ctx.update_config(), ConfigUpdate { present_mode: None, sample_count: None });
    set_multisample(&mut ctx, false);
    assert_eq!(ctx.update_config(), ConfigUpdate { present_mode: None, sample_count: Some(1) });
}

#[test]
fn zero_sized_window_is_ignored() {
    let mut ctx = GraphicsContext::new(GraphicsConfig::default(), 640, 480);
    assert!(!ctx.on_window_resized(0, 100));
    assert_eq!((ctx.surface_width, ctx.surface_height), (640, 480));
    assert!(ctx.on_window_resized(800, 600));
    assert_eq!((ctx.surface_width, ctx.surface_height), (800, 600));
}

#[test]
fn bind_groups_are_reused_after_clear() {
    let mut allocator = ProjectionBindGroupAllocator::new();
    assert_eq!(allocator.allocate(), BindGroupAlloc::Create(0));
    assert_eq!(allocator.allocate(), BindGroupAlloc::Create(1));
    assert!(allocator.is_taken(1));
    assert!(!allocator.is_taken(2));
    allocator.clear();
    assert!(!allocator.is_taken(0));
    assert_eq!(allocator.allocate(), BindGroupAlloc::Reuse(0));
    assert_eq!(allocator.allocate(), BindGroupAlloc::Reuse(1));
    assert_eq!(allocator.allocate(), BindGroupAlloc::Create(2));
}

#[test]
fn garbage_bytes_are_not_a_font() {
    let result = Font::new(&[0u8, 1, 2, 3, 4, 5, 6, 7]);
    match result {
        Ok(_) => panic!("parsed garbage as a font"),
        Err(error) => assert!(!error.message().is_empty()),
    }
}

#[test]
fn cleared_allocator_reuses_groups_before_creating() {
    let mut allocator = ProjectionBindGroupAllocator::new();
    allocator.allocate();
    allocator.allocate();
    allocator.clear();
    assert_eq!(allocator.allocate(), BindGroupAlloc::Reuse(0));
    assert_eq!(allocator.allocate(), BindGroupAlloc::Reuse(1));
    assert_eq!(allocator.allocate(), BindGroupAlloc::Create(2));
    assert!(allocator.is_taken(2) && !allocator.is_taken(3));
}

#[test]
fn surface_format_prefers_the_first_srgb_one() {
    assert_eq!(choose_surface_format(&[false, true, true]), Some(1));
    assert_eq!(choose_surface_format(&[false, false]), Some(0));
    assert_eq!(choose_surface_format(&[]), None);
}
