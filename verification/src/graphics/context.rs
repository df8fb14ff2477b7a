use vstd::prelude::*;
use crate::graphics::config::GraphicsConfig;

verus! {

/// Samples per pixel when multisampling is on.
pub const SAMPLE_COUNT: u32 = 4;

/// How the surface presents frames.
#[derive(Clone, Copy, PartialEq, Eq, Debug)]
pub enum PresentMode {
    AutoVsync,
    AutoNoVsync,
}

/// The present mode that gives the requested vsync.
pub fn vsync_to_present_mode(vsync: bool) -> (mode: PresentMode)
    ensures
        mode == if vsync {
            PresentMode::AutoVsync
        } else {
            PresentMode::AutoNoVsync
        },
{
    if vsync {
        PresentMode::AutoVsync
    } else {
        PresentMode::AutoNoVsync
    }
}

/// Samples per pixel for the surface: `SAMPLE_COUNT` with multisampling
/// (which then renders into a framebuffer of its own), 1 without.
pub fn sample_count(multisample: bool) -> (count: u32)
    ensures
        count == if multisample {
            SAMPLE_COUNT
        } else {
            1
        },
{
    if multisample {
        SAMPLE_COUNT
    } else {
        1
    }
}

/// Which of the surface's formats to render to, given whether each is an
/// sRGB format: the first sRGB one, else the first one; `None` when the
/// surface offers no format.
pub fn choose_surface_format(is_srgb: &[bool]) -> (choice: Option<usize>)
    ensures
        match choice {
            Some(i) => {
                &&& i < is_srgb@.len()
                &&& forall|j: int| 0 <= j < i ==> !is_srgb@[j]
                &&& (is_srgb@[i as int] || (i == 0 && forall|j: int| 0 <= j < is_srgb@.len() ==> !is_srgb@[j]))
            },
            None => is_srgb@.len() == 0,
        },
{
    let mut i: usize = 0;
    while i < is_srgb.len()
        invariant
            i <= is_srgb@.len(),
            forall|j: int| 0 <= j < i ==> !is_srgb@[j],
        decreases is_srgb@.len() - i,
    {
        if is_srgb[i] {
            return Some(i);
        }
        i = i + 1;
    }
    if is_srgb.len() == 0 {
        None
    } else {
        Some(0)
    }
}

/// What the GPU side must redo after the configuration changed.
#[derive(Clone, Copy, PartialEq, Eq, Debug)]
pub struct ConfigUpdate {
    /// The present mode to reconfigure the surface with, if vsync changed.
    pub present_mode: Option<PresentMode>,
    /// The sample count to recreate the framebuffer and pipelines with, if
    /// multisampling changed (1 means no framebuffer).
    pub sample_count: Option<u32>,
}

/// What must be redone when the configuration goes from `config` to
/// `next`: the surface's present mode if vsync changed, the framebuffer and
/// pipelines (with 4 samples, or 1 without multisampling) if multisampling
/// changed.
pub open spec fn config_changes(config: GraphicsConfig, next: GraphicsConfig) -> ConfigUpdate {
    ConfigUpdate {
        present_mode: if config.vsync != next.vsync {
            Some(
                if next.vsync {
                    PresentMode::AutoVsync
                } else {
                    PresentMode::AutoNoVsync
                },
            )
        } else {
            None
        },
        sample_count: if config.multisample != next.multisample {
            Some(
                if next.multisample {
                    SAMPLE_COUNT
                } else {
                    1
                },
            )
        } else {
            None
        },
    }
}

/// The graphics context's own state: the configuration in use, the one
/// requested for the next frame, and the surface's size.
#[derive(Clone, Copy, PartialEq, Eq, Debug)]
pub struct GraphicsContext {
    pub config: GraphicsConfig,
    pub next_config: GraphicsConfig,
    pub surface_width: u32,
    pub surface_height: u32,
}

impl GraphicsContext {
    /// A context using `config` on a surface of the given size.
    pub fn new(config: GraphicsConfig, surface_width: u32, surface_height: u32) -> (ctx: Self)
        ensures
            ctx == (GraphicsContext { config, next_config: config, surface_width, surface_height }),
    {
        GraphicsContext { config, next_config: config, surface_width, surface_height }
    }

    /// Takes a new window size: a zero width or height is ignored. Returns
    /// whether the surface must be reconfigured.
    pub fn on_window_resized(&mut self, width: u32, height: u32) -> (resized: bool)
        ensures
            resized == (width != 0 && height != 0),
            *final(self) == (if resized {
                GraphicsContext { surface_width: width, surface_height: height, ..*old(self) }
            } else {
                *old(self)
            }),
    {
        if width != 0 && height != 0 {
            self.surface_width = width;
            self.surface_height = height;
            true
        } else {
            false
        }
    }

    /// Makes the requested configuration the one in use and tells what
    /// must be redone for it.
    pub fn update_config(&mut self) -> (update: ConfigUpdate)
        ensures
            final(self).config == old(self).next_config,
            final(self).next_config == old(self).next_config,
            final(self).surface_width == old(self).surface_width,
            final(self).surface_height == old(self).surface_height,
            update == config_changes(old(self).config, old(self).next_config),
    {
        let present_mode = if self.config.vsync != self.next_config.vsync {
            Some(vsync_to_present_mode(self.next_config.vsync))
        } else {
            None
        };
        let sample_count = if self.config.multisample != self.next_config.multisample {
            Some(sample_count(self.next_config.multisample))
        } else {
            None
        };
        self.config = self.next_config;
        ConfigUpdate { present_mode, sample_count }
    }
}

/// Requests vsync on or off from the next frame on.
#[inline]
pub fn set_vsync(ctx: &mut GraphicsContext, vsync: bool)
    ensures
        *final(ctx) == (GraphicsContext {
            next_config: GraphicsConfig { vsync, ..old(ctx).next_config },
            ..*old(ctx)
        }),
{
    ctx.next_config.vsync = vsync;
}

/// Requests multisampling on or off from the next frame on.
#[inline]
pub fn set_multisample(ctx: &mut GraphicsContext, multisample: bool)
    ensures
        *final(ctx) == (GraphicsContext {
            next_config: GraphicsConfig { multisample, ..old(ctx).next_config },
            ..*old(ctx)
        }),
{
    ctx.next_config.multisample = multisample;
}

/// Whether vsync is in use.
#[inline]
pub fn vsync(ctx: &GraphicsContext) -> (on: bool)
    ensures
        on == ctx.config.vsync,
{
    ctx.config.vsync
}

/// Whether multisampling is in use.
#[inline]
pub fn multisample(ctx: &GraphicsContext) -> (on: bool)
    ensures
        on == ctx.config.multisample,
{
    ctx.config.multisample
}

/// Once a configuration is in use, updating to it again redoes nothing:
/// after `update_config`, the next one reports no change unless a new
/// setting was requested.
pub proof fn lemma_update_config_settles(config: GraphicsConfig)
    ensures
        config_changes(config, config) == (ConfigUpdate { present_mode: None, sample_count: None }),
{
}

} // verus!
