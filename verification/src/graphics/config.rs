use vstd::prelude::*;

verus! {

/// Configurations for the graphics pipeline.
#[derive(Clone, Copy, PartialEq, Eq, Debug)]
pub struct GraphicsConfig {
    /// Whether to enable vsync.
    pub vsync: bool,
    /// Whether to enable multisampling.
    pub multisample: bool,
}

impl Default for GraphicsConfig {
    /// Vsync on, multisampling off.
    fn default() -> (config: Self)
        ensures
            config == (GraphicsConfig { vsync: true, multisample: false }),
    {
        Self { vsync: true, multisample: false }
    }
}

} // verus!
