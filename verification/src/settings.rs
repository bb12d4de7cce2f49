//! What the settings file holds.
use vstd::prelude::*;

verus! {

/// The bit pattern of the opacity `1.0`, a fully opaque background.
pub const OPAQUE_BITS: u64 = 0x3ff0_0000_0000_0000;

/// The background opacity of the indicator window. The library stores and
/// hands it on as the bit pattern of the `f64` that the window draws with;
/// it never computes with it.
#[derive(Clone, Copy, PartialEq, Eq, Structural, Debug)]
pub struct Opacity {
    pub bits: u64,
}

impl Opacity {
    /// A fully opaque background.
    pub fn opaque() -> (o: Opacity)
        ensures
            o.bits == OPAQUE_BITS,
    {
        Opacity { bits: OPAQUE_BITS }
    }
}

/// The settings that survive a restart.
#[derive(Clone, Debug)]
pub struct Config {
    /// The stored name of the corner the window sits in.
    pub corner: String,
    /// The display the window was on, where one was recorded.
    pub monitor_index: Option<usize>,
    pub transparency: Opacity,
    pub muted: bool,
}

/// Whether `c` holds the settings of a first start: the top-right corner,
/// no recorded display, an opaque background, sound on.
pub open spec fn is_default_config(c: Config) -> bool {
    &&& c.corner@ == "top-right"@
    &&& c.monitor_index is None
    &&& c.transparency.bits == OPAQUE_BITS
    &&& !c.muted
}

impl Default for Config {
    /// The settings of a first start; see `is_default_config`.
    fn default() -> (c: Config)
        ensures
            is_default_config(c),
    {
        Config {
            corner: String::from_str("top-right"),
            monitor_index: None,
            transparency: Opacity::opaque(),
            muted: false,
        }
    }
}

} // verus!
