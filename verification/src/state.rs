//! The state of the running indicator and what its tray menu does to it.
use vstd::prelude::*;

use crate::corner::Corner;
use crate::monitor::{initial_monitor_index, is_initial_monitor, is_last_largest};
use crate::server::ServerInfo;
use crate::settings::{Config, Opacity, is_default_config};

verus! {

/// The state of the running indicator.
pub struct AppState {
    pub corner: Corner,
    /// The display the window is meant to be on.
    pub monitor_index: usize,
    /// Where the HTTP endpoint listens, once it has started.
    pub server_info: Option<ServerInfo>,
    pub transparency: Opacity,
    pub muted: bool,
}

/// What `get_app_state` reports to the window.
#[derive(Clone, Copy, Debug)]
pub struct Snapshot {
    pub transparency: Opacity,
    pub muted: bool,
}

/// Whether `c` records the settings of the state `s`.
pub open spec fn is_config_of(s: AppState, c: Config) -> bool {
    &&& c.corner@ == s.corner.name()
    &&& c.monitor_index == Some(s.monitor_index)
    &&& c.transparency == s.transparency
    &&& c.muted == s.muted
}

/// Whether `s` is the state that the indicator starts in from the settings
/// `c`, with displays of the sizes `sizes` connected.
pub open spec fn is_state_from(c: Config, sizes: Seq<(u32, u32)>, s: AppState) -> bool {
    &&& s.corner == Corner::from_name(c.corner@)
    &&& is_initial_monitor(c.monitor_index, sizes, s.monitor_index)
    &&& s.transparency == c.transparency
    &&& s.muted == c.muted
    &&& s.server_info is None
}

impl AppState {
    /// The state the indicator starts in from the settings `config`, with
    /// displays of the sizes `sizes` connected; the endpoint is not started
    /// yet.
    pub fn from_config(config: &Config, sizes: &Vec<(u32, u32)>) -> (s: AppState)
        ensures
            is_state_from(*config, sizes@, s),
    {
        AppState {
            corner: Corner::parse(config.corner.as_str()),
            monitor_index: initial_monitor_index(config.monitor_index, sizes),
            server_info: None,
            transparency: config.transparency,
            muted: config.muted,
        }
    }

    /// The settings to store for this state.
    pub fn to_config(&self) -> (c: Config)
        ensures
            is_config_of(*self, c),
    {
        Config {
            corner: String::from_str(self.corner.as_str()),
            monitor_index: Some(self.monitor_index),
            transparency: self.transparency,
            muted: self.muted,
        }
    }

    /// What the window asks for when it loads.
    pub fn snapshot(&self) -> (r: Snapshot)
        ensures
            r.transparency == self.transparency,
            r.muted == self.muted,
    {
        Snapshot { transparency: self.transparency, muted: self.muted }
    }
}

/// Settings survive a restart: the state started from the settings stored
/// for a state `s` has the corner, display, transparency and sound of `s`,
/// as long as the display of `s` is still connected.
pub proof fn lemma_settings_round_trip(s: AppState, c: Config, sizes: Seq<(u32, u32)>, t: AppState)
    requires
        is_config_of(s, c),
        is_state_from(c, sizes, t),
        s.monitor_index < sizes.len(),
    ensures
        t.corner == s.corner,
        t.monitor_index == s.monitor_index,
        t.transparency == s.transparency,
        t.muted == s.muted,
{
    crate::corner::lemma_corner_name_round_trip(s.corner);
}

/// A first start puts the window in the top-right corner of the largest
/// display (the last of them where several are equally large), opaque and
/// with sound on.
pub proof fn lemma_first_start(c: Config, sizes: Seq<(u32, u32)>, t: AppState)
    requires
        is_default_config(c),
        is_state_from(c, sizes, t),
    ensures
        t.corner == Corner::TopRight,
        sizes.len() > 0 ==> is_last_largest(sizes, t.monitor_index as int),
        sizes.len() == 0 ==> t.monitor_index == 0,
        t.transparency.bits == crate::settings::OPAQUE_BITS,
        !t.muted,
{
    crate::corner::lemma_corner_name_round_trip(Corner::TopRight);
}

} // verus!
