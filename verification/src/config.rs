//! Application configuration constants.

use vstd::prelude::*;

verus! {

/// Timing and layout constants of the interactive loop.
pub struct Config {
    /// Main loop tick rate in milliseconds (target 60 FPS).
    pub tick_rate_ms: u64,
    /// How many ticks a status message stays on screen.
    pub status_timeout_ticks: u64,
    /// Modulo for the animation frame counter.
    pub animation_frame_mod: usize,
    /// Interval for writing debug dumps, in ticks.
    pub debug_dump_interval_ticks: u64,
    /// Interval for auto-hiding the activity log, in ticks.
    pub activity_log_autohide_ticks: u64,
    /// Duration of the send animation, in ticks.
    pub send_animation_ticks: u8,
    /// Lines scrolled per key press.
    pub scroll_step: usize,
    /// Estimated lines per message for the scroll buffer.
    pub scroll_lines_per_message: usize,
    /// Minimum scroll buffer size in lines.
    pub scroll_min_buffer: usize,
    /// Width of the sidebar in characters.
    pub sidebar_width: u16,
}

/// The stock configuration: 60 frames a second, three-second status
/// messages, and the scroll and layout constants the screens assume.
pub open spec fn stock_config(c: Config) -> bool {
    &&& c.tick_rate_ms == 16
    &&& c.status_timeout_ticks == 180
    &&& c.animation_frame_mod == 360
    &&& c.debug_dump_interval_ticks == 30
    &&& c.activity_log_autohide_ticks == 120
    &&& c.send_animation_ticks == 20
    &&& c.scroll_step == 3
    &&& c.scroll_lines_per_message == 50
    &&& c.scroll_min_buffer == 1000
    &&& c.sidebar_width == 26
}

impl Default for Config {
    fn default() -> (r: Self)
        ensures
            stock_config(r),
    {
        Config {
            tick_rate_ms: 16,
            status_timeout_ticks: 180,
            animation_frame_mod: 360,
            debug_dump_interval_ticks: 30,
            activity_log_autohide_ticks: 120,
            send_animation_ticks: 20,
            scroll_step: 3,
            scroll_lines_per_message: 50,
            scroll_min_buffer: 1000,
            sidebar_width: 26,
        }
    }
}

} // verus!
