//! Input kinds, events, platform configuration and frame timing.

use vstd::prelude::*;

verus! {

#[derive(Clone, Copy, Debug, PartialEq, Eq, Structural, Default)]
pub enum InputType {
    #[default]
    Text,
    Password,
    Email,
    Number,
    Checkbox,
    Radio,
    File,
    Date,
    Color,
}

#[derive(Clone, Copy, Debug, PartialEq, Eq, Structural, Default)]
pub struct InputState {
    pub disabled: bool,
    pub readonly: bool,
    pub required: bool,
    pub checked: bool,
}

#[derive(Clone, Copy, Debug, PartialEq, Eq, Structural)]
pub enum MouseButton {
    Left,
    Right,
    Middle,
    Other(u16),
}

#[derive(Clone, Copy, Debug, PartialEq, Eq, Structural)]
pub enum KeyState {
    Pressed,
    Released,
}

/// A discrete input event, in pixels.
#[derive(Clone, Debug)]
pub enum Event {
    Click { x: i64, y: i64, btn: MouseButton },
    MouseMove { x: i64, y: i64 },
    Hover(bool),
    KeyDown(String),
    KeyUp(String),
    Resize { width: i64, height: i64 },
    Scroll { delta_x: i64, delta_y: i64 },
    Focus(bool),
}

#[derive(Clone, Copy, Debug, PartialEq, Eq, Structural, Default)]
pub enum Role {
    #[default]
    Generic,
    Button,
    Link,
    Image,
    Heading,
    Textbox,
    Checkbox,
    List,
    ListItem,
}

#[derive(Clone, Copy, Debug, PartialEq, Eq, Structural)]
pub enum PlatformMode {
    Auto,
    Desktop,
    Mobile,
    Web,
}

/// What the platform offers and which features are on. `scaling` is in thousandths.
#[derive(Clone, Copy, Debug, PartialEq, Eq, Structural)]
pub struct RoreConfig {
    pub mode: PlatformMode,
    pub touch_support: bool,
    pub mouse_support: bool,
    pub virtual_keyboard: bool,
    pub text_selection: bool,
    pub animations: bool,
    pub scaling: u32,
}

impl Default for RoreConfig {
    fn default() -> (r: RoreConfig)
        ensures
            r == RoreConfig::desktop_spec(),
    {
        RoreConfig::desktop()
    }
}

impl RoreConfig {
    pub open spec fn desktop_spec() -> RoreConfig {
        RoreConfig {
            mode: PlatformMode::Desktop,
            touch_support: false,
            mouse_support: true,
            virtual_keyboard: false,
            text_selection: true,
            animations: true,
            scaling: 1000,
        }
    }

    pub open spec fn mobile_spec() -> RoreConfig {
        RoreConfig {
            mode: PlatformMode::Mobile,
            touch_support: true,
            mouse_support: false,
            virtual_keyboard: true,
            text_selection: true,
            animations: true,
            scaling: 1000,
        }
    }

    /// Pointer and physical keyboard, animations on.
    pub fn desktop() -> (r: RoreConfig)
        ensures
            r == RoreConfig::desktop_spec(),
    {
        RoreConfig {
            mode: PlatformMode::Desktop,
            touch_support: false,
            mouse_support: true,
            virtual_keyboard: false,
            text_selection: true,
            animations: true,
            scaling: 1000,
        }
    }

    /// Touch and a virtual keyboard, no pointer, animations on.
    pub fn mobile() -> (r: RoreConfig)
        ensures
            r == RoreConfig::mobile_spec(),
    {
        RoreConfig {
            mode: PlatformMode::Mobile,
            touch_support: true,
            mouse_support: false,
            virtual_keyboard: true,
            text_selection: true,
            animations: true,
            scaling: 1000,
        }
    }

    /// The mobile preset without animations.
    pub fn low_power() -> (r: RoreConfig)
        ensures
            r == (RoreConfig { animations: false, ..RoreConfig::mobile_spec() }),
    {
        let mut cfg = RoreConfig::mobile();
        cfg.animations = false;
        cfg
    }

    pub fn with_touch(self, enabled: bool) -> (r: RoreConfig)
        ensures
            r == (RoreConfig { touch_support: enabled, ..self }),
    {
        RoreConfig { touch_support: enabled, ..self }
    }

    pub fn with_scale(self, scale: u32) -> (r: RoreConfig)
        ensures
            r == (RoreConfig { scaling: scale, ..self }),
    {
        RoreConfig { scaling: scale, ..self }
    }

    pub fn disable_animations(self) -> (r: RoreConfig)
        ensures
            r == (RoreConfig { animations: false, ..self }),
    {
        RoreConfig { animations: false, ..self }
    }
}

/// What the library reports to the application.
#[derive(Clone, Debug)]
pub enum AppEvent {
    /// The widget with this stable id was clicked.
    Click(String),
    /// Text input for the input with this stable id: typed text, a backspace
    /// (`\u{8}`) or a newline.
    Input(String, String),
    /// Time passed since the last frame, in milliseconds.
    Tick(u64),
    Init,
}

/// Frame timing on the caller's millisecond clock.
#[derive(Clone, Copy, Debug, PartialEq, Eq, Structural)]
pub struct TimeManager {
    pub last_update: u64,
    pub dt: u64,
    pub elapsed: u64,
}

impl TimeManager {
    pub fn new(now: u64) -> (r: TimeManager)
        ensures
            r == (TimeManager { last_update: now, dt: 0, elapsed: 0 }),
    {
        TimeManager { last_update: now, dt: 0, elapsed: 0 }
    }

    /// Records a new frame at `now`: the time since the last one (zero if the clock went
    /// back) becomes `dt` and is added to `elapsed`, which saturates.
    pub fn update(&mut self, now: u64)
        ensures
            final(self).dt == (if now >= old(self).last_update {
                now - old(self).last_update
            } else {
                0
            }),
            final(self).last_update == now,
            final(self).elapsed == (if old(self).elapsed + final(self).dt > u64::MAX {
                u64::MAX as int
            } else {
                old(self).elapsed + final(self).dt
            }),
    {
        self.dt = if now >= self.last_update { now - self.last_update } else { 0 };
        self.last_update = now;
        self.elapsed = self.elapsed.saturating_add(self.dt);
    }
}

} // verus!
