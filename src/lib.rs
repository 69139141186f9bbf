//! An immediate-mode widget layer: each frame rebuilds a layout arena from a widget
//! description, hit-tests the pointer against the solved boxes, and renders draw
//! instructions while keeping hover, press, focus, scroll, caret and color-transition
//! state across frames. Coordinates are whole pixels; the box solver and the text
//! shaper run outside and hand their results in.

pub mod anim;
pub mod color;
pub mod events;
pub mod frame;
pub mod geometry;
pub mod keyed;
pub mod output;
pub mod render;
pub mod scroll;
pub mod state;
pub mod strings;
pub mod text;
pub mod tree;
pub mod ui;
pub mod walk;
pub mod widgets;

pub use anim::{AnimState, Easing, Transition};
pub use color::Color;
pub use events::{
    AppEvent, Event, InputState, InputType, KeyState, MouseButton, PlatformMode, Role, RoreConfig,
    TimeManager,
};
pub use geometry::{Point, Rect, Size};
pub use output::{ImageBatch, Instance, RenderOutput, TextDraw, TextureSource};
pub use state::{EditKey, FrameworkState, ScrollDelta};
pub use text::{GlyphRect, TextLayout};
pub use tree::{ComputedLayout, LayoutEngine, Node, TextMeasure};
pub use ui::{
    Align, Background, Border, BorderSide, BorderStyle, BoxSizing, CornerRadius, CursorIcon,
    Direction, Display, Filter, FlexDirection, FontWeight, GradientStop, GridLength, GridPlacement,
    GridTemplate, ImageFit, LinearGradient, Overflow, Position, Shadow, Style, TextAlign,
    TextDecoration, TextStyle, TextTransform, Thickness, Transform, Val, Visibility, ZIndex,
};
pub use widgets::{Button, Container, Icon, Image, ScrollView, Text, TextInput, Widget};
