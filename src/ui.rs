//! Style values describing layout and appearance.

use vstd::prelude::*;
use crate::color::Color;
use crate::geometry::{Point, Size};

verus! {

/// A length in a style: whole pixels, a whole percentage of the parent, automatic, or a
/// whole percentage of the viewport width or height.
#[derive(Clone, Copy, Debug, PartialEq, Eq, Structural)]
pub enum Val {
    Px(i64),
    Percent(i64),
    Auto,
    Vw(i64),
    Vh(i64),
}

impl Default for Val {
    fn default() -> (r: Val)
        ensures
            r == Val::Auto,
    {
        Val::Auto
    }
}

/// Four lengths, one per side.
#[derive(Clone, Copy, Debug, PartialEq, Eq, Structural)]
pub struct Thickness {
    pub top: Val,
    pub right: Val,
    pub bottom: Val,
    pub left: Val,
}

impl Default for Thickness {
    fn default() -> (r: Thickness)
        ensures
            r == (Thickness { top: Val::Auto, right: Val::Auto, bottom: Val::Auto, left: Val::Auto }),
    {
        Thickness { top: Val::Auto, right: Val::Auto, bottom: Val::Auto, left: Val::Auto }
    }
}

impl Thickness {
    pub fn all(v: Val) -> (r: Thickness)
        ensures
            r == (Thickness { top: v, right: v, bottom: v, left: v }),
    {
        Thickness { top: v, right: v, bottom: v, left: v }
    }
}

/// The radius of each corner, in pixels.
#[derive(Clone, Copy, Debug, PartialEq, Eq, Structural, Default)]
pub struct CornerRadius {
    pub top_left: i64,
    pub top_right: i64,
    pub bottom_right: i64,
    pub bottom_left: i64,
}

impl CornerRadius {
    pub fn all(radius: i64) -> (r: CornerRadius)
        ensures
            r == (CornerRadius {
                top_left: radius,
                top_right: radius,
                bottom_right: radius,
                bottom_left: radius,
            }),
    {
        CornerRadius {
            top_left: radius,
            top_right: radius,
            bottom_right: radius,
            bottom_left: radius,
        }
    }
}

#[derive(Clone, Copy, Debug, PartialEq, Eq, Structural, Default)]
pub enum Display {
    #[default]
    Flex,
    Hidden,
    Grid,
}

#[derive(Clone, Copy, Debug, PartialEq, Eq, Structural, Default)]
pub enum FlexDirection {
    #[default]
    Row,
    Column,
    RowReverse,
    ColumnReverse,
}

#[derive(Clone, Copy, Debug, PartialEq, Eq, Structural, Default)]
pub enum Align {
    #[default]
    Stretch,
    Start,
    Center,
    End,
    SpaceBetween,
    SpaceAround,
    SpaceEvenly,
}

#[derive(Clone, Copy, Debug, PartialEq, Eq, Structural, Default)]
pub enum Position {
    #[default]
    Relative,
    Absolute,
}

#[derive(Clone, Copy, Debug, PartialEq, Eq, Structural, Default)]
pub enum BoxSizing {
    ContentBox,
    #[default]
    BorderBox,
}

#[derive(Clone, Copy, Debug, PartialEq, Eq, Structural, Default)]
pub enum Direction {
    #[default]
    Ltr,
    Rtl,
}

/// Stacking order; zero is automatic.
#[derive(Clone, Copy, Debug, PartialEq, Eq, Structural, Default)]
pub struct ZIndex(pub i32);

#[derive(Clone, Copy, Debug, PartialEq, Eq, Structural, Default)]
pub enum Overflow {
    #[default]
    Visible,
    Hidden,
    Scroll,
    Auto,
}

/// A grid track size: automatic, a whole number of fractions, pixels, or a percentage.
#[derive(Clone, Copy, Debug, PartialEq, Eq, Structural)]
pub enum GridLength {
    Auto,
    Fr(u32),
    Px(i64),
    Percent(i64),
}

#[derive(Clone, Debug)]
pub struct GridTemplate {
    pub columns: Vec<GridLength>,
    pub rows: Vec<GridLength>,
}

#[derive(Clone, Copy, Debug, PartialEq, Eq, Structural, Default)]
pub struct GridPlacement {
    pub start: i16,
    pub end: i16,
    pub span: u16,
}

#[derive(Clone, Copy, Debug, PartialEq, Eq, Structural, Default)]
pub enum BorderStyle {
    #[default]
    NoBorder,
    Solid,
    Dashed,
    Dotted,
}

#[derive(Clone, Copy, Debug, PartialEq, Eq, Structural)]
pub struct BorderSide {
    pub width: i64,
    pub style: BorderStyle,
    pub color: Color,
}

impl Default for BorderSide {
    fn default() -> (r: BorderSide)
        ensures
            r == (BorderSide {
                width: 0,
                style: BorderStyle::NoBorder,
                color: Color { r: 0, g: 0, b: 0, a: 0 },
            }),
    {
        BorderSide { width: 0, style: BorderStyle::NoBorder, color: Color { r: 0, g: 0, b: 0, a: 0 } }
    }
}

#[derive(Clone, Copy, Debug, PartialEq, Eq, Structural)]
pub struct Border {
    pub left: BorderSide,
    pub right: BorderSide,
    pub top: BorderSide,
    pub bottom: BorderSide,
}

impl Border {
    pub fn all(width: i64, style: BorderStyle, color: Color) -> (r: Border)
        ensures
            r.left == (BorderSide { width, style, color }),
            r.right == r.left,
            r.top == r.left,
            r.bottom == r.left,
    {
        let side = BorderSide { width, style, color };
        Border { left: side, right: side, top: side, bottom: side }
    }
}

#[derive(Clone, Copy, Debug, PartialEq, Eq, Structural)]
pub enum ImageFit {
    Cover,
    Contain,
    Fill,
}

/// One color stop of a gradient, at a position in thousandths of its length.
#[derive(Clone, Copy, Debug, PartialEq, Eq, Structural)]
pub struct GradientStop {
    pub color: Color,
    pub position: u32,
}

/// A linear gradient at an angle in whole degrees.
#[derive(Clone, Debug)]
pub struct LinearGradient {
    pub angle: i32,
    pub stops: Vec<GradientStop>,
}

#[derive(Clone, Debug)]
pub enum Background {
    Solid(Color),
    Gradient(LinearGradient),
    Image { url: String, fit: ImageFit, repeat: bool },
}

/// A drop shadow, in pixels.
#[derive(Clone, Copy, Debug, PartialEq, Eq, Structural)]
pub struct Shadow {
    pub offset_x: i64,
    pub offset_y: i64,
    pub blur: i64,
    pub spread: i64,
    pub color: Color,
}

#[derive(Clone, Copy, Debug, PartialEq, Eq, Structural, Default)]
pub enum CursorIcon {
    #[default]
    Default,
    Pointer,
    Text,
    Wait,
    Crosshair,
    NotAllowed,
}

#[derive(Clone, Copy, Debug, PartialEq, Eq, Structural, Default)]
pub enum Visibility {
    #[default]
    Visible,
    Hidden,
    Collapse,
}

/// A visual filter; amounts are in thousandths, blur in pixels.
#[derive(Clone, Copy, Debug, PartialEq, Eq, Structural)]
pub enum Filter {
    NoFilter,
    Blur(u32),
    Opacity(u32),
    Grayscale(u32),
}

#[derive(Clone, Copy, Debug, PartialEq, Eq, Structural, Default)]
pub enum TextAlign {
    #[default]
    Left,
    Center,
    Right,
    Justify,
}

#[derive(Clone, Copy, Debug, PartialEq, Eq, Structural, Default)]
pub enum FontWeight {
    Thin,
    ExtraLight,
    Light,
    #[default]
    Regular,
    Medium,
    SemiBold,
    Bold,
    ExtraBold,
    Black,
}

#[derive(Clone, Copy, Debug, PartialEq, Eq, Structural, Default)]
pub enum TextDecoration {
    #[default]
    Plain,
    Underline,
    Overline,
    LineThrough,
}

#[derive(Clone, Copy, Debug, PartialEq, Eq, Structural, Default)]
pub enum TextTransform {
    #[default]
    Unchanged,
    Uppercase,
    Lowercase,
    Capitalize,
}

/// Typography of a text: sizes in pixels, line height in hundredths of the font size.
#[derive(Clone, Debug)]
pub struct TextStyle {
    pub font_size: u32,
    pub font_family: String,
    pub weight: FontWeight,
    pub align: TextAlign,
    pub line_height: u32,
    pub letter_spacing: i64,
    pub decoration: TextDecoration,
    pub transform: TextTransform,
}

/// The layout description of one node, handed to the constraint solver.
#[derive(Clone, Debug)]
pub struct Style {
    pub display: Display,
    pub position: Position,
    pub box_sizing: BoxSizing,
    pub width: Val,
    pub height: Val,
    pub min_width: Val,
    pub min_height: Val,
    pub max_width: Val,
    pub max_height: Val,
    pub margin: Thickness,
    pub padding: Thickness,
    pub flex_direction: FlexDirection,
    pub flex_wrap: bool,
    pub justify_content: Align,
    pub align_items: Align,
    pub align_content: Align,
    pub gap: Size,
    pub grid_template_columns: Vec<GridLength>,
    pub grid_template_rows: Vec<GridLength>,
    pub grid_column: GridPlacement,
    pub grid_row: GridPlacement,
    pub inset: Thickness,
    /// Width over height, as a pair of whole numbers.
    pub aspect_ratio: Option<(u32, u32)>,
    pub z_index: ZIndex,
    pub overflow: Overflow,
    pub flex_grow: u32,
    pub flex_shrink: u32,
}

impl Style {
    /// The style every field of which is at its default: flex display, automatic sizes,
    /// no grow and a shrink factor of one.
    pub open spec fn is_default(&self) -> bool {
        &&& self.display == Display::Flex
        &&& self.position == Position::Relative
        &&& self.box_sizing == BoxSizing::BorderBox
        &&& self.width == Val::Auto && self.height == Val::Auto
        &&& self.min_width == Val::Auto && self.min_height == Val::Auto
        &&& self.max_width == Val::Auto && self.max_height == Val::Auto
        &&& self.margin == Thickness::all_spec(Val::Auto)
        &&& self.padding == Thickness::all_spec(Val::Auto)
        &&& self.inset == Thickness::all_spec(Val::Auto)
        &&& self.flex_direction == FlexDirection::Row
        &&& !self.flex_wrap
        &&& self.justify_content == Align::Stretch
        &&& self.align_items == Align::Stretch
        &&& self.align_content == Align::Stretch
        &&& self.gap == Size { width: 0, height: 0 }
        &&& self.grid_template_columns@.len() == 0
        &&& self.grid_template_rows@.len() == 0
        &&& self.grid_column == GridPlacement { start: 0, end: 0, span: 0 }
        &&& self.grid_row == GridPlacement { start: 0, end: 0, span: 0 }
        &&& self.aspect_ratio is None
        &&& self.z_index == ZIndex(0)
        &&& self.overflow == Overflow::Visible
        &&& self.flex_grow == 0
        &&& self.flex_shrink == 1
    }
}

impl Thickness {
    pub open spec fn all_spec(v: Val) -> Thickness {
        Thickness { top: v, right: v, bottom: v, left: v }
    }
}

impl Default for Style {
    fn default() -> (r: Style)
        ensures
            r.is_default(),
    {
        Style {
            display: Display::Flex,
            position: Position::Relative,
            box_sizing: BoxSizing::BorderBox,
            width: Val::Auto,
            height: Val::Auto,
            min_width: Val::Auto,
            min_height: Val::Auto,
            max_width: Val::Auto,
            max_height: Val::Auto,
            margin: Thickness::all(Val::Auto),
            padding: Thickness::all(Val::Auto),
            flex_direction: FlexDirection::Row,
            flex_wrap: false,
            justify_content: Align::Stretch,
            align_items: Align::Stretch,
            align_content: Align::Stretch,
            gap: Size { width: 0, height: 0 },
            grid_template_columns: Vec::new(),
            grid_template_rows: Vec::new(),
            grid_column: GridPlacement { start: 0, end: 0, span: 0 },
            grid_row: GridPlacement { start: 0, end: 0, span: 0 },
            inset: Thickness::all(Val::Auto),
            aspect_ratio: None,
            z_index: ZIndex(0),
            overflow: Overflow::Visible,
            flex_grow: 0,
            flex_shrink: 1,
        }
    }
}

impl Default for TextStyle {
    fn default() -> (r: TextStyle)
        ensures
            r.font_size == 16,
            r.font_family@ == seq!['I', 'n', 't', 'e', 'r'],
            r.weight == FontWeight::Regular,
            r.align == TextAlign::Left,
            r.line_height == 120,
            r.letter_spacing == 0,
            r.decoration == TextDecoration::Plain,
            r.transform == TextTransform::Unchanged,
    {
        proof {
            reveal_strlit("Inter");
        }
        TextStyle {
            font_size: 16,
            font_family: String::from_str("Inter"),
            weight: FontWeight::Regular,
            align: TextAlign::Left,
            line_height: 120,
            letter_spacing: 0,
            decoration: TextDecoration::Plain,
            transform: TextTransform::Unchanged,
        }
    }
}

/// Scale, translation, rotation in whole degrees and skew; scales are in thousandths.
#[derive(Clone, Copy, Debug, PartialEq, Eq, Structural)]
pub struct Transform {
    pub scale: Point,
    pub translate: Point,
    pub rotate: i32,
    pub skew: Point,
}

impl Default for Transform {
    fn default() -> (r: Transform)
        ensures
            r == (Transform {
                scale: Point { x: 1000, y: 1000 },
                translate: Point { x: 0, y: 0 },
                rotate: 0,
                skew: Point { x: 0, y: 0 },
            }),
    {
        Transform {
            scale: Point { x: 1000, y: 1000 },
            translate: Point { x: 0, y: 0 },
            rotate: 0,
            skew: Point { x: 0, y: 0 },
        }
    }
}

} // verus!
