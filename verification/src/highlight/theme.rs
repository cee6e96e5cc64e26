//! Color themes for syntax highlighting.
use vstd::prelude::*;

use super::HighlightType;

verus! {

/// An sRGBA color with premultiplied alpha.
#[derive(Debug, Clone, Copy, PartialEq, Eq, Structural)]
pub struct Color {
    /// Red, premultiplied.
    pub r: u8,
    /// Green, premultiplied.
    pub g: u8,
    /// Blue, premultiplied.
    pub b: u8,
    /// Alpha.
    pub a: u8,
}

/// The opaque color with the given red, green and blue.
pub open spec fn rgb(r: u8, g: u8, b: u8) -> Color {
    Color { r, g, b, a: 255 }
}

/// The premultiplied components of the color with the given separate
/// (unmultiplied) red, green, blue and alpha, as egui's
/// `Color32::from_rgba_unmultiplied` computes them.
pub uninterp spec fn premultiplied(r: u8, g: u8, b: u8, a: u8) -> (u8, u8, u8, u8);

/// The color with the given separate red, green, blue and alpha.
pub open spec fn unmultiplied(r: u8, g: u8, b: u8, a: u8) -> Color {
    let p = premultiplied(r, g, b, a);
    Color { r: p.0, g: p.1, b: p.2, a: p.3 }
}

/// `egui::Color32::from_rgba_unmultiplied`, as its four components: fully
/// transparent black for alpha 0, the opaque color for alpha 255, and
/// otherwise the channels scaled by alpha in linear space (computed in
/// floating point), with the alpha kept.
#[verifier::external_body]
fn rgba_unmultiplied(r: u8, g: u8, b: u8, a: u8) -> (p: (u8, u8, u8, u8))
    ensures
        p == premultiplied(r, g, b, a),
        a == 0 ==> p == (0u8, 0u8, 0u8, 0u8),
        a == 255 ==> p == (r, g, b, 255u8),
        p.3 == a,
{
    let c = egui::Color32::from_rgba_unmultiplied(r, g, b, a);
    (c.r(), c.g(), c.b(), c.a())
}

impl Color {
    /// The opaque color with the given red, green and blue.
    pub fn from_rgb(r: u8, g: u8, b: u8) -> (c: Color)
        ensures
            c == rgb(r, g, b),
    {
        Color { r, g, b, a: 255 }
    }

    /// The color with the given premultiplied components.
    pub fn from_rgba_premultiplied(r: u8, g: u8, b: u8, a: u8) -> (c: Color)
        ensures
            c == (Color { r, g, b, a }),
    {
        Color { r, g, b, a }
    }

    /// The color with the given separate red, green, blue and alpha.
    pub fn from_rgba_unmultiplied(r: u8, g: u8, b: u8, a: u8) -> (c: Color)
        ensures
            c == unmultiplied(r, g, b, a),
    {
        let p = rgba_unmultiplied(r, g, b, a);
        Color { r: p.0, g: p.1, b: p.2, a: p.3 }
    }

    /// Red, premultiplied.
    pub fn r(&self) -> (v: u8)
        ensures
            v == self.r,
    {
        self.r
    }

    /// Green, premultiplied.
    pub fn g(&self) -> (v: u8)
        ensures
            v == self.g,
    {
        self.g
    }

    /// Blue, premultiplied.
    pub fn b(&self) -> (v: u8)
        ensures
            v == self.b,
    {
        self.b
    }

    /// Alpha.
    pub fn a(&self) -> (v: u8)
        ensures
            v == self.a,
    {
        self.a
    }
}

/// The color that `list` gives `t`: the first entry for `t`.
pub open spec fn lookup(list: Seq<(HighlightType, Color)>, t: HighlightType) -> Option<Color>
    decreases list.len(),
{
    if list.len() == 0 {
        None
    } else if list[0].0 == t {
        Some(list[0].1)
    } else {
        lookup(list.drop_first(), t)
    }
}

/// A color theme.
#[derive(Debug, Clone)]
pub struct Theme {
    /// Theme name.
    pub name: String,
    /// Background color.
    pub background: Color,
    /// Default text color.
    pub foreground: Color,
    /// Selection background.
    pub selection: Color,
    /// Cursor color.
    pub cursor: Color,
    /// Line number color.
    pub line_number: Color,
    /// Current line highlight.
    pub current_line: Color,
    /// Colors of the highlight types, one entry per type.
    pub highlights: Vec<(HighlightType, Color)>,
}

proof fn lemma_lookup_update(list: Seq<(HighlightType, Color)>, i: int, t: HighlightType, c: Color, u: HighlightType)
    requires
        0 <= i < list.len(),
        list[i].0 == t,
        forall|j: int| 0 <= j < i ==> list[j].0 != t,
    ensures
        lookup(list.update(i, (t, c)), u) == if u == t {
            Some(c)
        } else {
            lookup(list, u)
        },
    decreases i,
{
    if i > 0 {
        assert(list.update(i, (t, c)).drop_first() =~= list.drop_first().update(i - 1, (t, c)));
        lemma_lookup_update(list.drop_first(), i - 1, t, c, u);
    } else {
        assert(list.update(i, (t, c)).drop_first() =~= list.drop_first());
    }
}

proof fn lemma_lookup_push(list: Seq<(HighlightType, Color)>, t: HighlightType, c: Color, u: HighlightType)
    requires
        forall|j: int| 0 <= j < list.len() ==> list[j].0 != t,
    ensures
        lookup(list.push((t, c)), u) == if u == t {
            Some(c)
        } else {
            lookup(list, u)
        },
    decreases list.len(),
{
    if list.len() > 0 {
        assert(list.push((t, c)).drop_first() =~= list.drop_first().push((t, c)));
        lemma_lookup_push(list.drop_first(), t, c, u);
    } else {
        assert(list.push((t, c))[0] == (t, c));
        assert(list.push((t, c)).drop_first() =~= list);
    }
}

impl Theme {
    /// A theme named `name` with the dark base colors and no highlight
    /// colors.
    pub fn new(name: &str) -> (t: Theme)
        ensures
            t.name@ == name@,
            t.background == rgb(30, 30, 30),
            t.foreground == rgb(212, 212, 212),
            t.selection == unmultiplied(38, 79, 120, 180),
            t.cursor == rgb(255, 255, 255),
            t.line_number == rgb(133, 133, 133),
            t.current_line == unmultiplied(255, 255, 255, 10),
            t.highlights@ == Seq::<(HighlightType, Color)>::empty(),
    {
        Theme {
            name: name.to_owned(),
            background: Color::from_rgb(30, 30, 30),
            foreground: Color::from_rgb(212, 212, 212),
            selection: Color::from_rgba_unmultiplied(38, 79, 120, 180),
            cursor: Color::from_rgb(255, 255, 255),
            line_number: Color::from_rgb(133, 133, 133),
            current_line: Color::from_rgba_unmultiplied(255, 255, 255, 10),
            highlights: Vec::new(),
        }
    }

    /// Sets the color of `highlight_type`.
    pub fn set_highlight_color(&mut self, highlight_type: HighlightType, color: Color)
        ensures
            forall|u: HighlightType|
                #[trigger] lookup(final(self).highlights@, u) == if u == highlight_type {
                    Some(color)
                } else {
                    lookup(old(self).highlights@, u)
                },
            final(self).name == old(self).name,
            final(self).background == old(self).background,
            final(self).foreground == old(self).foreground,
            final(self).selection == old(self).selection,
            final(self).cursor == old(self).cursor,
            final(self).line_number == old(self).line_number,
            final(self).current_line == old(self).current_line,
    {
        let n = self.highlights.len();
        let mut i: usize = 0;
        while i < n
            invariant
                n == self.highlights@.len(),
                *self == *old(self),
                i <= n,
                forall|j: int| 0 <= j < i ==> self.highlights@[j].0 != highlight_type,
            decreases n - i,
        {
            if self.highlights[i].0 == highlight_type {
                let ghost before = self.highlights@;
                self.highlights.set(i, (highlight_type, color));
                proof {
                    assert forall|u: HighlightType| #[trigger] lookup(self.highlights@, u) == if u
                        == highlight_type {
                        Some(color)
                    } else {
                        lookup(before, u)
                    } by {
                        lemma_lookup_update(before, i as int, highlight_type, color, u);
                    }
                }
                return;
            }
            i = i + 1;
        }
        let ghost before = self.highlights@;
        self.highlights.push((highlight_type, color));
        proof {
            assert forall|u: HighlightType| #[trigger] lookup(self.highlights@, u) == if u
                == highlight_type {
                Some(color)
            } else {
                lookup(before, u)
            } by {
                lemma_lookup_push(before, highlight_type, color, u);
            }
        }
    }

    /// The color of `highlight_type`, or the default text color when it
    /// has none.
    pub fn get_highlight_color(&self, highlight_type: HighlightType) -> (c: Color)
        ensures
            c == match lookup(self.highlights@, highlight_type) {
                Some(c) => c,
                None => self.foreground,
            },
    {
        let n = self.highlights.len();
        let mut i: usize = 0;
        assert(self.highlights@.skip(0) =~= self.highlights@);
        while i < n
            invariant
                n == self.highlights@.len(),
                i <= n,
                lookup(self.highlights@, highlight_type) == lookup(self.highlights@.skip(i as int), highlight_type),
            decreases n - i,
        {
            assert(self.highlights@.skip(i as int).drop_first() =~= self.highlights@.skip(i + 1));
            if self.highlights[i].0 == highlight_type {
                return self.highlights[i].1;
            }
            i = i + 1;
        }
        assert(self.highlights@.skip(n as int) =~= Seq::<(HighlightType, Color)>::empty());
        self.foreground
    }

    /// The "Dark" theme.
    pub fn dark() -> (t: Theme)
        ensures
            t.name@ == "Dark"@,
            t.background == rgb(30, 30, 30),
            t.foreground == rgb(212, 212, 212),
            t.selection == unmultiplied(38, 79, 120, 180),
            t.cursor == rgb(255, 255, 255),
            t.line_number == rgb(133, 133, 133),
            t.current_line == unmultiplied(255, 255, 255, 10),
            forall|u: HighlightType| #[trigger] lookup(t.highlights@, u) == Some(dark_palette(u)),
    {
        let mut theme = Theme::new("Dark");
        theme.background = Color::from_rgb(30, 30, 30);
        theme.foreground = Color::from_rgb(212, 212, 212);
        theme.selection = Color::from_rgba_unmultiplied(38, 79, 120, 180);
        theme.cursor = Color::from_rgb(255, 255, 255);
        theme.line_number = Color::from_rgb(133, 133, 133);
        theme.current_line = Color::from_rgba_unmultiplied(255, 255, 255, 10);
        theme.set_highlight_color(HighlightType::Keyword, Color::from_rgb(86, 156, 214));
        theme.set_highlight_color(HighlightType::Type, Color::from_rgb(78, 201, 176));
        theme.set_highlight_color(HighlightType::Function, Color::from_rgb(220, 220, 170));
        theme.set_highlight_color(HighlightType::Variable, Color::from_rgb(156, 220, 254));
        theme.set_highlight_color(HighlightType::String, Color::from_rgb(206, 145, 120));
        theme.set_highlight_color(HighlightType::Number, Color::from_rgb(181, 206, 168));
        theme.set_highlight_color(HighlightType::Comment, Color::from_rgb(106, 153, 85));
        theme.set_highlight_color(HighlightType::Operator, Color::from_rgb(212, 212, 212));
        theme.set_highlight_color(HighlightType::Attribute, Color::from_rgb(86, 156, 214));
        theme.set_highlight_color(HighlightType::Macro, Color::from_rgb(86, 156, 214));
        theme.set_highlight_color(HighlightType::Constant, Color::from_rgb(79, 193, 255));
        theme.set_highlight_color(HighlightType::Module, Color::from_rgb(78, 201, 176));
        theme.set_highlight_color(HighlightType::Property, Color::from_rgb(156, 220, 254));
        theme.set_highlight_color(HighlightType::Other, Color::from_rgb(212, 212, 212));
        proof {
            assert forall|u: HighlightType| #[trigger] lookup(theme.highlights@, u) == Some(dark_palette(u)) by {
                match u {
                    HighlightType::Keyword => {},
                    HighlightType::Type => {},
                    HighlightType::Function => {},
                    HighlightType::Variable => {},
                    HighlightType::String => {},
                    HighlightType::Number => {},
                    HighlightType::Comment => {},
                    HighlightType::Operator => {},
                    HighlightType::Attribute => {},
                    HighlightType::Macro => {},
                    HighlightType::Constant => {},
                    HighlightType::Module => {},
                    HighlightType::Property => {},
                    HighlightType::Other => {},
                }
            }
        }
        theme
    }

    /// The "Light" theme.
    pub fn light() -> (t: Theme)
        ensures
            t.name@ == "Light"@,
            t.background == rgb(255, 255, 255),
            t.foreground == rgb(0, 0, 0),
            t.selection == unmultiplied(173, 214, 255, 180),
            t.cursor == rgb(0, 0, 0),
            t.line_number == rgb(133, 133, 133),
            t.current_line == unmultiplied(0, 0, 0, 10),
            forall|u: HighlightType| #[trigger] lookup(t.highlights@, u) == Some(light_palette(u)),
    {
        let mut theme = Theme::new("Light");
        theme.background = Color::from_rgb(255, 255, 255);
        theme.foreground = Color::from_rgb(0, 0, 0);
        theme.selection = Color::from_rgba_unmultiplied(173, 214, 255, 180);
        theme.cursor = Color::from_rgb(0, 0, 0);
        theme.line_number = Color::from_rgb(133, 133, 133);
        theme.current_line = Color::from_rgba_unmultiplied(0, 0, 0, 10);
        theme.set_highlight_color(HighlightType::Keyword, Color::from_rgb(0, 0, 255));
        theme.set_highlight_color(HighlightType::Type, Color::from_rgb(38, 127, 153));
        theme.set_highlight_color(HighlightType::Function, Color::from_rgb(121, 94, 38));
        theme.set_highlight_color(HighlightType::Variable, Color::from_rgb(0, 16, 128));
        theme.set_highlight_color(HighlightType::String, Color::from_rgb(163, 21, 21));
        theme.set_highlight_color(HighlightType::Number, Color::from_rgb(9, 134, 88));
        theme.set_highlight_color(HighlightType::Comment, Color::from_rgb(0, 128, 0));
        theme.set_highlight_color(HighlightType::Operator, Color::from_rgb(0, 0, 0));
        theme.set_highlight_color(HighlightType::Attribute, Color::from_rgb(0, 0, 255));
        theme.set_highlight_color(HighlightType::Macro, Color::from_rgb(0, 0, 255));
        theme.set_highlight_color(HighlightType::Constant, Color::from_rgb(0, 16, 128));
        theme.set_highlight_color(HighlightType::Module, Color::from_rgb(38, 127, 153));
        theme.set_highlight_color(HighlightType::Property, Color::from_rgb(0, 16, 128));
        theme.set_highlight_color(HighlightType::Other, Color::from_rgb(0, 0, 0));
        proof {
            assert forall|u: HighlightType| #[trigger] lookup(theme.highlights@, u) == Some(light_palette(u)) by {
                match u {
                    HighlightType::Keyword => {},
                    HighlightType::Type => {},
                    HighlightType::Function => {},
                    HighlightType::Variable => {},
                    HighlightType::String => {},
                    HighlightType::Number => {},
                    HighlightType::Comment => {},
                    HighlightType::Operator => {},
                    HighlightType::Attribute => {},
                    HighlightType::Macro => {},
                    HighlightType::Constant => {},
                    HighlightType::Module => {},
                    HighlightType::Property => {},
                    HighlightType::Other => {},
                }
            }
        }
        theme
    }

    /// The "Monokai" theme.
    pub fn monokai() -> (t: Theme)
        ensures
            t.name@ == "Monokai"@,
            t.background == rgb(39, 40, 34),
            t.foreground == rgb(248, 248, 242),
            t.selection == unmultiplied(73, 72, 62, 200),
            t.cursor == rgb(248, 248, 240),
            t.line_number == rgb(144, 144, 138),
            t.current_line == unmultiplied(255, 255, 255, 10),
            forall|u: HighlightType| #[trigger] lookup(t.highlights@, u) == Some(monokai_palette(u)),
    {
        let mut theme = Theme::new("Monokai");
        theme.background = Color::from_rgb(39, 40, 34);
        theme.foreground = Color::from_rgb(248, 248, 242);
        theme.selection = Color::from_rgba_unmultiplied(73, 72, 62, 200);
        theme.cursor = Color::from_rgb(248, 248, 240);
        theme.line_number = Color::from_rgb(144, 144, 138);
        theme.current_line = Color::from_rgba_unmultiplied(255, 255, 255, 10);
        theme.set_highlight_color(HighlightType::Keyword, Color::from_rgb(249, 38, 114));
        theme.set_highlight_color(HighlightType::Type, Color::from_rgb(102, 217, 239));
        theme.set_highlight_color(HighlightType::Function, Color::from_rgb(166, 226, 46));
        theme.set_highlight_color(HighlightType::Variable, Color::from_rgb(248, 248, 242));
        theme.set_highlight_color(HighlightType::String, Color::from_rgb(230, 219, 116));
        theme.set_highlight_color(HighlightType::Number, Color::from_rgb(174, 129, 255));
        theme.set_highlight_color(HighlightType::Comment, Color::from_rgb(117, 113, 94));
        theme.set_highlight_color(HighlightType::Operator, Color::from_rgb(249, 38, 114));
        theme.set_highlight_color(HighlightType::Attribute, Color::from_rgb(166, 226, 46));
        theme.set_highlight_color(HighlightType::Macro, Color::from_rgb(166, 226, 46));
        theme.set_highlight_color(HighlightType::Constant, Color::from_rgb(174, 129, 255));
        theme.set_highlight_color(HighlightType::Module, Color::from_rgb(102, 217, 239));
        theme.set_highlight_color(HighlightType::Property, Color::from_rgb(248, 248, 242));
        theme.set_highlight_color(HighlightType::Other, Color::from_rgb(248, 248, 242));
        proof {
            assert forall|u: HighlightType| #[trigger] lookup(theme.highlights@, u) == Some(monokai_palette(u)) by {
                match u {
                    HighlightType::Keyword => {},
                    HighlightType::Type => {},
                    HighlightType::Function => {},
                    HighlightType::Variable => {},
                    HighlightType::String => {},
                    HighlightType::Number => {},
                    HighlightType::Comment => {},
                    HighlightType::Operator => {},
                    HighlightType::Attribute => {},
                    HighlightType::Macro => {},
                    HighlightType::Constant => {},
                    HighlightType::Module => {},
                    HighlightType::Property => {},
                    HighlightType::Other => {},
                }
            }
        }
        theme
    }
}

impl Default for Theme {
    fn default() -> (t: Theme)
        ensures
            t.name@ == "Dark"@,
            forall|u: HighlightType| #[trigger] lookup(t.highlights@, u) == Some(dark_palette(u)),
    {
        Theme::dark()
    }
}

/// The highlight colors of the "Dark" theme.
pub open spec fn dark_palette(t: HighlightType) -> Color {
    match t {
        HighlightType::Keyword => rgb(86, 156, 214),
        HighlightType::Type => rgb(78, 201, 176),
        HighlightType::Function => rgb(220, 220, 170),
        HighlightType::Variable => rgb(156, 220, 254),
        HighlightType::String => rgb(206, 145, 120),
        HighlightType::Number => rgb(181, 206, 168),
        HighlightType::Comment => rgb(106, 153, 85),
        HighlightType::Operator => rgb(212, 212, 212),
        HighlightType::Attribute => rgb(86, 156, 214),
        HighlightType::Macro => rgb(86, 156, 214),
        HighlightType::Constant => rgb(79, 193, 255),
        HighlightType::Module => rgb(78, 201, 176),
        HighlightType::Property => rgb(156, 220, 254),
        HighlightType::Other => rgb(212, 212, 212),
    }
}

/// The highlight colors of the "Light" theme.
pub open spec fn light_palette(t: HighlightType) -> Color {
    match t {
        HighlightType::Keyword => rgb(0, 0, 255),
        HighlightType::Type => rgb(38, 127, 153),
        HighlightType::Function => rgb(121, 94, 38),
        HighlightType::Variable => rgb(0, 16, 128),
        HighlightType::String => rgb(163, 21, 21),
        HighlightType::Number => rgb(9, 134, 88),
        HighlightType::Comment => rgb(0, 128, 0),
        HighlightType::Operator => rgb(0, 0, 0),
        HighlightType::Attribute => rgb(0, 0, 255),
        HighlightType::Macro => rgb(0, 0, 255),
        HighlightType::Constant => rgb(0, 16, 128),
        HighlightType::Module => rgb(38, 127, 153),
        HighlightType::Property => rgb(0, 16, 128),
        HighlightType::Other => rgb(0, 0, 0),
    }
}

/// The highlight colors of the "Monokai" theme.
pub open spec fn monokai_palette(t: HighlightType) -> Color {
    match t {
        HighlightType::Keyword => rgb(249, 38, 114),
        HighlightType::Type => rgb(102, 217, 239),
        HighlightType::Function => rgb(166, 226, 46),
        HighlightType::Variable => rgb(248, 248, 242),
        HighlightType::String => rgb(230, 219, 116),
        HighlightType::Number => rgb(174, 129, 255),
        HighlightType::Comment => rgb(117, 113, 94),
        HighlightType::Operator => rgb(249, 38, 114),
        HighlightType::Attribute => rgb(166, 226, 46),
        HighlightType::Macro => rgb(166, 226, 46),
        HighlightType::Constant => rgb(174, 129, 255),
        HighlightType::Module => rgb(102, 217, 239),
        HighlightType::Property => rgb(248, 248, 242),
        HighlightType::Other => rgb(248, 248, 242),
    }
}

} // verus!
