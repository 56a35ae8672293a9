//! Styles, weights and stretches that distinguish the faces of a family.

use vstd::prelude::*;

use crate::text::str_eq;

verus! {

/// The style of a font face.
#[derive(Debug, Copy, Clone, Eq, PartialEq, Ord, PartialOrd, Hash, Structural)]
pub enum FontStyle {
    /// The default style.
    Normal,
    /// A cursive style.
    Italic,
    /// A slanted style.
    Oblique,
}

/// The style denoted by a lowercase name, if any.
pub open spec fn style_from_name(s: Seq<char>) -> Option<FontStyle> {
    if s == "normal"@ {
        Some(FontStyle::Normal)
    } else if s == "italic"@ {
        Some(FontStyle::Italic)
    } else if s == "oblique"@ {
        Some(FontStyle::Oblique)
    } else {
        None
    }
}

/// The lowercase name of a style.
pub open spec fn style_name(s: FontStyle) -> Seq<char> {
    match s {
        FontStyle::Normal => "normal"@,
        FontStyle::Italic => "italic"@,
        FontStyle::Oblique => "oblique"@,
    }
}

impl FontStyle {
    /// Create a font style from a lowercase name like `italic`.
    pub fn from_str(name: &str) -> (r: Option<FontStyle>)
        ensures
            r == style_from_name(name@),
    {
        if str_eq(name, "normal") {
            Some(FontStyle::Normal)
        } else if str_eq(name, "italic") {
            Some(FontStyle::Italic)
        } else if str_eq(name, "oblique") {
            Some(FontStyle::Oblique)
        } else {
            None
        }
    }

    /// The lowercase string representation of this style.
    pub fn to_str(self) -> (r: &'static str)
        ensures
            r@ == style_name(self),
    {
        match self {
            FontStyle::Normal => "normal",
            FontStyle::Italic => "italic",
            FontStyle::Oblique => "oblique",
        }
    }
}

impl Default for FontStyle {
    fn default() -> (r: Self)
        ensures
            r == FontStyle::Normal,
    {
        FontStyle::Normal
    }
}

/// The weight of a font face, on the 100-900 scale.
#[derive(Debug, Copy, Clone, Eq, PartialEq, Ord, PartialOrd, Hash, Structural)]
pub struct FontWeight(pub u16);

/// A weight number clamped to the 100-900 scale.
pub open spec fn clamped_weight(w: int) -> int {
    if w < 100 {
        100
    } else if w > 900 {
        900
    } else {
        w
    }
}

/// The weight denoted by a lowercase name, if any.
pub open spec fn weight_from_name(s: Seq<char>) -> Option<FontWeight> {
    if s == "thin"@ {
        Some(FontWeight(100))
    } else if s == "extralight"@ {
        Some(FontWeight(200))
    } else if s == "light"@ {
        Some(FontWeight(300))
    } else if s == "regular"@ {
        Some(FontWeight(400))
    } else if s == "medium"@ {
        Some(FontWeight(500))
    } else if s == "semibold"@ {
        Some(FontWeight(600))
    } else if s == "bold"@ {
        Some(FontWeight(700))
    } else if s == "extrabold"@ {
        Some(FontWeight(800))
    } else if s == "black"@ {
        Some(FontWeight(900))
    } else {
        None
    }
}

/// The lowercase name of a weight, defined for the multiples of 100.
pub open spec fn weight_name(w: FontWeight) -> Option<Seq<char>> {
    if w.0 == 100 {
        Some("thin"@)
    } else if w.0 == 200 {
        Some("extralight"@)
    } else if w.0 == 300 {
        Some("light"@)
    } else if w.0 == 400 {
        Some("regular"@)
    } else if w.0 == 500 {
        Some("medium"@)
    } else if w.0 == 600 {
        Some("semibold"@)
    } else if w.0 == 700 {
        Some("bold"@)
    } else if w.0 == 800 {
        Some("extrabold"@)
    } else if w.0 == 900 {
        Some("black"@)
    } else {
        None
    }
}

/// The absolute difference of two weight numbers.
pub open spec fn weight_distance(a: FontWeight, b: FontWeight) -> int {
    if a.0 >= b.0 {
        a.0 - b.0
    } else {
        b.0 - a.0
    }
}

impl FontWeight {
    /// Create a font weight from a number between 100 and 900, clamping it
    /// if necessary.
    pub fn from_number(weight: u16) -> (r: Self)
        ensures
            r.0 == clamped_weight(weight as int),
    {
        if weight < 100 {
            FontWeight(100)
        } else if weight > 900 {
            FontWeight(900)
        } else {
            FontWeight(weight)
        }
    }

    /// Create a font weight from a lowercase name like `light`.
    pub fn from_str(name: &str) -> (r: Option<Self>)
        ensures
            r == weight_from_name(name@),
    {
        if str_eq(name, "thin") {
            Some(FontWeight(100))
        } else if str_eq(name, "extralight") {
            Some(FontWeight(200))
        } else if str_eq(name, "light") {
            Some(FontWeight(300))
        } else if str_eq(name, "regular") {
            Some(FontWeight(400))
        } else if str_eq(name, "medium") {
            Some(FontWeight(500))
        } else if str_eq(name, "semibold") {
            Some(FontWeight(600))
        } else if str_eq(name, "bold") {
            Some(FontWeight(700))
        } else if str_eq(name, "extrabold") {
            Some(FontWeight(800))
        } else if str_eq(name, "black") {
            Some(FontWeight(900))
        } else {
            None
        }
    }

    /// The number between 100 and 900.
    pub fn to_number(self) -> (r: u16)
        ensures
            r == self.0,
    {
        self.0
    }

    /// The lowercase string representation of this weight if it is one of
    /// the named hundreds.
    pub fn to_str(self) -> (r: Option<&'static str>)
        ensures
            match r {
                Some(s) => weight_name(self) == Some(s@),
                None => weight_name(self) is None,
            },
    {
        if self.0 == 100 {
            Some("thin")
        } else if self.0 == 200 {
            Some("extralight")
        } else if self.0 == 300 {
            Some("light")
        } else if self.0 == 400 {
            Some("regular")
        } else if self.0 == 500 {
            Some("medium")
        } else if self.0 == 600 {
            Some("semibold")
        } else if self.0 == 700 {
            Some("bold")
        } else if self.0 == 800 {
            Some("extrabold")
        } else if self.0 == 900 {
            Some("black")
        } else {
            None
        }
    }

    /// Add (or remove) weight, clamping at the boundaries of 100 and 900.
    pub fn thicken(self, delta: i16) -> (r: Self)
        ensures
            r.0 == clamped_weight(self.0 + delta),
    {
        let sum: i32 = self.0 as i32 + delta as i32;
        if sum < 100 {
            FontWeight(100)
        } else if sum > 900 {
            FontWeight(900)
        } else {
            FontWeight(sum as u16)
        }
    }

    /// The absolute number distance between this and another font weight.
    pub fn distance(self, other: Self) -> (d: u16)
        ensures
            d == weight_distance(self, other),
    {
        if self.0 >= other.0 {
            self.0 - other.0
        } else {
            other.0 - self.0
        }
    }
}

impl Default for FontWeight {
    fn default() -> (r: Self)
        ensures
            r == FontWeight(400),
    {
        FontWeight(400)
    }
}

/// The width of a font face, stored as a ratio in per mille of the normal
/// width: 1000 denotes 100%, and values are kept between 500 (ultra
/// condensed, 50%) and 2000 (ultra expanded, 200%).
#[derive(Debug, Copy, Clone, Eq, PartialEq, Ord, PartialOrd, Hash, Structural)]
pub struct FontStretch(pub u16);

/// The per-mille ratio for an OpenType width class between 1 and 9, with
/// out-of-range classes clamped to the nearest end of the scale.
pub open spec fn stretch_from_class(n: int) -> int {
    if n <= 1 {
        500
    } else if n == 2 {
        625
    } else if n == 3 {
        750
    } else if n == 4 {
        875
    } else if n == 5 {
        1000
    } else if n == 6 {
        1125
    } else if n == 7 {
        1250
    } else if n == 8 {
        1500
    } else {
        2000
    }
}

/// The stretch denoted by a lowercase name, if any.
pub open spec fn stretch_from_name(s: Seq<char>) -> Option<FontStretch> {
    if s == "ultra-condensed"@ {
        Some(FontStretch(500))
    } else if s == "extra-condensed"@ {
        Some(FontStretch(625))
    } else if s == "condensed"@ {
        Some(FontStretch(750))
    } else if s == "semi-condensed"@ {
        Some(FontStretch(875))
    } else if s == "normal"@ {
        Some(FontStretch(1000))
    } else if s == "semi-expanded"@ {
        Some(FontStretch(1125))
    } else if s == "expanded"@ {
        Some(FontStretch(1250))
    } else if s == "extra-expanded"@ {
        Some(FontStretch(1500))
    } else if s == "ultra-expanded"@ {
        Some(FontStretch(2000))
    } else {
        None
    }
}

/// The lowercase name of a stretch, defined for the nine named widths.
pub open spec fn stretch_name(s: FontStretch) -> Option<Seq<char>> {
    if s.0 == 500 {
        Some("ultra-condensed"@)
    } else if s.0 == 625 {
        Some("extra-condensed"@)
    } else if s.0 == 750 {
        Some("condensed"@)
    } else if s.0 == 875 {
        Some("semi-condensed"@)
    } else if s.0 == 1000 {
        Some("normal"@)
    } else if s.0 == 1125 {
        Some("semi-expanded"@)
    } else if s.0 == 1250 {
        Some("expanded"@)
    } else if s.0 == 1500 {
        Some("extra-expanded"@)
    } else if s.0 == 2000 {
        Some("ultra-expanded"@)
    } else {
        None
    }
}

/// The absolute per-mille difference of two stretches.
pub open spec fn stretch_distance(a: FontStretch, b: FontStretch) -> int {
    if a.0 >= b.0 {
        a.0 - b.0
    } else {
        b.0 - a.0
    }
}

impl FontStretch {
    /// Create a font stretch from an OpenType-style width class between 1
    /// and 9, clamping it if necessary.
    pub fn from_number(stretch: u16) -> (r: Self)
        ensures
            r.0 == stretch_from_class(stretch as int),
    {
        if stretch <= 1 {
            FontStretch(500)
        } else if stretch == 2 {
            FontStretch(625)
        } else if stretch == 3 {
            FontStretch(750)
        } else if stretch == 4 {
            FontStretch(875)
        } else if stretch == 5 {
            FontStretch(1000)
        } else if stretch == 6 {
            FontStretch(1125)
        } else if stretch == 7 {
            FontStretch(1250)
        } else if stretch == 8 {
            FontStretch(1500)
        } else {
            FontStretch(2000)
        }
    }

    /// Create a font stretch from a lowercase name like `extra-expanded`.
    pub fn from_str(name: &str) -> (r: Option<Self>)
        ensures
            r == stretch_from_name(name@),
    {
        if str_eq(name, "ultra-condensed") {
            Some(FontStretch(500))
        } else if str_eq(name, "extra-condensed") {
            Some(FontStretch(625))
        } else if str_eq(name, "condensed") {
            Some(FontStretch(750))
        } else if str_eq(name, "semi-condensed") {
            Some(FontStretch(875))
        } else if str_eq(name, "normal") {
            Some(FontStretch(1000))
        } else if str_eq(name, "semi-expanded") {
            Some(FontStretch(1125))
        } else if str_eq(name, "expanded") {
            Some(FontStretch(1250))
        } else if str_eq(name, "extra-expanded") {
            Some(FontStretch(1500))
        } else if str_eq(name, "ultra-expanded") {
            Some(FontStretch(2000))
        } else {
            None
        }
    }

    /// The per-mille ratio between 500 and 2000 corresponding to this
    /// stretch.
    pub fn to_permille(self) -> (r: u16)
        ensures
            r == self.0,
    {
        self.0
    }

    /// The lowercase string representation of this stretch if it is one of
    /// the named ones.
    pub fn to_str(self) -> (r: Option<&'static str>)
        ensures
            match r {
                Some(s) => stretch_name(self) == Some(s@),
                None => stretch_name(self) is None,
            },
    {
        if self.0 == 500 {
            Some("ultra-condensed")
        } else if self.0 == 625 {
            Some("extra-condensed")
        } else if self.0 == 750 {
            Some("condensed")
        } else if self.0 == 875 {
            Some("semi-condensed")
        } else if self.0 == 1000 {
            Some("normal")
        } else if self.0 == 1125 {
            Some("semi-expanded")
        } else if self.0 == 1250 {
            Some("expanded")
        } else if self.0 == 1500 {
            Some("extra-expanded")
        } else if self.0 == 2000 {
            Some("ultra-expanded")
        } else {
            None
        }
    }

    /// The absolute per-mille distance between this and another stretch.
    pub fn distance(self, other: Self) -> (d: u16)
        ensures
            d == stretch_distance(self, other),
    {
        if self.0 >= other.0 {
            self.0 - other.0
        } else {
            other.0 - self.0
        }
    }
}

impl Default for FontStretch {
    fn default() -> (r: Self)
        ensures
            r == FontStretch(1000),
    {
        FontStretch(1000)
    }
}

/// Properties that distinguish a face from other faces in the same family.
#[derive(Debug, Copy, Clone, Eq, PartialEq, Hash, Structural)]
pub struct FontVariant {
    /// The style of the face (normal / italic / oblique).
    pub style: FontStyle,
    /// How heavy the face is (100 - 900).
    pub weight: FontWeight,
    /// How condensed or expanded the face is (500 - 2000 per mille).
    pub stretch: FontStretch,
}

impl FontVariant {
    /// Create a variant from its three components.
    pub fn new(style: FontStyle, weight: FontWeight, stretch: FontStretch) -> (r: Self)
        ensures
            r == (FontVariant { style, weight, stretch }),
    {
        FontVariant { style, weight, stretch }
    }
}

impl Default for FontVariant {
    fn default() -> (r: Self)
        ensures
            r == (FontVariant {
                style: FontStyle::Normal,
                weight: FontWeight(400),
                stretch: FontStretch(1000),
            }),
    {
        FontVariant { style: FontStyle::Normal, weight: FontWeight(400), stretch: FontStretch(1000) }
    }
}

} // verus!
