//! Loaded font faces and their derived metrics.

use vstd::prelude::*;

use std::rc::Rc;

use crate::em::{em_eq, Em};
use crate::raw::{
    advance_units_of, face_metrics_of, face_probe_of, fonts_in_collection, spec_collection_count,
    glyph_advance, parse_metrics, probe_face, FaceProbe, NameRec, RawMetrics,
};
use crate::variant::{
    clamped_weight, stretch_from_class, FontStretch, FontStyle, FontVariant, FontWeight,
};

verus! {

/// The name id of the legacy family entry in a font's name table.
pub const NAME_ID_FAMILY: u16 = 1;

/// The name id of the typographic family entry in a font's name table.
pub const NAME_ID_TYPOGRAPHIC_FAMILY: u16 = 16;

/// Metrics for a decorative line.
#[derive(Debug, Copy, Clone, Eq, PartialEq, Structural)]
pub struct LineMetrics {
    /// The line's thickness.
    pub strength: Em,
    /// The line's vertical position.
    pub position: Em,
}

/// The length of `units` font units in a face with `upem` units per em.
pub open spec fn em_units(units: int, upem: int) -> Em {
    Em { numer: units as i64, denom: upem as u64 }
}

/// The exact rational sum of two lengths.
pub open spec fn em_plus(a: Em, b: Em) -> Em {
    Em {
        numer: (a.numer * b.denom + b.numer * a.denom) as i64,
        denom: (a.denom * b.denom) as u64,
    }
}

/// The ascender: the typographic value when present, else the legacy one.
pub open spec fn spec_ascender(m: RawMetrics) -> Em {
    match m.typographic_ascender {
        Some(a) => em_units(a as int, m.units_per_em as int),
        None => em_units(m.ascender as int, m.units_per_em as int),
    }
}

/// The cap height: the reported value when present and positive, else the
/// ascender.
pub open spec fn spec_cap_height(m: RawMetrics) -> Em {
    match m.capital_height {
        Some(h) => if h > 0 {
            em_units(h as int, m.units_per_em as int)
        } else {
            spec_ascender(m)
        },
        None => spec_ascender(m),
    }
}

/// The x-height: the reported value when present and positive, else the
/// ascender.
pub open spec fn spec_x_height(m: RawMetrics) -> Em {
    match m.x_height {
        Some(h) => if h > 0 {
            em_units(h as int, m.units_per_em as int)
        } else {
            spec_ascender(m)
        },
        None => spec_ascender(m),
    }
}

/// The descender: the typographic value when present, else the legacy one.
pub open spec fn spec_descender(m: RawMetrics) -> Em {
    match m.typographic_descender {
        Some(d) => em_units(d as int, m.units_per_em as int),
        None => em_units(m.descender as int, m.units_per_em as int),
    }
}

/// The strikethrough line: thickness from the strikeout table, else from
/// the underline table, else 0.06 em; position from the strikeout table,
/// else 0.25 em.
pub open spec fn spec_strikethrough(m: RawMetrics) -> LineMetrics {
    LineMetrics {
        strength: match m.strikeout {
            Some(l) => em_units(l.thickness as int, m.units_per_em as int),
            None => match m.underline {
                Some(l) => em_units(l.thickness as int, m.units_per_em as int),
                None => Em { numer: 60, denom: 1000 },
            },
        },
        position: match m.strikeout {
            Some(l) => em_units(l.position as int, m.units_per_em as int),
            None => Em { numer: 250, denom: 1000 },
        },
    }
}

/// The underline: thickness from the underline table, else from the
/// strikeout table, else 0.06 em; position from the underline table, else
/// -0.2 em.
pub open spec fn spec_underline(m: RawMetrics) -> LineMetrics {
    LineMetrics {
        strength: match m.underline {
            Some(l) => em_units(l.thickness as int, m.units_per_em as int),
            None => match m.strikeout {
                Some(l) => em_units(l.thickness as int, m.units_per_em as int),
                None => Em { numer: 60, denom: 1000 },
            },
        },
        position: match m.underline {
            Some(l) => em_units(l.position as int, m.units_per_em as int),
            None => Em { numer: (-200) as i64, denom: 1000 },
        },
    }
}

/// The overline: as thick as the underline, positioned 0.1 em above the
/// cap height.
pub open spec fn spec_overline(m: RawMetrics) -> LineMetrics {
    LineMetrics {
        strength: spec_underline(m).strength,
        position: em_plus(spec_cap_height(m), Em { numer: 100, denom: 1000 }),
    }
}

/// A loaded font face: a shared, immutable byte buffer, the collection
/// index the face was parsed at, and the metrics derived from its tables.
pub struct Face {
    /// The backing bytes, shared with every other face from the same file.
    pub buffer: Rc<Vec<u8>>,
    /// The collection index within the backing file.
    pub index: u32,
    /// Units per em, as parsed; between 16 and 16384.
    pub units_per_em: u16,
    /// The raw table entries the metrics below were derived from.
    pub raw: Ghost<RawMetrics>,
    /// The distance from the baseline to the typographic ascender.
    pub ascender: Em,
    /// The approximate height of uppercase letters.
    pub cap_height: Em,
    /// The approximate height of non-ascending lowercase letters.
    pub x_height: Em,
    /// The distance from the baseline to the typographic descender.
    pub descender: Em,
    /// The strikethrough line geometry.
    pub strikethrough: LineMetrics,
    /// The underline geometry.
    pub underline: LineMetrics,
    /// The overline geometry.
    pub overline: LineMetrics,
}

impl Face {
    /// The metrics are exactly the ones the raw table entries dictate.
    pub open spec fn wf(self) -> bool {
        &&& 16 <= self.units_per_em <= 16384
        &&& self.raw@.units_per_em == self.units_per_em
        &&& self.ascender == spec_ascender(self.raw@)
        &&& self.cap_height == spec_cap_height(self.raw@)
        &&& self.x_height == spec_x_height(self.raw@)
        &&& self.descender == spec_descender(self.raw@)
        &&& self.strikethrough == spec_strikethrough(self.raw@)
        &&& self.underline == spec_underline(self.raw@)
        &&& self.overline == spec_overline(self.raw@)
    }

    /// The raw table entries are the ones parsed from the backing bytes at
    /// the face's collection index.
    pub open spec fn backed(self) -> bool {
        face_metrics_of(self.buffer@, self.index) == Some(self.raw@)
    }

    /// Parse a font face from a shared buffer and collection index.
    pub fn new(buffer: Rc<Vec<u8>>, index: u32) -> (r: Option<Face>)
        ensures
            match r {
                Some(f) => {
                    &&& f.wf()
                    &&& f.backed()
                    &&& f.buffer == buffer
                    &&& f.index == index
                },
                None => face_metrics_of(buffer@, index) is None,
            },
            r is Some <==> face_metrics_of(buffer@, index) is Some,
    {
        let data: &Vec<u8> = &buffer;
        let m = match parse_metrics(data.as_slice(), index) {
            Some(m) => m,
            None => {
                return None;
            },
        };
        let upem = m.units_per_em;
        let ascender = match m.typographic_ascender {
            Some(a) => Em::from_units(a as i32, upem),
            None => Em::from_units(m.ascender as i32, upem),
        };
        let cap_height = match m.capital_height {
            Some(h) => if h > 0 {
                Em::from_units(h as i32, upem)
            } else {
                ascender
            },
            None => ascender,
        };
        let x_height = match m.x_height {
            Some(h) => if h > 0 {
                Em::from_units(h as i32, upem)
            } else {
                ascender
            },
            None => ascender,
        };
        let descender = match m.typographic_descender {
            Some(d) => Em::from_units(d as i32, upem),
            None => Em::from_units(m.descender as i32, upem),
        };
        let strikethrough = LineMetrics {
            strength: match m.strikeout {
                Some(l) => Em::from_units(l.thickness as i32, upem),
                None => match m.underline {
                    Some(l) => Em::from_units(l.thickness as i32, upem),
                    None => Em::from_permille(60),
                },
            },
            position: match m.strikeout {
                Some(l) => Em::from_units(l.position as i32, upem),
                None => Em::from_permille(250),
            },
        };
        let underline = LineMetrics {
            strength: match m.underline {
                Some(l) => Em::from_units(l.thickness as i32, upem),
                None => match m.strikeout {
                    Some(l) => Em::from_units(l.thickness as i32, upem),
                    None => Em::from_permille(60),
                },
            },
            position: match m.underline {
                Some(l) => Em::from_units(l.position as i32, upem),
                None => Em::from_permille(-200),
            },
        };
        let overline = LineMetrics {
            strength: underline.strength,
            position: cap_height.plus(Em::from_permille(100)),
        };
        Some(
            Face {
                buffer,
                index,
                units_per_em: upem,
                raw: Ghost(m),
                ascender,
                cap_height,
                x_height,
                descender,
                strikethrough,
                underline,
                overline,
            },
        )
    }

    /// The underlying buffer, shared with the store's buffer cache.
    pub fn buffer(&self) -> (r: &Rc<Vec<u8>>)
        ensures
            *r == self.buffer,
    {
        &self.buffer
    }

    /// The collection index.
    pub fn index(&self) -> (r: u32)
        ensures
            r == self.index,
    {
        self.index
    }

    /// The number of font units per em.
    pub fn units_per_em(&self) -> (r: u16)
        ensures
            r == self.units_per_em,
    {
        self.units_per_em
    }

    /// Convert from font units to an em length.
    pub fn to_em(&self, units: i32) -> (r: Em)
        requires
            self.wf(),
        ensures
            r == em_units(units as int, self.units_per_em as int),
    {
        Em::from_units(units, self.units_per_em)
    }

    /// The advance the face reports for a glyph, in em units.
    pub open spec fn spec_advance(self, glyph: u16) -> Option<Em> {
        match advance_units_of(self.buffer@, self.index, glyph) {
            Some(u) => Some(em_units(u as int, self.units_per_em as int)),
            None => None,
        }
    }

    /// Look up the horizontal advance width of a glyph.
    pub fn advance(&self, glyph: u16) -> (r: Option<Em>)
        requires
            self.wf(),
        ensures
            r == self.spec_advance(glyph),
    {
        let data: &Vec<u8> = &self.buffer;
        match glyph_advance(data.as_slice(), self.index, glyph) {
            Some(u) => Some(Em::from_units(u as i32, self.units_per_em)),
            None => None,
        }
    }

    /// Look up a vertical metric.
    pub fn vertical_metric(&self, metric: VerticalFontMetric) -> (r: Em)
        ensures
            r == spec_vertical_metric(*self, metric),
    {
        match metric {
            VerticalFontMetric::Ascender => self.ascender,
            VerticalFontMetric::CapHeight => self.cap_height,
            VerticalFontMetric::XHeight => self.x_height,
            VerticalFontMetric::Baseline => Em::zero(),
            VerticalFontMetric::Descender => self.descender,
        }
    }
}

/// A face without a positive capital-height table entry reports its
/// ascender as its cap height.
pub proof fn lemma_cap_height_fallback(f: Face)
    requires
        f.wf(),
        !(f.raw@.capital_height matches Some(h) && h > 0),
    ensures
        f.cap_height == f.ascender,
{
}

/// A zero-unit conversion denotes the zero length, whatever the face's
/// units per em.
pub proof fn lemma_to_em_zero(upem: int)
    requires
        1 <= upem <= 16384,
    ensures
        em_eq(em_units(0, upem), Em { numer: 0, denom: 1 }),
{
}

/// Conversion from font units is linear: the sum of two converted lengths
/// denotes the converted sum of the units.
pub proof fn lemma_to_em_linear(u1: int, u2: int, upem: int)
    requires
        1 <= upem <= 16384,
        -0x4000_0000 <= u1 <= 0x4000_0000,
        -0x4000_0000 <= u2 <= 0x4000_0000,
    ensures
        em_eq(em_plus(em_units(u1, upem), em_units(u2, upem)), em_units(u1 + u2, upem)),
{
    assert((u1 * upem + u2 * upem) * upem == (u1 + u2) * (upem * upem)) by (nonlinear_arith);
    assert(-0x8000_0000_0000_0000 <= u1 * upem + u2 * upem <= 0x7fff_ffff_ffff_ffff)
        by (nonlinear_arith)
        requires
            1 <= upem <= 16384,
            -0x4000_0000 <= u1 <= 0x4000_0000,
            -0x4000_0000 <= u2 <= 0x4000_0000,
    ;
    assert(1 <= upem * upem <= 0xffff_ffff_ffff_ffff) by (nonlinear_arith)
        requires
            1 <= upem <= 16384,
    ;
}

/// A face without a positive x-height table entry reports its ascender as
/// its x-height.
pub proof fn lemma_x_height_fallback(f: Face)
    requires
        f.wf(),
        !(f.raw@.x_height matches Some(h) && h > 0),
    ensures
        f.x_height == f.ascender,
{
}

/// The vertical metric a face reports for each named kind.
pub open spec fn spec_vertical_metric(f: Face, metric: VerticalFontMetric) -> Em {
    match metric {
        VerticalFontMetric::Ascender => f.ascender,
        VerticalFontMetric::CapHeight => f.cap_height,
        VerticalFontMetric::XHeight => f.x_height,
        VerticalFontMetric::Baseline => Em { numer: 0, denom: 1 },
        VerticalFontMetric::Descender => f.descender,
    }
}

/// Identifies a vertical metric of a font.
#[derive(Debug, Copy, Clone, Eq, PartialEq, Ord, PartialOrd, Hash, Structural)]
pub enum VerticalFontMetric {
    /// The distance from the baseline to the typographic ascender.
    Ascender,
    /// The approximate height of uppercase letters.
    CapHeight,
    /// The approximate height of non-ascending lowercase letters.
    XHeight,
    /// The baseline on which the letters rest.
    Baseline,
    /// The distance from the baseline to the typographic descender.
    Descender,
}

/// The lowercase name of a vertical metric kind.
pub open spec fn vertical_metric_name(m: VerticalFontMetric) -> Seq<char> {
    match m {
        VerticalFontMetric::Ascender => "ascender"@,
        VerticalFontMetric::CapHeight => "cap-height"@,
        VerticalFontMetric::XHeight => "x-height"@,
        VerticalFontMetric::Baseline => "baseline"@,
        VerticalFontMetric::Descender => "descender"@,
    }
}

impl VerticalFontMetric {
    /// The lowercase name of this metric kind.
    pub fn name(&self) -> (r: &'static str)
        ensures
            r@ == vertical_metric_name(*self),
    {
        match self {
            VerticalFontMetric::Ascender => "ascender",
            VerticalFontMetric::CapHeight => "cap-height",
            VerticalFontMetric::XHeight => "x-height",
            VerticalFontMetric::Baseline => "baseline",
            VerticalFontMetric::Descender => "descender",
        }
    }
}

/// A generic or named font family.
#[derive(Debug, Clone, Eq, PartialEq, Hash)]
pub enum FontFamily {
    /// A family that has "serifs", small strokes attached to letters.
    Serif,
    /// A family in which glyphs do not have "serifs".
    SansSerif,
    /// A family in which (almost) all glyphs are of equal width.
    Monospace,
    /// A specific family with a name.
    Named(String),
}

/// The display name of a family.
pub open spec fn family_name(f: FontFamily) -> Seq<char> {
    match f {
        FontFamily::Serif => "serif"@,
        FontFamily::SansSerif => "sans-serif"@,
        FontFamily::Monospace => "monospace"@,
        FontFamily::Named(s) => s@,
    }
}

impl FontFamily {
    /// The display name of this family.
    pub fn name(&self) -> (r: &str)
        ensures
            r@ == family_name(*self),
    {
        match self {
            FontFamily::Serif => "serif",
            FontFamily::SansSerif => "sans-serif",
            FontFamily::Monospace => "monospace",
            FontFamily::Named(s) => s.as_str(),
        }
    }
}

/// Properties of a single font face.
#[derive(Debug, Clone, Eq, PartialEq)]
pub struct FaceInfo {
    /// The path to the font file.
    pub path: String,
    /// The collection index in the font file.
    pub index: u32,
    /// The typographic font family this face is part of.
    pub family: String,
    /// Properties that distinguish this face from other faces in the same
    /// family.
    pub variant: FontVariant,
}

/// The first name record with the wanted id whose text could be decoded.
pub open spec fn find_name_in(names: Seq<NameRec>, id: u16) -> Option<String>
    decreases names.len(),
{
    if names.len() == 0 {
        None
    } else if names[0].id == id && names[0].text is Some {
        names[0].text
    } else {
        find_name_in(names.drop_first(), id)
    }
}

/// The family a probed face belongs to: the typographic family name when
/// present, else the legacy family name.
pub open spec fn spec_family_of(p: FaceProbe) -> Option<String> {
    match find_name_in(p.names@, NAME_ID_TYPOGRAPHIC_FAMILY) {
        Some(s) => Some(s),
        None => find_name_in(p.names@, NAME_ID_FAMILY),
    }
}

/// The style of a probed face; an italic flag dominates an oblique one.
pub open spec fn spec_style_of(p: FaceProbe) -> FontStyle {
    if p.italic {
        FontStyle::Italic
    } else if p.oblique {
        FontStyle::Oblique
    } else {
        FontStyle::Normal
    }
}

/// The variant of a probed face.
pub open spec fn spec_variant_of(p: FaceProbe) -> FontVariant {
    FontVariant {
        style: spec_style_of(p),
        weight: FontWeight(clamped_weight(p.weight as int) as u16),
        stretch: FontStretch(stretch_from_class(p.width as int) as u16),
    }
}

/// How many faces a font file holds: the collection count for a
/// collection, one otherwise.
pub open spec fn spec_face_count(data: Seq<u8>) -> int {
    match spec_collection_count(data) {
        Some(n) => n as int,
        None => 1,
    }
}

/// The family and variant record of the face at one collection index, or
/// `None` when that face does not parse or names no family.
pub open spec fn spec_record_at(data: Seq<u8>, index: u32) -> Option<(String, FontVariant)> {
    match face_probe_of(data, index) {
        Some(p) => match spec_family_of(p) {
            Some(f) => Some((f, spec_variant_of(p))),
            None => None,
        },
        None => None,
    }
}

/// The records of the first `n` collection indices, in index order,
/// skipping indices without a record.
pub open spec fn spec_records(data: Seq<u8>, n: int) -> Seq<(u32, String, FontVariant)>
    decreases n,
{
    if n <= 0 {
        Seq::empty()
    } else {
        spec_records(data, n - 1) + (match spec_record_at(data, (n - 1) as u32) {
            Some(r) => seq![((n - 1) as u32, r.0, r.1)],
            None => Seq::empty(),
        })
    }
}

/// The first name record with the wanted id whose text could be decoded.
fn find_name(names: &Vec<NameRec>, id: u16) -> (r: Option<String>)
    ensures
        r == find_name_in(names@, id),
{
    let n = names.len();
    proof {
        assert(names@.skip(0) =~= names@);
    }
    for i in 0..n
        invariant
            n == names@.len(),
            find_name_in(names@, id) == find_name_in(names@.skip(i as int), id),
    {
        let rec = &names[i];
        proof {
            assert(names@.skip(i as int)[0] == names@[i as int]);
            assert(names@.skip(i as int).drop_first() =~= names@.skip(i + 1));
        }
        if rec.id == id {
            match &rec.text {
                Some(t) => {
                    return Some(t.clone());
                },
                None => {},
            }
        }
    }
    proof {
        assert(names@.skip(n as int).len() == 0);
    }
    None
}

impl FaceInfo {
    /// Determine metadata about all faces that are found in the given
    /// data, each tagged with the path the data came from.
    pub fn parse(path: &str, data: &[u8]) -> (r: Vec<FaceInfo>)
        ensures
            r@.map_values(|f: FaceInfo| (f.index, f.family, f.variant)) == spec_records(
                data@,
                spec_face_count(data@),
            ),
            forall|k: int| 0 <= k < r@.len() ==> (#[trigger] r@[k]).path@ == path@,
    {
        let count: u32 = match fonts_in_collection(data) {
            Some(n) => n,
            None => 1,
        };
        let mut infos: Vec<FaceInfo> = Vec::new();
        let mut index: u32 = 0;
        while index < count
            invariant
                index <= count,
                count as int == spec_face_count(data@),
                infos@.map_values(|f: FaceInfo| (f.index, f.family, f.variant)) =~= spec_records(
                    data@,
                    index as int,
                ),
                forall|k: int| 0 <= k < infos@.len() ==> (#[trigger] infos@[k]).path@ == path@,
            decreases count - index,
        {
            let ghost prev = infos@;
            if let Some(p) = probe_face(data, index) {
                let found = match find_name(&p.names, NAME_ID_TYPOGRAPHIC_FAMILY) {
                    Some(f) => Some(f),
                    None => find_name(&p.names, NAME_ID_FAMILY),
                };
                if let Some(family) = found {
                    let style = if p.italic {
                        FontStyle::Italic
                    } else if p.oblique {
                        FontStyle::Oblique
                    } else {
                        FontStyle::Normal
                    };
                    let variant = FontVariant {
                        style,
                        weight: FontWeight::from_number(p.weight),
                        stretch: FontStretch::from_number(p.width),
                    };
                    infos.push(FaceInfo { path: path.to_owned(), index, family, variant });
                }
            }
            proof {
                assert(infos@.map_values(|f: FaceInfo| (f.index, f.family, f.variant))
                    =~= spec_records(data@, index + 1));
            }
            index = index + 1;
        }
        proof {
            assert(infos@.map_values(|f: FaceInfo| (f.index, f.family, f.variant)) =~= spec_records(
                data@,
                spec_face_count(data@),
            ));
        }
        infos
    }
}

} // verus!
