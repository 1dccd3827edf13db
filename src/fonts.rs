//! The document's font table: fonts registered under their names, each with
//! the object id reserved for it.

use vstd::prelude::*;

verus! {

/// The fourteen fonts every reader provides.
#[derive(Copy, Clone, Debug, PartialEq, Eq, Structural)]
pub enum BuiltinFont {
    TimesRoman,
    TimesBold,
    TimesItalic,
    TimesBoldItalic,
    Helvetica,
    HelveticaBold,
    HelveticaOblique,
    HelveticaBoldOblique,
    Courier,
    CourierOblique,
    CourierBold,
    CourierBoldOblique,
    Symbol,
    ZapfDingbats,
}

impl BuiltinFont {
    /// The font's PostScript name.
    pub open spec fn spec_name(self) -> &'static str {
        match self {
            BuiltinFont::TimesRoman => "Times-Roman",
            BuiltinFont::TimesBold => "Times-Bold",
            BuiltinFont::TimesItalic => "Times-Italic",
            BuiltinFont::TimesBoldItalic => "Times-BoldItalic",
            BuiltinFont::Helvetica => "Helvetica",
            BuiltinFont::HelveticaBold => "Helvetica-Bold",
            BuiltinFont::HelveticaOblique => "Helvetica-Oblique",
            BuiltinFont::HelveticaBoldOblique => "Helvetica-BoldOblique",
            BuiltinFont::Courier => "Courier",
            BuiltinFont::CourierOblique => "Courier-Oblique",
            BuiltinFont::CourierBold => "Courier-Bold",
            BuiltinFont::CourierBoldOblique => "Courier-BoldOblique",
            BuiltinFont::Symbol => "Symbol",
            BuiltinFont::ZapfDingbats => "ZapfDingbats",
        }
    }

    /// The font's PostScript name.
    pub fn name(self) -> (r: &'static str)
        ensures
            r == self.spec_name(),
    {
        match self {
            BuiltinFont::TimesRoman => "Times-Roman",
            BuiltinFont::TimesBold => "Times-Bold",
            BuiltinFont::TimesItalic => "Times-Italic",
            BuiltinFont::TimesBoldItalic => "Times-BoldItalic",
            BuiltinFont::Helvetica => "Helvetica",
            BuiltinFont::HelveticaBold => "Helvetica-Bold",
            BuiltinFont::HelveticaOblique => "Helvetica-Oblique",
            BuiltinFont::HelveticaBoldOblique => "Helvetica-BoldOblique",
            BuiltinFont::Courier => "Courier",
            BuiltinFont::CourierOblique => "Courier-Oblique",
            BuiltinFont::CourierBold => "Courier-Bold",
            BuiltinFont::CourierBoldOblique => "Courier-BoldOblique",
            BuiltinFont::Symbol => "Symbol",
            BuiltinFont::ZapfDingbats => "ZapfDingbats",
        }
    }
}

/// A font read from a font file: its face name and its bytes.
#[derive(Clone, Debug)]
pub struct ExternalFont {
    pub face_name: String,
    pub font_bytes: Vec<u8>,
}

/// A font of the document.
#[derive(Clone, Debug)]
pub enum Font {
    BuiltinFont(BuiltinFont),
    ExternalFont(ExternalFont),
}

/// A font as content refers to it: by name.
#[derive(Clone, Debug)]
pub struct IndirectFontRef {
    pub name: String,
}

/// A font as the object graph holds it: the object id reserved for it, and
/// its data.
#[derive(Clone, Debug)]
pub struct DirectFontRef {
    pub inner_obj: u32,
    pub data: Font,
}

/// Registered fonts, in registration order.
#[derive(Clone, Debug)]
pub struct FontList {
    pub fonts: Vec<(IndirectFontRef, DirectFontRef)>,
}

/// The first position of a font named `name`.
pub open spec fn is_first_font(fonts: Seq<(IndirectFontRef, DirectFontRef)>, name: Seq<char>, i: int) -> bool {
    &&& 0 <= i < fonts.len()
    &&& fonts[i].0.name@ == name
    &&& forall|j: int| 0 <= j < i ==> #[trigger] fonts[j].0.name@ != name
}

/// The table holds a font named `name`.
pub open spec fn has_font(fonts: Seq<(IndirectFontRef, DirectFontRef)>, name: Seq<char>) -> bool {
    exists|i: int| 0 <= i < fonts.len() && #[trigger] fonts[i].0.name@ == name
}

impl FontList {
    /// An empty table.
    pub fn new() -> (r: FontList)
        ensures
            r.fonts@.len() == 0,
    {
        FontList { fonts: Vec::new() }
    }

    /// How many fonts are registered.
    pub fn len(&self) -> (r: usize)
        ensures
            r == self.fonts@.len(),
    {
        self.fonts.len()
    }

    /// The position of the first font registered under `font`'s name.
    pub fn find(&self, font: &IndirectFontRef) -> (r: Option<usize>)
        ensures
            r matches Some(i) ==> is_first_font(self.fonts@, font.name@, i as int),
            r is None <==> !has_font(self.fonts@, font.name@),
    {
        let mut i: usize = 0;
        while i < self.fonts.len()
            invariant
                i <= self.fonts@.len(),
                forall|j: int| 0 <= j < i ==> #[trigger] self.fonts@[j].0.name@ != font.name@,
            decreases self.fonts.len() - i,
        {
            if self.fonts[i].0.name == font.name {
                return Some(i);
            }
            i = i + 1;
        }
        None
    }

    /// The object id reserved for the font registered under `font`'s name.
    pub fn get_font_id(&self, font: &IndirectFontRef) -> (r: Option<u32>)
        ensures
            r matches Some(id) ==> exists|i: int| is_first_font(self.fonts@, font.name@, i) && self.fonts@[i].1.inner_obj == id,
            r is None <==> !has_font(self.fonts@, font.name@),
    {
        match self.find(font) {
            Some(i) => Some(self.fonts[i].1.inner_obj),
            None => None,
        }
    }

    /// Registers a font.
    pub fn add_font(&mut self, font_ref: IndirectFontRef, direct: DirectFontRef)
        ensures
            final(self).fonts@ == old(self).fonts@.push((font_ref, direct)),
    {
        self.fonts.push((font_ref, direct));
    }
}

} // verus!
