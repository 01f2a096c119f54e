//! Errors, font records, and the per-page resource table.
//!
//! The interpreter consults the resource table only to check that a font
//! name is known before recording a set-font transition.

use vstd::prelude::*;

verus! {

/// Errors of the page-parsing subsystem.
#[derive(Debug, Clone, PartialEq)]
pub enum PDFError {
    DecompressionError(String),
    FontError(String),
    ParseError(String),
}

/// The family of a font program.
#[derive(Debug, Copy, Clone, PartialEq, Eq, Structural)]
pub enum FontType {
    Type1,
    TrueType,
    CIDFontType2,
    Type3,
}

/// One resolved font resource: its name, family, and raw program bytes.
#[derive(Debug, Clone, PartialEq)]
pub struct PDFFont {
    pub name: String,
    pub font_type: FontType,
    data: Vec<u8>,
}

/// Mathematical view of a [`PDFFont`].
pub struct FontModel {
    pub name: Seq<char>,
    pub font_type: FontType,
    pub data: Seq<u8>,
}

impl View for PDFFont {
    type V = FontModel;

    closed spec fn view(&self) -> FontModel {
        FontModel { name: self.name@, font_type: self.font_type, data: self.data@ }
    }
}

impl PDFFont {
    /// A font record from already-resolved parts.
    pub fn new(name: String, font_type: FontType, data: Vec<u8>) -> (r: PDFFont)
        ensures
            r@.name == name@,
            r@.font_type == font_type,
            r@.data == data@,
    {
        PDFFont { name, font_type, data }
    }

    /// The raw bytes of the font program.
    pub fn get_font_data(&self) -> (r: Result<&[u8], PDFError>)
        ensures
            r is Ok,
            r->Ok_0@ == self@.data,
    {
        Ok(self.data.as_slice())
    }
}

/// The resource table as a sequence of (resource name, font) entries,
/// later entries shadowing earlier ones of the same name.
pub type ResModel = Seq<(Seq<char>, FontModel)>;

/// The font a name resolves to: the value of its most recent entry.
pub open spec fn res_lookup(entries: ResModel, name: Seq<char>) -> Option<FontModel>
    decreases entries.len(),
{
    if entries.len() == 0 {
        None
    } else if entries.last().0 == name {
        Some(entries.last().1)
    } else {
        res_lookup(entries.drop_last(), name)
    }
}

/// The per-page table of resolved font resources.
pub struct PDFResources {
    fonts: Vec<(String, PDFFont)>,
}

impl View for PDFResources {
    type V = ResModel;

    closed spec fn view(&self) -> ResModel {
        Seq::new(self.fonts@.len(), |i: int| (self.fonts@[i].0@, self.fonts@[i].1@))
    }
}

impl PDFResources {
    /// An empty resource table.
    pub fn new() -> (r: PDFResources)
        ensures
            r@ == ResModel::empty(),
    {
        let r = PDFResources { fonts: Vec::new() };
        proof {
            assert(r@ =~= ResModel::empty());
        }
        r
    }

    /// Record a font under a resource name, shadowing any earlier entry.
    pub fn add_font(&mut self, name: String, font: PDFFont)
        ensures
            final(self)@ == old(self)@.push((name@, font@)),
    {
        let ghost before = self@;
        let ghost entry = (name@, font@);
        self.fonts.push((name, font));
        proof {
            assert(self@ =~= before.push(entry));
        }
    }

    /// Look a font up by resource name.
    pub fn get_font(&self, name: &str) -> (r: Result<Option<&PDFFont>, PDFError>)
        ensures
            r is Ok,
            match res_lookup(self@, name@) {
                Some(fm) => r->Ok_0 is Some && r->Ok_0->0@ == fm,
                None => r->Ok_0 is None,
            },
    {
        let key: String = name.to_owned();
        let mut i: usize = self.fonts.len();
        proof {
            assert(self@.take(i as int) =~= self@);
        }
        while i > 0
            invariant
                i <= self.fonts.len(),
                key@ == name@,
                res_lookup(self@, name@) == res_lookup(self@.take(i as int), name@),
            decreases i,
        {
            i = i - 1;
            let entry = &self.fonts[i];
            proof {
                assert(self@.take(i as int + 1).last() == (self.fonts@[i as int].0@,
                    self.fonts@[i as int].1@));
                assert(self@.take(i as int + 1).drop_last() =~= self@.take(i as int));
            }
            if entry.0 == key {
                return Ok(Some(&entry.1));
            }
        }
        proof {
            assert(self@.take(0) =~= ResModel::empty());
        }
        Ok(None)
    }
}

} // verus!
