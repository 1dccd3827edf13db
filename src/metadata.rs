//! Document metadata: the info dictionary and the XMP stream, which must
//! agree on title and timestamps, and the date strings they carry.

use vstd::prelude::*;
use crate::utils::{IdGenerator, is_id_letter, id_chars, seed_after_id};
use vstd::std_specs::iter::IteratorSpec;

verus! {

/// A UTC date and time.
#[derive(Copy, Clone, Debug, PartialEq, Eq, Structural)]
pub struct DateTime {
    pub year: u16,
    pub month: u8,
    pub day: u8,
    pub hour: u8,
    pub minute: u8,
    pub second: u8,
}

impl DateTime {
    /// The fields are in range: a four-digit year, a month of 1 to 12, a day
    /// of 1 to 31, and a time of day.
    pub open spec fn wf(self) -> bool {
        &&& self.year <= 9999
        &&& 1 <= self.month <= 12
        &&& 1 <= self.day <= 31
        &&& self.hour < 24
        &&& self.minute < 60
        &&& self.second < 60
    }

    /// A date and time, if every field is in range.
    pub fn new(year: u16, month: u8, day: u8, hour: u8, minute: u8, second: u8) -> (r: Option<DateTime>)
        ensures
            r matches Some(d) ==> d.wf() && d == (DateTime { year, month, day, hour, minute, second }),
            r is None <==> !(DateTime { year, month, day, hour, minute, second }).wf(),
    {
        let d = DateTime { year, month, day, hour, minute, second };
        if year <= 9999 && 1 <= month && month <= 12 && 1 <= day && day <= 31 && hour < 24 && minute < 60
            && second < 60 {
            Some(d)
        } else {
            None
        }
    }
}

/// The conformance level a document claims.
#[derive(Copy, Clone, Debug, PartialEq, Eq, Structural)]
pub enum PdfConformance {
    /// PDF/X-1a:2001 on PDF 1.3
    X1A_2001_PDF_1_3,
    /// PDF/X-3:2002 on PDF 1.3
    X3_2002_PDF_1_3,
    /// PDF/X-3:2003 on PDF 1.4
    X3_2003_PDF_1_4,
}

impl PdfConformance {
    /// The identifier written as the `GTS_PDFXVersion` and `pdfxid:GTS_PDFXVersion`.
    pub open spec fn spec_identifier(self) -> &'static str {
        match self {
            PdfConformance::X1A_2001_PDF_1_3 => "PDF/X-1a:2001",
            PdfConformance::X3_2002_PDF_1_3 => "PDF/X-3:2002",
            PdfConformance::X3_2003_PDF_1_4 => "PDF/X-3:2003",
        }
    }

    /// The identifier written as the `GTS_PDFXVersion` and `pdfxid:GTS_PDFXVersion`.
    pub fn get_identifier_string(self) -> (r: &'static str)
        ensures
            r == self.spec_identifier(),
    {
        match self {
            PdfConformance::X1A_2001_PDF_1_3 => "PDF/X-1a:2001",
            PdfConformance::X3_2002_PDF_1_3 => "PDF/X-3:2002",
            PdfConformance::X3_2003_PDF_1_4 => "PDF/X-3:2003",
        }
    }
}

/// The character of a decimal digit.
pub open spec fn digit_char(d: int) -> char {
    ((48 + d) as u8) as char
}

/// `n` written with exactly `width` decimal digits, zero-padded.
pub open spec fn padded(n: nat, width: nat) -> Seq<char>
    decreases width,
{
    if width == 0 {
        Seq::empty()
    } else {
        padded(n / 10, (width - 1) as nat).push(digit_char((n % 10) as int))
    }
}

/// Appends `n` with exactly `width` digits, zero-padded.
fn push_padded(out: &mut String, n: u16, width: usize)
    requires
        width <= 4,
    ensures
        final(out)@ == old(out)@ + padded(n as nat, width as nat),
    decreases width,
{
    if width > 0 {
        push_padded(out, n / 10, width - 1);
        let c = ((48u8 + (n % 10) as u8) as char);
        out.push(c);
        proof {
            assert(final(out)@ =~= old(out)@ + padded(n as nat, width as nat));
        }
    } else {
        proof {
            assert(final(out)@ =~= old(out)@ + padded(n as nat, width as nat));
        }
    }
}

/// The info dictionary's form of a date: `D:YYYYMMDDHHmmSS+00'00'`.
pub open spec fn spec_time_stamp(d: DateTime) -> Seq<char> {
    seq!['D', ':'] + padded(d.year as nat, 4) + padded(d.month as nat, 2) + padded(d.day as nat, 2)
        + padded(d.hour as nat, 2) + padded(d.minute as nat, 2) + padded(d.second as nat, 2)
        + seq!['+', '0', '0', '\'', '0', '0', '\'']
}

/// The XMP form of a date: `D:YYYY-MM-DDTHH:mm:SS+00'00'`.
pub open spec fn spec_xmp_date(d: DateTime) -> Seq<char> {
    seq!['D', ':'] + padded(d.year as nat, 4) + seq!['-'] + padded(d.month as nat, 2) + seq!['-']
        + padded(d.day as nat, 2) + seq!['T'] + padded(d.hour as nat, 2) + seq![':'] + padded(
        d.minute as nat,
        2,
    ) + seq![':'] + padded(d.second as nat, 2) + seq!['+', '0', '0', '\'', '0', '0', '\'']
}

fn push_str_chars(out: &mut String, s: &Vec<char>)
    ensures
        final(out)@ == old(out)@ + s@,
{
    let mut i: usize = 0;
    while i < s.len()
        invariant
            i <= s@.len(),
            out@ == old(out)@ + s@.subrange(0, i as int),
        decreases s.len() - i,
    {
        out.push(s[i]);
        proof {
            assert(s@.subrange(0, i + 1) =~= s@.subrange(0, i as int).push(s@[i as int]));
        }
        i = i + 1;
    }
    proof {
        assert(s@.subrange(0, s@.len() as int) =~= s@);
    }
}

/// Formats a date for the info dictionary. The time is in UTC, so the zone
/// offset is always `+00'00'`.
pub fn to_pdf_time_stamp_metadata(date: DateTime) -> (r: String)
    requires
        date.wf(),
    ensures
        r@ == spec_time_stamp(date),
{
    let mut out = String::new();
    push_str_chars(&mut out, &vec!['D', ':']);
    push_padded(&mut out, date.year, 4);
    push_padded(&mut out, date.month as u16, 2);
    push_padded(&mut out, date.day as u16, 2);
    push_padded(&mut out, date.hour as u16, 2);
    push_padded(&mut out, date.minute as u16, 2);
    push_padded(&mut out, date.second as u16, 2);
    push_str_chars(&mut out, &vec!['+', '0', '0', '\'', '0', '0', '\'']);
    proof {
        assert(out@ =~= spec_time_stamp(date));
    }
    out
}

/// Formats a date for the XMP stream. The time is in UTC, so the zone
/// offset is always `+00'00'`.
pub fn to_pdf_xmp_date(date: DateTime) -> (r: String)
    requires
        date.wf(),
    ensures
        r@ == spec_xmp_date(date),
{
    let mut out = String::new();
    push_str_chars(&mut out, &vec!['D', ':']);
    push_padded(&mut out, date.year, 4);
    out.push('-');
    push_padded(&mut out, date.month as u16, 2);
    out.push('-');
    push_padded(&mut out, date.day as u16, 2);
    out.push('T');
    push_padded(&mut out, date.hour as u16, 2);
    out.push(':');
    push_padded(&mut out, date.minute as u16, 2);
    out.push(':');
    push_padded(&mut out, date.second as u16, 2);
    push_str_chars(&mut out, &vec!['+', '0', '0', '\'', '0', '0', '\'']);
    proof {
        assert(out@ =~= spec_xmp_date(date));
    }
    out
}

/// One UTF-16 code unit, high byte first.
pub open spec fn unit_be(u: int) -> Seq<u8> {
    seq![(u / 256) as u8, (u % 256) as u8]
}

/// A character in UTF-16, high byte first: one unit below `U+10000`, a
/// surrogate pair above.
pub open spec fn char_utf16be(c: char) -> Seq<u8> {
    let v = c as u32 as int;
    if v < 0x10000 {
        unit_be(v)
    } else {
        unit_be(0xD800 + (v - 0x10000) / 1024) + unit_be(0xDC00 + (v - 0x10000) % 1024)
    }
}

/// Text in UTF-16, high byte first, without a byte-order mark.
pub open spec fn text_utf16be(s: Seq<char>) -> Seq<u8>
    decreases s.len(),
{
    if s.len() == 0 {
        Seq::empty()
    } else {
        text_utf16be(s.drop_last()) + char_utf16be(s.last())
    }
}

/// Text as a text string of the info dictionary: the byte-order mark
/// `FE FF`, then the text in UTF-16, high byte first.
pub open spec fn spec_text_string(s: Seq<char>) -> Seq<u8> {
    seq![0xFEu8, 0xFFu8] + text_utf16be(s)
}

fn push_unit(out: &mut Vec<u8>, u: u32)
    requires
        u < 0x10000,
    ensures
        final(out)@ == old(out)@ + unit_be(u as int),
{
    out.push((u / 256) as u8);
    out.push((u % 256) as u8);
    proof {
        assert(final(out)@ =~= old(out)@ + unit_be(u as int));
    }
}

/// Encodes text as a text string of the info dictionary: a byte-order mark,
/// then UTF-16 with the high byte first.
pub fn text_string(s: &String) -> (r: Vec<u8>)
    ensures
        r@ == spec_text_string(s@),
{
    broadcast use vstd::string::axiom_spec_iter, vstd::string::next_postcondition;
    let mut out: Vec<u8> = vec![0xFEu8, 0xFFu8];
    let ghost all = s@;
    let mut it = s.as_str().chars();
    let ghost mut k: int = 0;
    proof {
        assert(out@ =~= seq![0xFEu8, 0xFFu8] + text_utf16be(all.take(0)));
    }
    loop
        invariant
            all == s@,
            0 <= k <= all.len(),
            it.remaining() == all.skip(k),
            out@ == seq![0xFEu8, 0xFFu8] + text_utf16be(all.take(k)),
        ensures
            out@ == seq![0xFEu8, 0xFFu8] + text_utf16be(all),
        decreases all.len() - k,
    {
        match it.next() {
            Some(c) => {
                let v = c as u32;
                proof {
                    vstd::utf8::char_is_scalar(c);
                }
                if v < 0x10000 {
                    push_unit(&mut out, v);
                } else {
                    push_unit(&mut out, 0xD800 + (v - 0x10000) / 1024);
                    push_unit(&mut out, 0xDC00 + (v - 0x10000) % 1024);
                }
                proof {
                    assert(c == all[k]);
                    assert(all.take(k + 1).drop_last() =~= all.take(k));
                    assert(out@ =~= seq![0xFEu8, 0xFFu8] + text_utf16be(all.take(k + 1)));
                    assert(it.remaining() =~= all.skip(k + 1));
                    k = k + 1;
                }
            },
            None => {
                proof {
                    assert(k == all.len());
                    assert(all.take(k) =~= all);
                }
                break;
            },
        }
    }
    out
}

/// The entries of the info dictionary.
#[derive(Clone, Debug)]
pub struct InfoDictionary {
    pub trapped: bool,
    pub creation_date: String,
    pub mod_date: String,
    pub gts_pdfx_version: String,
    pub title: String,
    /// The title as a text string: byte-order mark, then UTF-16BE.
    pub title_bytes: Vec<u8>,
    pub keywords: Option<String>,
    /// The keywords as a text string, when present.
    pub keywords_bytes: Option<Vec<u8>>,
}

/// The fields the XMP metadata stream carries.
#[derive(Clone, Debug)]
pub struct XmpStream {
    pub create_date: String,
    pub modification_date: String,
    pub metadata_date: String,
    pub document_title: String,
    pub document_id: String,
    pub instance_id: String,
    pub rendition_class: String,
    pub document_version: u32,
    pub pdf_x_version: String,
    pub trapped: bool,
}

/// The info dictionary of a document. Its data lives in the document's
/// metadata, which keeps it in step with the XMP stream.
#[derive(Copy, Clone, Debug, PartialEq, Eq, Structural)]
pub struct DocumentInfo {}

impl DocumentInfo {
    /// A new info dictionary.
    pub fn new() -> (r: DocumentInfo) {
        DocumentInfo {}
    }

    /// The dictionary's entries for the given settings.
    pub fn into_obj(
        self,
        document_title: String,
        trapping: bool,
        conformance: PdfConformance,
        creation_date: DateTime,
        modification_date: DateTime,
        keywords: Option<String>,
    ) -> (r: InfoDictionary)
        requires
            creation_date.wf(),
            modification_date.wf(),
        ensures
            r.trapped == trapping,
            r.gts_pdfx_version@ == conformance.spec_identifier()@,
            r.creation_date@ == spec_time_stamp(creation_date),
            r.mod_date@ == spec_time_stamp(modification_date),
            r.title == document_title,
            r.title_bytes@ == spec_text_string(document_title@),
            r.keywords == keywords,
            match keywords {
                Some(k) => r.keywords_bytes matches Some(b) && b@ == spec_text_string(k@),
                None => r.keywords_bytes is None,
            },
    {
        let title_bytes = text_string(&document_title);
        let keywords_bytes = match &keywords {
            Some(k) => Some(text_string(k)),
            None => None,
        };
        InfoDictionary {
            title_bytes,
            keywords_bytes,
            trapped: trapping,
            creation_date: to_pdf_time_stamp_metadata(creation_date),
            mod_date: to_pdf_time_stamp_metadata(modification_date),
            gts_pdfx_version: conformance.get_identifier_string().to_owned(),
            title: document_title,
            keywords,
        }
    }
}

/// XMP metadata: identifiers, rendition class and version.
#[derive(Clone, Debug)]
pub struct XmpMetadata {
    pub document_id: String,
    pub instance_id: Option<String>,
    /// Usually `default`; empty when absent.
    pub rendition_class: Option<String>,
    pub document_version: u32,
}

/// The identifier is 32 letters from `A` to `J`.
pub open spec fn is_generated_id(s: Seq<char>) -> bool {
    s.len() == 32 && forall|i: int| 0 <= i < 32 ==> is_id_letter(#[trigger] s[i])
}

impl XmpMetadata {
    /// New XMP metadata with a fresh document id and no instance id.
    pub fn new(rendition_class: Option<String>, document_version: u32, ids: &mut IdGenerator) -> (r: XmpMetadata)
        ensures
            is_generated_id(r.document_id@),
            r.document_id@ == id_chars(old(ids).seed, 0),
            final(ids).seed == seed_after_id(old(ids).seed, 0),
            r.instance_id is None,
            r.rendition_class == rendition_class,
            r.document_version == document_version,
    {
        let document_id = ids.random_character_string_32();
        XmpMetadata { document_id, instance_id: None, rendition_class, document_version }
    }

    /// The stream's fields for the given settings. A missing instance id is
    /// generated; a missing rendition class is written empty.
    pub fn into_obj(
        self,
        conformance: PdfConformance,
        trapping: bool,
        creation_date: DateTime,
        modification_date: DateTime,
        metadata_date: DateTime,
        document_title: String,
        ids: &mut IdGenerator,
    ) -> (r: XmpStream)
        requires
            creation_date.wf(),
            modification_date.wf(),
            metadata_date.wf(),
        ensures
            r.pdf_x_version@ == conformance.spec_identifier()@,
            r.create_date@ == spec_xmp_date(creation_date),
            r.modification_date@ == spec_xmp_date(modification_date),
            r.metadata_date@ == spec_xmp_date(metadata_date),
            r.document_title == document_title,
            r.document_id == self.document_id,
            match self.instance_id {
                Some(id) => r.instance_id == id,
                None => is_generated_id(r.instance_id@) && r.instance_id@ == id_chars(old(ids).seed, 0)
                    && final(ids).seed == seed_after_id(old(ids).seed, 0),
            },
            match self.rendition_class {
                Some(c) => r.rendition_class == c,
                None => r.rendition_class@.len() == 0,
            },
            r.document_version == self.document_version,
            r.trapped == trapping,
    {
        let instance_id = match self.instance_id {
            Some(id) => id,
            None => ids.random_character_string_32(),
        };
        let rendition_class = match self.rendition_class {
            Some(c) => c,
            None => String::new(),
        };
        XmpStream {
            create_date: to_pdf_xmp_date(creation_date),
            modification_date: to_pdf_xmp_date(modification_date),
            metadata_date: to_pdf_xmp_date(metadata_date),
            document_title,
            document_id: self.document_id,
            instance_id,
            rendition_class,
            document_version: self.document_version,
            pdf_x_version: conformance.get_identifier_string().to_owned(),
            trapped: trapping,
        }
    }
}

/// Document-wide metadata, shared by the info dictionary and the XMP stream.
#[derive(Clone, Debug)]
pub struct PdfMetadata {
    pub document_title: String,
    pub trapping: bool,
    pub conformance: PdfConformance,
    pub creation_date: DateTime,
    pub modification_date: DateTime,
    pub metadata_date: DateTime,
    pub document_version: u32,
    pub xmp_metadata: XmpMetadata,
}

impl PdfMetadata {
    /// Metadata whose three dates are all `now`.
    pub fn new(
        document_title: String,
        document_version: u32,
        trapping: bool,
        conformance: PdfConformance,
        now: DateTime,
        ids: &mut IdGenerator,
    ) -> (r: PdfMetadata)
        requires
            now.wf(),
        ensures
            r.document_title == document_title,
            r.document_version == document_version,
            r.trapping == trapping,
            r.conformance == conformance,
            r.creation_date == now,
            r.modification_date == now,
            r.metadata_date == now,
            is_generated_id(r.xmp_metadata.document_id@),
            r.xmp_metadata.instance_id is None,
            r.xmp_metadata.document_version == document_version,
    {
        PdfMetadata {
            document_title,
            trapping,
            conformance,
            creation_date: now,
            modification_date: now,
            metadata_date: now,
            document_version,
            xmp_metadata: XmpMetadata::new(None, document_version, ids),
        }
    }

    /// The info dictionary and the XMP stream, which carry the same title
    /// and the same creation and modification dates.
    pub fn into_obj(self, ids: &mut IdGenerator) -> (r: (XmpStream, InfoDictionary))
        requires
            self.creation_date.wf(),
            self.modification_date.wf(),
            self.metadata_date.wf(),
        ensures
            r.0.pdf_x_version@ == self.conformance.spec_identifier()@,
            r.1.gts_pdfx_version@ == self.conformance.spec_identifier()@,
            r.0.document_title == self.document_title,
            r.1.title == self.document_title,
            r.1.title_bytes@ == spec_text_string(self.document_title@),
            r.0.create_date@ == spec_xmp_date(self.creation_date),
            r.1.creation_date@ == spec_time_stamp(self.creation_date),
            r.0.modification_date@ == spec_xmp_date(self.modification_date),
            r.1.mod_date@ == spec_time_stamp(self.modification_date),
            r.0.metadata_date@ == spec_xmp_date(self.metadata_date),
            r.0.trapped == self.trapping,
            r.1.trapped == self.trapping,
            r.0.document_id == self.xmp_metadata.document_id,
            r.1.keywords is None,
    {
        let xmp = self.xmp_metadata.into_obj(
            self.conformance,
            self.trapping,
            self.creation_date,
            self.modification_date,
            self.metadata_date,
            self.document_title.clone(),
            ids,
        );
        let info = DocumentInfo::new().into_obj(
            self.document_title,
            self.trapping,
            self.conformance,
            self.creation_date,
            self.modification_date,
            None,
        );
        (xmp, info)
    }
}

} // verus!
