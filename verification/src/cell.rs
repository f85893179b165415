use crate::error::XlsxError;
use crate::num_text::spec_dec;
use crate::num_text::usize_to_string;
use crate::numeric::is_numeric_literal;
use crate::numeric::is_numeric_text;
use crate::shared_string::spec_add_string;
use crate::shared_string::SharedStrings;
use crate::style::default_font_view;
use crate::style::spec_add_cell_xf;
use crate::style::Style;
use crate::style::StyleView;
use crate::style::style_wf;
use crate::style::FontStyle;
use crate::style::FontView;
use crate::xml::ev_attr;
use crate::xml::ev_end;
use crate::xml::ev_start;
use crate::xml::ev_text;
use crate::xml::start_element;
use crate::xml::end_element;
use crate::xml::write_attribute;
use crate::xml::write_text;
use crate::xml::writer_log;
use crate::xml::XmlEv;
use vstd::prelude::*;

verus! {

/// The style a caller attaches to a cell, resolved into the registry
/// when the worksheet joins a workbook.
#[derive(Debug)]
pub struct CellStyle {
    pub font_style: FontStyle,
}

impl Default for CellStyle {
    fn default() -> (r: Self)
        ensures
            r.font_style@ == default_font_view(),
    {
        CellStyle { font_style: FontStyle::new() }
    }
}

/// The mathematical value of the attributes on a cell element.
pub struct AttrView {
    pub reference: Option<Seq<char>>,
    pub style_index: Option<Seq<char>>,
}

/// The attributes serialized on a cell element: its reference and,
/// once resolved, its style id.
#[derive(Debug)]
pub struct CellAttributes {
    pub reference: Option<String>,
    pub style_index: Option<String>,
}

impl View for CellAttributes {
    type V = AttrView;

    open spec fn view(&self) -> AttrView {
        AttrView {
            reference: match self.reference {
                Some(ref s) => Some(s@),
                None => None,
            },
            style_index: match self.style_index {
                Some(ref s) => Some(s@),
                None => None,
            },
        }
    }
}

/// The value stored in a cell: exactly one variant per cell.
#[derive(Debug)]
pub enum CellValue {
    CString(String),
    CNumber(String),
    CFomula(String),
    CBool(bool),
    CInString(String),
    CDate(String),
    Empty,
}

/// The mathematical value of a `CellValue`.
pub enum CellValueView {
    CString(Seq<char>),
    CNumber(Seq<char>),
    CFomula(Seq<char>),
    CBool(bool),
    CInString(Seq<char>),
    CDate(Seq<char>),
    Empty,
}

impl View for CellValue {
    type V = CellValueView;

    open spec fn view(&self) -> CellValueView {
        match self {
            CellValue::CString(s) => CellValueView::CString(s@),
            CellValue::CNumber(s) => CellValueView::CNumber(s@),
            CellValue::CFomula(s) => CellValueView::CFomula(s@),
            CellValue::CBool(b) => CellValueView::CBool(*b),
            CellValue::CInString(s) => CellValueView::CInString(s@),
            CellValue::CDate(s) => CellValueView::CDate(s@),
            CellValue::Empty => CellValueView::Empty,
        }
    }
}

/// The mathematical value of a cell.
pub struct CellView {
    pub value: CellValueView,
    pub formula: Option<Seq<char>>,
    pub reference: Option<Seq<char>>,
    pub style_index: Option<Seq<char>>,
    pub font: Option<FontView>,
}

/// One cell: a value, an optional formula source, the serialized
/// attributes, and an optional pending style.
#[derive(Debug)]
pub struct Cell {
    pub value: CellValue,
    formula: Option<String>,
    attributes: CellAttributes,
    cell_style: Option<CellStyle>,
}

impl View for Cell {
    type V = CellView;

    closed spec fn view(&self) -> CellView {
        CellView {
            value: self.value@,
            formula: match self.formula {
                Some(ref s) => Some(s@),
                None => None,
            },
            reference: self.attributes@.reference,
            style_index: self.attributes@.style_index,
            font: match self.cell_style {
                Some(ref cs) => Some(cs.font_style@),
                None => None,
            },
        }
    }
}

impl Cell {
    /// A bare cell holding the given value, with no reference yet:
    /// one is assigned when the cell joins a row.
    pub fn new(value: CellValue) -> (c: Cell)
        ensures
            c@.value == value@,
            c@.formula is None,
            c@.reference is None,
            c@.style_index is None,
            c@.font is None,
    {
        Cell {
            value,
            formula: None,
            attributes: CellAttributes { reference: None, style_index: None },
            cell_style: None,
        }
    }

    /// A text cell at `reference`: an inline-string cell when
    /// `inline` is set, a shared-string cell otherwise.
    pub fn from_string(value: String, reference: String, inline: bool) -> (c: Cell)
        ensures
            c@.value == (if inline {
                CellValueView::CInString(value@)
            } else {
                CellValueView::CString(value@)
            }),
            c@.formula is None,
            c@.reference == Some(reference@),
            c@.style_index is None,
            c@.font is None,
    {
        let cell_value = if inline {
            CellValue::CInString(value)
        } else {
            CellValue::CString(value)
        };
        Cell {
            value: cell_value,
            formula: None,
            attributes: CellAttributes { reference: Some(reference), style_index: None },
            cell_style: None,
        }
    }

    /// A number cell at `reference`.  The text must be numeric in the
    /// double grammar; other text is rejected with `ParseError` and
    /// no cell is made.
    pub fn from_number(value: String, reference: String) -> (r: Result<Cell, XlsxError>)
        ensures
            match r {
                Ok(c) => {
                    &&& is_numeric_literal(value@)
                    &&& c@.value == CellValueView::CNumber(value@)
                    &&& c@.formula is None
                    &&& c@.reference == Some(reference@)
                    &&& c@.style_index is None
                    &&& c@.font is None
                },
                Err(e) => !is_numeric_literal(value@) && e == XlsxError::ParseError,
            },
    {
        if !is_numeric_text(value.as_str()) {
            return Err(XlsxError::ParseError);
        }
        Ok(
            Cell {
                value: CellValue::CNumber(value),
                formula: None,
                attributes: CellAttributes { reference: Some(reference), style_index: None },
                cell_style: None,
            },
        )
    }

    /// The serialized attributes of this cell.
    pub fn get_attributes(&self) -> (r: &CellAttributes)
        ensures
            r@.reference == self@.reference,
            r@.style_index == self@.style_index,
    {
        &self.attributes
    }

    /// The style pending on this cell, if any.
    pub fn get_style(&self) -> (r: &Option<CellStyle>)
        ensures
            match r {
                Some(cs) => self@.font == Some(cs.font_style@),
                None => self@.font is None,
            },
    {
        &self.cell_style
    }

    /// Attaches a font style, to be resolved when the worksheet joins
    /// a workbook.
    pub fn set_font_style(&mut self, style: FontStyle)
        ensures
            final (self)@ == (CellView { font: Some(style@), ..old(self)@ }),
    {
        self.cell_style = Some(CellStyle { font_style: style });
    }

    /// Assigns a reference to the cell.
    pub fn set_reference(&mut self, reference: String)
        ensures
            final (self)@ == (CellView { reference: Some(reference@), ..old(self)@ }),
    {
        self.attributes.reference = Some(reference);
    }

    /// Records the resolved style id on the cell.
    pub fn set_style_index(&mut self, index: usize)
        ensures
            final (self)@ == (CellView {
                style_index: Some(spec_dec(index as nat)),
                ..old(self)@
            }),
    {
        self.attributes.style_index = Some(usize_to_string(index));
    }
}

/// Resolving one cell against the workbook registries: the text of a
/// shared-text cell is interned and replaced by the decimal string of
/// its id, and a pending font style is resolved to a style id that is
/// recorded on the cell.  Returns the cell, the shared-string table
/// and the style registry after the step, and how many occurrences
/// were interned (one for a shared-text cell, none otherwise).
pub open spec fn spec_resolve_cell(c: CellView, tab: Seq<Seq<char>>, sv: StyleView) -> (
    CellView,
    Seq<Seq<char>>,
    StyleView,
    nat,
) {
    let (value2, tab2, occ) = match c.value {
        CellValueView::CString(s) => {
            let (t2, id) = spec_add_string(tab, s);
            (CellValueView::CString(spec_dec(id as nat)), t2, 1nat)
        },
        v => (v, tab, 0nat),
    };
    let (si2, sv2) = match c.font {
        Some(f) => {
            let (vs2, xfs2, xid) = spec_add_cell_xf(sv.fonts, sv.xfs, Some(f));
            (
                Some(spec_dec(xid as nat)),
                StyleView { fonts: vs2, xfs: xfs2, num_fmts: sv.num_fmts },
            )
        },
        None => (c.style_index, sv),
    };
    (CellView { value: value2, style_index: si2, ..c }, tab2, sv2, occ)
}

impl Cell {
    /// Interns this cell's text into the shared-string table and
    /// resolves its pending style against the registry, as
    /// `spec_resolve_cell` describes.
    pub fn resolve(&mut self, sst: &mut SharedStrings, style: &mut Style)
        requires
            old(sst)@.total < u32::MAX,
            old(sst)@.strings.len() < u32::MAX,
        ensures
            ({
                let (c2, tab2, sv2, occ) = spec_resolve_cell(
                    old(self)@,
                    old(sst)@.strings,
                    old(style)@,
                );
                &&& final (self)@ == c2
                &&& final (sst)@.strings == tab2
                &&& final (sst)@.total == old(sst)@.total + occ
                &&& final (style)@ == sv2
                &&& style_wf(old(style)@) ==> style_wf(final (style)@)
            }),
    {
        match &mut self.value {
            CellValue::CString(v) => {
                sst.add_string(v);
            },
            _ => (),
        }
        match &self.cell_style {
            Some(cs) => {
                let sid = style.add_cell_xf(Some(&cs.font_style));
                self.attributes.style_index = Some(usize_to_string(sid));
            },
            None => (),
        }
    }
}

/// Only shared-text cells touch the shared-string table: an inline
/// string (or any other value) passes resolution with the table, the
/// occurrence count and its own value untouched.
pub proof fn lemma_non_shared_text_bypasses_interning(
    c: CellView,
    tab: Seq<Seq<char>>,
    sv: StyleView,
)
    requires
        !(c.value is CString),
    ensures
        ({
            let (c2, tab2, sv2, occ) = spec_resolve_cell(c, tab, sv);
            tab2 == tab && occ == 0 && c2.value == c.value
        }),
{
}

/// The attribute event for an optional attribute.
pub open spec fn opt_attr_events(name: Seq<char>, v: Option<Seq<char>>) -> Seq<XmlEv> {
    match v {
        Some(x) => seq![ev_attr(name, x)],
        None => seq![],
    }
}

/// The serialized form of a boolean cell value.
pub open spec fn bool_text(b: bool) -> Seq<char> {
    if b {
        "true"@
    } else {
        "false"@
    }
}

/// The type attribute a cell value carries: `s` for shared text, `n`
/// for a number, `str` for a formula result, `b` for a boolean,
/// `inlineStr` for inline text, `d` for a date; an empty cell has no
/// type attribute.
pub open spec fn type_attr_events(v: CellValueView) -> Seq<XmlEv> {
    match v {
        CellValueView::CString(_) => seq![ev_attr("t"@, "s"@)],
        CellValueView::CNumber(_) => seq![ev_attr("t"@, "n"@)],
        CellValueView::CFomula(_) => seq![ev_attr("t"@, "str"@)],
        CellValueView::CBool(_) => seq![ev_attr("t"@, "b"@)],
        CellValueView::CInString(_) => seq![ev_attr("t"@, "inlineStr"@)],
        CellValueView::CDate(_) => seq![ev_attr("t"@, "d"@)],
        CellValueView::Empty => seq![],
    }
}

/// The formula child of a cell, when a formula source is present.
pub open spec fn formula_events(f: Option<Seq<char>>) -> Seq<XmlEv> {
    match f {
        Some(x) => seq![ev_start("formula"@), ev_text(x), ev_end()],
        None => seq![],
    }
}

/// The value child of a cell: a `v` element with the stored text (a
/// shared-string id, digits, a formula result, a boolean token or a
/// date), an `is`/`t` text run for inline text, nothing for an empty
/// cell.
pub open spec fn value_events(v: CellValueView) -> Seq<XmlEv> {
    match v {
        CellValueView::CString(s) => seq![ev_start("v"@), ev_text(s), ev_end()],
        CellValueView::CNumber(s) => seq![ev_start("v"@), ev_text(s), ev_end()],
        CellValueView::CFomula(s) => seq![ev_start("v"@), ev_text(s), ev_end()],
        CellValueView::CBool(b) => seq![ev_start("v"@), ev_text(bool_text(b)), ev_end()],
        CellValueView::CInString(s) => seq![
            ev_start("is"@),
            ev_start("t"@),
            ev_text(s),
            ev_end(),
            ev_end(),
        ],
        CellValueView::CDate(s) => seq![ev_start("v"@), ev_text(s), ev_end()],
        CellValueView::Empty => seq![],
    }
}

/// Everything a cell emits: a `c` element carrying the reference
/// attribute, the optional style attribute, the type attribute, then
/// the optional formula child and the value child.
pub open spec fn cell_events(c: CellView) -> Seq<XmlEv> {
    seq![ev_start("c"@), ev_attr("r"@, c.reference.unwrap())] + opt_attr_events(
        "s"@,
        c.style_index,
    ) + type_attr_events(c.value) + formula_events(c.formula) + value_events(c.value)
        + seq![ev_end()]
}

impl Cell {
    /// Serializes this cell onto the writer.
    #[verifier::rlimit(60)]
    pub fn to_xml(&self, writer: &mut xmlwriter::XmlWriter)
        requires
            self@.reference is Some,
        ensures
            writer_log(*final (writer)) == writer_log(*old(writer)) + cell_events(self@),
    {
        let ghost c = self@;
        let ghost log0 = writer_log(*writer);
        start_element(writer, "c");
        match &self.attributes.reference {
            Some(r) => write_attribute(writer, "r", r.as_str()),
            None => {
                proof {
                    assert(false);
                }
            },
        }
        match &self.attributes.style_index {
            Some(s) => write_attribute(writer, "s", s.as_str()),
            None => (),
        }
        match &self.value {
            CellValue::CString(_) => write_attribute(writer, "t", "s"),
            CellValue::CNumber(_) => write_attribute(writer, "t", "n"),
            CellValue::CFomula(_) => write_attribute(writer, "t", "str"),
            CellValue::CBool(_) => write_attribute(writer, "t", "b"),
            CellValue::CInString(_) => write_attribute(writer, "t", "inlineStr"),
            CellValue::CDate(_) => write_attribute(writer, "t", "d"),
            CellValue::Empty => (),
        }
        match &self.formula {
            Some(f) => {
                start_element(writer, "formula");
                write_text(writer, f.as_str());
                end_element(writer);
            },
            None => (),
        }
        match &self.value {
            CellValue::CString(v) => {
                start_element(writer, "v");
                write_text(writer, v.as_str());
                end_element(writer);
            },
            CellValue::CNumber(v) => {
                start_element(writer, "v");
                write_text(writer, v.as_str());
                end_element(writer);
            },
            CellValue::CFomula(v) => {
                start_element(writer, "v");
                write_text(writer, v.as_str());
                end_element(writer);
            },
            CellValue::CBool(v) => {
                start_element(writer, "v");
                write_text(writer, if *v {
                    "true"
                } else {
                    "false"
                });
                end_element(writer);
            },
            CellValue::CInString(v) => {
                start_element(writer, "is");
                start_element(writer, "t");
                write_text(writer, v.as_str());
                end_element(writer);
                end_element(writer);
            },
            CellValue::CDate(v) => {
                start_element(writer, "v");
                write_text(writer, v.as_str());
                end_element(writer);
            },
            CellValue::Empty => (),
        }
        end_element(writer);
        proof {
            assert(writer_log(*writer) =~= log0 + cell_events(c));
        }
    }
}

} // verus!
