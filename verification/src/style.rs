use crate::num_text::lemma_dec_digits;
use crate::num_text::lemma_dec_injective;
use crate::num_text::spec_dec;
use crate::numeric::lemma_first_where_at;
use crate::num_text::u64_to_string;
use crate::num_text::usize_to_string;
use crate::tables::find_first;
use crate::tables::lemma_find_first_at;
use crate::tables::lemma_find_first_props;
use crate::tables::lemma_find_first_push_absent;
use crate::tables::lemma_intern_extends;
use crate::tables::lemma_intern_idempotent;
use crate::tables::spec_intern;
use crate::xml::end_document;
use crate::xml::end_element;
use crate::xml::ev_attr;
use crate::xml::ev_end;
use crate::xml::ev_start;
use crate::xml::new_writer;
use crate::xml::rendered;
use crate::xml::start_element;
use crate::xml::write_attribute;
use crate::xml::writer_log;
use crate::xml::XmlEv;
use vstd::prelude::*;

verus! {

/// The underline shapes a font can carry.
#[derive(Debug, Clone, Copy, PartialEq, Eq, Structural)]
pub enum UnderLine {
    Single,
    Double,
    SingleAcccounting,
    DoubleAccouting,
}

/// The mathematical value of a font: every attribute the style
/// registry deduplicates on.
pub struct FontView {
    pub size: u8,
    pub name: Seq<char>,
    pub bold: bool,
    pub italic: bool,
    pub strike: bool,
    pub underline: Option<UnderLine>,
}

/// A font attribute record, built with chained setters.
#[derive(Debug)]
pub struct FontStyle {
    name: String,
    size: u8,
    bold: bool,
    italic: bool,
    strike: bool,
    underline: Option<UnderLine>,
}

impl View for FontStyle {
    type V = FontView;

    closed spec fn view(&self) -> FontView {
        FontView {
            size: self.size,
            name: self.name@,
            bold: self.bold,
            italic: self.italic,
            strike: self.strike,
            underline: self.underline,
        }
    }
}

/// The font every workbook starts from: Arial 10 with no emphasis.
pub open spec fn default_font_view() -> FontView {
    FontView {
        size: 10,
        name: "Arial"@,
        bold: false,
        italic: false,
        strike: false,
        underline: None,
    }
}

/// The canonical-key fragment for a flag.
pub open spec fn bool_key(b: bool) -> Seq<char> {
    if b {
        "true"@
    } else {
        "false"@
    }
}

/// The canonical-key fragment for an underline choice.
pub open spec fn und_key(u: Option<UnderLine>) -> Seq<char> {
    match u {
        None => "u_none"@,
        Some(UnderLine::Single) => "u_single"@,
        Some(UnderLine::Double) => "u_double"@,
        Some(UnderLine::SingleAcccounting) => "u_single_acc"@,
        Some(UnderLine::DoubleAccouting) => "u_double_acc"@,
    }
}

/// The leading, size-and-name part of a font's canonical key.
pub open spec fn font_prefix(f: FontView) -> Seq<char> {
    spec_dec(f.size as nat) + "-"@ + f.name + "-"@
}

/// The canonical key a font is deduplicated by: its fields in the
/// fixed order size-name-bold-italic-strike-underline, dash-separated.
pub open spec fn font_key(f: FontView) -> Seq<char> {
    font_prefix(f) + bool_key(f.bold) + "-"@ + bool_key(f.italic) + "-"@ + bool_key(f.strike)
        + "-"@ + und_key(f.underline)
}

impl FontStyle {
    /// The default font.
    pub fn new() -> (r: Self)
        ensures
            r@ == default_font_view(),
    {
        FontStyle {
            size: 10,
            name: "Arial".to_owned(),
            bold: false,
            italic: false,
            strike: false,
            underline: None,
        }
    }

    pub fn size(self, size: u8) -> (r: Self)
        ensures
            r@ == (FontView { size, ..self@ }),
    {
        FontStyle { size, ..self }
    }

    pub fn name(self, name: &str) -> (r: Self)
        ensures
            r@ == (FontView { name: name@, ..self@ }),
    {
        FontStyle { name: name.to_owned(), ..self }
    }

    pub fn bold(self, bold: bool) -> (r: Self)
        ensures
            r@ == (FontView { bold, ..self@ }),
    {
        FontStyle { bold, ..self }
    }

    pub fn italic(self, italic: bool) -> (r: Self)
        ensures
            r@ == (FontView { italic, ..self@ }),
    {
        FontStyle { italic, ..self }
    }

    pub fn strike(self, strike: bool) -> (r: Self)
        ensures
            r@ == (FontView { strike, ..self@ }),
    {
        FontStyle { strike, ..self }
    }

    pub fn underline(self, underline: Option<UnderLine>) -> (r: Self)
        ensures
            r@ == (FontView { underline, ..self@ }),
    {
        FontStyle { underline, ..self }
    }

    /// An identical copy of this font.
    pub fn duplicate(&self) -> (r: Self)
        ensures
            r@ == self@,
    {
        FontStyle {
            name: self.name.clone(),
            size: self.size,
            bold: self.bold,
            italic: self.italic,
            strike: self.strike,
            underline: self.underline,
        }
    }

    /// The canonical key this font is deduplicated by.
    pub fn unique_id(&self) -> (r: String)
        ensures
            r@ == font_key(self@),
    {
        let mut s = u64_to_string(self.size as u64);
        s.append("-");
        s.append(self.name.as_str());
        s.append("-");
        s.append(if self.bold {
            "true"
        } else {
            "false"
        });
        s.append("-");
        s.append(if self.italic {
            "true"
        } else {
            "false"
        });
        s.append("-");
        s.append(if self.strike {
            "true"
        } else {
            "false"
        });
        s.append("-");
        s.append(
            match self.underline {
                None => "u_none",
                Some(UnderLine::Single) => "u_single",
                Some(UnderLine::Double) => "u_double",
                Some(UnderLine::SingleAcccounting) => "u_single_acc",
                Some(UnderLine::DoubleAccouting) => "u_double_acc",
            },
        );
        proof {
            assert(s@ =~= font_key(self@));
        }
        s
    }
}

impl Default for FontStyle {
    fn default() -> (r: Self)
        ensures
            r@ == default_font_view(),
    {
        FontStyle::new()
    }
}

/// A cell format: the ids of the font, fill and border it combines,
/// and the number-format id it applies.
#[derive(Debug, Clone, Copy)]
pub struct CellXf {
    pub font_id: usize,
    pub fill_id: usize,
    pub border_id: usize,
    pub num_fmt_id: usize,
}

/// The triple a cell format is deduplicated by.
pub open spec fn xf_triple(x: CellXf) -> (int, int, int) {
    (x.font_id as int, x.fill_id as int, x.border_id as int)
}

/// The canonical key of a cell format: the ids in the fixed order
/// font-fill-border.
pub open spec fn xf_key(x: CellXf) -> Seq<char> {
    spec_dec(x.font_id as nat) + spec_dec(x.fill_id as nat) + spec_dec(x.border_id as nat)
}

impl CellXf {
    /// A format over the given font with the given number format and
    /// the default fill and border.
    pub fn new(font_id: usize, num_fmt_id: usize) -> (r: Self)
        ensures
            r.font_id == font_id,
            r.num_fmt_id == num_fmt_id,
            r.fill_id == 0,
            r.border_id == 0,
    {
        CellXf { font_id, num_fmt_id, fill_id: 0, border_id: 0 }
    }

    /// The canonical key this format is deduplicated by.
    pub fn unique_id(&self) -> (r: String)
        ensures
            r@ == xf_key(*self),
    {
        let mut s = usize_to_string(self.font_id);
        s.append(usize_to_string(self.fill_id).as_str());
        s.append(usize_to_string(self.border_id).as_str());
        proof {
            assert(s@ =~= xf_key(*self));
        }
        s
    }
}

/// A number format: an id and its format code.
#[derive(Debug)]
pub struct NumFmt {
    pub format_id: usize,
    pub format_code: String,
}

impl NumFmt {
    pub fn new(format_id: usize, format_code: &str) -> (r: Self)
        ensures
            r.format_id == format_id,
            r.format_code@ == format_code@,
    {
        NumFmt { format_id, format_code: format_code.to_owned() }
    }
}
/// The views of a font table.
pub open spec fn fonts_views(fonts: Seq<FontStyle>) -> Seq<FontView> {
    fonts.map_values(|f: FontStyle| f@)
}

/// The canonical keys of a font-view table.
pub open spec fn font_keys(vs: Seq<FontView>) -> Seq<Seq<char>> {
    vs.map_values(|f: FontView| font_key(f))
}

/// The view of a cell format: font, fill and border ids, then the
/// number-format id.
pub open spec fn xf_view(x: CellXf) -> (int, int, int, int) {
    (x.font_id as int, x.fill_id as int, x.border_id as int, x.num_fmt_id as int)
}

/// The views of a cell-format table.
pub open spec fn xf_views(xfs: Seq<CellXf>) -> Seq<(int, int, int, int)> {
    xfs.map_values(|x: CellXf| xf_view(x))
}

/// Interning a font: a font whose canonical key is present keeps that
/// entry's index, a new key appends the font.
pub open spec fn spec_add_font(vs: Seq<FontView>, f: FontView) -> (Seq<FontView>, int) {
    let i = find_first(font_keys(vs), font_key(f));
    if i >= 0 {
        (vs, i)
    } else {
        (vs.push(f), vs.len() as int)
    }
}

/// Resolving a cell format: the optional font is interned (a missing
/// font means the default font, id 0), then the format built from the
/// resolved font id, the default fill and border, and the `General`
/// number format is interned.  The dedup key is the font-fill-border
/// part; the number format is 164 on every format this registry
/// creates.  Returns the font table, the format table and the
/// format's dense id after the step.
pub open spec fn spec_add_cell_xf(
    vs: Seq<FontView>,
    xfs: Seq<(int, int, int, int)>,
    of: Option<FontView>,
) -> (Seq<FontView>, Seq<(int, int, int, int)>, int) {
    let (vs2, fid) = match of {
        Some(f) => spec_add_font(vs, f),
        None => (vs, 0int),
    };
    let (xfs2, xid) = spec_intern(xfs, (fid, 0int, 0int, 164int));
    (vs2, xfs2, xid)
}

/// The mathematical value of the style registry.
pub struct StyleView {
    pub fonts: Seq<FontView>,
    pub xfs: Seq<(int, int, int, int)>,
    pub num_fmts: Seq<(int, Seq<char>)>,
}

/// The style registry: fonts, cell formats and number formats, each a
/// dense-id table in first-seen order.
#[derive(Debug)]
pub struct Style {
    fonts: Vec<FontStyle>,
    cell_xfs: Vec<CellXf>,
    num_fmts: Vec<NumFmt>,
}

impl View for Style {
    type V = StyleView;

    closed spec fn view(&self) -> StyleView {
        StyleView {
            fonts: fonts_views(self.fonts@),
            xfs: xf_views(self.cell_xfs@),
            num_fmts: self.num_fmts@.map_values(
                |n: NumFmt| (n.format_id as int, n.format_code@),
            ),
        }
    }
}

/// Well-formedness of the registry: the default font stands at font
/// id 0 and the default format at format id 0, so that style-less
/// cells need no attribute, and every format applies the `General`
/// number format, id 164.
pub open spec fn style_wf(v: StyleView) -> bool {
    &&& v.fonts.len() >= 1
    &&& v.fonts[0] == default_font_view()
    &&& v.xfs.len() >= 1
    &&& v.xfs[0] == (0int, 0int, 0int, 164int)
    &&& forall|i: int| 0 <= i < v.xfs.len() ==> (#[trigger] v.xfs[i]).3 == 164
}

impl Style {
    /// A registry holding only the defaults: the default font at font
    /// id 0, one cell format over it at format id 0, and the
    /// `General` number format at id 164.
    pub fn new() -> (r: Self)
        ensures
            style_wf(r@),
            r@.fonts =~= seq![default_font_view()],
            r@.xfs =~= seq![(0int, 0int, 0int, 164int)],
            r@.num_fmts =~= seq![(164int, "General"@)],
    {
        let fonts: Vec<FontStyle> = vec![FontStyle::new()];
        let cell_xfs: Vec<CellXf> = vec![CellXf::new(0, 164)];
        let num_fmts: Vec<NumFmt> = vec![NumFmt::new(164, "General")];
        Style { fonts, cell_xfs, num_fmts }
    }

    /// Interns a font and returns its dense id.
    fn add_font(&mut self, font: &FontStyle) -> (id: usize)
        ensures
            ({
                let (vs2, fid) = spec_add_font(old(self)@.fonts, font@);
                &&& final (self)@.fonts == vs2
                &&& id as int == fid
                &&& 0 <= fid < vs2.len()
                &&& font_keys(vs2)[fid] == font_key(font@)
                &&& final (self)@.xfs == old(self)@.xfs
                &&& final (self)@.num_fmts == old(self)@.num_fmts
            }),
    {
        let key = font.unique_id();
        let ghost vs = fonts_views(self.fonts@);
        let n = self.fonts.len();
        let mut i: usize = 0;
        while i < n
            invariant
                0 <= i <= n == self.fonts@.len(),
                vs == fonts_views(self.fonts@),
                forall|j: int| 0 <= j < i ==> font_keys(vs)[j] != font_key(font@),
                key@ == font_key(font@),
            decreases n - i,
        {
            let existing = self.fonts[i].unique_id();
            if existing == key {
                proof {
                    assert(font_keys(vs)[i as int] == font_key(vs[i as int]));
                    lemma_find_first_at(font_keys(vs), font_key(font@), i as int);
                    lemma_find_first_props(font_keys(vs), font_key(font@));
                }
                return i;
            }
            proof {
                assert(font_keys(vs)[i as int] == font_key(vs[i as int]));
            }
            i = i + 1;
        }
        proof {
            lemma_find_first_props(font_keys(vs), font_key(font@));
            if find_first(font_keys(vs), font_key(font@)) != -1 {
                assert(font_keys(vs)[find_first(font_keys(vs), font_key(font@))] == font_key(
                    font@,
                ));
            }
            lemma_find_first_push_absent(font_keys(vs), font_key(font@));
        }
        let id = self.fonts.len();
        self.fonts.push(font.duplicate());
        proof {
            assert(fonts_views(self.fonts@) =~= vs.push(font@));
            assert(font_keys(vs.push(font@)) =~= font_keys(vs).push(font_key(font@)));
        }
        id
    }

    /// Resolves a cell format for an optional font and returns the
    /// format's dense id, interning the font and the format as needed.
    pub fn add_cell_xf(&mut self, font: Option<&FontStyle>) -> (id: usize)
        ensures
            ({
                let of = match font {
                    Some(f) => Some(f@),
                    None => None,
                };
                let (vs2, xfs2, xid) = spec_add_cell_xf(old(self)@.fonts, old(self)@.xfs, of);
                &&& final (self)@.fonts == vs2
                &&& final (self)@.xfs == xfs2
                &&& id as int == xid
                &&& final (self)@.num_fmts == old(self)@.num_fmts
                &&& style_wf(old(self)@) ==> style_wf(final (self)@)
            }),
    {
        let ghost vs0 = fonts_views(self.fonts@);
        let font_id: usize = match font {
            Some(f) => self.add_font(f),
            None => 0,
        };
        let ghost xfs = xf_views(self.cell_xfs@);
        let ghost target = (font_id as int, 0int, 0int, 164int);
        let n = self.cell_xfs.len();
        let mut i: usize = 0;
        let mut found: Option<usize> = None;
        while i < n
            invariant
                0 <= i <= n == self.cell_xfs@.len(),
                xfs == xf_views(self.cell_xfs@),
                target == (font_id as int, 0int, 0int, 164int),
                match found {
                    Some(k) => 0 <= k < i && find_first(xfs, target) == k,
                    None => forall|j: int| 0 <= j < i ==> xfs[j] != target,
                },
            decreases n - i,
        {
            if found.is_none() {
                let x = self.cell_xfs[i];
                if x.font_id == font_id && x.fill_id == 0 && x.border_id == 0 && x.num_fmt_id
                    == 164 {
                    proof {
                        assert(xfs[i as int] == xf_view(self.cell_xfs@[i as int]));
                        lemma_find_first_at(xfs, target, i as int);
                    }
                    found = Some(i);
                } else {
                    proof {
                        assert(xfs[i as int] == xf_view(self.cell_xfs@[i as int]));
                    }
                }
            }
            i = i + 1;
        }
        match found {
            Some(k) => {
                proof {
                    lemma_find_first_props(xfs, target);
                }
                k
            },
            None => {
                proof {
                    lemma_find_first_props(xfs, target);
                    if find_first(xfs, target) != -1 {
                        assert(xfs[find_first(xfs, target)] == target);
                    }
                    lemma_find_first_push_absent(xfs, target);
                }
                let id = self.cell_xfs.len();
                self.cell_xfs.push(CellXf::new(font_id, 164));
                proof {
                    assert(xf_views(self.cell_xfs@) =~= xfs.push(target));
                }
                id
            },
        }
    }
}

/// Resolving identical font attributes twice yields the same style id
/// both times, and the second resolution changes no table.
pub proof fn lemma_style_dedup_same(
    vs: Seq<FontView>,
    xfs: Seq<(int, int, int, int)>,
    f: FontView,
)
    ensures
        ({
            let (vs1, xfs1, id1) = spec_add_cell_xf(vs, xfs, Some(f));
            let (vs2, xfs2, id2) = spec_add_cell_xf(vs1, xfs1, Some(f));
            vs2 == vs1 && xfs2 == xfs1 && id2 == id1
        }),
{
    let k = font_key(f);
    let (vs1, fid1) = spec_add_font(vs, f);
    lemma_find_first_props(font_keys(vs), k);
    if find_first(font_keys(vs), k) == -1 {
        assert(font_keys(vs.push(f)) =~= font_keys(vs).push(k));
        lemma_find_first_push_absent(font_keys(vs), k);
    } else {
        assert(font_keys(vs)[find_first(font_keys(vs), k)] == k);
    }
    let (vs2, fid2) = spec_add_font(vs1, f);
    assert(vs2 == vs1 && fid2 == fid1);
    lemma_intern_idempotent(xfs, (fid1, 0int, 0int, 164int));
}

/// Two fonts that differ in their bold flag but agree on size and
/// name have distinct canonical keys.
pub proof fn lemma_font_key_bold_distinct(f1: FontView, f2: FontView)
    requires
        f1.size == f2.size,
        f1.name == f2.name,
        f1.bold != f2.bold,
    ensures
        font_key(f1) != font_key(f2),
{
    reveal_strlit("true");
    reveal_strlit("false");
    let p = font_prefix(f1);
    assert(font_prefix(f2) == p);
    let i = p.len() as int;
    assert(bool_key(f1.bold).len() >= 4);
    assert(bool_key(f2.bold).len() >= 4);
    assert(font_key(f1)[i] == bool_key(f1.bold)[0]);
    assert(font_key(f2)[i] == bool_key(f2.bold)[0]);
    assert(bool_key(true)[0] == 't');
    assert(bool_key(false)[0] == 'f');
}

/// Interning two fonts with distinct canonical keys, one after the
/// other, yields distinct style ids.
pub proof fn lemma_style_distinct_keys_distinct_ids(
    vs: Seq<FontView>,
    xfs: Seq<(int, int, int, int)>,
    f1: FontView,
    f2: FontView,
)
    requires
        font_key(f1) != font_key(f2),
    ensures
        ({
            let (vs1, xfs1, id1) = spec_add_cell_xf(vs, xfs, Some(f1));
            let (vs2, xfs2, id2) = spec_add_cell_xf(vs1, xfs1, Some(f2));
            id1 != id2
        }),
{
    let k1 = font_key(f1);
    let k2 = font_key(f2);
    let (vs1, fid1) = spec_add_font(vs, f1);
    lemma_find_first_props(font_keys(vs), k1);
    if find_first(font_keys(vs), k1) == -1 {
        assert(font_keys(vs.push(f1)) =~= font_keys(vs).push(k1));
        lemma_find_first_push_absent(font_keys(vs), k1);
    } else {
        assert(font_keys(vs)[find_first(font_keys(vs), k1)] == k1);
    }
    assert(font_keys(vs1)[fid1] == k1);
    let (vs2, fid2) = spec_add_font(vs1, f2);
    lemma_find_first_props(font_keys(vs1), k2);
    if find_first(font_keys(vs1), k2) == -1 {
        assert(font_keys(vs1.push(f2)) =~= font_keys(vs1).push(k2));
        lemma_find_first_push_absent(font_keys(vs1), k2);
    } else {
        assert(font_keys(vs1)[find_first(font_keys(vs1), k2)] == k2);
    }
    assert(font_keys(vs2)[fid2] == k2);
    assert(font_keys(vs2)[fid1] == k1);
    assert(fid1 != fid2);
    let (xfs1, id1) = spec_intern(xfs, (fid1, 0int, 0int, 164int));
    lemma_intern_extends(xfs, (fid1, 0int, 0int, 164int));
    let (xfs2, id2) = spec_intern(xfs1, (fid2, 0int, 0int, 164int));
    lemma_intern_extends(xfs1, (fid2, 0int, 0int, 164int));
    assert(xfs2[id1] == (fid1, 0int, 0int, 164int));
    assert(xfs2[id2] == (fid2, 0int, 0int, 164int));
}

/// In a well-formed registry, a font whose canonical key differs from
/// the default font's key never resolves to style id 0.
pub proof fn lemma_style_nonzero(
    vs: Seq<FontView>,
    xfs: Seq<(int, int, int, int)>,
    f: FontView,
)
    requires
        vs.len() >= 1,
        vs[0] == default_font_view(),
        xfs.len() >= 1,
        xfs[0] == (0int, 0int, 0int, 164int),
        font_key(f) != font_key(default_font_view()),
    ensures
        spec_add_cell_xf(vs, xfs, Some(f)).2 != 0,
{
    let k = font_key(f);
    let (vs1, fid) = spec_add_font(vs, f);
    lemma_find_first_props(font_keys(vs), k);
    if find_first(font_keys(vs), k) == -1 {
        assert(font_keys(vs.push(f)) =~= font_keys(vs).push(k));
        lemma_find_first_push_absent(font_keys(vs), k);
    } else {
        assert(font_keys(vs)[find_first(font_keys(vs), k)] == k);
    }
    assert(font_keys(vs1)[fid] == k);
    assert(font_keys(vs1)[0] == font_key(default_font_view()));
    assert(fid != 0);
    let (xfs1, id) = spec_intern(xfs, (fid, 0int, 0int, 164int));
    lemma_intern_extends(xfs, (fid, 0int, 0int, 164int));
    assert(xfs1[id] == (fid, 0int, 0int, 164int));
    assert(xfs1[0] == (0int, 0int, 0int, 164int));
}

/// The serialized form of an underline choice.
pub open spec fn und_text(u: UnderLine) -> Seq<char> {
    match u {
        UnderLine::Single => "single"@,
        UnderLine::Double => "double"@,
        UnderLine::SingleAcccounting => "singleAccounting"@,
        UnderLine::DoubleAccouting => "doubleAccounting"@,
    }
}

/// Everything one font emits: size and name always, then one element
/// per set emphasis.
pub open spec fn font_events(f: FontView) -> Seq<XmlEv> {
    seq![
        ev_start("font"@),
        ev_start("sz"@),
        ev_attr("val"@, spec_dec(f.size as nat)),
        ev_end(),
        ev_start("name"@),
        ev_attr("val"@, f.name),
        ev_end(),
    ] + (if f.bold {
        seq![ev_start("b"@), ev_attr("val"@, "true"@), ev_end()]
    } else {
        Seq::<XmlEv>::empty()
    }) + (if f.italic {
        seq![ev_start("i"@), ev_attr("val"@, "true"@), ev_end()]
    } else {
        Seq::<XmlEv>::empty()
    }) + (if f.strike {
        seq![ev_start("strike"@), ev_end()]
    } else {
        Seq::<XmlEv>::empty()
    }) + (match f.underline {
        Some(u) => seq![ev_start("u"@), ev_attr("val"@, und_text(u)), ev_end()],
        None => Seq::<XmlEv>::empty(),
    }) + seq![ev_end()]
}

impl FontStyle {
    /// Serializes this font.
    #[verifier::rlimit(30)]
    pub fn to_xml(&self, writer: &mut xmlwriter::XmlWriter)
        ensures
            writer_log(*final (writer)) == writer_log(*old(writer)) + font_events(self@),
    {
        let ghost f = self@;
        let ghost log0 = writer_log(*writer);
        start_element(writer, "font");
        start_element(writer, "sz");
        write_attribute(writer, "val", u64_to_string(self.size as u64).as_str());
        end_element(writer);
        start_element(writer, "name");
        write_attribute(writer, "val", self.name.as_str());
        end_element(writer);
        if self.bold {
            start_element(writer, "b");
            write_attribute(writer, "val", "true");
            end_element(writer);
        }
        if self.italic {
            start_element(writer, "i");
            write_attribute(writer, "val", "true");
            end_element(writer);
        }
        if self.strike {
            start_element(writer, "strike");
            end_element(writer);
        }
        match self.underline {
            Some(u) => {
                start_element(writer, "u");
                match u {
                    UnderLine::Single => write_attribute(writer, "val", "single"),
                    UnderLine::Double => write_attribute(writer, "val", "double"),
                    UnderLine::SingleAcccounting => write_attribute(
                        writer,
                        "val",
                        "singleAccounting",
                    ),
                    UnderLine::DoubleAccouting => write_attribute(
                        writer,
                        "val",
                        "doubleAccounting",
                    ),
                }
                end_element(writer);
            },
            None => (),
        }
        end_element(writer);
        proof {
            assert(writer_log(*writer) =~= log0 + font_events(f));
        }
    }
}

/// Everything one cell format emits.
pub open spec fn xf_events(x: (int, int, int, int)) -> Seq<XmlEv> {
    seq![
        ev_start("xf"@),
        ev_attr("fontId"@, spec_dec(x.0 as nat)),
        ev_attr("numFmtId"@, spec_dec(x.3 as nat)),
        ev_attr("applyFont"@, "true"@),
        ev_attr("applyBorder"@, "false"@),
        ev_end(),
    ]
}

impl CellXf {
    /// Serializes this cell format.
    pub fn to_xml(&self, writer: &mut xmlwriter::XmlWriter)
        ensures
            writer_log(*final (writer)) == writer_log(*old(writer)) + xf_events(xf_view(*self)),
    {
        let ghost log0 = writer_log(*writer);
        start_element(writer, "xf");
        write_attribute(writer, "fontId", usize_to_string(self.font_id).as_str());
        write_attribute(writer, "numFmtId", usize_to_string(self.num_fmt_id).as_str());
        write_attribute(writer, "applyFont", "true");
        write_attribute(writer, "applyBorder", "false");
        end_element(writer);
        proof {
            assert(writer_log(*writer) =~= log0 + xf_events(xf_view(*self)));
        }
    }
}

/// Everything one number format emits.
pub open spec fn num_fmt_events(n: (int, Seq<char>)) -> Seq<XmlEv> {
    seq![
        ev_start("numFmt"@),
        ev_attr("numFmtId"@, spec_dec(n.0 as nat)),
        ev_attr("formatCode"@, n.1),
        ev_end(),
    ]
}

impl NumFmt {
    /// Serializes this number format.
    pub fn to_xml(&self, writer: &mut xmlwriter::XmlWriter)
        ensures
            writer_log(*final (writer)) == writer_log(*old(writer)) + num_fmt_events(
                (self.format_id as int, self.format_code@),
            ),
    {
        let ghost log0 = writer_log(*writer);
        start_element(writer, "numFmt");
        write_attribute(writer, "numFmtId", usize_to_string(self.format_id).as_str());
        write_attribute(writer, "formatCode", self.format_code.as_str());
        end_element(writer);
        proof {
            assert(writer_log(*writer) =~= log0 + num_fmt_events(
                (self.format_id as int, self.format_code@),
            ));
        }
    }
}

/// The events of a run of number formats.
pub open spec fn num_fmts_events(ns: Seq<(int, Seq<char>)>) -> Seq<XmlEv>
    decreases ns.len(),
{
    if ns.len() == 0 {
        Seq::<XmlEv>::empty()
    } else {
        num_fmts_events(ns.drop_last()) + num_fmt_events(ns.last())
    }
}

/// The events of a run of fonts.
pub open spec fn fonts_events(fs: Seq<FontView>) -> Seq<XmlEv>
    decreases fs.len(),
{
    if fs.len() == 0 {
        Seq::<XmlEv>::empty()
    } else {
        fonts_events(fs.drop_last()) + font_events(fs.last())
    }
}

/// The events of a run of cell formats.
pub open spec fn xfs_events(xs: Seq<(int, int, int, int)>) -> Seq<XmlEv>
    decreases xs.len(),
{
    if xs.len() == 0 {
        Seq::<XmlEv>::empty()
    } else {
        xfs_events(xs.drop_last()) + xf_events(xs.last())
    }
}

/// The fixed single default fill.
pub open spec fn fills_events() -> Seq<XmlEv> {
    seq![
        ev_start("fills"@),
        ev_attr("count"@, "1"@),
        ev_start("fill"@),
        ev_start("patternFill"@),
        ev_attr("patternType"@, "none"@),
        ev_end(),
        ev_end(),
        ev_end(),
    ]
}

/// The fixed single default border.
pub open spec fn borders_events() -> Seq<XmlEv> {
    seq![
        ev_start("borders"@),
        ev_attr("count"@, "1"@),
        ev_start("border"@),
        ev_start("left"@),
        ev_end(),
        ev_start("right"@),
        ev_end(),
        ev_start("top"@),
        ev_end(),
        ev_start("bottom"@),
        ev_end(),
        ev_start("diagonal"@),
        ev_end(),
        ev_end(),
        ev_end(),
    ]
}

/// The `numFmts` section: the count, then each number format.
pub open spec fn num_fmts_section(ns: Seq<(int, Seq<char>)>) -> Seq<XmlEv> {
    seq![ev_start("numFmts"@), ev_attr("count"@, spec_dec(ns.len()))] + num_fmts_events(ns)
        + seq![ev_end()]
}

/// The `fonts` section: the count, then each font in id order.
pub open spec fn fonts_section(fs: Seq<FontView>) -> Seq<XmlEv> {
    seq![ev_start("fonts"@), ev_attr("count"@, spec_dec(fs.len()))] + fonts_events(fs)
        + seq![ev_end()]
}

/// The `cellXfs` section: the count, then each format in id order.
pub open spec fn xfs_section(xs: Seq<(int, int, int, int)>) -> Seq<XmlEv> {
    seq![ev_start("cellXfs"@), ev_attr("count"@, spec_dec(xs.len()))] + xfs_events(xs)
        + seq![ev_end()]
}

/// Everything the style part emits: number formats, fonts, the fixed
/// fill and border, and the cell formats, each table in dense-id
/// order with its count.
pub open spec fn style_events(v: StyleView) -> Seq<XmlEv> {
    seq![
        ev_start("styleSheet"@),
        ev_attr("xmlns"@, "http://schemas.openxmlformats.org/spreadsheetml/2006/main"@),
    ] + num_fmts_section(v.num_fmts) + fonts_section(v.fonts) + fills_events() + borders_events()
        + xfs_section(v.xfs)
}

/// Serializes the `numFmts` section.
fn emit_num_fmts(ns: &Vec<NumFmt>, w: &mut xmlwriter::XmlWriter)
    ensures
        writer_log(*final (w)) == writer_log(*old(w)) + num_fmts_section(
            ns@.map_values(|n: NumFmt| (n.format_id as int, n.format_code@)),
        ),
{
    let ghost v = ns@.map_values(|n: NumFmt| (n.format_id as int, n.format_code@));
    let ghost log0 = writer_log(*w);
    start_element(w, "numFmts");
    write_attribute(w, "count", usize_to_string(ns.len()).as_str());
    let ghost head = log0 + seq![ev_start("numFmts"@), ev_attr("count"@, spec_dec(v.len()))];
    proof {
        assert(writer_log(*w) =~= head);
    }
    let n = ns.len();
    let mut i: usize = 0;
    while i < n
        invariant
            0 <= i <= n == ns@.len(),
            v == ns@.map_values(|n: NumFmt| (n.format_id as int, n.format_code@)),
            writer_log(*w) == head + num_fmts_events(v.take(i as int)),
        decreases n - i,
    {
        proof {
            assert(v[i as int] == (ns@[i as int].format_id as int, ns@[i as int].format_code@));
        }
        ns[i].to_xml(w);
        proof {
            assert(v.take(i + 1).drop_last() =~= v.take(i as int));
            assert(v.take(i + 1).last() == v[i as int]);
            assert(writer_log(*w) =~= head + num_fmts_events(v.take(i + 1)));
        }
        i = i + 1;
    }
    end_element(w);
    proof {
        assert(v.take(n as int) =~= v);
        assert(writer_log(*w) =~= log0 + num_fmts_section(v));
    }
}

/// Serializes the `fonts` section.
fn emit_fonts(fs: &Vec<FontStyle>, w: &mut xmlwriter::XmlWriter)
    ensures
        writer_log(*final (w)) == writer_log(*old(w)) + fonts_section(fonts_views(fs@)),
{
    let ghost v = fonts_views(fs@);
    let ghost log0 = writer_log(*w);
    start_element(w, "fonts");
    write_attribute(w, "count", usize_to_string(fs.len()).as_str());
    let ghost head = log0 + seq![ev_start("fonts"@), ev_attr("count"@, spec_dec(v.len()))];
    proof {
        assert(writer_log(*w) =~= head);
    }
    let n = fs.len();
    let mut i: usize = 0;
    while i < n
        invariant
            0 <= i <= n == fs@.len(),
            v == fonts_views(fs@),
            writer_log(*w) == head + fonts_events(v.take(i as int)),
        decreases n - i,
    {
        proof {
            assert(v[i as int] == fs@[i as int]@);
        }
        fs[i].to_xml(w);
        proof {
            assert(v.take(i + 1).drop_last() =~= v.take(i as int));
            assert(v.take(i + 1).last() == v[i as int]);
            assert(writer_log(*w) =~= head + fonts_events(v.take(i + 1)));
        }
        i = i + 1;
    }
    end_element(w);
    proof {
        assert(v.take(n as int) =~= v);
        assert(writer_log(*w) =~= log0 + fonts_section(v));
    }
}

/// Serializes the fixed `fills` section.
fn emit_fills(w: &mut xmlwriter::XmlWriter)
    ensures
        writer_log(*final (w)) == writer_log(*old(w)) + fills_events(),
{
    let ghost log0 = writer_log(*w);
    start_element(w, "fills");
    write_attribute(w, "count", "1");
    start_element(w, "fill");
    start_element(w, "patternFill");
    write_attribute(w, "patternType", "none");
    end_element(w);
    end_element(w);
    end_element(w);
    proof {
        assert(writer_log(*w) =~= log0 + fills_events());
    }
}

/// Serializes the fixed `borders` section.
fn emit_borders(w: &mut xmlwriter::XmlWriter)
    ensures
        writer_log(*final (w)) == writer_log(*old(w)) + borders_events(),
{
    let ghost log0 = writer_log(*w);
    start_element(w, "borders");
    write_attribute(w, "count", "1");
    start_element(w, "border");
    start_element(w, "left");
    end_element(w);
    start_element(w, "right");
    end_element(w);
    start_element(w, "top");
    end_element(w);
    start_element(w, "bottom");
    end_element(w);
    start_element(w, "diagonal");
    end_element(w);
    end_element(w);
    end_element(w);
    proof {
        assert(writer_log(*w) =~= log0 + borders_events());
    }
}

/// Serializes the `cellXfs` section.
fn emit_xfs(xs: &Vec<CellXf>, w: &mut xmlwriter::XmlWriter)
    ensures
        writer_log(*final (w)) == writer_log(*old(w)) + xfs_section(xf_views(xs@)),
{
    let ghost v = xf_views(xs@);
    let ghost log0 = writer_log(*w);
    start_element(w, "cellXfs");
    write_attribute(w, "count", usize_to_string(xs.len()).as_str());
    let ghost head = log0 + seq![ev_start("cellXfs"@), ev_attr("count"@, spec_dec(v.len()))];
    proof {
        assert(writer_log(*w) =~= head);
    }
    let n = xs.len();
    let mut i: usize = 0;
    while i < n
        invariant
            0 <= i <= n == xs@.len(),
            v == xf_views(xs@),
            writer_log(*w) == head + xfs_events(v.take(i as int)),
        decreases n - i,
    {
        proof {
            assert(v[i as int] == xf_view(xs@[i as int]));
        }
        xs[i].to_xml(w);
        proof {
            assert(v.take(i + 1).drop_last() =~= v.take(i as int));
            assert(v.take(i + 1).last() == v[i as int]);
            assert(writer_log(*w) =~= head + xfs_events(v.take(i + 1)));
        }
        i = i + 1;
    }
    end_element(w);
    proof {
        assert(v.take(n as int) =~= v);
        assert(writer_log(*w) =~= log0 + xfs_section(v));
    }
}

impl Style {
    /// Serializes the style part.
    pub fn to_xml(self) -> (r: String)
        ensures
            r@ == rendered(style_events(self@)),
    {
        let ghost v = self@;
        let mut w = new_writer();
        start_element(&mut w, "styleSheet");
        write_attribute(
            &mut w,
            "xmlns",
            "http://schemas.openxmlformats.org/spreadsheetml/2006/main",
        );
        emit_num_fmts(&self.num_fmts, &mut w);
        emit_fonts(&self.fonts, &mut w);
        emit_fills(&mut w);
        emit_borders(&mut w);
        emit_xfs(&self.cell_xfs, &mut w);
        proof {
            assert(writer_log(w) =~= style_events(v));
        }
        end_document(w)
    }
}

/// The dash predicate, as one shared function value.
pub open spec fn dash_pred() -> spec_fn(char) -> bool {
    |c: char| c == '-'
}

/// How many dashes a piece of text holds.
pub open spec fn dash_count(s: Seq<char>) -> nat
    decreases s.len(),
{
    if s.len() == 0 {
        0
    } else if s.last() == '-' {
        dash_count(s.drop_last()) + 1
    } else {
        dash_count(s.drop_last())
    }
}

/// Dashes are counted piecewise over a concatenation.
proof fn lemma_dash_count_concat(a: Seq<char>, b: Seq<char>)
    ensures
        dash_count(a + b) == dash_count(a) + dash_count(b),
    decreases b.len(),
{
    if b.len() == 0 {
        assert(a + b =~= a);
    } else {
        assert((a + b).drop_last() =~= a + b.drop_last());
        assert((a + b).last() == b.last());
        lemma_dash_count_concat(a, b.drop_last());
    }
}

/// Dash-free text counts zero dashes.
proof fn lemma_dash_count_free(s: Seq<char>)
    requires
        forall|i: int| 0 <= i < s.len() ==> s[i] != '-',
    ensures
        dash_count(s) == 0,
    decreases s.len(),
{
    if s.len() > 0 {
        assert(forall|i: int| 0 <= i < s.drop_last().len() ==> s.drop_last()[i] == s[i]);
        lemma_dash_count_free(s.drop_last());
    }
}

/// Text holding a dash counts at least one.
proof fn lemma_dash_count_pos(s: Seq<char>, i: int)
    requires
        0 <= i < s.len(),
        s[i] == '-',
    ensures
        dash_count(s) >= 1,
    decreases s.len(),
{
    if i < s.len() - 1 {
        assert(s.drop_last()[i] == s[i]);
        lemma_dash_count_pos(s.drop_last(), i);
    }
}

/// The shapes of the flag fragments: fixed lengths, a distinguishing
/// first character, no dash.
proof fn lemma_bool_key_shape(b: bool)
    ensures
        bool_key(b).len() == (if b {
            4int
        } else {
            5int
        }),
        bool_key(b)[0] == (if b {
            't'
        } else {
            'f'
        }),
        forall|i: int| 0 <= i < bool_key(b).len() ==> #[trigger] bool_key(b)[i] != '-',
        dash_count(bool_key(b)) == 0,
{
    reveal_strlit("true");
    reveal_strlit("false");
    lemma_dash_count_free(bool_key(b));
}

/// The shapes of the underline fragments: no dash, and distinct
/// fragments for distinct choices.
proof fn lemma_und_key_shape(u: Option<UnderLine>)
    ensures
        forall|i: int| 0 <= i < und_key(u).len() ==> #[trigger] und_key(u)[i] != '-',
        dash_count(und_key(u)) == 0,
{
    reveal_strlit("u_none");
    reveal_strlit("u_single");
    reveal_strlit("u_double");
    reveal_strlit("u_single_acc");
    reveal_strlit("u_double_acc");
    lemma_dash_count_free(und_key(u));
}

/// Underline fragments are injective.
proof fn lemma_und_key_injective(u1: Option<UnderLine>, u2: Option<UnderLine>)
    requires
        und_key(u1) == und_key(u2),
    ensures
        u1 == u2,
{
    reveal_strlit("u_none");
    reveal_strlit("u_single");
    reveal_strlit("u_double");
    reveal_strlit("u_single_acc");
    reveal_strlit("u_double_acc");
    assert("u_none"@.len() == 6);
    assert("u_single"@.len() == 8);
    assert("u_double"@.len() == 8);
    assert("u_single_acc"@.len() == 12);
    assert("u_double_acc"@.len() == 12);
    assert("u_single"@[2] == 's' && "u_double"@[2] == 'd');
    assert("u_single_acc"@[2] == 's' && "u_double_acc"@[2] == 'd');
}

/// The part of a font's canonical key after its name: the dash-led
/// flag fragments, exactly four dashes in all.
pub open spec fn font_tail(f: FontView) -> Seq<char> {
    "-"@ + bool_key(f.bold) + "-"@ + bool_key(f.italic) + "-"@ + bool_key(f.strike) + "-"@
        + und_key(f.underline)
}

/// A font's canonical key splits as size, dash, name, tail.
proof fn lemma_font_key_split(f: FontView)
    ensures
        font_key(f) =~= spec_dec(f.size as nat) + "-"@ + (f.name + font_tail(f)),
{
}

/// The tail's shape: it opens with a dash and holds exactly four.
proof fn lemma_font_tail_shape(f: FontView)
    ensures
        font_tail(f)[0] == '-',
        font_tail(f).len() >= 1,
        dash_count(font_tail(f)) == 4,
{
    reveal_strlit("-");
    lemma_bool_key_shape(f.bold);
    lemma_bool_key_shape(f.italic);
    lemma_bool_key_shape(f.strike);
    lemma_und_key_shape(f.underline);
    assert("-"@.drop_last() =~= Seq::<char>::empty());
    assert(dash_count(Seq::<char>::empty()) == 0);
    assert(dash_count("-"@) == 1);
    lemma_dash_count_concat("-"@, bool_key(f.bold));
    lemma_dash_count_concat("-"@ + bool_key(f.bold), "-"@);
    lemma_dash_count_concat("-"@ + bool_key(f.bold) + "-"@, bool_key(f.italic));
    lemma_dash_count_concat("-"@ + bool_key(f.bold) + "-"@ + bool_key(f.italic), "-"@);
    lemma_dash_count_concat(
        "-"@ + bool_key(f.bold) + "-"@ + bool_key(f.italic) + "-"@,
        bool_key(f.strike),
    );
    lemma_dash_count_concat(
        "-"@ + bool_key(f.bold) + "-"@ + bool_key(f.italic) + "-"@ + bool_key(f.strike),
        "-"@,
    );
    lemma_dash_count_concat(
        "-"@ + bool_key(f.bold) + "-"@ + bool_key(f.italic) + "-"@ + bool_key(f.strike) + "-"@,
        und_key(f.underline),
    );
}

/// Equal tails come from equal flags.
proof fn lemma_font_tail_injective(f1: FontView, f2: FontView)
    requires
        font_tail(f1) == font_tail(f2),
    ensures
        f1.bold == f2.bold,
        f1.italic == f2.italic,
        f1.strike == f2.strike,
        f1.underline == f2.underline,
{
    reveal_strlit("-");
    lemma_bool_key_shape(f1.bold);
    lemma_bool_key_shape(f2.bold);
    let t = font_tail(f1);
    assert(t[1] == bool_key(f1.bold)[0]);
    assert(font_tail(f2)[1] == bool_key(f2.bold)[0]);
    assert(f1.bold == f2.bold);
    lemma_bool_key_shape(f1.italic);
    lemma_bool_key_shape(f2.italic);
    let oi = 2 + bool_key(f1.bold).len() as int;
    assert(t[oi] == bool_key(f1.italic)[0]);
    assert(font_tail(f2)[oi] == bool_key(f2.italic)[0]);
    assert(f1.italic == f2.italic);
    lemma_bool_key_shape(f1.strike);
    lemma_bool_key_shape(f2.strike);
    let ok = oi + 1 + bool_key(f1.italic).len() as int;
    assert(t[ok] == bool_key(f1.strike)[0]);
    assert(font_tail(f2)[ok] == bool_key(f2.strike)[0]);
    assert(f1.strike == f2.strike);
    let ou = ok + 1 + bool_key(f1.strike).len() as int;
    assert(t.skip(ou) =~= und_key(f1.underline));
    assert(font_tail(f2).skip(ou) =~= und_key(f2.underline));
    lemma_und_key_injective(f1.underline, f2.underline);
}

/// The canonical key is injective: equal keys come from fonts equal
/// in every attribute.  With `lemma_style_distinct_keys_distinct_ids`
/// this makes any attribute difference yield a distinct style id.
#[verifier::rlimit(100)]
pub proof fn lemma_font_key_injective(f1: FontView, f2: FontView)
    requires
        font_key(f1) == font_key(f2),
    ensures
        f1 == f2,
{
    reveal_strlit("-");
    lemma_font_key_split(f1);
    lemma_font_key_split(f2);
    lemma_dec_digits(f1.size as nat);
    lemma_dec_digits(f2.size as nat);
    crate::num_text::lemma_dec_len(f1.size as nat);
    crate::num_text::lemma_dec_len(f2.size as nat);
    let k = font_key(f1);
    let d1 = spec_dec(f1.size as nat);
    let d2 = spec_dec(f2.size as nat);
    // the first dash of the key ends the size part
    assert(k[d1.len() as int] == '-');
    assert forall|j: int| 0 <= j < d1.len() implies !dash_pred()(k[j]) by {
        assert(k[j] == d1[j]);
        assert('0' <= d1[j] <= '9');
    }
    lemma_first_where_at(k, 0, k.len() as int, dash_pred(), d1.len() as int);
    assert(font_key(f2)[d2.len() as int] == '-');
    assert forall|j: int| 0 <= j < d2.len() implies !dash_pred()(k[j]) by {
        assert(k[j] == d2[j]);
        assert('0' <= d2[j] <= '9');
    }
    lemma_first_where_at(k, 0, k.len() as int, dash_pred(), d2.len() as int);
    assert(d1.len() == d2.len());
    assert forall|j: int| 0 <= j < d1.len() implies d1[j] == d2[j] by {
        assert(k[j] == d1[j]);
        assert(k[j] == d2[j]);
    }
    assert(d1 =~= d2);
    lemma_dec_injective(f1.size as nat, f2.size as nat);
    // with equal size parts, the remainders agree
    let r = k.skip(d1.len() as int + 1);
    assert(r =~= f1.name + font_tail(f1));
    assert(r =~= f2.name + font_tail(f2));
    let n1 = f1.name.len() as int;
    let n2 = f2.name.len() as int;
    lemma_font_tail_shape(f1);
    lemma_font_tail_shape(f2);
    if n1 < n2 {
        let t1 = font_tail(f1);
        let t2 = font_tail(f2);
        let mid = r.subrange(n1, n2);
        assert(t1 =~= r.skip(n1));
        assert(t2 =~= r.skip(n2));
        assert(t1 =~= mid + t2);
        lemma_dash_count_concat(mid, t2);
        assert(dash_count(mid) == 0);
        assert(mid[0] == t1[0]);
        lemma_dash_count_pos(mid, 0);
        assert(false);
    } else if n2 < n1 {
        let t1 = font_tail(f1);
        let t2 = font_tail(f2);
        let mid = r.subrange(n2, n1);
        assert(t2 =~= r.skip(n2));
        assert(t1 =~= r.skip(n1));
        assert(t2 =~= mid + t1);
        lemma_dash_count_concat(mid, t1);
        assert(dash_count(mid) == 0);
        assert(mid[0] == t2[0]);
        lemma_dash_count_pos(mid, 0);
        assert(false);
    }
    assert(f1.name =~= r.take(n1));
    assert(f2.name =~= r.take(n1));
    assert(font_tail(f1) =~= r.skip(n1));
    assert(font_tail(f2) =~= r.skip(n1));
    lemma_font_tail_injective(f1, f2);
}

/// Any two fonts differing in at least one attribute resolve to
/// distinct style ids when interned one after the other.
pub proof fn lemma_style_distinct_fonts_distinct_ids(
    vs: Seq<FontView>,
    xfs: Seq<(int, int, int, int)>,
    f1: FontView,
    f2: FontView,
)
    requires
        f1 != f2,
    ensures
        ({
            let (vs1, xfs1, id1) = spec_add_cell_xf(vs, xfs, Some(f1));
            let (vs2, xfs2, id2) = spec_add_cell_xf(vs1, xfs1, Some(f2));
            id1 != id2
        }),
{
    if font_key(f1) == font_key(f2) {
        lemma_font_key_injective(f1, f2);
    }
    lemma_style_distinct_keys_distinct_ids(vs, xfs, f1, f2);
}

/// In a well-formed registry, a font differing from the default in
/// at least one attribute never resolves to style id 0.
pub proof fn lemma_style_nonzero_any(
    vs: Seq<FontView>,
    xfs: Seq<(int, int, int, int)>,
    f: FontView,
)
    requires
        vs.len() >= 1,
        vs[0] == default_font_view(),
        xfs.len() >= 1,
        xfs[0] == (0int, 0int, 0int, 164int),
        f != default_font_view(),
    ensures
        spec_add_cell_xf(vs, xfs, Some(f)).2 != 0,
{
    if font_key(f) == font_key(default_font_view()) {
        lemma_font_key_injective(f, default_font_view());
    }
    lemma_style_nonzero(vs, xfs, f);
}

} // verus!
