use crate::cell::Cell;
use crate::cell::CellValueView;
use crate::cell::CellView;
use crate::column::col_chars;
use crate::error::XlsxError;
use crate::num_text::spec_dec;
use crate::num_text::usize_to_string;
use crate::numeric::first_where;
use crate::numeric::is_numeric_literal;
use crate::numeric::lemma_first_where_at;
use crate::numeric::lemma_first_where_props;
use crate::xml::end_element;
use crate::xml::ev_attr;
use crate::xml::ev_end;
use crate::xml::ev_start;
use crate::xml::start_element;
use crate::xml::write_attribute;
use crate::xml::writer_log;
use crate::xml::XmlEv;
use crate::cell::cell_events;
use crate::cell::spec_resolve_cell;
use crate::shared_string::SharedStrings;
use crate::style::style_wf;
use crate::style::Style;
use crate::style::StyleView;
use vstd::prelude::*;

verus! {

/// Whether a character is an upper-case column letter, the only
/// letters a column code may hold.
pub open spec fn is_col_letter(c: char) -> bool {
    'A' <= c <= 'Z'
}

/// The predicate marking the end of the column part, as one shared
/// function value.
pub open spec fn non_letter_pred() -> spec_fn(char) -> bool {
    |c: char| !is_col_letter(c)
}

/// A reference is valid for a row when it is a non-empty run of
/// upper-case column letters followed by exactly the row number's
/// digits: the shape of `col_chars(c) + spec_dec(row)`.  Anything
/// else - no letters, no digits, lower-case letters, or letters and
/// digits interleaved - is malformed.
pub open spec fn valid_ref_for_row(s: Seq<char>, row: nat) -> bool {
    let p = first_where(s, 0, s.len() as int, non_letter_pred());
    p >= 1 && s.skip(p) == spec_dec(row)
}

/// The reference of the cell in column `col` of row `row`.
pub open spec fn next_ref_str(row: nat, col: nat) -> Seq<char> {
    col_chars(col) + spec_dec(row)
}

/// The allocator and the validator agree: every reference the row
/// hands out for one of its columns is valid for the row, so an
/// auto-assigned reference would always pass the explicit check.
pub proof fn lemma_next_ref_valid(row: nat, col: nat)
    requires
        col >= 1,
    ensures
        valid_ref_for_row(next_ref_str(row, col), row),
{
    crate::column::lemma_col_chars_wf(col);
    crate::num_text::lemma_dec_digits(row);
    let a = col_chars(col);
    let b = spec_dec(row);
    let s = a + b;
    assert(s[a.len() as int] == b[0]);
    assert(non_letter_pred()(s[a.len() as int]));
    assert(forall|j: int| 0 <= j < a.len() ==> s[j] == a[j]);
    assert forall|j: int| 0 <= j < a.len() implies !non_letter_pred()(s[j]) by {
        assert('A' <= a[j] <= 'Z');
    }
    lemma_first_where_at(s, 0, s.len() as int, non_letter_pred(), a.len() as int);
    assert(s.skip(a.len() as int) =~= b);
}

/// The views of a run of cells.
pub open spec fn cells_views(cs: Seq<Cell>) -> Seq<CellView> {
    cs.map_values(|c: Cell| c@)
}

/// The mathematical value of a row: its cells, its fixed row number,
/// the column cursor (how many references were handed out), and the
/// explicit references claimed through `add_cell`.
pub struct RowView {
    pub cells: Seq<CellView>,
    pub row_number: nat,
    pub cursor: nat,
    pub claimed: Seq<Seq<char>>,
}

/// One row: ordered cells at a fixed row number.  References are
/// allocated left to right in bijective base-26 order; explicitly
/// given references are validated against the row number and against
/// earlier explicit references.
pub struct Row {
    cells: Vec<Cell>,
    row_number: usize,
    column_number: usize,
    cell_reference_set: Vec<String>,
}

impl View for Row {
    type V = RowView;

    closed spec fn view(&self) -> RowView {
        RowView {
            cells: cells_views(self.cells@),
            row_number: self.row_number as nat,
            cursor: self.column_number as nat,
            claimed: self.cell_reference_set@.map_values(|s: String| s@),
        }
    }
}

/// Every cell of the row carries a reference, so the row can be
/// serialized.
pub open spec fn row_wf(v: RowView) -> bool {
    forall|i: int| 0 <= i < v.cells.len() ==> (#[trigger] v.cells[i]).reference is Some
}

impl Row {
    /// An empty row at the given (positive) row number.
    pub fn new(row_number: usize) -> (r: Row)
        requires
            row_number >= 1,
        ensures
            r@.cells =~= Seq::<CellView>::empty(),
            r@.row_number == row_number,
            r@.cursor == 0,
            r@.claimed =~= Seq::<Seq<char>>::empty(),
    {
        Row {
            row_number,
            cells: Vec::new(),
            column_number: 0,
            cell_reference_set: Vec::new(),
        }
    }

    /// Hands out the next reference of this row and advances the
    /// column cursor.
    pub fn next_ref(&mut self) -> (r: String)
        requires
            old(self)@.cursor < usize::MAX,
        ensures
            r@ == next_ref_str(old(self)@.row_number, old(self)@.cursor + 1),
            final (self)@ == (RowView { cursor: old(self)@.cursor + 1, ..old(self)@ }),
    {
        self.column_number = self.column_number + 1;
        let mut s = crate::column::encode_column(self.column_number as u64);
        s.append(usize_to_string(self.row_number).as_str());
        s
    }

    /// Skips `n` columns and hands out the reference after them.
    pub fn skip(&mut self, n: usize) -> (r: String)
        requires
            old(self)@.cursor + n + 1 <= usize::MAX,
        ensures
            r@ == next_ref_str(old(self)@.row_number, (old(self)@.cursor + n + 1) as nat),
            final (self)@ == (RowView { cursor: (old(self)@.cursor + n + 1) as nat, ..old(self)@ }),
    {
        self.column_number = self.column_number + n;
        self.next_ref()
    }

    /// Appends a shared-text cell at the next reference and returns a
    /// handle to it for further attributes.
    pub fn add_string(&mut self, value: String) -> (c: &mut Cell)
        requires
            old(self)@.cursor < usize::MAX,
        ensures
            (*c)@.value == CellValueView::CString(value@),
            (*c)@.reference == Some(
                next_ref_str(old(self)@.row_number, old(self)@.cursor + 1),
            ),
            (*c)@.formula is None,
            (*c)@.style_index is None,
            (*c)@.font is None,
            final (self)@ == (RowView {
                cells: old(self)@.cells.push(final (c)@),
                cursor: old(self)@.cursor + 1,
                ..old(self)@
            }),
    {
        let cell_reference = self.next_ref();
        let cell = Cell::from_string(value, cell_reference, false);
        self.push_cell(cell)
    }

    /// Appends an inline-text cell at the next reference.
    pub fn add_inline_string(&mut self, value: String) -> (c: &mut Cell)
        requires
            old(self)@.cursor < usize::MAX,
        ensures
            (*c)@.value == CellValueView::CInString(value@),
            (*c)@.reference == Some(
                next_ref_str(old(self)@.row_number, old(self)@.cursor + 1),
            ),
            (*c)@.formula is None,
            (*c)@.style_index is None,
            (*c)@.font is None,
            final (self)@ == (RowView {
                cells: old(self)@.cells.push(final (c)@),
                cursor: old(self)@.cursor + 1,
                ..old(self)@
            }),
    {
        let cell_reference = self.next_ref();
        let cell = Cell::from_string(value, cell_reference, true);
        self.push_cell(cell)
    }

    /// Appends a number cell at the next reference.  Non-numeric text
    /// is rejected with `ParseError`: no cell is appended, though the
    /// column cursor has already advanced past the reference that was
    /// allocated for it.
    pub fn add_number(&mut self, value: String) -> (r: Result<&mut Cell, XlsxError>)
        requires
            old(self)@.cursor < usize::MAX,
        ensures
            match r {
                Ok(c) => {
                    &&& is_numeric_literal(value@)
                    &&& (*c)@.value == CellValueView::CNumber(value@)
                    &&& (*c)@.reference == Some(
                        next_ref_str(old(self)@.row_number, old(self)@.cursor + 1),
                    )
                    &&& (*c)@.formula is None
                    &&& (*c)@.style_index is None
                    &&& (*c)@.font is None
                    &&& final (self)@ == (RowView {
                        cells: old(self)@.cells.push(final (c)@),
                        cursor: old(self)@.cursor + 1,
                        ..old(self)@
                    })
                },
                Err(e) => {
                    &&& !is_numeric_literal(value@)
                    &&& e == XlsxError::ParseError
                    &&& final (self)@ == (RowView { cursor: old(self)@.cursor + 1, ..old(self)@ })
                },
            },
    {
        let cell_reference = self.next_ref();
        let cell = match Cell::from_number(value, cell_reference) {
            Ok(c) => c,
            Err(e) => {
                return Err(e);
            },
        };
        Ok(self.push_cell(cell))
    }

    /// Appends a cell and returns a handle to it.
    fn push_cell(&mut self, cell: Cell) -> (c: &mut Cell)
        ensures
            (*c)@ == cell@,
            final (self)@ == (RowView {
                cells: old(self)@.cells.push(final (c)@),
                ..old(self)@
            }),
    {
        let ghost v0 = self@;
        self.cells.push(cell);
        let idx = self.cells.len() - 1;
        let c = &mut self.cells[idx];
        proof {
            assert(cells_views(old(self).cells@.push(cell)) =~= v0.cells.push(cell@));
            assert(cells_views(old(self).cells@.push(cell).update(idx as int, *final (c)))
                =~= v0.cells.push(final (c)@));
        }
        c
    }

    /// Adds a cell to the row.  A cell without a reference is given
    /// the next one.  A cell that carries a reference is validated:
    /// one equal to an earlier explicit reference fails with
    /// `DuplicateReference`, one whose row part is not this row's
    /// number (or that is malformed) fails with `InvalidReference`;
    /// a failed cell is not committed.
    pub fn add_cell(&mut self, cell: Cell) -> (r: Result<&mut Cell, XlsxError>)
        requires
            old(self)@.cursor < usize::MAX,
        ensures
            match r {
                Ok(c) => {
                    &&& match cell@.reference {
                        None => {
                            &&& (*c)@ == (CellView {
                                reference: Some(
                                    next_ref_str(
                                        old(self)@.row_number,
                                        old(self)@.cursor + 1,
                                    ),
                                ),
                                ..cell@
                            })
                            &&& final (self)@ == (RowView {
                                cells: old(self)@.cells.push(final (c)@),
                                cursor: old(self)@.cursor + 1,
                                ..old(self)@
                            })
                        },
                        Some(rf) => {
                            &&& !old(self)@.claimed.contains(rf)
                            &&& valid_ref_for_row(rf, old(self)@.row_number)
                            &&& (*c)@ == cell@
                            &&& final (self)@ == (RowView {
                                cells: old(self)@.cells.push(final (c)@),
                                claimed: old(self)@.claimed.push(rf),
                                ..old(self)@
                            })
                        },
                    }
                },
                Err(e) => {
                    &&& final (self)@ == old(self)@
                    &&& cell@.reference matches Some(rf)
                    &&& (e == XlsxError::DuplicateReference <==> old(self)@.claimed.contains(
                        cell@.reference.unwrap(),
                    ))
                    &&& (e == XlsxError::InvalidReference ==> !valid_ref_for_row(
                        cell@.reference.unwrap(),
                        old(self)@.row_number,
                    ))
                    &&& (e == XlsxError::DuplicateReference || e == XlsxError::InvalidReference)
                },
            },
    {
        let mut cell = cell;
        let has_ref = cell.get_attributes().reference.is_some();
        if !has_ref {
            let reference = self.next_ref();
            cell.set_reference(reference);
            return Ok(self.push_cell(cell));
        }
        if self.claims(&cell) {
            return Err(XlsxError::DuplicateReference);
        }
        if !self.reference_fits(&cell) {
            return Err(XlsxError::InvalidReference);
        }
        let reference = match &cell.get_attributes().reference {
            Some(r) => r.clone(),
            None => {
                proof {
                    assert(false);
                }
                String::new()
            },
        };
        let ghost v0 = self@;
        self.cell_reference_set.push(reference);
        proof {
            assert(self@.claimed =~= v0.claimed.push(cell@.reference.unwrap()));
        }
        Ok(self.push_cell(cell))
    }

    /// Whether the cell's reference equals an earlier explicit one.
    fn claims(&self, cell: &Cell) -> (r: bool)
        requires
            cell@.reference is Some,
        ensures
            r == self@.claimed.contains(cell@.reference.unwrap()),
    {
        let reference = match &cell.get_attributes().reference {
            Some(r) => r.clone(),
            None => {
                proof {
                    assert(false);
                }
                String::new()
            },
        };
        let found = crate::tables::find_string(&self.cell_reference_set, &reference);
        proof {
            assert(self@.claimed =~= crate::tables::str_views(self.cell_reference_set@));
            crate::tables::lemma_find_first_props(
                crate::tables::str_views(self.cell_reference_set@),
                reference@,
            );
        }
        match found {
            Some(i) => {
                proof {
                    assert(self@.claimed[i as int] == reference@);
                }
                true
            },
            None => {
                proof {
                    if self@.claimed.contains(reference@) {
                        let j = choose|j: int|
                            0 <= j < self@.claimed.len() && self@.claimed[j] == reference@;
                        assert(crate::tables::str_views(self.cell_reference_set@)[j]
                            == reference@);
                    }
                }
                false
            },
        }
    }

    /// Whether the cell's reference is valid for this row.
    fn reference_fits(&self, cell: &Cell) -> (r: bool)
        requires
            cell@.reference is Some,
        ensures
            r == valid_ref_for_row(cell@.reference.unwrap(), self@.row_number),
    {
        let reference = match &cell.get_attributes().reference {
            Some(r) => r,
            None => {
                proof {
                    assert(false);
                }
                return false;
            },
        };
        validate_reference(reference.as_str(), self.row_number)
    }

    /// The cells of this row.
    pub fn get_cells(&self) -> (r: &Vec<Cell>)
        ensures
            cells_views(r@) == self@.cells,
    {
        &self.cells
    }

    /// The cells of this row, for in-place mutation.  A caller that
    /// removes a cell's reference must restore one before the row is
    /// serialized.
    pub fn get_cells_mut(&mut self) -> (r: &mut Vec<Cell>)
        ensures
            cells_views((*r)@) == old(self)@.cells,
            final (self)@ == (RowView { cells: cells_views(final (r)@), ..old(self)@ }),
    {
        &mut self.cells
    }

    /// How many cells this row holds.
    pub fn cell_count(&self) -> (r: usize)
        ensures
            r == self@.cells.len(),
    {
        self.cells.len()
    }

    /// Serializes this row: a `row` element carrying its number, then
    /// every cell in order.
    pub fn to_xml(&self, writer: &mut xmlwriter::XmlWriter)
        requires
            row_wf(self@),
        ensures
            writer_log(*final (writer)) == writer_log(*old(writer)) + row_events(self@),
    {
        let ghost v = self@;
        let ghost log0 = writer_log(*writer);
        start_element(writer, "row");
        write_attribute(writer, "r", usize_to_string(self.row_number).as_str());
        let ghost header = seq![
            ev_start("row"@),
            ev_attr("r"@, spec_dec(v.row_number)),
        ];
        proof {
            assert(writer_log(*writer) =~= log0 + header);
        }
        let n = self.cells.len();
        let mut i: usize = 0;
        while i < n
            invariant
                0 <= i <= n == self.cells@.len(),
                v == self@,
                row_wf(v),
                writer_log(*writer) == log0 + header + row_cells_events(v.cells.take(i as int)),
            decreases n - i,
        {
            proof {
                assert(v.cells[i as int] == self.cells@[i as int]@);
            }
            self.cells[i].to_xml(writer);
            proof {
                assert(v.cells.take(i + 1).drop_last() =~= v.cells.take(i as int));
                assert(v.cells.take(i + 1).last() == v.cells[i as int]);
                assert(writer_log(*writer) =~= log0 + header + row_cells_events(
                    v.cells.take(i + 1),
                ));
            }
            i = i + 1;
        }
        end_element(writer);
        proof {
            assert(v.cells.take(n as int) =~= v.cells);
            assert(writer_log(*writer) =~= log0 + row_events(v));
        }
    }
}

/// Resolving a run of cells in order, threading the shared-string
/// table and the style registry through, and summing the interned
/// occurrences.
pub open spec fn spec_resolve_cells(cs: Seq<CellView>, tab: Seq<Seq<char>>, sv: StyleView) -> (
    Seq<CellView>,
    Seq<Seq<char>>,
    StyleView,
    nat,
)
    decreases cs.len(),
{
    if cs.len() == 0 {
        (cs, tab, sv, 0nat)
    } else {
        let (rest, tab1, sv1, occ1) = spec_resolve_cells(cs.drop_last(), tab, sv);
        let (c2, tab2, sv2, occ2) = spec_resolve_cell(cs.last(), tab1, sv1);
        (rest.push(c2), tab2, sv2, occ1 + occ2)
    }
}

/// Bounds and frame facts of `spec_resolve_cells`: as many cells come
/// out as went in, references are untouched, at most one occurrence
/// and one table entry is added per cell.
pub proof fn lemma_resolve_cells_frame(cs: Seq<CellView>, tab: Seq<Seq<char>>, sv: StyleView)
    ensures
        ({
            let (cs2, tab2, sv2, occ) = spec_resolve_cells(cs, tab, sv);
            &&& cs2.len() == cs.len()
            &&& forall|i: int|
                0 <= i < cs.len() ==> (#[trigger] cs2[i]).reference == cs[i].reference
            &&& occ <= cs.len()
            &&& tab2.len() <= tab.len() + cs.len()
        }),
    decreases cs.len(),
{
    if cs.len() > 0 {
        lemma_resolve_cells_frame(cs.drop_last(), tab, sv);
    }
}

impl Row {
    /// Resolves every cell of this row against the workbook
    /// registries, as `spec_resolve_cells` describes.
    pub fn resolve_cells(&mut self, sst: &mut SharedStrings, style: &mut Style)
        requires
            old(sst)@.total + old(self)@.cells.len() <= u32::MAX,
            old(sst)@.strings.len() + old(self)@.cells.len() <= u32::MAX,
        ensures
            ({
                let (cs2, tab2, sv2, occ) = spec_resolve_cells(
                    old(self)@.cells,
                    old(sst)@.strings,
                    old(style)@,
                );
                &&& final (self)@ == (RowView { cells: cs2, ..old(self)@ })
                &&& final (sst)@.strings == tab2
                &&& final (sst)@.total == old(sst)@.total + occ
                &&& final (style)@ == sv2
                &&& style_wf(old(style)@) ==> style_wf(final (style)@)
            }),
    {
        let ghost v0 = self@;
        let ghost tab0 = sst@.strings;
        let ghost total0 = sst@.total;
        let ghost sv0 = style@;
        let ghost wf0 = style_wf(sv0);
        let n = self.cells.len();
        let mut i: usize = 0;
        while i < n
            invariant
                0 <= i <= n == self.cells@.len(),
                n == v0.cells.len(),
                old(sst)@.total + n <= u32::MAX,
                old(sst)@.strings.len() + n <= u32::MAX,
                tab0 == old(sst)@.strings,
                total0 == old(sst)@.total,
                self@.row_number == v0.row_number,
                self@.cursor == v0.cursor,
                self@.claimed == v0.claimed,
                ({
                    let (cs_i, tab_i, sv_i, occ_i) = spec_resolve_cells(
                        v0.cells.take(i as int),
                        tab0,
                        sv0,
                    );
                    &&& self@.cells == cs_i + v0.cells.skip(i as int)
                    &&& sst@.strings == tab_i
                    &&& sst@.total == total0 + occ_i
                    &&& occ_i <= i
                    &&& tab_i.len() <= tab0.len() + i
                    &&& style@ == sv_i
                    &&& (wf0 ==> style_wf(sv_i))
                }),
            decreases n - i,
        {
            let ghost pre = spec_resolve_cells(v0.cells.take(i as int), tab0, sv0);
            proof {
                lemma_resolve_cells_frame(v0.cells.take(i as int), tab0, sv0);
                assert(self@.cells[i as int] == v0.cells.skip(i as int)[i - pre.0.len()]);
                assert(self@.cells[i as int] == v0.cells[i as int]);
            }
            let c = &mut self.cells[i];
            c.resolve(sst, style);
            proof {
                assert(v0.cells.take(i + 1).drop_last() =~= v0.cells.take(i as int));
                assert(v0.cells.take(i + 1).last() == v0.cells[i as int]);
                let (cs_n, tab_n, sv_n, occ_n) = spec_resolve_cells(
                    v0.cells.take(i + 1),
                    tab0,
                    sv0,
                );
                assert(cs_n == pre.0.push(spec_resolve_cell(v0.cells[i as int], pre.1, pre.2).0));
                assert(self.cells@[i as int]@ == spec_resolve_cell(
                    v0.cells[i as int],
                    pre.1,
                    pre.2,
                ).0);
                assert forall|j: int| 0 <= j < n && j != i implies self.cells@[j]@ == (pre.0
                    + v0.cells.skip(i as int))[j] by {
                    assert(cells_views(self.cells@)[j] == self.cells@[j]@);
                }
                assert forall|j: int| 0 <= j < n implies cells_views(self.cells@)[j] == (cs_n
                    + v0.cells.skip(i + 1))[j] by {
                    assert(cells_views(self.cells@)[j] == self.cells@[j]@);
                    if j < i {
                        assert((pre.0 + v0.cells.skip(i as int))[j] == pre.0[j]);
                        assert((cs_n + v0.cells.skip(i + 1))[j] == cs_n[j]);
                    } else if j > i {
                        assert((pre.0 + v0.cells.skip(i as int))[j] == v0.cells.skip(
                            i as int,
                        )[j - i]);
                        assert(v0.cells.skip(i as int)[j - i] == v0.cells[j]);
                        assert((cs_n + v0.cells.skip(i + 1))[j] == v0.cells.skip(i + 1)[j - i
                            - 1]);
                        assert(v0.cells.skip(i + 1)[j - i - 1] == v0.cells[j]);
                    }
                }
                assert(cells_views(self.cells@) =~= cs_n + v0.cells.skip(i + 1));
            }
            i = i + 1;
        }
        proof {
            assert(v0.cells.take(n as int) =~= v0.cells);
            let (cs2, tab2, sv2, occ) = spec_resolve_cells(v0.cells, tab0, sv0);
            assert(self@.cells =~= cs2 + v0.cells.skip(n as int));
            assert(self@.cells =~= cs2);
            assert(self@ == (RowView { cells: cs2, ..v0 }));
        }
    }
}

/// The events of a run of cells, in order.
pub open spec fn row_cells_events(cs: Seq<CellView>) -> Seq<XmlEv>
    decreases cs.len(),
{
    if cs.len() == 0 {
        Seq::<XmlEv>::empty()
    } else {
        row_cells_events(cs.drop_last()) + cell_events(cs.last())
    }
}

/// Everything a row emits: a `row` element carrying its number, then
/// its cells.
pub open spec fn row_events(v: RowView) -> Seq<XmlEv> {
    seq![ev_start("row"@), ev_attr("r"@, spec_dec(v.row_number))] + row_cells_events(v.cells)
        + seq![ev_end()]
}

/// A column cursor over a row: it takes the row, advances its
/// reference allocation, and hands the row back when done.
pub struct ColMovement {
    row: Row,
}

impl View for ColMovement {
    type V = RowView;

    closed spec fn view(&self) -> RowView {
        self.row@
    }
}

impl ColMovement {
    /// Takes charge of the row's column cursor.
    pub fn new(row: Row) -> (r: ColMovement)
        ensures
            r@ == row@,
    {
        ColMovement { row }
    }

    /// Moves to the next column and returns its reference.
    pub fn next(&mut self) -> (r: String)
        requires
            old(self)@.cursor < usize::MAX,
        ensures
            r@ == next_ref_str(old(self)@.row_number, old(self)@.cursor + 1),
            final (self)@ == (RowView { cursor: old(self)@.cursor + 1, ..old(self)@ }),
    {
        self.row.next_ref()
    }

    /// Skips `n` columns and returns the reference after them.
    pub fn skip(&mut self, n: usize) -> (r: String)
        requires
            old(self)@.cursor + n + 1 <= usize::MAX,
        ensures
            r@ == next_ref_str(old(self)@.row_number, (old(self)@.cursor + n + 1) as nat),
            final (self)@ == (RowView {
                cursor: (old(self)@.cursor + n + 1) as nat,
                ..old(self)@
            }),
    {
        self.row.skip(n)
    }

    /// Hands the row back.
    pub fn into_row(self) -> (r: Row)
        ensures
            r@ == self@,
    {
        self.row
    }
}

/// The first position in `s` holding a character other than an
/// upper-case column letter, or the length when every character is
/// one.
fn first_non_letter(s: &str) -> (r: usize)
    ensures
        ({
            let p = first_where(s@, 0, s@.len() as int, non_letter_pred());
            &&& (p == -1 <==> r == s@.len())
            &&& (p != -1 ==> r as int == p && r < s@.len())
        }),
{
    let ghost pred = non_letter_pred();
    let n = s.unicode_len();
    let mut j: usize = 0;
    while j < n
        invariant
            0 <= j <= n == s@.len(),
            pred == non_letter_pred(),
            forall|k: int| 0 <= k < j ==> !pred(s@[k]),
        decreases n - j,
    {
        let c = s.get_char(j);
        if !('A' <= c && c <= 'Z') {
            proof {
                lemma_first_where_at(s@, 0, n as int, pred, j as int);
            }
            return j;
        }
        j = j + 1;
    }
    proof {
        lemma_first_where_props(s@, 0, n as int, pred);
        if first_where(s@, 0, n as int, pred) != -1 {
            assert(pred(s@[first_where(s@, 0, n as int, pred)]));
        }
    }
    n
}

/// Checks a reference against a row number: a non-empty run of
/// upper-case column letters, then exactly the row number's digits.
pub fn validate_reference(s: &str, row: usize) -> (r: bool)
    ensures
        r == valid_ref_for_row(s@, row as nat),
{
    let n = s.unicode_len();
    let p = first_non_letter(s);
    if p == 0 || p == n {
        // no column letters, or no row part at all
        return false;
    }
    let expected = usize_to_string(row);
    let e = expected.as_str();
    let en = e.unicode_len();
    if n - p != en {
        proof {
            assert(s@.skip(p as int).len() != spec_dec(row as nat).len());
        }
        return false;
    }
    let mut k: usize = 0;
    while k < en
        invariant
            0 <= k <= en == e@.len(),
            0 < p < n == s@.len(),
            n - p == en,
            e@ == spec_dec(row as nat),
            first_where(s@, 0, s@.len() as int, non_letter_pred()) == p,
            forall|j: int| 0 <= j < k ==> s@.skip(p as int)[j] == e@[j],
        decreases en - k,
    {
        let c = s.get_char(p + k);
        let ec = e.get_char(k);
        proof {
            assert(s@.skip(p as int)[k as int] == s@[p + k]);
        }
        if c != ec {
            proof {
                assert(s@.skip(p as int)[k as int] != e@[k as int]);
            }
            return false;
        }
        k = k + 1;
    }
    proof {
        assert(s@.skip(p as int) =~= e@);
    }
    true
}

} // verus!
