use crate::row::row_events;
use crate::row::row_wf;
use crate::row::spec_resolve_cells;
use crate::row::Row;
use crate::row::RowView;
use crate::shared_string::SharedStrings;
use crate::style::style_wf;
use crate::style::Style;
use crate::style::StyleView;
use crate::xml::end_document;
use crate::xml::end_element;
use crate::xml::ev_attr;
use crate::xml::ev_end;
use crate::xml::ev_start;
use crate::xml::new_writer;
use crate::xml::rendered;
use crate::xml::start_element;
use crate::xml::write_attribute;
use crate::xml::writer_log;
use crate::xml::XmlEv;
use vstd::prelude::*;

verus! {

/// The views of a run of rows.
pub open spec fn rows_views(rs: Seq<Row>) -> Seq<RowView> {
    rs.map_values(|r: Row| r@)
}

/// The mathematical value of a worksheet: its name, its rows, and
/// the next row number to allocate.
pub struct SheetView {
    pub name: Seq<char>,
    pub rows: Seq<RowView>,
    pub next_row: nat,
}

/// Every row of the sheet can be serialized, and the next row number
/// to allocate is positive.
pub open spec fn sheet_wf(v: SheetView) -> bool {
    &&& v.next_row >= 1
    &&& forall|i: int| 0 <= i < v.rows.len() ==> row_wf(#[trigger] v.rows[i])
}

/// One worksheet: a name, unique within its workbook, and its rows
/// in order; `add_blank_row` allocates sequential row numbers
/// starting at 1.
pub struct WorkSheet {
    name: String,
    rows: Vec<Row>,
    next_row: usize,
}

impl View for WorkSheet {
    type V = SheetView;

    closed spec fn view(&self) -> SheetView {
        SheetView {
            name: self.name@,
            rows: rows_views(self.rows@),
            next_row: self.next_row as nat,
        }
    }
}

/// The number of cells over all rows, which bounds how much one
/// resolution pass can grow the shared-string table.
pub open spec fn total_cells(rs: Seq<RowView>) -> nat
    decreases rs.len(),
{
    if rs.len() == 0 {
        0
    } else {
        total_cells(rs.drop_last()) + rs.last().cells.len()
    }
}

/// Resolving a run of rows in order, threading the shared-string
/// table and the style registry through, and summing the interned
/// occurrences.
pub open spec fn spec_resolve_rows(rs: Seq<RowView>, tab: Seq<Seq<char>>, sv: StyleView) -> (
    Seq<RowView>,
    Seq<Seq<char>>,
    StyleView,
    nat,
)
    decreases rs.len(),
{
    if rs.len() == 0 {
        (rs, tab, sv, 0nat)
    } else {
        let (rest, tab1, sv1, occ1) = spec_resolve_rows(rs.drop_last(), tab, sv);
        let last = rs.last();
        let (cs2, tab2, sv2, occ2) = spec_resolve_cells(last.cells, tab1, sv1);
        (rest.push(RowView { cells: cs2, ..last }), tab2, sv2, occ1 + occ2)
    }
}

/// Bounds and frame facts of `spec_resolve_rows`: as many rows come
/// out as went in, well-formedness survives, at most one occurrence
/// and one table entry is added per cell.
pub proof fn lemma_resolve_rows_frame(rs: Seq<RowView>, tab: Seq<Seq<char>>, sv: StyleView)
    ensures
        ({
            let (rs2, tab2, sv2, occ) = spec_resolve_rows(rs, tab, sv);
            &&& rs2.len() == rs.len()
            &&& occ <= total_cells(rs)
            &&& tab2.len() <= tab.len() + total_cells(rs)
            &&& (forall|i: int| 0 <= i < rs.len() ==> row_wf(#[trigger] rs[i])) ==> (forall|
                i: int,
            |
                0 <= i < rs.len() ==> row_wf(#[trigger] rs2[i]))
        }),
    decreases rs.len(),
{
    if rs.len() > 0 {
        lemma_resolve_rows_frame(rs.drop_last(), tab, sv);
        let (rest, tab1, sv1, occ1) = spec_resolve_rows(rs.drop_last(), tab, sv);
        let last = rs.last();
        crate::row::lemma_resolve_cells_frame(last.cells, tab1, sv1);
        let (rs2, tab2, sv2, occ) = spec_resolve_rows(rs, tab, sv);
        if forall|i: int| 0 <= i < rs.len() ==> row_wf(#[trigger] rs[i]) {
            assert(forall|i: int|
                0 <= i < rs.drop_last().len() ==> row_wf(#[trigger] rs.drop_last()[i]));
            assert(row_wf(last));
            assert(row_wf(rs2.last()));
            assert(forall|i: int| 0 <= i < rs.len() - 1 ==> rs2[i] == rest[i]);
        }
    }
}

impl WorkSheet {
    /// A worksheet with the given name and no rows; the first row to
    /// allocate is row 1.
    pub fn blank(name: &str) -> (r: Self)
        ensures
            r@.name == name@,
            r@.rows =~= Seq::<RowView>::empty(),
            r@.next_row == 1,
    {
        WorkSheet { name: name.to_owned(), rows: Vec::new(), next_row: 1 }
    }

    /// This sheet's name.
    pub fn get_name(&self) -> (r: &String)
        ensures
            r@ == self@.name,
    {
        &self.name
    }

    /// The rows of this sheet.
    pub fn get_rows(&self) -> (r: &Vec<Row>)
        ensures
            rows_views(r@) == self@.rows,
    {
        &self.rows
    }

    /// Renames this sheet.
    pub fn set_name(&mut self, name: String)
        ensures
            final (self)@ == (SheetView { name: name@, ..old(self)@ }),
    {
        self.name = name;
    }

    /// Appends a blank row at the next sequential row number and
    /// returns a handle to it.
    pub fn add_blank_row(&mut self) -> (r: &mut Row)
        requires
            1 <= old(self)@.next_row < usize::MAX,
        ensures
            (*r)@.cells =~= Seq::<crate::cell::CellView>::empty(),
            (*r)@.row_number == old(self)@.next_row,
            (*r)@.cursor == 0,
            (*r)@.claimed =~= Seq::<Seq<char>>::empty(),
            final (self)@ == (SheetView {
                rows: old(self)@.rows.push(final (r)@),
                next_row: old(self)@.next_row + 1,
                ..old(self)@
            }),
    {
        let ghost v0 = self@;
        let row = Row::new(self.next_row);
        self.next_row = self.next_row + 1;
        self.rows.push(row);
        let idx = self.rows.len() - 1;
        let r = &mut self.rows[idx];
        proof {
            assert(rows_views(old(self).rows@.push(row)) =~= v0.rows.push(row@));
            assert(rows_views(old(self).rows@.push(row).update(idx as int, *final (r))) =~= v0
                .rows.push(final (r)@));
        }
        r
    }

    /// Resolves every cell of every row against the workbook
    /// registries, as `spec_resolve_rows` describes.
    pub fn resolve_rows(&mut self, sst: &mut SharedStrings, style: &mut Style)
        requires
            old(sst)@.total + total_cells(old(self)@.rows) <= u32::MAX,
            old(sst)@.strings.len() + total_cells(old(self)@.rows) <= u32::MAX,
        ensures
            ({
                let (rs2, tab2, sv2, occ) = spec_resolve_rows(
                    old(self)@.rows,
                    old(sst)@.strings,
                    old(style)@,
                );
                &&& final (self)@ == (SheetView { rows: rs2, ..old(self)@ })
                &&& final (sst)@.strings == tab2
                &&& final (sst)@.total == old(sst)@.total + occ
                &&& final (style)@ == sv2
                &&& style_wf(old(style)@) ==> style_wf(final (style)@)
            }),
    {
        let ghost v0 = self@;
        let ghost tab0 = sst@.strings;
        let ghost total0 = sst@.total;
        let ghost sv0 = style@;
        let ghost wf0 = style_wf(sv0);
        let n = self.rows.len();
        let mut i: usize = 0;
        proof {
            assert(v0.rows.take(0) =~= Seq::<RowView>::empty());
            assert(v0.rows.skip(0) =~= v0.rows);
            assert(self@.rows =~= spec_resolve_rows(v0.rows.take(0), tab0, sv0).0 + v0.rows.skip(
                0,
            ));
        }
        while i < n
            invariant
                0 <= i <= n == self.rows@.len(),
                n == v0.rows.len(),
                old(sst)@.total + total_cells(v0.rows) <= u32::MAX,
                old(sst)@.strings.len() + total_cells(v0.rows) <= u32::MAX,
                tab0 == old(sst)@.strings,
                total0 == old(sst)@.total,
                self@.name == v0.name,
                self@.next_row == v0.next_row,
                ({
                    let (rs_i, tab_i, sv_i, occ_i) = spec_resolve_rows(
                        v0.rows.take(i as int),
                        tab0,
                        sv0,
                    );
                    &&& self@.rows == rs_i + v0.rows.skip(i as int)
                    &&& sst@.strings == tab_i
                    &&& sst@.total == total0 + occ_i
                    &&& occ_i + total_cells(v0.rows.skip(i as int)) <= total_cells(v0.rows)
                    &&& tab_i.len() + total_cells(v0.rows.skip(i as int)) <= tab0.len()
                        + total_cells(v0.rows)
                    &&& style@ == sv_i
                    &&& (wf0 ==> style_wf(sv_i))
                }),
            decreases n - i,
        {
            let ghost pre = spec_resolve_rows(v0.rows.take(i as int), tab0, sv0);
            proof {
                lemma_resolve_rows_frame(v0.rows.take(i as int), tab0, sv0);
                assert(self@.rows[i as int] == v0.rows.skip(i as int)[0]);
                assert(self@.rows[i as int] == v0.rows[i as int]);
                assert(total_cells(v0.rows.skip(i as int)) >= v0.rows[i as int].cells.len())
                    by {
                    lemma_total_cells_first(v0.rows.skip(i as int));
                }
            }
            let r = &mut self.rows[i];
            r.resolve_cells(sst, style);
            proof {
                assert(v0.rows.take(i + 1).drop_last() =~= v0.rows.take(i as int));
                assert(v0.rows.take(i + 1).last() == v0.rows[i as int]);
                let (rs_n, tab_n, sv_n, occ_n) = spec_resolve_rows(v0.rows.take(i + 1), tab0, sv0);
                let (cs2, tab2, sv2, occ2) = spec_resolve_cells(
                    v0.rows[i as int].cells,
                    pre.1,
                    pre.2,
                );
                crate::row::lemma_resolve_cells_frame(v0.rows[i as int].cells, pre.1, pre.2);
                assert(self.rows@[i as int]@ == (RowView { cells: cs2, ..v0.rows[i as int] }));
                assert forall|j: int| 0 <= j < n implies rows_views(self.rows@)[j] == (rs_n
                    + v0.rows.skip(i + 1))[j] by {
                    assert(rows_views(self.rows@)[j] == self.rows@[j]@);
                    if j < i {
                        assert((pre.0 + v0.rows.skip(i as int))[j] == pre.0[j]);
                        assert((rs_n + v0.rows.skip(i + 1))[j] == rs_n[j]);
                    } else if j > i {
                        assert((pre.0 + v0.rows.skip(i as int))[j] == v0.rows.skip(i as int)[j
                            - i]);
                        assert(v0.rows.skip(i as int)[j - i] == v0.rows[j]);
                        assert((rs_n + v0.rows.skip(i + 1))[j] == v0.rows.skip(i + 1)[j - i - 1]);
                        assert(v0.rows.skip(i + 1)[j - i - 1] == v0.rows[j]);
                    }
                }
                assert(rows_views(self.rows@) =~= rs_n + v0.rows.skip(i + 1));
                assert(total_cells(v0.rows.skip(i as int)) == v0.rows[i as int].cells.len()
                    + total_cells(v0.rows.skip(i + 1))) by {
                    lemma_total_cells_first(v0.rows.skip(i as int));
                    assert(v0.rows.skip(i as int).skip(1) =~= v0.rows.skip(i + 1));
                }
            }
            i = i + 1;
        }
        proof {
            assert(v0.rows.take(n as int) =~= v0.rows);
            let (rs2, tab2, sv2, occ) = spec_resolve_rows(v0.rows, tab0, sv0);
            assert(self@.rows =~= rs2 + v0.rows.skip(n as int));
            assert(self@.rows =~= rs2);
            assert(self@ == (SheetView { rows: rs2, ..v0 }));
        }
    }

    /// Serializes this sheet: a `worksheet` root with the fixed
    /// namespace declarations and a `sheetData` section holding the
    /// rows in order.
    pub fn to_xml(&self) -> (r: String)
        requires
            forall|i: int| 0 <= i < self@.rows.len() ==> row_wf(#[trigger] self@.rows[i]),
        ensures
            r@ == rendered(sheet_events(self@)),
    {
        let ghost v = self@;
        let mut w = new_writer();
        start_element(&mut w, "worksheet");
        write_attribute(
            &mut w,
            "xmlns",
            "http://schemas.openxmlformats.org/spreadsheetml/2006/main",
        );
        write_attribute(
            &mut w,
            "xmlns:r",
            "http://schemas.openxmlformats.org/officeDocument/2006/relationships",
        );
        start_element(&mut w, "sheetData");
        let ghost header = sheet_header_events(v);
        proof {
            assert(writer_log(w) =~= header);
        }
        let n = self.rows.len();
        let mut i: usize = 0;
        while i < n
            invariant
                0 <= i <= n == self.rows@.len(),
                v == self@,
                forall|j: int| 0 <= j < v.rows.len() ==> row_wf(#[trigger] v.rows[j]),
                writer_log(w) == header + sheet_rows_events(v.rows.take(i as int)),
            decreases n - i,
        {
            proof {
                assert(v.rows[i as int] == self.rows@[i as int]@);
            }
            self.rows[i].to_xml(&mut w);
            proof {
                assert(v.rows.take(i + 1).drop_last() =~= v.rows.take(i as int));
                assert(v.rows.take(i + 1).last() == v.rows[i as int]);
                assert(writer_log(w) =~= header + sheet_rows_events(v.rows.take(i + 1)));
            }
            i = i + 1;
        }
        end_element(&mut w);
        end_element(&mut w);
        proof {
            assert(v.rows.take(n as int) =~= v.rows);
            assert(writer_log(w) =~= sheet_events(v));
        }
        end_document(w)
    }
}

/// The first row of a non-empty run carries part of the cell count.
proof fn lemma_total_cells_first(rs: Seq<RowView>)
    requires
        rs.len() > 0,
    ensures
        total_cells(rs) == rs[0].cells.len() + total_cells(rs.skip(1)),
    decreases rs.len(),
{
    if rs.len() == 1 {
        assert(rs.skip(1) =~= Seq::<RowView>::empty());
        assert(rs.drop_last() =~= Seq::<RowView>::empty());
        assert(rs.last() == rs[0]);
    } else {
        lemma_total_cells_first(rs.drop_last());
        assert(rs.drop_last()[0] == rs[0]);
        assert(rs.skip(1).drop_last() =~= rs.drop_last().skip(1));
        assert(rs.skip(1).last() == rs.last());
    }
}

/// The root element and namespace declarations of a worksheet part,
/// with the opened data section.
pub open spec fn sheet_header_events(v: SheetView) -> Seq<XmlEv> {
    seq![
        ev_start("worksheet"@),
        ev_attr("xmlns"@, "http://schemas.openxmlformats.org/spreadsheetml/2006/main"@),
        ev_attr(
            "xmlns:r"@,
            "http://schemas.openxmlformats.org/officeDocument/2006/relationships"@,
        ),
        ev_start("sheetData"@),
    ]
}

/// The events of a run of rows, in order.
pub open spec fn sheet_rows_events(rs: Seq<RowView>) -> Seq<XmlEv>
    decreases rs.len(),
{
    if rs.len() == 0 {
        Seq::<XmlEv>::empty()
    } else {
        sheet_rows_events(rs.drop_last()) + row_events(rs.last())
    }
}

/// Everything a worksheet part emits.
pub open spec fn sheet_events(v: SheetView) -> Seq<XmlEv> {
    sheet_header_events(v) + sheet_rows_events(v.rows) + seq![ev_end(), ev_end()]
}

} // verus!
