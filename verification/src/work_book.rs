use crate::content_type::ct_events;
use crate::content_type::ct_seed;
use crate::content_type::sheet_overrides;
use crate::content_type::sheet_part_name;
use crate::content_type::ContentType;
use crate::content_type::CtView;
use crate::error::XlsxError;
use crate::num_text::spec_dec;
use crate::num_text::u64_to_string;
use crate::pack::archive_bytes;
use crate::pack::op_dir;
use crate::pack::op_file;
use crate::pack::op_finish;
use crate::pack::op_write;
use crate::pack::zip_accepts;
use crate::pack::zip_add_directory;
use crate::pack::zip_finish;
use crate::pack::zip_new;
use crate::pack::zip_ops;
use crate::pack::zip_start_file;
use crate::pack::zip_write_all;
use crate::pack::PackWriter;
use crate::pack::ZipOp;
use crate::relation_ship::root_rel_events;
use crate::relation_ship::rid_str;
use crate::relation_ship::wb_rel_events;
use crate::relation_ship::RelationShip;
use crate::shared_string::sst_events;
use crate::shared_string::SharedStrings;
use crate::shared_string::SstView;
use crate::style::style_events;
use crate::style::style_wf;
use crate::style::Style;
use crate::style::StyleView;
use crate::tables::find_string;
use crate::tables::lemma_find_first_props;
use crate::tables::str_views;
use crate::work_sheet::lemma_resolve_rows_frame;
use crate::work_sheet::sheet_events;
use crate::work_sheet::sheet_wf;
use crate::work_sheet::spec_resolve_rows;
use crate::work_sheet::total_cells;
use crate::work_sheet::SheetView;
use crate::work_sheet::WorkSheet;
use crate::xml::end_document;
use crate::xml::end_element;
use crate::xml::ev_attr;
use crate::xml::ev_end;
use crate::xml::ev_start;
use crate::xml::new_writer;
use crate::xml::rendered;
use crate::xml::start_element;
use crate::xml::write_attribute;
use crate::xml::writer_log;
use crate::xml::XmlEv;
use vstd::prelude::*;

verus! {

/// The mathematical value of a workbook: its sheets and their final
/// names in insertion order, the two global registries, the declared
/// content types, and the two independent relationship counters.
pub struct WbView {
    pub sheets: Seq<SheetView>,
    pub names: Seq<Seq<char>>,
    pub sst: SstView,
    pub style: StyleView,
    pub ct: CtView,
    pub root_rels: nat,
    pub wb_rels: nat,
}

/// The workbook orchestrator: it owns every registry and the
/// worksheet collection, intercepts each added sheet to intern its
/// texts and resolve its styles, and finally assembles the package.
pub struct WorkBook {
    work_sheets: Vec<WorkSheet>,
    work_sheet_names: Vec<String>,
    shared_string: SharedStrings,
    style: Style,
    content_type: ContentType,
    root_relation_ship: RelationShip,
    work_book_relation_ship: RelationShip,
}

impl View for WorkBook {
    type V = WbView;

    closed spec fn view(&self) -> WbView {
        WbView {
            sheets: self.work_sheets@.map_values(|s: WorkSheet| s@),
            names: self.work_sheet_names@.map_values(|s: String| s@),
            sst: self.shared_string@,
            style: self.style@,
            ct: self.content_type@,
            root_rels: self.root_relation_ship@,
            wb_rels: self.work_book_relation_ship@,
        }
    }
}

/// Well-formedness of a workbook: the style registry carries its
/// defaults, every stored sheet can be serialized, neither
/// relationship counter has been touched before the save, and the
/// content types declare exactly the seed entries plus one worksheet
/// override per stored sheet, numbered like the parts the save will
/// write - the cross-part agreement the package's validity rests on.
pub open spec fn wb_wf(v: WbView) -> bool {
    &&& style_wf(v.style)
    &&& forall|i: int| 0 <= i < v.sheets.len() ==> sheet_wf(#[trigger] v.sheets[i])
    &&& v.root_rels == 1
    &&& v.wb_rels == 1
    &&& v.ct.next_sheet == v.sheets.len() + 1
    &&& v.ct.overrides == ct_seed() + sheet_overrides(v.sheets.len())
}

/// The final name an added sheet receives: its own name, or, when
/// that name is already taken, the generated fallback built from the
/// current sheet count.
pub open spec fn resolve_sheet_name(names: Seq<Seq<char>>, name: Seq<char>) -> Seq<char> {
    if names.contains(name) {
        "Sheet"@ + spec_dec(names.len() + 1)
    } else {
        name
    }
}

/// Whether `name` is already among `names`.
fn contains_name(names: &Vec<String>, name: &String) -> (r: bool)
    ensures
        r == str_views(names@).contains(name@),
{
    let found = find_string(names, name);
    proof {
        lemma_find_first_props(str_views(names@), name@);
    }
    match found {
        Some(i) => {
            proof {
                assert(str_views(names@)[i as int] == name@);
            }
            true
        },
        None => {
            proof {
                if str_views(names@).contains(name@) {
                    let j = choose|j: int|
                        0 <= j < str_views(names@).len() && str_views(names@)[j] == name@;
                }
            }
            false
        },
    }
}

impl WorkBook {
    /// An empty workbook: no sheets, empty shared-string table, the
    /// default style registry, the seeded content types, and both
    /// relationship counters at their first id.
    pub fn new() -> (r: Self)
        ensures
            r@.sheets =~= Seq::<SheetView>::empty(),
            r@.names =~= Seq::<Seq<char>>::empty(),
            r@.sst.strings =~= Seq::<Seq<char>>::empty(),
            r@.sst.total == 0,
            r@.style.fonts =~= seq![crate::style::default_font_view()],
            r@.style.xfs =~= seq![(0int, 0int, 0int, 164int)],
            r@.ct.overrides =~= crate::content_type::ct_seed(),
            r@.ct.next_sheet == 1,
            r@.root_rels == 1,
            r@.wb_rels == 1,
            wb_wf(r@),
    {
        let r = WorkBook {
            work_sheets: Vec::new(),
            work_sheet_names: Vec::new(),
            shared_string: SharedStrings::new(),
            style: Style::new(),
            content_type: ContentType::new(),
            root_relation_ship: RelationShip::new(),
            work_book_relation_ship: RelationShip::new(),
        };
        proof {
            assert(r@.sheets =~= Seq::<SheetView>::empty());
            assert(r@.names =~= Seq::<Seq<char>>::empty());
            assert(r@.ct.overrides =~= ct_seed() + sheet_overrides(0));
        }
        r
    }

    /// Adds a worksheet: enforces name uniqueness by renaming on
    /// collision to the generated fallback, declares one worksheet
    /// content type, interns every shared-text cell, resolves every
    /// pending style, and only then appends the sheet.
    pub fn add_sheet(&mut self, work_sheet: WorkSheet)
        requires
            old(self)@.ct.next_sheet < u32::MAX,
            old(self)@.names.len() < u64::MAX,
            old(self)@.sst.total + total_cells(work_sheet@.rows) <= u32::MAX,
            old(self)@.sst.strings.len() + total_cells(work_sheet@.rows) <= u32::MAX,
        ensures
            ({
                let rn = resolve_sheet_name(old(self)@.names, work_sheet@.name);
                let (rs2, tab2, sv2, occ) = spec_resolve_rows(
                    work_sheet@.rows,
                    old(self)@.sst.strings,
                    old(self)@.style,
                );
                &&& final (self)@.sheets == old(self)@.sheets.push(
                    SheetView { name: rn, rows: rs2, next_row: work_sheet@.next_row },
                )
                &&& final (self)@.names == old(self)@.names.push(rn)
                &&& final (self)@.sst.strings == tab2
                &&& final (self)@.sst.total == old(self)@.sst.total + occ
                &&& final (self)@.style == sv2
                &&& final (self)@.ct.overrides == old(self)@.ct.overrides.push(
                    (
                        sheet_part_name(old(self)@.ct.next_sheet),
                        "application/vnd.openxmlformats-officedocument.spreadsheetml.worksheet+xml"@,
                    ),
                )
                &&& final (self)@.ct.next_sheet == old(self)@.ct.next_sheet + 1
                &&& final (self)@.root_rels == old(self)@.root_rels
                &&& final (self)@.wb_rels == old(self)@.wb_rels
                &&& (wb_wf(old(self)@) && sheet_wf(work_sheet@)) ==> wb_wf(final (self)@)
            }),
    {
        let ghost v0 = self@;
        let ghost wsv = work_sheet@;
        let mut ws = work_sheet;
        let name_taken = contains_name(&self.work_sheet_names, ws.get_name());
        proof {
            assert(str_views(self.work_sheet_names@) =~= v0.names);
        }
        if name_taken {
            let mut fallback = "Sheet".to_owned();
            fallback.append(u64_to_string((self.work_sheet_names.len() as u64) + 1).as_str());
            ws.set_name(fallback);
            proof {
                assert(ws@.name =~= resolve_sheet_name(v0.names, wsv.name));
            }
        }
        self.content_type.add_sheet();
        ws.resolve_rows(&mut self.shared_string, &mut self.style);
        let final_name = ws.get_name().clone();
        proof {
            lemma_resolve_rows_frame(wsv.rows, v0.sst.strings, v0.style);
        }
        self.work_sheets.push(ws);
        self.work_sheet_names.push(final_name);
        proof {
            let rn = resolve_sheet_name(v0.names, wsv.name);
            let (rs2, tab2, sv2, occ) = spec_resolve_rows(wsv.rows, v0.sst.strings, v0.style);
            assert(self@.sheets =~= v0.sheets.push(
                SheetView { name: rn, rows: rs2, next_row: wsv.next_row },
            ));
            assert(self@.names =~= v0.names.push(rn));
            if wb_wf(v0) && sheet_wf(wsv) {
                assert(forall|i: int|
                    0 <= i < v0.sheets.len() ==> self@.sheets[i] == v0.sheets[i]);
                assert(sheet_wf(self@.sheets.last()));
                assert(self@.ct.overrides =~= ct_seed() + sheet_overrides(self@.sheets.len()));
            }
        }
    }

    /// How many sheets the workbook holds.
    pub fn sheet_count(&self) -> (r: usize)
        ensures
            r == self@.sheets.len(),
    {
        self.work_sheets.len()
    }

    /// The final names of the sheets, in insertion order.
    pub fn get_sheet_names(&self) -> (r: &Vec<String>)
        ensures
            str_views(r@) == self@.names,
    {
        proof {
            assert(str_views(self.work_sheet_names@) =~= self@.names);
        }
        &self.work_sheet_names
    }

    /// How many distinct texts the shared-string table holds.
    pub fn unique_string_count(&self) -> (r: usize)
        ensures
            r == self@.sst.strings.len(),
    {
        self.shared_string.unique_count()
    }

    /// How many text occurrences were interned in all.
    pub fn total_string_count(&self) -> (r: u32)
        ensures
            r == self@.sst.total,
    {
        self.shared_string.total_count()
    }

    /// Serializes the workbook part: the `workbook` root declaring
    /// each sheet with its name, state, relationship id and sheet id.
    fn workbook_doc_xml(&self) -> (r: String)
        ensures
            r@ == rendered(wb_doc_events(self@.sheets)),
    {
        let ghost sheets = self@.sheets;
        let mut w = new_writer();
        start_element(&mut w, "workbook");
        write_attribute(
            &mut w,
            "xmlns",
            "http://schemas.openxmlformats.org/spreadsheetml/2006/main",
        );
        write_attribute(
            &mut w,
            "xmlns:r",
            "http://schemas.openxmlformats.org/officeDocument/2006/relationships",
        );
        start_element(&mut w, "sheets");
        let ghost header = wb_doc_header_events();
        proof {
            assert(writer_log(w) =~= header);
        }
        let n = self.work_sheets.len();
        let mut i: usize = 0;
        while i < n
            invariant
                0 <= i <= n == self.work_sheets@.len(),
                sheets == self@.sheets,
                writer_log(w) == header + wb_sheet_entries(sheets.take(i as int)),
            decreases n - i,
        {
            proof {
                assert(sheets[i as int] == self.work_sheets@[i as int]@);
            }
            start_element(&mut w, "sheet");
            write_attribute(&mut w, "name", self.work_sheets[i].get_name().as_str());
            write_attribute(&mut w, "state", "visiable");
            let mut rid = "rId".to_owned();
            rid.append(u64_to_string(i as u64 + 1).as_str());
            write_attribute(&mut w, "r:id", rid.as_str());
            write_attribute(&mut w, "sheetId", u64_to_string(i as u64 + 1).as_str());
            end_element(&mut w);
            proof {
                assert(rid@ =~= rid_str((i + 1) as nat));
                assert(sheets.take(i + 1).drop_last() =~= sheets.take(i as int));
                assert(sheets.take(i + 1).last() == sheets[i as int]);
                assert(writer_log(w) =~= header + wb_sheet_entries(sheets.take(i + 1)));
            }
            i = i + 1;
        }
        end_element(&mut w);
        end_element(&mut w);
        proof {
            assert(sheets.take(n as int) =~= sheets);
            assert(writer_log(w) =~= wb_doc_events(sheets));
        }
        end_document(w)
    }

    /// Assembles and returns the compressed package, one shot: the
    /// content types, the two relationship parts, one part per
    /// worksheet, the shared strings, the styles and the workbook
    /// document, in the fixed layout.  The workbook is consumed
    /// whatever the outcome.  The save succeeds exactly when the
    /// archive writer accepts every operation of the package - which,
    /// over a fresh writer, it refuses only for a duplicate entry
    /// name or an entry past the plain size limit; any refusal
    /// aborts the whole save with `IOError`.
    pub fn save(self) -> (r: Result<Vec<u8>, XlsxError>)
        requires
            wb_wf(self@),
            self@.sheets.len() + 3 <= u32::MAX,
        ensures
            r is Ok <==> package_accepted(self@),
            r matches Ok(bytes) ==> bytes@ == archive_bytes(package_ops(self@)),
            r matches Err(e) ==> e == XlsxError::IOError,
    {
        let ghost v = self@;
        let ghost full = package_ops(v);
        let work_book_xml = self.workbook_doc_xml();
        let WorkBook {
            work_sheets,
            work_sheet_names: _,
            shared_string,
            style,
            content_type,
            root_relation_ship,
            work_book_relation_ship,
        } = self;
        let no_of_sheets = work_sheets.len();
        let ss_xml = shared_string.to_xml();
        let style_xml = style.to_xml();
        let content_type_xml = content_type.to_xml();
        let root_rs_xml = root_relation_ship.to_root_xml();
        let work_book_rs_xml = work_book_relation_ship.to_work_book_rel_xml(0, no_of_sheets);
        let mut zip = zip_new();
        proof {
            lemma_sheets_ops_len(v.sheets);
            assert(full.len() == 16 + 2 * v.sheets.len());
            assert(zip_ops(zip) =~= full.take(0));
            assert(ops_accepted(full.take(0)));
        }
        step_file(&mut zip, "[Content_Types].xml", Ghost(full), Ghost(0))?;
        step_write(&mut zip, content_type_xml.as_str(), Ghost(full), Ghost(1))?;
        step_dir(&mut zip, "_rels/", Ghost(full), Ghost(2))?;
        step_file(&mut zip, "_rels/.rels", Ghost(full), Ghost(3))?;
        step_write(&mut zip, root_rs_xml.as_str(), Ghost(full), Ghost(4))?;
        step_dir(&mut zip, "xl/", Ghost(full), Ghost(5))?;
        step_dir(&mut zip, "xl/_rels/", Ghost(full), Ghost(6))?;
        step_dir(&mut zip, "xl/worksheets/", Ghost(full), Ghost(7))?;
        step_file(&mut zip, "xl/_rels/workbook.xml.rels", Ghost(full), Ghost(8))?;
        step_write(&mut zip, work_book_rs_xml.as_str(), Ghost(full), Ghost(9))?;
        let mut i: usize = 0;
        while i < no_of_sheets
            invariant
                0 <= i <= no_of_sheets == work_sheets@.len(),
                v.sheets == work_sheets@.map_values(|s: WorkSheet| s@),
                forall|j: int| 0 <= j < v.sheets.len() ==> sheet_wf(#[trigger] v.sheets[j]),
                v == self@,
                full == package_ops(v),
                full.len() == 16 + 2 * v.sheets.len(),
                no_of_sheets == v.sheets.len(),
                zip_ops(zip) == full.take(10 + 2 * i),
                ops_accepted(full.take(10 + 2 * i)),
            decreases no_of_sheets - i,
        {
            proof {
                assert(v.sheets[i as int] == work_sheets@[i as int]@);
                lemma_sheets_ops_len(v.sheets);
                lemma_sheets_ops_index(v.sheets, i as int);
                assert(full[10 + 2 * i] == sheets_ops(v.sheets)[2 * i]);
                assert(full[10 + 2 * i + 1] == sheets_ops(v.sheets)[2 * i + 1]);
            }
            let mut sheet_name = "xl/worksheets/sheet".to_owned();
            sheet_name.append(u64_to_string(i as u64 + 1).as_str());
            sheet_name.append(".xml");
            let sheet_xml = work_sheets[i].to_xml();
            proof {
                assert(sheet_name@ =~= "xl/worksheets/sheet"@ + spec_dec((i + 1) as nat)
                    + ".xml"@);
            }
            step_file(&mut zip, sheet_name.as_str(), Ghost(full), Ghost(10 + 2 * i as int))?;
            step_write(&mut zip, sheet_xml.as_str(), Ghost(full), Ghost(11 + 2 * i as int))?;
            i = i + 1;
        }
        let ghost b: int = 10 + 2 * no_of_sheets as int;
        step_file(&mut zip, "xl/sharedStrings.xml", Ghost(full), Ghost(b))?;
        step_write(&mut zip, ss_xml.as_str(), Ghost(full), Ghost(b + 1))?;
        step_file(&mut zip, "xl/styles.xml", Ghost(full), Ghost(b + 2))?;
        step_write(&mut zip, style_xml.as_str(), Ghost(full), Ghost(b + 3))?;
        step_file(&mut zip, "xl/workbook.xml", Ghost(full), Ghost(b + 4))?;
        step_write(&mut zip, work_book_xml.as_str(), Ghost(full), Ghost(b + 5))?;
        proof {
            assert(zip_ops(zip) =~= full);
        }
        match zip_finish(zip) {
            Ok(bytes) => {
                proof {
                    assert(package_accepted(v));
                }
                Ok(bytes)
            },
            Err(_) => {
                proof {
                    assert(!package_accepted(v));
                }
                Err(XlsxError::IOError)
            },
        }
    }
}

/// Whether a writer accepts a whole run of operations, each judged
/// against the history before it.
pub open spec fn ops_accepted(ops: Seq<ZipOp>) -> bool
    decreases ops.len(),
{
    if ops.len() == 0 {
        true
    } else {
        ops_accepted(ops.drop_last()) && zip_accepts(ops.drop_last(), ops.last())
    }
}

/// Whether the archive writer accepts the whole package of a
/// workbook, finalization included: exactly when `save` succeeds.
pub open spec fn package_accepted(v: WbView) -> bool {
    ops_accepted(package_ops(v)) && zip_accepts(package_ops(v), op_finish())
}

/// In an accepted run, each operation is accepted against the
/// operations before it.
pub proof fn lemma_ops_accepted_at(ops: Seq<ZipOp>, k: int)
    requires
        0 <= k < ops.len(),
        ops_accepted(ops),
    ensures
        zip_accepts(ops.take(k), ops[k]),
    decreases ops.len(),
{
    if k == ops.len() - 1 {
        assert(ops.take(k) =~= ops.drop_last());
    } else {
        assert(ops.drop_last().take(k) =~= ops.take(k));
        lemma_ops_accepted_at(ops.drop_last(), k);
    }
}

/// The worksheet parts take two operations per sheet.
pub proof fn lemma_sheets_ops_len(sheets: Seq<SheetView>)
    ensures
        sheets_ops(sheets).len() == 2 * sheets.len(),
    decreases sheets.len(),
{
    if sheets.len() > 0 {
        lemma_sheets_ops_len(sheets.drop_last());
    }
}

/// The two operations of sheet `i` (counted from 0) stand at
/// positions `2i` and `2i + 1` of the worksheet-part run.
pub proof fn lemma_sheets_ops_index(sheets: Seq<SheetView>, i: int)
    requires
        0 <= i < sheets.len(),
    ensures
        sheets_ops(sheets)[2 * i] == op_file(
            "xl/worksheets/sheet"@ + spec_dec((i + 1) as nat) + ".xml"@,
        ),
        sheets_ops(sheets)[2 * i + 1] == op_write(rendered(sheet_events(sheets[i]))),
    decreases sheets.len(),
{
    lemma_sheets_ops_len(sheets.drop_last());
    if i == sheets.len() - 1 {
    } else {
        lemma_sheets_ops_index(sheets.drop_last(), i);
        assert(sheets.drop_last()[i] == sheets[i]);
    }
}

/// Performs one file-entry operation of a planned run: on acceptance
/// the log advances to the next prefix of the plan; a refusal shows
/// the whole plan is not accepted and surfaces as `IOError`.
fn step_file(zip: &mut PackWriter, name: &str, Ghost(full): Ghost<Seq<ZipOp>>, Ghost(k): Ghost<
    int,
>) -> (r: Result<(), XlsxError>)
    requires
        0 <= k < full.len(),
        zip_ops(*old(zip)) == full.take(k),
        ops_accepted(full.take(k)),
        full[k] == op_file(name@),
    ensures
        r is Ok <==> zip_accepts(full.take(k), full[k]),
        r is Ok ==> zip_ops(*final (zip)) == full.take(k + 1) && ops_accepted(full.take(k + 1)),
        r is Err ==> !ops_accepted(full),
        r matches Err(e) ==> e == XlsxError::IOError,
{
    match zip_start_file(zip, name) {
        Ok(_) => {
            proof {
                assert(full.take(k + 1).drop_last() =~= full.take(k));
                assert(full.take(k + 1).last() == full[k]);
                assert(zip_ops(*zip) =~= full.take(k + 1));
            }
            Ok(())
        },
        Err(_) => {
            proof {
                if ops_accepted(full) {
                    lemma_ops_accepted_at(full, k);
                }
            }
            Err(XlsxError::IOError)
        },
    }
}

/// Performs one directory operation of a planned run, as `step_file`
/// does for file entries.
fn step_dir(zip: &mut PackWriter, name: &str, Ghost(full): Ghost<Seq<ZipOp>>, Ghost(k): Ghost<
    int,
>) -> (r: Result<(), XlsxError>)
    requires
        0 <= k < full.len(),
        zip_ops(*old(zip)) == full.take(k),
        ops_accepted(full.take(k)),
        full[k] == op_dir(name@),
    ensures
        r is Ok <==> zip_accepts(full.take(k), full[k]),
        r is Ok ==> zip_ops(*final (zip)) == full.take(k + 1) && ops_accepted(full.take(k + 1)),
        r is Err ==> !ops_accepted(full),
        r matches Err(e) ==> e == XlsxError::IOError,
{
    match zip_add_directory(zip, name) {
        Ok(_) => {
            proof {
                assert(full.take(k + 1).drop_last() =~= full.take(k));
                assert(full.take(k + 1).last() == full[k]);
                assert(zip_ops(*zip) =~= full.take(k + 1));
            }
            Ok(())
        },
        Err(_) => {
            proof {
                if ops_accepted(full) {
                    lemma_ops_accepted_at(full, k);
                }
            }
            Err(XlsxError::IOError)
        },
    }
}

/// Performs one write operation of a planned run, as `step_file`
/// does for file entries.
fn step_write(zip: &mut PackWriter, data: &str, Ghost(full): Ghost<Seq<ZipOp>>, Ghost(k): Ghost<
    int,
>) -> (r: Result<(), XlsxError>)
    requires
        0 <= k < full.len(),
        zip_ops(*old(zip)) == full.take(k),
        ops_accepted(full.take(k)),
        full[k] == op_write(data@),
    ensures
        r is Ok <==> zip_accepts(full.take(k), full[k]),
        r is Ok ==> zip_ops(*final (zip)) == full.take(k + 1) && ops_accepted(full.take(k + 1)),
        r is Err ==> !ops_accepted(full),
        r matches Err(e) ==> e == XlsxError::IOError,
{
    match zip_write_all(zip, data) {
        Ok(_) => {
            proof {
                assert(full.take(k + 1).drop_last() =~= full.take(k));
                assert(full.take(k + 1).last() == full[k]);
                assert(zip_ops(*zip) =~= full.take(k + 1));
            }
            Ok(())
        },
        Err(_) => {
            proof {
                if ops_accepted(full) {
                    lemma_ops_accepted_at(full, k);
                }
            }
            Err(XlsxError::IOError)
        },
    }
}

/// The root element, namespace declarations and opened sheet list of
/// the workbook part.
pub open spec fn wb_doc_header_events() -> Seq<XmlEv> {
    seq![
        ev_start("workbook"@),
        ev_attr("xmlns"@, "http://schemas.openxmlformats.org/spreadsheetml/2006/main"@),
        ev_attr(
            "xmlns:r"@,
            "http://schemas.openxmlformats.org/officeDocument/2006/relationships"@,
        ),
        ev_start("sheets"@),
    ]
}

/// One sheet declaration in the workbook part: sheet `k` (counted
/// from 1) carries relationship id `rId<k>` and sheet id `k`.
pub open spec fn wb_sheet_entry(name: Seq<char>, k: nat) -> Seq<XmlEv> {
    seq![
        ev_start("sheet"@),
        ev_attr("name"@, name),
        ev_attr("state"@, "visiable"@),
        ev_attr("r:id"@, rid_str(k)),
        ev_attr("sheetId"@, spec_dec(k)),
        ev_end(),
    ]
}

/// The sheet declarations, in order.
pub open spec fn wb_sheet_entries(sheets: Seq<SheetView>) -> Seq<XmlEv>
    decreases sheets.len(),
{
    if sheets.len() == 0 {
        Seq::<XmlEv>::empty()
    } else {
        wb_sheet_entries(sheets.drop_last()) + wb_sheet_entry(
            sheets.last().name,
            sheets.len(),
        )
    }
}

/// Everything the workbook part emits.
pub open spec fn wb_doc_events(sheets: Seq<SheetView>) -> Seq<XmlEv> {
    wb_doc_header_events() + wb_sheet_entries(sheets) + seq![ev_end(), ev_end()]
}

/// The fixed head of the package: the content types, the package
/// directories, and the two relationship parts.
pub open spec fn package_head_ops(v: WbView) -> Seq<ZipOp> {
    seq![
        op_file("[Content_Types].xml"@),
        op_write(rendered(ct_events(v.ct))),
        op_dir("_rels/"@),
        op_file("_rels/.rels"@),
        op_write(rendered(root_rel_events(v.root_rels))),
        op_dir("xl/"@),
        op_dir("xl/_rels/"@),
        op_dir("xl/worksheets/"@),
        op_file("xl/_rels/workbook.xml.rels"@),
        op_write(rendered(wb_rel_events(v.wb_rels, 0, v.sheets.len()))),
    ]
}

/// The worksheet parts, numbered from 1 in sheet order.
pub open spec fn sheets_ops(sheets: Seq<SheetView>) -> Seq<ZipOp>
    decreases sheets.len(),
{
    if sheets.len() == 0 {
        Seq::<ZipOp>::empty()
    } else {
        sheets_ops(sheets.drop_last()) + seq![
            op_file("xl/worksheets/sheet"@ + spec_dec(sheets.len()) + ".xml"@),
            op_write(rendered(sheet_events(sheets.last()))),
        ]
    }
}

/// The tail of the package: shared strings, styles, and the workbook
/// document.
pub open spec fn package_tail_ops(v: WbView) -> Seq<ZipOp> {
    seq![
        op_file("xl/sharedStrings.xml"@),
        op_write(rendered(sst_events(v.sst))),
        op_file("xl/styles.xml"@),
        op_write(rendered(style_events(v.style))),
        op_file("xl/workbook.xml"@),
        op_write(rendered(wb_doc_events(v.sheets))),
    ]
}

/// Every operation the save performs, in order: the package is only
/// valid because the worksheet part names written here, the
/// overrides in the content types, and the relationship targets all
/// follow the same numbering.
pub open spec fn package_ops(v: WbView) -> Seq<ZipOp> {
    package_head_ops(v) + sheets_ops(v.sheets) + package_tail_ops(v)
}

/// Two worksheets added under the same name end with two distinct
/// final names: the first keeps the name, the second receives the
/// generated fallback - provided the shared name is not itself the
/// fallback that would be generated.
pub proof fn lemma_name_collision_renames(names: Seq<Seq<char>>, name: Seq<char>)
    requires
        !names.contains(name),
        name != "Sheet"@ + spec_dec(names.len() + 2),
    ensures
        ({
            let n1 = resolve_sheet_name(names, name);
            let n2 = resolve_sheet_name(names.push(n1), name);
            n1 == name && n2 == "Sheet"@ + spec_dec(names.len() + 2) && n1 != n2
        }),
{
    let n1 = resolve_sheet_name(names, name);
    assert(names.push(n1)[names.len() as int] == name);
    assert(names.push(n1).contains(name));
}

} // verus!
