use crate::num_text::spec_dec;
use crate::num_text::u64_to_string;
use crate::xml::end_document;
use crate::xml::end_element;
use crate::xml::ev_attr;
use crate::xml::ev_decl;
use crate::xml::ev_end;
use crate::xml::ev_start;
use crate::xml::new_writer;
use crate::xml::rendered;
use crate::xml::start_element;
use crate::xml::write_attribute;
use crate::xml::write_declaration;
use crate::xml::writer_log;
use crate::xml::XmlEv;
use vstd::prelude::*;

verus! {

/// One content-type override: a part path and its media type.
struct Override {
    content_type: String,
    part_name: String,
}

/// The mathematical value of the content-type registry: the declared
/// (part path, media type) pairs in order, and the number of the next
/// worksheet part.
pub struct CtView {
    pub overrides: Seq<(Seq<char>, Seq<char>)>,
    pub next_sheet: nat,
}

/// The content-type registry: an append-only list of part
/// declarations, pre-seeded with the workbook, relationship and
/// shared-string parts.
pub struct ContentType {
    overrides: Vec<Override>,
    next_sheet_number: u32,
}

impl View for ContentType {
    type V = CtView;

    closed spec fn view(&self) -> CtView {
        CtView {
            overrides: self.overrides@.map_values(|o: Override| (o.part_name@, o.content_type@)),
            next_sheet: self.next_sheet_number as nat,
        }
    }
}

/// The entries every workbook package declares before any worksheet
/// is added.
pub open spec fn ct_seed() -> Seq<(Seq<char>, Seq<char>)> {
    seq![
        (
            "/xl/workbook.xml"@,
            "application/vnd.openxmlformats-officedocument.spreadsheetml.sheet.main+xml"@,
        ),
        ("/_rels/.rels"@, "application/vnd.openxmlformats-package.relationships+xml"@),
        (
            "/xl/_rels/workbook.xml.rels"@,
            "application/vnd.openxmlformats-package.relationships+xml"@,
        ),
        (
            "/xl/sharedStrings.xml"@,
            "application/vnd.openxmlformats-officedocument.spreadsheetml.sharedStrings+xml"@,
        ),
    ]
}

/// The worksheet overrides declared after `k` sheets were added:
/// one per sheet, numbered from 1.
pub open spec fn sheet_overrides(k: nat) -> Seq<(Seq<char>, Seq<char>)>
    decreases k,
{
    if k == 0 {
        Seq::<(Seq<char>, Seq<char>)>::empty()
    } else {
        sheet_overrides((k - 1) as nat).push(
            (
                sheet_part_name(k),
                "application/vnd.openxmlformats-officedocument.spreadsheetml.worksheet+xml"@,
            ),
        )
    }
}

/// The path of the `n`-th worksheet part.
pub open spec fn sheet_part_name(n: nat) -> Seq<char> {
    "/xl/worksheets/sheet"@ + spec_dec(n) + ".xml"@
}

impl ContentType {
    /// A registry holding the fixed seed entries; the first worksheet
    /// part will be number 1.
    pub fn new() -> (r: Self)
        ensures
            r@.overrides =~= ct_seed(),
            r@.next_sheet == 1,
    {
        let mut overrides: Vec<Override> = Vec::new();
        overrides.push(
            Override {
                content_type:
                    "application/vnd.openxmlformats-officedocument.spreadsheetml.sheet.main+xml".to_owned(),
                part_name: "/xl/workbook.xml".to_owned(),
            },
        );
        overrides.push(
            Override {
                content_type: "application/vnd.openxmlformats-package.relationships+xml".to_owned(),
                part_name: "/_rels/.rels".to_owned(),
            },
        );
        overrides.push(
            Override {
                content_type: "application/vnd.openxmlformats-package.relationships+xml".to_owned(),
                part_name: "/xl/_rels/workbook.xml.rels".to_owned(),
            },
        );
        overrides.push(
            Override {
                content_type:
                    "application/vnd.openxmlformats-officedocument.spreadsheetml.sharedStrings+xml".to_owned(),
                part_name: "/xl/sharedStrings.xml".to_owned(),
            },
        );
        let r = ContentType { next_sheet_number: 1, overrides };
        proof {
            assert(r@.overrides =~= ct_seed());
        }
        r
    }

    /// Declares the next worksheet part and advances the filename
    /// counter.
    pub fn add_sheet(&mut self)
        requires
            old(self)@.next_sheet < u32::MAX,
        ensures
            final (self)@.overrides == old(self)@.overrides.push(
                (
                    sheet_part_name(old(self)@.next_sheet),
                    "application/vnd.openxmlformats-officedocument.spreadsheetml.worksheet+xml"@,
                ),
            ),
            final (self)@.next_sheet == old(self)@.next_sheet + 1,
    {
        let ghost v0 = self@;
        let mut part_name = "/xl/worksheets/sheet".to_owned();
        part_name.append(u64_to_string(self.next_sheet_number as u64).as_str());
        part_name.append(".xml");
        self.overrides.push(
            Override {
                content_type:
                    "application/vnd.openxmlformats-officedocument.spreadsheetml.worksheet+xml".to_owned(),
                part_name,
            },
        );
        self.next_sheet_number = self.next_sheet_number + 1;
        proof {
            assert(self@.overrides =~= v0.overrides.push(
                (
                    sheet_part_name(v0.next_sheet),
                    "application/vnd.openxmlformats-officedocument.spreadsheetml.worksheet+xml"@,
                ),
            ));
        }
    }

    /// Serializes the content-type part: the `Types` root with the
    /// two generic defaults, then one `Override` per tracked part in
    /// declaration order.
    pub fn to_xml(self) -> (r: String)
        ensures
            r@ == rendered(ct_events(self@)),
    {
        let ghost v = self@;
        let mut w = new_writer();
        write_declaration(&mut w);
        start_element(&mut w, "Types");
        write_attribute(
            &mut w,
            "xmlns",
            "http://schemas.openxmlformats.org/package/2006/content-types",
        );
        start_element(&mut w, "Default");
        write_attribute(&mut w, "Extension", "rels");
        write_attribute(
            &mut w,
            "ContentType",
            "application/vnd.openxmlformats-package.relationships+xml",
        );
        end_element(&mut w);
        start_element(&mut w, "Default");
        write_attribute(&mut w, "Extension", "xml");
        write_attribute(&mut w, "ContentType", "application/xml");
        end_element(&mut w);
        let ghost header = ct_header_events();
        proof {
            assert(writer_log(w) =~= header);
        }
        let n = self.overrides.len();
        let mut i: usize = 0;
        while i < n
            invariant
                0 <= i <= n == self.overrides@.len(),
                v == self@,
                writer_log(w) == header + ct_overrides_events(v.overrides.take(i as int)),
            decreases n - i,
        {
            proof {
                assert(v.overrides[i as int] == (
                    self.overrides@[i as int].part_name@,
                    self.overrides@[i as int].content_type@,
                ));
            }
            let o = &self.overrides[i];
            start_element(&mut w, "Override");
            write_attribute(&mut w, "PartName", o.part_name.as_str());
            write_attribute(&mut w, "ContentType", o.content_type.as_str());
            end_element(&mut w);
            proof {
                assert(v.overrides.take(i + 1).drop_last() =~= v.overrides.take(i as int));
                assert(v.overrides.take(i + 1).last() == v.overrides[i as int]);
                assert(writer_log(w) =~= header + ct_overrides_events(v.overrides.take(i + 1)));
            }
            i = i + 1;
        }
        proof {
            assert(v.overrides.take(n as int) =~= v.overrides);
            assert(writer_log(w) =~= ct_events(v));
        }
        end_document(w)
    }
}

/// The declaration, root element and the two generic defaults of the
/// content-type part.
pub open spec fn ct_header_events() -> Seq<XmlEv> {
    seq![
        ev_decl(),
        ev_start("Types"@),
        ev_attr("xmlns"@, "http://schemas.openxmlformats.org/package/2006/content-types"@),
        ev_start("Default"@),
        ev_attr("Extension"@, "rels"@),
        ev_attr("ContentType"@, "application/vnd.openxmlformats-package.relationships+xml"@),
        ev_end(),
        ev_start("Default"@),
        ev_attr("Extension"@, "xml"@),
        ev_attr("ContentType"@, "application/xml"@),
        ev_end(),
    ]
}

/// The `Override` elements of the tracked parts, in order.
pub open spec fn ct_overrides_events(os: Seq<(Seq<char>, Seq<char>)>) -> Seq<XmlEv>
    decreases os.len(),
{
    if os.len() == 0 {
        Seq::<XmlEv>::empty()
    } else {
        ct_overrides_events(os.drop_last()) + seq![
            ev_start("Override"@),
            ev_attr("PartName"@, os.last().0),
            ev_attr("ContentType"@, os.last().1),
            ev_end(),
        ]
    }
}

/// Everything the content-type part emits.
pub open spec fn ct_events(v: CtView) -> Seq<XmlEv> {
    ct_header_events() + ct_overrides_events(v.overrides)
}

} // verus!
