use crate::num_text::spec_dec;
use crate::num_text::u64_to_string;
use crate::xml::end_document;
use crate::xml::end_element;
use crate::xml::ev_attr;
use crate::xml::ev_decl;
use crate::xml::ev_end;
use crate::xml::ev_start;
use crate::xml::new_writer;
use crate::xml::rendered;
use crate::xml::start_element;
use crate::xml::write_attribute;
use crate::xml::write_declaration;
use crate::xml::writer_log;
use crate::xml::XmlEv;
use vstd::prelude::*;

verus! {

/// A relationship registry: a monotonic id counter handing out the
/// tokens `rId1`, `rId2`, ... in strict allocation order.  The
/// package root and the workbook each own an independent instance.
pub struct RelationShip {
    next_seq_number: u32,
}

impl View for RelationShip {
    type V = nat;

    closed spec fn view(&self) -> nat {
        self.next_seq_number as nat
    }
}

/// The token of relationship id `n`.
pub open spec fn rid_str(n: nat) -> Seq<char> {
    "rId"@ + spec_dec(n)
}

impl RelationShip {
    /// A registry whose first token will be `rId1`.
    pub fn new() -> (r: Self)
        ensures
            r@ == 1,
    {
        RelationShip { next_seq_number: 1 }
    }

    /// Hands out the next relationship id token.
    pub fn next_id(&mut self) -> (r: String)
        requires
            old(self)@ < u32::MAX,
        ensures
            r@ == rid_str(old(self)@),
            final (self)@ == old(self)@ + 1,
    {
        let mut s = "rId".to_owned();
        s.append(u64_to_string(self.next_seq_number as u64).as_str());
        self.next_seq_number = self.next_seq_number + 1;
        proof {
            assert(s@ =~= rid_str(old(self)@));
        }
        s
    }

    /// Serializes the package-root relationship part: one
    /// relationship declaring the workbook part.
    pub fn to_root_xml(self) -> (r: String)
        requires
            self@ < u32::MAX,
        ensures
            r@ == rendered(root_rel_events(self@)),
    {
        let ghost v = self@;
        let mut this = self;
        let mut w = new_writer();
        write_declaration(&mut w);
        start_element(&mut w, "Relationships");
        write_attribute(
            &mut w,
            "xmlns",
            "http://schemas.openxmlformats.org/package/2006/relationships",
        );
        start_element(&mut w, "Relationship");
        let id = this.next_id();
        write_attribute(&mut w, "Id", id.as_str());
        write_attribute(
            &mut w,
            "Type",
            "http://schemas.openxmlformats.org/officeDocument/2006/relationships/officeDocument",
        );
        write_attribute(&mut w, "Target", "xl/workbook.xml");
        proof {
            assert(writer_log(w) =~= root_rel_events(v));
        }
        end_document(w)
    }

    /// Serializes the workbook-level relationship part: in order, one
    /// relationship per worksheet, the style part, one per theme, and
    /// the shared-string part, with ids in strict allocation order.
    pub fn to_work_book_rel_xml(self, no_of_themes: u32, no_of_sheets: usize) -> (r: String)
        requires
            self@ + no_of_sheets + no_of_themes + 2 <= u32::MAX,
        ensures
            r@ == rendered(wb_rel_events(self@, no_of_themes as nat, no_of_sheets as nat)),
    {
        let ghost v = self@;
        let mut this = self;
        let mut w = new_writer();
        start_element(&mut w, "Relationships");
        write_attribute(
            &mut w,
            "xmlns",
            "http://schemas.openxmlformats.org/package/2006/relationships",
        );
        let ghost header = seq![
            ev_start("Relationships"@),
            ev_attr("xmlns"@, "http://schemas.openxmlformats.org/package/2006/relationships"@),
        ];
        proof {
            assert(writer_log(w) =~= header);
            assert(sheet_rel_events(v, 0) =~= Seq::<XmlEv>::empty());
        }
        let mut i: usize = 0;
        while i < no_of_sheets
            invariant
                0 <= i <= no_of_sheets,
                v + no_of_sheets + no_of_themes + 2 <= u32::MAX,
                this@ == v + i,
                writer_log(w) == header + sheet_rel_events(v, i as nat),
            decreases no_of_sheets - i,
        {
            start_element(&mut w, "Relationship");
            let id = this.next_id();
            write_attribute(&mut w, "Id", id.as_str());
            write_attribute(
                &mut w,
                "Type",
                "http://schemas.openxmlformats.org/officeDocument/2006/relationships/worksheet",
            );
            let mut target = "worksheets/sheet".to_owned();
            target.append(u64_to_string((i as u64) + 1).as_str());
            target.append(".xml");
            write_attribute(&mut w, "Target", target.as_str());
            end_element(&mut w);
            proof {
                assert(target@ =~= "worksheets/sheet"@ + spec_dec((i + 1) as nat) + ".xml"@);
                assert(writer_log(w) =~= header + sheet_rel_events(v, (i + 1) as nat));
            }
            i = i + 1;
        }
        start_element(&mut w, "Relationship");
        let id = this.next_id();
        write_attribute(&mut w, "Id", id.as_str());
        write_attribute(
            &mut w,
            "Type",
            "http://schemas.openxmlformats.org/officeDocument/2006/relationships/styles",
        );
        write_attribute(&mut w, "Target", "styles.xml");
        end_element(&mut w);
        let ghost mid = header + sheet_rel_events(v, no_of_sheets as nat) + style_rel_events(
            (v + no_of_sheets) as nat,
        );
        proof {
            assert(writer_log(w) =~= mid);
            assert(theme_rel_events((v + no_of_sheets + 1) as nat, 0) =~= Seq::<XmlEv>::empty());
        }
        let mut t: usize = 0;
        while t < no_of_themes as usize
            invariant
                0 <= t <= no_of_themes,
                v + no_of_sheets + no_of_themes + 2 <= u32::MAX,
                this@ == v + no_of_sheets + 1 + t,
                writer_log(w) == mid + theme_rel_events((v + no_of_sheets + 1) as nat, t as nat),
            decreases no_of_themes - t,
        {
            start_element(&mut w, "Relationship");
            let id = this.next_id();
            write_attribute(&mut w, "Id", id.as_str());
            write_attribute(
                &mut w,
                "Type",
                "http://schemas.openxmlformats.org/officeDocument/2006/relationships/officeDocument/theme",
            );
            let mut target = "theme".to_owned();
            target.append(u64_to_string((t as u64) + 1).as_str());
            target.append(".xml");
            write_attribute(&mut w, "Target", target.as_str());
            end_element(&mut w);
            proof {
                assert(target@ =~= "theme"@ + spec_dec((t + 1) as nat) + ".xml"@);
                assert(writer_log(w) =~= mid + theme_rel_events(
                    (v + no_of_sheets + 1) as nat,
                    (t + 1) as nat,
                ));
            }
            t = t + 1;
        }
        start_element(&mut w, "Relationship");
        let id = this.next_id();
        write_attribute(&mut w, "Id", id.as_str());
        write_attribute(
            &mut w,
            "Type",
            "http://schemas.openxmlformats.org/officeDocument/2006/relationships/sharedStrings",
        );
        write_attribute(&mut w, "Target", "sharedStrings.xml");
        end_element(&mut w);
        proof {
            assert(writer_log(w) =~= wb_rel_events(v, no_of_themes as nat, no_of_sheets as nat));
        }
        end_document(w)
    }
}

/// The package-root relationship part: the workbook declaration.
pub open spec fn root_rel_events(v: nat) -> Seq<XmlEv> {
    seq![
        ev_decl(),
        ev_start("Relationships"@),
        ev_attr("xmlns"@, "http://schemas.openxmlformats.org/package/2006/relationships"@),
        ev_start("Relationship"@),
        ev_attr("Id"@, rid_str(v)),
        ev_attr(
            "Type"@,
            "http://schemas.openxmlformats.org/officeDocument/2006/relationships/officeDocument"@,
        ),
        ev_attr("Target"@, "xl/workbook.xml"@),
    ]
}

/// One relationship element.
pub open spec fn rel_events(id: nat, ty: Seq<char>, target: Seq<char>) -> Seq<XmlEv> {
    seq![
        ev_start("Relationship"@),
        ev_attr("Id"@, rid_str(id)),
        ev_attr("Type"@, ty),
        ev_attr("Target"@, target),
        ev_end(),
    ]
}

/// The worksheet relationships: sheet `k` gets id `first + k - 1` and
/// target `worksheets/sheet<k>.xml`.
pub open spec fn sheet_rel_events(first: nat, count: nat) -> Seq<XmlEv>
    decreases count,
{
    if count == 0 {
        Seq::<XmlEv>::empty()
    } else {
        sheet_rel_events(first, (count - 1) as nat) + rel_events(
            (first + count - 1) as nat,
            "http://schemas.openxmlformats.org/officeDocument/2006/relationships/worksheet"@,
            "worksheets/sheet"@ + spec_dec(count) + ".xml"@,
        )
    }
}

/// The style relationship.
pub open spec fn style_rel_events(id: nat) -> Seq<XmlEv> {
    rel_events(
        id,
        "http://schemas.openxmlformats.org/officeDocument/2006/relationships/styles"@,
        "styles.xml"@,
    )
}

/// The theme relationships: theme `k` gets id `first + k - 1` and
/// target `theme<k>.xml`.
pub open spec fn theme_rel_events(first: nat, count: nat) -> Seq<XmlEv>
    decreases count,
{
    if count == 0 {
        Seq::<XmlEv>::empty()
    } else {
        theme_rel_events(first, (count - 1) as nat) + rel_events(
            (first + count - 1) as nat,
            "http://schemas.openxmlformats.org/officeDocument/2006/relationships/officeDocument/theme"@,
            "theme"@ + spec_dec(count) + ".xml"@,
        )
    }
}

/// The shared-string relationship.
pub open spec fn sst_rel_events(id: nat) -> Seq<XmlEv> {
    rel_events(
        id,
        "http://schemas.openxmlformats.org/officeDocument/2006/relationships/sharedStrings"@,
        "sharedStrings.xml"@,
    )
}

/// Everything the workbook-level relationship part emits: the
/// worksheets in order, the style part, the themes, the shared-string
/// part, with ids in strict allocation order starting at `v`.
pub open spec fn wb_rel_events(v: nat, no_of_themes: nat, no_of_sheets: nat) -> Seq<XmlEv> {
    seq![
        ev_start("Relationships"@),
        ev_attr("xmlns"@, "http://schemas.openxmlformats.org/package/2006/relationships"@),
    ] + sheet_rel_events(v, no_of_sheets) + style_rel_events((v + no_of_sheets) as nat)
        + theme_rel_events((v + no_of_sheets + 1) as nat, no_of_themes) + sst_rel_events(
        (v + no_of_sheets + 1 + no_of_themes) as nat,
    )
}

} // verus!
