use crate::num_text::spec_dec;
use crate::num_text::u64_to_string;
use crate::num_text::usize_to_string;
use crate::tables::find_string;
use crate::tables::lemma_intern_idempotent;
use crate::tables::spec_intern;
use crate::tables::str_views;
use crate::xml::end_document;
use crate::xml::ev_attr;
use crate::xml::ev_decl;
use crate::xml::ev_end;
use crate::xml::ev_start;
use crate::xml::ev_text;
use crate::xml::new_writer;
use crate::xml::rendered;
use crate::xml::start_element;
use crate::xml::end_element;
use crate::xml::write_attribute;
use crate::xml::write_declaration;
use crate::xml::write_text;
use crate::xml::writer_log;
use crate::xml::XmlEv;
use vstd::prelude::*;

verus! {

/// The mathematical value of the shared-string table: the interned
/// texts in id order (the text with id `i + 1` stands at index `i`)
/// and the total number of occurrences seen.
pub struct SstView {
    pub strings: Seq<Seq<char>>,
    pub total: nat,
}

/// The workbook-wide text deduplication table.  Ids are dense,
/// assigned in first-seen order starting at 1; the total-occurrence
/// counter is distinct from the unique count.
#[derive(Debug)]
pub struct SharedStrings {
    strings: Vec<String>,
    total_counter: u32,
}

impl View for SharedStrings {
    type V = SstView;

    closed spec fn view(&self) -> SstView {
        SstView { strings: str_views(self.strings@), total: self.total_counter as nat }
    }
}

/// Interning one text: a present text keeps its id, a new text is
/// appended and gets the next id.  Returns the table after the step
/// and the id, which is the table index plus one.
pub open spec fn spec_add_string(tab: Seq<Seq<char>>, s: Seq<char>) -> (Seq<Seq<char>>, int) {
    let (t2, i) = spec_intern(tab, s);
    (t2, i + 1)
}

impl SharedStrings {
    /// An empty table: no texts, no occurrences.
    pub fn new() -> (r: Self)
        ensures
            r@.strings =~= Seq::<Seq<char>>::empty(),
            r@.total == 0,
    {
        SharedStrings { strings: Vec::new(), total_counter: 0 }
    }

    /// Interns the text in `st` and destructively rewrites `st` to
    /// the decimal string of the returned id.  The total counter
    /// grows by one on every call; the table grows only for a text
    /// not seen before.
    pub fn add_string(&mut self, st: &mut String) -> (id: u32)
        requires
            old(self)@.total < u32::MAX,
            old(self)@.strings.len() < u32::MAX,
        ensures
            ({
                let (tab2, sid) = spec_add_string(old(self)@.strings, old(st)@);
                &&& final (self)@.strings == tab2
                &&& id as int == sid
                &&& final (self)@.total == old(self)@.total + 1
                &&& final (st)@ == spec_dec(sid as nat)
            }),
    {
        self.total_counter = self.total_counter + 1;
        match find_string(&self.strings, st) {
            Some(i) => {
                let id = (i as u32) + 1;
                *st = u64_to_string(id as u64);
                id
            },
            None => {
                let id = (self.strings.len() as u32) + 1;
                self.strings.push(st.clone());
                *st = u64_to_string(id as u64);
                proof {
                    assert(str_views(self.strings@) =~= str_views(old(self).strings@).push(
                        old(st)@,
                    ));
                }
                id
            },
        }
    }

    /// How many distinct texts the table holds.
    pub fn unique_count(&self) -> (r: usize)
        ensures
            r == self@.strings.len(),
    {
        self.strings.len()
    }

    /// How many occurrences have been interned in all.
    pub fn total_count(&self) -> (r: u32)
        ensures
            r == self@.total,
    {
        self.total_counter
    }

    /// Serializes the shared-string part: the `sst` root carries the
    /// total and unique counts, and one `si`/`t` run per text follows
    /// in id order.
    pub fn to_xml(self) -> (r: String)
        ensures
            r@ == rendered(sst_events(self@)),
    {
        let ghost v = self@;
        let mut w = new_writer();
        write_declaration(&mut w);
        start_element(&mut w, "sst");
        write_attribute(&mut w, "xmlns", "http://schemas.openxmlformats.org/spreadsheetml/2006/main");
        write_attribute(&mut w, "count", u64_to_string(self.total_counter as u64).as_str());
        write_attribute(&mut w, "uniqueCount", usize_to_string(self.strings.len()).as_str());
        let ghost header = sst_header_events(v);
        proof {
            assert(writer_log(w) =~= header);
        }
        let n = self.strings.len();
        let mut i: usize = 0;
        while i < n
            invariant
                0 <= i <= n == self.strings@.len(),
                v.strings == str_views(self.strings@),
                writer_log(w) == header + strings_events(v.strings.take(i as int)),
            decreases n - i,
        {
            start_element(&mut w, "si");
            start_element(&mut w, "t");
            write_text(&mut w, self.strings[i].as_str());
            end_element(&mut w);
            end_element(&mut w);
            proof {
                assert(v.strings.take(i + 1).drop_last() =~= v.strings.take(i as int));
                assert(v.strings.take(i + 1).last() == v.strings[i as int]);
                assert(writer_log(w) =~= header + strings_events(v.strings.take(i + 1)));
            }
            i = i + 1;
        }
        proof {
            assert(v.strings.take(n as int) =~= v.strings);
            assert(writer_log(w) =~= sst_events(v));
        }
        end_document(w)
    }
}

/// The declaration, root element and counts of the shared-string
/// part.
pub open spec fn sst_header_events(v: SstView) -> Seq<XmlEv> {
    seq![
        ev_decl(),
        ev_start("sst"@),
        ev_attr("xmlns"@, "http://schemas.openxmlformats.org/spreadsheetml/2006/main"@),
        ev_attr("count"@, spec_dec(v.total)),
        ev_attr("uniqueCount"@, spec_dec(v.strings.len())),
    ]
}

/// One `si` text run.
pub open spec fn si_events(s: Seq<char>) -> Seq<XmlEv> {
    seq![ev_start("si"@), ev_start("t"@), ev_text(s), ev_end(), ev_end()]
}

/// The text runs of the table, in id order.
pub open spec fn strings_events(tab: Seq<Seq<char>>) -> Seq<XmlEv>
    decreases tab.len(),
{
    if tab.len() == 0 {
        Seq::<XmlEv>::empty()
    } else {
        strings_events(tab.drop_last()) + si_events(tab.last())
    }
}

/// Everything the shared-string part emits.
pub open spec fn sst_events(v: SstView) -> Seq<XmlEv> {
    sst_header_events(v) + strings_events(v.strings)
}

/// Interning the same text twice yields the same id both times, and
/// the second pass leaves the table - and with it the unique count -
/// unchanged.
pub proof fn lemma_add_string_idempotent(tab: Seq<Seq<char>>, s: Seq<char>)
    ensures
        ({
            let (t1, id1) = spec_add_string(tab, s);
            let (t2, id2) = spec_add_string(t1, s);
            &&& id2 == id1
            &&& t2 == t1
            &&& 1 <= id1 <= t1.len()
            &&& t1[id1 - 1] == s
        }),
{
    lemma_intern_idempotent(tab, s);
}

} // verus!
