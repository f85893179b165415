use vstd::prelude::*;

verus! {

// The markup emitter of the `xmlwriter` crate is the one component of
// the serialization pipeline that this library does not verify.  It is
// modelled as an append-only log of emission events; every wrapper
// below records exactly the event its call performs, and the final
// text returned by `end_document` is a pure function of that log,
// since the writer is always created with the crate's default options
// and its output depends on nothing but the calls made on it.
//
// An event is a triple of an event kind and two text payloads:
//   kind 0: XML declaration                 (no payload)
//   kind 1: element start                   (payload: element name)
//   kind 2: attribute                       (payloads: name, value)
//   kind 3: text node                       (payload: text)
//   kind 4: element end                     (no payload)
pub type XmlEv = (int, Seq<char>, Seq<char>);

pub open spec fn ev_decl() -> XmlEv {
    (0int, Seq::<char>::empty(), Seq::<char>::empty())
}

pub open spec fn ev_start(name: Seq<char>) -> XmlEv {
    (1int, name, Seq::<char>::empty())
}

pub open spec fn ev_attr(name: Seq<char>, value: Seq<char>) -> XmlEv {
    (2int, name, value)
}

pub open spec fn ev_text(text: Seq<char>) -> XmlEv {
    (3int, text, Seq::<char>::empty())
}

pub open spec fn ev_end() -> XmlEv {
    (4int, Seq::<char>::empty(), Seq::<char>::empty())
}

/// The writer state reached after a log of events: 0 before anything
/// was written, 2 while the attribute list of an element is open, and
/// 1 otherwise.  Attributes may be written only in state 2.
pub open spec fn wstate(log: Seq<XmlEv>) -> int {
    if log.len() == 0 {
        0
    } else if log.last().0 == 1 || log.last().0 == 2 {
        2
    } else {
        1
    }
}

/// How many elements a log of events leaves open.
pub open spec fn wdepth(log: Seq<XmlEv>) -> nat
    decreases log.len(),
{
    if log.len() == 0 {
        0
    } else if log.last().0 == 1 {
        wdepth(log.drop_last()) + 1
    } else if log.last().0 == 4 {
        if wdepth(log.drop_last()) > 0 {
            (wdepth(log.drop_last()) - 1) as nat
        } else {
            0
        }
    } else {
        wdepth(log.drop_last())
    }
}

/// The events emitted on a writer so far.
pub uninterp spec fn writer_log(w: xmlwriter::XmlWriter) -> Seq<XmlEv>;

/// The text that the markup emitter produces for a log of events.
pub uninterp spec fn rendered(log: Seq<XmlEv>) -> Seq<char>;

#[verifier::external_type_specification]
#[verifier::external_body]
pub struct ExXmlWriter(xmlwriter::XmlWriter);

/// Relies on `xmlwriter::XmlWriter::new`: a fresh writer has produced
/// nothing.  Every writer of this library is created here, with the
/// crate's default options.
#[verifier::external_body]
pub fn new_writer() -> (w: xmlwriter::XmlWriter)
    ensures
        writer_log(w) == Seq::<XmlEv>::empty(),
{
    xmlwriter::XmlWriter::new(xmlwriter::Options::default())
}

/// Relies on `xmlwriter::XmlWriter::write_declaration`: emits the
/// fixed XML declaration; panics unless it is the first write.
#[verifier::external_body]
pub fn write_declaration(w: &mut xmlwriter::XmlWriter)
    requires
        wstate(writer_log(*old(w))) == 0,
    ensures
        writer_log(*final(w)) == writer_log(*old(w)).push(ev_decl()),
{
    w.write_declaration()
}

/// Relies on `xmlwriter::XmlWriter::start_element`: opens an element
/// and its attribute list.
#[verifier::external_body]
pub fn start_element(w: &mut xmlwriter::XmlWriter, name: &str)
    ensures
        writer_log(*final(w)) == writer_log(*old(w)).push(ev_start(name@)),
{
    w.start_element(name)
}

/// Relies on `xmlwriter::XmlWriter::write_attribute`: emits one
/// attribute, escaping quotes in the value; panics unless the current
/// element's attribute list is still open.
#[verifier::external_body]
pub fn write_attribute(w: &mut xmlwriter::XmlWriter, name: &str, value: &str)
    requires
        wstate(writer_log(*old(w))) == 2,
    ensures
        writer_log(*final(w)) == writer_log(*old(w)).push(ev_attr(name@, value@)),
{
    w.write_attribute(name, value)
}

/// Relies on `xmlwriter::XmlWriter::write_text`: emits a text node,
/// escaping `<`; panics unless some element is open.
#[verifier::external_body]
pub fn write_text(w: &mut xmlwriter::XmlWriter, text: &str)
    requires
        wstate(writer_log(*old(w))) != 0,
        wdepth(writer_log(*old(w))) > 0,
    ensures
        writer_log(*final(w)) == writer_log(*old(w)).push(ev_text(text@)),
{
    w.write_text(text)
}

/// Relies on `xmlwriter::XmlWriter::end_element`: closes the deepest
/// open element, or does nothing when none is open.
#[verifier::external_body]
pub fn end_element(w: &mut xmlwriter::XmlWriter)
    ensures
        writer_log(*final(w)) == writer_log(*old(w)).push(ev_end()),
{
    w.end_element()
}

/// Relies on `xmlwriter::XmlWriter::end_document`: closes every open
/// element and returns the produced text, a function of the emission
/// log alone.
#[verifier::external_body]
pub fn end_document(w: xmlwriter::XmlWriter) -> (r: String)
    ensures
        r@ == rendered(writer_log(w)),
{
    w.end_document()
}

} // verus!
