use std::io::Write;
use vstd::prelude::*;

verus! {

// The archive writer of the `zip` crate packs the serialized parts
// into the final compressed package.  It is held opaquely in
// `PackWriter` and modelled as an append-only log of packing
// attempts; every wrapper below records exactly the attempt its call
// performs, marking a rejected one as such, so the log is the
// writer's full history.  The writer runs on an in-memory buffer
// with the crate's default simple options, whose timestamp is the
// fixed epoch default here (the crate's clock feature is off), so
// both whether an attempt succeeds and the bytes `finish` returns
// are pure functions of that history: an attempt fails only for
// reasons the history determines - a file or directory entry whose
// name duplicates an earlier entry, bytes written with no file entry
// open, or an entry grown past the format's plain size limit.
// `zip_accepts` names the success condition; `archive_bytes` names
// the finished output.
//
// An operation is a triple of a kind and two payloads:
//   kind 0: start of a file entry          (payload: its name)
//   kind 1: a directory entry              (payload: its name)
//   kind 2: bytes of the open file entry   (payload: its text)
//   kind 3: finalizing the archive         (no payload)
// A rejected attempt is recorded with 10 added to its kind.
pub type ZipOp = (int, Seq<char>, Seq<char>);

pub open spec fn op_file(name: Seq<char>) -> ZipOp {
    (0int, name, Seq::<char>::empty())
}

pub open spec fn op_dir(name: Seq<char>) -> ZipOp {
    (1int, name, Seq::<char>::empty())
}

pub open spec fn op_write(data: Seq<char>) -> ZipOp {
    (2int, Seq::<char>::empty(), data)
}

pub open spec fn op_finish() -> ZipOp {
    (3int, Seq::<char>::empty(), Seq::<char>::empty())
}

/// A rejected attempt at `op`, as the log records it.
pub open spec fn op_rejected(op: ZipOp) -> ZipOp {
    (op.0 + 10, op.1, op.2)
}

/// The archive writer over an in-memory buffer, opaque to
/// verification; what is known of it is its history of attempts,
/// `zip_ops`.
#[verifier::external_body]
pub struct PackWriter {
    inner: zip::ZipWriter<std::io::Cursor<Vec<u8>>>,
}

/// The attempts performed on an archive writer so far, rejected ones
/// marked.
pub uninterp spec fn zip_ops(z: PackWriter) -> Seq<ZipOp>;

/// Whether a writer with history `ops` accepts the attempt `op`: a
/// pure function of the two, since nothing outside the history (no
/// clock, no randomness, no fallible device) enters the writer's
/// behaviour here.
pub uninterp spec fn zip_accepts(ops: Seq<ZipOp>, op: ZipOp) -> bool;

/// The bytes of the finished archive for a history of operations.
pub uninterp spec fn archive_bytes(ops: Seq<ZipOp>) -> Seq<u8>;

#[verifier::external_type_specification]
#[verifier::external_body]
pub struct ExZipError(zip::result::ZipError);

/// Relies on `zip::ZipWriter::new`: a writer over a fresh in-memory
/// buffer has performed no attempt.  Every archive writer of this
/// library is created here.
#[verifier::external_body]
pub fn zip_new() -> (z: PackWriter)
    ensures
        zip_ops(z) == Seq::<ZipOp>::empty(),
{
    PackWriter { inner: zip::ZipWriter::new(std::io::Cursor::new(Vec::new())) }
}

/// Relies on `zip::ZipWriter::start_file` with the default simple
/// options: the call succeeds exactly when the writer's history
/// admits it (it is refused only for a duplicate entry name, or when
/// closing the previous entry trips the plain size limit), and on
/// success the archive gains a file entry under the given name,
/// ready to receive bytes.
#[verifier::external_body]
pub fn zip_start_file(z: &mut PackWriter, name: &str) -> (r: Result<(), zip::result::ZipError>)
    ensures
        r is Ok <==> zip_accepts(zip_ops(*old(z)), op_file(name@)),
        r is Ok ==> zip_ops(*final (z)) == zip_ops(*old(z)).push(op_file(name@)),
        r is Err ==> zip_ops(*final (z)) == zip_ops(*old(z)).push(op_rejected(op_file(name@))),
{
    z.inner.start_file(name, zip::write::SimpleFileOptions::default())
}

/// Relies on `zip::ZipWriter::add_directory` with the default simple
/// options: the call succeeds exactly when the writer's history
/// admits it, and on success the archive gains a directory entry
/// under the given name.
#[verifier::external_body]
pub fn zip_add_directory(z: &mut PackWriter, name: &str) -> (r: Result<
    (),
    zip::result::ZipError,
>)
    ensures
        r is Ok <==> zip_accepts(zip_ops(*old(z)), op_dir(name@)),
        r is Ok ==> zip_ops(*final (z)) == zip_ops(*old(z)).push(op_dir(name@)),
        r is Err ==> zip_ops(*final (z)) == zip_ops(*old(z)).push(op_rejected(op_dir(name@))),
{
    z.inner.add_directory(name, zip::write::SimpleFileOptions::default())
}

/// Relies on the writer's `write_all`: the call succeeds exactly
/// when the writer's history admits it (it is refused when no file
/// entry is open, or past the plain size limit), and on success the
/// given text's bytes have been appended to the open file entry.
#[verifier::external_body]
pub fn zip_write_all(z: &mut PackWriter, data: &str) -> (r: Result<(), zip::result::ZipError>)
    ensures
        r is Ok <==> zip_accepts(zip_ops(*old(z)), op_write(data@)),
        r is Ok ==> zip_ops(*final (z)) == zip_ops(*old(z)).push(op_write(data@)),
        r is Err ==> zip_ops(*final (z)) == zip_ops(*old(z)).push(op_rejected(op_write(data@))),
{
    match z.inner.write_all(data.as_bytes()) {
        Ok(()) => Ok(()),
        Err(e) => Err(zip::result::ZipError::from(e)),
    }
}

/// Relies on `zip::ZipWriter::finish`: finalization succeeds exactly
/// when the writer's history admits it, and then the returned buffer
/// holds the finalized archive, with its directory entries exactly
/// matching the operations performed.
#[verifier::external_body]
pub fn zip_finish(z: PackWriter) -> (r: Result<Vec<u8>, zip::result::ZipError>)
    ensures
        r is Ok <==> zip_accepts(zip_ops(z), op_finish()),
        r matches Ok(b) ==> b@ == archive_bytes(zip_ops(z)),
{
    let cursor = z.inner.finish()?;
    Ok(cursor.into_inner())
}

} // verus!
