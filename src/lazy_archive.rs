use vstd::prelude::*;

use crate::error::LDBError;

verus! {

/// A `tar::Builder` over an in-memory buffer. Verus cannot take the
/// declaration of `tar::Builder` itself (its `Write` bound is outside what it
/// knows), so the builder is held here, opaque.
#[verifier::external_body]
pub struct TarBuilder {
    inner: tar::Builder<Vec<u8>>,
}

/// The entries, path and contents, that have been appended to a tar builder
/// over a buffer, in order.
pub uninterp spec fn tar_entries_of(b: TarBuilder) -> Seq<(Seq<char>, Seq<u8>)>;

/// The tar stream of regular-file entries with these paths and contents, as
/// `tar_append` appends them: a fresh GNU header with size and mode set, the
/// other fields as `tar::Header::new_gnu` leaves them.
pub uninterp spec fn tar_stream_of(entries: Seq<(Seq<char>, Seq<u8>)>) -> Seq<u8>;

/// Whether `tar` accepts `p` as the path of an entry: a relative path without
/// `..` components that fits in a header or in a GNU long-name entry.
pub uninterp spec fn tar_path_ok(p: Seq<char>) -> bool;

/// Relies on `tar::Builder::new`: a builder over an empty buffer, with nothing
/// appended yet.
#[verifier::external_body]
fn tar_builder() -> (r: TarBuilder)
    ensures
        tar_entries_of(r) == Seq::<(Seq<char>, Seq<u8>)>::empty(),
{
    TarBuilder { inner: tar::Builder::new(Vec::new()) }
}

/// Relies on `tar::Builder::append_data`: it fails exactly on the paths that
/// tar refuses, checked before anything is written, and otherwise the
/// regular-file entry follows those appended before it (writes to a `Vec`
/// cannot fail).
#[verifier::external_body]
fn tar_append(b: &mut TarBuilder, path: &str, data: &[u8]) -> (r: Result<(), String>)
    ensures
        r is Ok <==> tar_path_ok(path@),
        r is Ok ==> tar_entries_of(*final(b)) == tar_entries_of(*old(b)).push((path@, data@)),
        r is Err ==> tar_entries_of(*final(b)) == tar_entries_of(*old(b)),
{
    let mut header = tar::Header::new_gnu();
    header.set_size(data.len() as u64);
    header.set_mode(0o644);
    b.inner.append_data(&mut header, path, data).map_err(|e| e.to_string())
}

/// Relies on `tar::Builder::into_inner`: it writes the end-of-archive marker
/// and hands back the buffer, which holds the stream of the entries appended;
/// writing to a `Vec` cannot fail.
#[verifier::external_body]
fn tar_into_inner(b: TarBuilder) -> (r: Result<Vec<u8>, String>)
    ensures
        r is Ok,
        r->Ok_0@ == tar_stream_of(tar_entries_of(b)),
{
    b.inner.into_inner().map_err(|e| e.to_string())
}

/// The paths and contents of a list of files.
pub open spec fn entries_view(e: Seq<(String, Vec<u8>)>) -> Seq<(Seq<char>, Seq<u8>)> {
    e.map_values(|x: (String, Vec<u8>)| (x.0@, x.1@))
}

/// Every path of `entries` is one that tar accepts.
pub open spec fn tar_paths_ok(entries: Seq<(String, Vec<u8>)>) -> bool {
    forall|j: int| 0 <= j < entries.len() ==> tar_path_ok(#[trigger] entries[j].0@)
}

/// Packs the files of a database tree, given by their paths relative to its
/// root and their contents, into one tar stream, in the order given. It fails
/// only on a path that tar refuses.
pub fn build_tar(entries: &Vec<(String, Vec<u8>)>) -> (r: Result<Vec<u8>, LDBError>)
    ensures
        r is Ok <==> tar_paths_ok(entries@),
        r is Ok ==> r->Ok_0@ == tar_stream_of(entries_view(entries@)),
        r is Err ==> r->Err_0 is IOError,
{
    let mut b = tar_builder();
    let mut i: usize = 0;
    while i < entries.len()
        invariant
            i <= entries@.len(),
            tar_entries_of(b) == entries_view(entries@.subrange(0, i as int)),
            forall|j: int| 0 <= j < i ==> tar_path_ok(#[trigger] entries@[j].0@),
        decreases entries@.len() - i,
    {
        match tar_append(&mut b, entries[i].0.as_str(), entries[i].1.as_slice()) {
            Ok(()) => {},
            Err(msg) => {
                assert(!tar_path_ok(entries@[i as int].0@));
                return Err(LDBError::IOError(msg));
            },
        }
        i = i + 1;
        assert(entries_view(entries@.subrange(0, i as int)) =~= entries_view(
            entries@.subrange(0, i - 1),
        ).push((entries@[i - 1].0@, entries@[i - 1].1@)));
    }
    assert(entries@.subrange(0, i as int) =~= entries@);
    match tar_into_inner(b) {
        Ok(v) => Ok(v),
        Err(msg) => Err(LDBError::IOError(msg)),
    }
}

/// The LZ4 frame that `lz4_flex`'s frame encoder, with its default settings,
/// makes of `data`.
pub uninterp spec fn lz4_frame_of(data: Seq<u8>) -> Seq<u8>;

/// Relies on `lz4_flex::frame::FrameEncoder` with its default frame settings:
/// the frame it finishes is a function of the input bytes alone, and over a
/// `Vec` neither the write nor `finish` fails.
#[verifier::external_body]
fn lz4_frame_compress(data: &[u8]) -> (r: Result<Vec<u8>, String>)
    ensures
        r is Ok,
        r->Ok_0@ == lz4_frame_of(data@),
{
    let mut encoder = lz4_flex::frame::FrameEncoder::new(Vec::new());
    match std::io::Write::write_all(&mut encoder, data) {
        Ok(()) => {},
        Err(e) => return Err(e.to_string()),
    }
    encoder.finish().map_err(|e| e.to_string())
}

/// Relies on `lz4_flex::frame::FrameDecoder`: decoding a frame that the frame
/// encoder made gives back its input (the round trip that the crate's
/// documentation and fuzz targets assert).
#[verifier::external_body]
fn lz4_frame_decompress(data: &[u8]) -> (r: Result<Vec<u8>, String>)
    ensures
        forall|x: Seq<u8>| #[trigger] lz4_frame_of(x) == data@ ==> r is Ok && r->Ok_0@ == x,
{
    let mut decoder = lz4_flex::frame::FrameDecoder::new(data);
    let mut out: Vec<u8> = Vec::new();
    match std::io::Read::read_to_end(&mut decoder, &mut out) {
        Ok(_) => Ok(out),
        Err(e) => Err(e.to_string()),
    }
}

/// Compresses the byte stream of a packed database into an archive.
pub fn compress_file(data: &[u8]) -> (r: Result<Vec<u8>, LDBError>)
    ensures
        r is Ok,
        r->Ok_0@ == lz4_frame_of(data@),
{
    match lz4_frame_compress(data) {
        Ok(v) => Ok(v),
        Err(msg) => Err(LDBError::IOError(msg)),
    }
}

/// The byte stream that an archive holds; archives made by [`compress_file`]
/// always decompress to what was compressed.
pub fn decompress_file(data: &[u8]) -> (r: Result<Vec<u8>, LDBError>)
    ensures
        forall|x: Seq<u8>| #[trigger] lz4_frame_of(x) == data@ ==> r is Ok && r->Ok_0@ == x,
        r is Err ==> r->Err_0 is IOError,
{
    match lz4_frame_decompress(data) {
        Ok(v) => Ok(v),
        Err(msg) => Err(LDBError::IOError(msg)),
    }
}

/// Compiles a database tree, given as its files' relative paths and contents,
/// into archive bytes: the tar stream of the files, compressed. It fails only
/// on a path that tar refuses.
pub fn compile_archive(entries: &Vec<(String, Vec<u8>)>) -> (r: Result<Vec<u8>, LDBError>)
    ensures
        r is Ok <==> tar_paths_ok(entries@),
        r is Ok ==> r->Ok_0@ == lz4_frame_of(tar_stream_of(entries_view(entries@))),
        r is Err ==> r->Err_0 is IOError,
{
    let packed = match build_tar(entries) {
        Ok(p) => p,
        Err(e) => return Err(e),
    };
    compress_file(packed.as_slice())
}

/// The tar stream that archive bytes hold; an archive that
/// [`compile_archive`] made gives back the stream of the files it packed.
pub fn decompile_archive(data: &[u8]) -> (r: Result<Vec<u8>, LDBError>)
    ensures
        forall|e: Seq<(Seq<char>, Seq<u8>)>|
            #[trigger] lz4_frame_of(tar_stream_of(e)) == data@ ==> r is Ok && r->Ok_0@
                == tar_stream_of(e),
        r is Err ==> r->Err_0 is IOError,
{
    decompress_file(data)
}

} // verus!
