use vstd::prelude::*;

use crate::error::LDBError;
use crate::fs_action::FsAction;

verus! {

/// The zstd frame that `zstd`'s stream encoder makes of `data` at this
/// compression level and window log.
pub uninterp spec fn zstd_frame_of(data: Seq<u8>, level: i32, window_log: u32) -> Seq<u8>;

/// Relies on `zstd::stream::Encoder`: at a given level and window log the
/// frame it finishes depends on the input bytes alone. A window log that zstd
/// refuses is left at zstd's default, as the encoder leaves it; zstd clamps
/// the level, and writing to a `Vec` cannot fail.
#[verifier::external_body]
fn zstd_compress(data: &[u8], level: i32, window_log: u32) -> (r: Result<Vec<u8>, String>)
    ensures
        r is Ok,
        r->Ok_0@ == zstd_frame_of(data@, level, window_log),
{
    let mut encoder = zstd::stream::Encoder::new(Vec::new(), level).map_err(|e| e.to_string())?;
    let _ = encoder.set_parameter(zstd::zstd_safe::CParameter::WindowLog(window_log));
    std::io::Write::write_all(&mut encoder, data).map_err(|e| e.to_string())?;
    encoder.finish().map_err(|e| e.to_string())
}

/// Compresses the file at `string_path` into `out_path` with zstd. `exists`
/// says whether anything stands at `string_path`, and `contents` holds the
/// file's bytes where that is a regular file. A missing path is
/// `FileNotFound`; anything but a regular file is left alone.
pub fn compress(
    string_path: &str,
    out_path: &str,
    compression_level: i32,
    buff_size: usize,
    exists: bool,
    contents: Option<Vec<u8>>,
) -> (r: Result<Vec<FsAction>, LDBError>)
    ensures
        !exists ==> (r matches Err(LDBError::FileNotFound(p)) && p@ == string_path@),
        exists && contents is None ==> r is Ok && r->Ok_0@.len() == 0,
        exists && contents is Some ==> r is Ok && r->Ok_0@.len() == 1 && r->Ok_0@[0] is WriteFile
            && r->Ok_0@[0]->WriteFile_0@ == out_path@ && r->Ok_0@[0]->WriteFile_1@ == zstd_frame_of(
            contents->Some_0@,
            compression_level,
            (buff_size as int % 0x1_0000_0000) as u32,
        ),
{
    if !exists {
        return Err(LDBError::FileNotFound(string_path.to_string()));
    }
    match contents {
        None => Ok(Vec::new()),
        Some(data) => {
            let window_log: u32 = (buff_size as u64 % 0x1_0000_0000) as u32;
            match zstd_compress(data.as_slice(), compression_level, window_log) {
                Ok(out) => Ok(vec![FsAction::WriteFile(out_path.to_string(), out)]),
                Err(msg) => Err(LDBError::IOError(msg)),
            }
        },
    }
}

} // verus!
