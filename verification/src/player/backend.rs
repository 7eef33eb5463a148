//! The sizes and times of the audio pipeline: HTTPS, a bounded ring buffer, the
//! decoder, the speakers.
//!
//! Audio is never buffered in full. The ring buffer overwrites its oldest bytes
//! and holds the download back when the decoder falls behind, so a short track
//! and an endless one cost the same memory.

use vstd::prelude::*;

use super::chunked;

verus! {

broadcast use vstd::string::group_string_axioms;

/// Size of the ring buffer.
pub const BUFFER_BYTES: usize = 1_048_576;

/// How much must arrive before the decoder is handed the stream.
pub const PREFETCH_BYTES: u64 = 32_768;

/// How long the download may be silent before it is connected anew, in
/// milliseconds. Longer than anything that the requests themselves wait for.
pub const RETRY_TIMEOUT_MS: u64 = 30_000;

/// The URL of a stream that is to be opened, as it is written out again, or
/// what is wrong with it.
pub fn address(url: &str) -> (r: Result<String, String>)
    ensures
        match r {
            Ok(parsed) => chunked::url_of(url@) == Some(parsed@),
            Err(why) => chunked::url_of(url@) is None && why@
                == "resolved stream URL is not a valid URL"@,
        },
{
    match chunked::parse_url(url) {
        Some(parsed) => Ok(parsed),
        None => Err("resolved stream URL is not a valid URL".to_owned()),
    }
}

} // verus!
