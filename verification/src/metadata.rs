//! What is read of a track's tags.
use vstd::prelude::*;

verus! {

/// Whether symphonia's default probe, scanning the bytes from the start,
/// finds the marker of a registered container or metadata format within its
/// search limit.
pub uninterp spec fn probe_finds_marker(bytes: Seq<u8>) -> bool;

/// Runs the marker scan of symphonia's default probe
/// (`symphonia::default::get_probe().next`) over the bytes of a file; the
/// contract names whether it finds a format marker, and claims nothing else
/// of it. The format reader that the marker names is not opened: opening one
/// can panic on some streams, so that step is left out.
#[verifier::external_body]
fn probe_format(bytes: &[u8]) -> (found: bool)
    ensures
        found == probe_finds_marker(bytes@),
{
    let source = std::io::Cursor::new(bytes.to_vec());
    let mut mss =
        symphonia::core::io::MediaSourceStream::new(Box::new(source), Default::default());
    symphonia::default::get_probe().next(&mut mss).is_ok()
}

/// The tag summary of a track.
pub struct MetaData {
    track: String,
}

impl MetaData {
    /// Probes the bytes of a song file for a format marker. A file with one
    /// gives a summary that holds the word `metadata` (the tags are not read
    /// yet); a file without one gives none.
    pub fn new(song: &[u8]) -> (meta: Option<MetaData>)
        ensures
            meta is Some <==> probe_finds_marker(song@),
            meta matches Some(m) ==> m.track()@ == "metadata"@,
    {
        if probe_format(song) {
            Some(MetaData { track: "metadata".to_owned() })
        } else {
            None
        }
    }

    /// The summary text.
    pub closed spec fn track(self) -> String {
        self.track
    }

    /// The summary text.
    pub fn track_text(&self) -> (text: &str)
        ensures
            text@ == self.track()@,
    {
        self.track.as_str()
    }
}

} // verus!
