//! Recovery of an archive entry's file name from its raw bytes.
//!
//! Archive producers do not declare the charset of entry names. The raw
//! bytes go through a statistical charset detector and are decoded with its
//! guess; a decoding without malformed bytes is taken as the name, otherwise
//! the container's own name for the entry is used, if it has one.

use vstd::prelude::*;

verus! {

/// The text that charset detection and decoding give for `raw`, and whether
/// the decoding met malformed bytes.
pub uninterp spec fn detected_decoding(raw: Seq<u8>) -> (Seq<char>, bool);

/// Relies on chardetng's `EncodingDetector` (`new`, `feed` with the whole
/// input, `guess` with no top-level domain and UTF-8 allowed) and on
/// encoding_rs's `Encoding::decode` for the guessed encoding: the decoded text
/// and its malformed-input flag, both functions of the bytes alone.
#[verifier::external_body]
pub(crate) fn detect_and_decode(raw: &[u8]) -> (r: (String, bool))
    ensures
        (r.0@, r.1) == detected_decoding(raw@),
{
    let mut detector = chardetng::EncodingDetector::new();
    detector.feed(raw, true);
    let encoding = detector.guess(None, true);
    let (text, _, had_errors) = encoding.decode(raw);
    (text.into_owned(), had_errors)
}

/// Where an entry's name came from.
pub enum NameChoice {
    /// The detector's decoding, which met no malformed bytes.
    Detected(String),
    /// The container's own name for the entry, used when the decoding failed.
    ContainerFallback(String),
    /// Neither source gave a name.
    Rejected,
}

impl NameChoice {
    pub open spec fn view_name(&self) -> Option<Seq<char>> {
        match self {
            NameChoice::Detected(t) => Some(t@),
            NameChoice::ContainerFallback(t) => Some(t@),
            NameChoice::Rejected => None,
        }
    }
}

/// The name an entry gets from a decoding and the container's name.
pub open spec fn chosen_name(
    decoded: Seq<char>,
    had_errors: bool,
    container: Option<Seq<char>>,
) -> Option<Seq<char>> {
    if !had_errors {
        Some(decoded)
    } else {
        container
    }
}

/// Picks the name of an entry from the result of decoding its raw name and
/// from the container's name for it.
pub fn choose_name(decoded: String, had_errors: bool, container: Option<String>) -> (r: NameChoice)
    ensures
        r.view_name() == chosen_name(decoded@, had_errors, crate::path::view_opt(container)),
        r is Detected <==> !had_errors,
        r is ContainerFallback <==> had_errors && container is Some,
{
    if !had_errors {
        NameChoice::Detected(decoded)
    } else {
        match container {
            Some(c) => NameChoice::ContainerFallback(c),
            None => NameChoice::Rejected,
        }
    }
}

/// Decodes the raw name of an entry with the detected charset, falling back
/// to the container's name when that decoding meets malformed bytes.
pub fn decode_entry_name(raw: &[u8], container: Option<String>) -> (r: NameChoice)
    ensures
        r.view_name() == chosen_name(
            detected_decoding(raw@).0,
            detected_decoding(raw@).1,
            crate::path::view_opt(container),
        ),
{
    let (decoded, had_errors) = detect_and_decode(raw);
    choose_name(decoded, had_errors, container)
}

} // verus!
