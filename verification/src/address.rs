//! The file name that an address ends in.

use crate::text::string_views;
use vstd::prelude::*;

verus! {

/// The segments of the path of an address, as the `url` crate reads them:
/// `Url::parse`, then `path_segments`. `None` where the text is no address
/// or the address has no path of segments.
pub uninterp spec fn path_segments_of(address: Seq<char>) -> Option<Seq<Seq<char>>>;

/// A text with its percent-encoded bytes decoded, as
/// `percent_encoding::percent_decode` followed by `decode_utf8_lossy` gives it.
pub uninterp spec fn percent_decoded(text: Seq<char>) -> Seq<char>;

/// `url::Url::parse`, then `Url::path_segments`: the segments, in order.
#[verifier::external_body]
pub(crate) fn path_segments(address: &str) -> (r: Option<Vec<String>>)
    ensures
        match r {
            Some(segments) => path_segments_of(address@) == Some(string_views(segments@)),
            None => path_segments_of(address@) is None,
        },
{
    let url = url::Url::parse(address).ok()?;
    let segments = url.path_segments()?;
    Some(segments.map(|segment| segment.to_string()).collect())
}

/// `percent_encoding::percent_decode` on the bytes of the text, then
/// `decode_utf8_lossy`.
#[verifier::external_body]
pub(crate) fn percent_decode_lossy(text: &str) -> (r: String)
    ensures
        r@ == percent_decoded(text@),
{
    percent_encoding::percent_decode(text.as_bytes()).decode_utf8_lossy().to_string()
}

/// The last segment of the path of an address.
pub open spec fn last_segment(address: Seq<char>) -> Option<Seq<char>> {
    match path_segments_of(address) {
        Some(segments) => if segments.len() > 0 {
            Some(segments.last())
        } else {
            None
        },
        None => None,
    }
}

/// The name of the file that an address points to.
pub open spec fn file_name_at(address: Seq<char>) -> Option<Seq<char>> {
    match last_segment(address) {
        Some(segment) => Some(percent_decoded(segment)),
        None => None,
    }
}

/// The last segment of the path of `address`.
pub fn last_path_segment(address: &str) -> (r: Option<String>)
    ensures
        match r {
            Some(segment) => last_segment(address@) == Some(segment@),
            None => last_segment(address@) is None,
        },
{
    match path_segments(address) {
        Some(segments) => {
            if segments.len() > 0 {
                assert(string_views(segments@).last() == segments@.last()@);
                Some(segments[segments.len() - 1].clone())
            } else {
                None
            }
        },
        None => None,
    }
}

/// The name under which the file at `address` is saved: the last segment of
/// its path, decoded; `None` where the address has none.
pub fn file_name_from_url(address: &str) -> (r: Option<String>)
    ensures
        match r {
            Some(name) => file_name_at(address@) == Some(name@),
            None => file_name_at(address@) is None,
        },
{
    match last_path_segment(address) {
        Some(segment) => Some(percent_decode_lossy(segment.as_str())),
        None => None,
    }
}

/// Where a file of that name is saved below a directory.
pub open spec fn saved_at(dir: Seq<char>, name: Seq<char>) -> Seq<char> {
    dir + seq!['/'] + name
}

/// The path of the file `name` below `dir`.
pub fn destination(dir: &str, name: &str) -> (r: String)
    ensures
        r@ == saved_at(dir@, name@),
{
    let mut r = String::from_str(dir);
    r.push('/');
    r.append(name);
    r
}

} // verus!
