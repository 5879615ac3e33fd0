//! A media stream: the playlist location, and the download session over the
//! fragments that the playlist lists.

use vstd::prelude::*;
use crate::session::{Phase, Session};
use crate::text::{before, prefix_before, views};

verus! {

broadcast use vstd::string::group_string_axioms;

/// A stream, known by the location of its playlist.
pub struct Stream {
    location: String,
}

impl View for Stream {
    type V = Seq<char>;

    /// The playlist location.
    closed spec fn view(&self) -> Seq<char> {
        self.location@
    }
}

/// The URI that fragment paths are relative to: the playlist location up to
/// the word `playlist`.
pub open spec fn base_uri_of(location: Seq<char>) -> Seq<char> {
    before(location, "playlist"@)
}

impl Stream {
    /// The stream whose playlist is at `location`.
    pub fn new(location: String) -> (s: Stream)
        ensures
            s@ == location@,
    {
        Stream { location }
    }

    /// The playlist location.
    pub fn location(&self) -> (r: &str)
        ensures
            r@ == self@,
    {
        self.location.as_str()
    }

    /// The URI that fragment paths are relative to.
    pub fn base_uri(&self) -> (r: String)
        ensures
            r@ == base_uri_of(self@),
    {
        prefix_before(self.location.as_str(), "playlist")
    }

    /// The session that downloads the fragments `fragments` of this stream,
    /// each from the base URI followed by its path, with at most
    /// `concurrency` fetches in flight at once. The caller drives it.
    pub fn download_fragments(&self, concurrency: usize, fragments: &Vec<String>) -> (s: Session)
        requires
            0 < concurrency,
        ensures
            s.wf(),
            s.total() == fragments@.len(),
            s.limit() == concurrency,
            s.admitted() == 0,
            s.in_flight() == 0,
            s.next_write() == 0,
            s.failure() is None,
            s.output() == Seq::<u8>::empty(),
            forall|i: int|
                0 <= i < fragments@.len() ==> #[trigger] s.urls()[i] == base_uri_of(self@)
                    + views(fragments@)[i],
            forall|i: int| 0 <= i < fragments@.len() ==> #[trigger] s.phases()[i] == Phase::Pending,
    {
        let base = self.base_uri();
        Session::new(base.as_str(), fragments, concurrency)
    }
}

} // verus!
