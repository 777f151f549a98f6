use vstd::prelude::*;

use crate::remote_data::{RemoteData, RemoteDataView};
use crate::resource_url::ResourceUrl;
use crate::views;

verus! {

/// A media segment to download.
#[derive(Debug)]
pub struct Segment {
    /// Where its media is.
    pub data: RemoteData,
    /// How many discontinuities there were before it.
    pub discon_seq: u64,
    /// Its sequence number.
    pub seq: u64,
    /// The initialization section that it needs before it.
    pub initialization: Option<RemoteData>,
}

/// What a [`Segment`] says.
pub struct SegmentView {
    pub data: RemoteDataView,
    pub discon_seq: u64,
    pub seq: u64,
    pub initialization: Option<RemoteDataView>,
}

impl View for Segment {
    type V = SegmentView;

    open spec fn view(&self) -> SegmentView {
        SegmentView {
            data: self.data@,
            discon_seq: self.discon_seq,
            seq: self.seq,
            initialization: views::view_option(self.initialization),
        }
    }
}

impl SegmentView {
    /// The two numbers that tell a segment from every other one of its stream.
    pub open spec fn number(self) -> (u64, u64) {
        (self.discon_seq, self.seq)
    }
}

impl Segment {
    /// Where the media is.
    pub fn url(&self) -> (url: &ResourceUrl)
        ensures
            url@ == self@.data.url,
    {
        self.data.url()
    }
}

} // verus!
