use bytes::Bytes;
use vstd::prelude::*;

use crate::buffer;
use crate::error::{VideoError, VideoErrorView};
use crate::remote_data::{RemoteData, RemoteDataView};
use crate::resource_url::ResourceUrl;
use crate::status::Delivery;
use crate::views;

verus! {

/// How far the making of a chunk has come: what the stream waits for.
pub enum ChunkPhase {
    /// The time, before anything is decided.
    Started,
    /// The time, after a wait.
    Waited,
    /// The playlist.
    Refreshing,
    /// The initialization section of the first segment.
    Initializing,
    /// The media of the first segment, behind an initialization section if there
    /// is one.
    Downloading { initialization: Option<Vec<u8>> },
    /// The key for the media of the first segment.
    Unlocking { initialization: Option<Vec<u8>>, media: Vec<u8> },
    /// Nothing: the chunk is done.
    Done,
}

/// What a [`ChunkPhase`] holds.
pub enum ChunkPhaseView {
    Started,
    Waited,
    Refreshing,
    Initializing,
    Downloading { initialization: Option<Seq<u8>> },
    Unlocking { initialization: Option<Seq<u8>>, media: Seq<u8> },
    Done,
}

impl View for ChunkPhase {
    type V = ChunkPhaseView;

    open spec fn view(&self) -> ChunkPhaseView {
        match *self {
            ChunkPhase::Started => ChunkPhaseView::Started,
            ChunkPhase::Waited => ChunkPhaseView::Waited,
            ChunkPhase::Refreshing => ChunkPhaseView::Refreshing,
            ChunkPhase::Initializing => ChunkPhaseView::Initializing,
            ChunkPhase::Downloading { initialization } => ChunkPhaseView::Downloading {
                initialization: views::view_option(initialization),
            },
            ChunkPhase::Unlocking { initialization, media } => ChunkPhaseView::Unlocking {
                initialization: views::view_option(initialization),
                media: media@,
            },
            ChunkPhase::Done => ChunkPhaseView::Done,
        }
    }
}

/// What the stream is told.
pub enum ChunkEvent {
    /// The time, in milliseconds.
    Time(u128),
    /// The text of the playlist, and the time when it was read.
    Playlist { text: String, now: u128 },
    /// The reply to a request for a resource.
    Resource { delivered: Delivery, body: Bytes },
    /// The body of the reply to a request for a key.
    Key(Bytes),
}

/// What a [`ChunkEvent`] says.
pub enum ChunkEventView {
    Time(u128),
    Playlist { text: Seq<char>, now: u128 },
    Resource { delivered: Delivery, body: Seq<u8> },
    Key(Seq<u8>),
}

impl View for ChunkEvent {
    type V = ChunkEventView;

    open spec fn view(&self) -> ChunkEventView {
        match *self {
            ChunkEvent::Time(now) => ChunkEventView::Time(now),
            ChunkEvent::Playlist { text, now } => ChunkEventView::Playlist { text: text@, now },
            ChunkEvent::Resource { delivered, body } => ChunkEventView::Resource {
                delivered,
                body: buffer::bytes_contents(body),
            },
            ChunkEvent::Key(body) => ChunkEventView::Key(buffer::bytes_contents(body)),
        }
    }
}

/// What the stream asks for.
pub enum ChunkAction {
    /// Wait for so many milliseconds, and tell the time.
    ReadClock { after: u64 },
    /// Fetch the playlist.
    FetchPlaylist,
    /// Fetch an initialization section.
    FetchInitialization(RemoteData),
    /// Fetch the media of a segment.
    FetchSegment(RemoteData),
    /// Fetch a key.
    FetchKey(ResourceUrl),
    /// Hand these bytes to the reader.
    Emit(Bytes),
    /// Tell the reader that the stream is over.
    End,
}

/// What a [`ChunkAction`] says.
pub enum ChunkActionView {
    ReadClock { after: u64 },
    FetchPlaylist,
    FetchInitialization(RemoteDataView),
    FetchSegment(RemoteDataView),
    FetchKey(Seq<char>),
    Emit(Seq<u8>),
    End,
}

impl View for ChunkAction {
    type V = ChunkActionView;

    open spec fn view(&self) -> ChunkActionView {
        match *self {
            ChunkAction::ReadClock { after } => ChunkActionView::ReadClock { after },
            ChunkAction::FetchPlaylist => ChunkActionView::FetchPlaylist,
            ChunkAction::FetchInitialization(data) => ChunkActionView::FetchInitialization(data@),
            ChunkAction::FetchSegment(data) => ChunkActionView::FetchSegment(data@),
            ChunkAction::FetchKey(url) => ChunkActionView::FetchKey(url@),
            ChunkAction::Emit(bytes) => ChunkActionView::Emit(buffer::bytes_contents(bytes)),
            ChunkAction::End => ChunkActionView::End,
        }
    }
}

impl ChunkPhaseView {
    /// Whether this is what the stream waits for.
    pub open spec fn accepts(self, event: ChunkEventView) -> bool {
        match self {
            ChunkPhaseView::Started => event is Time,
            ChunkPhaseView::Waited => event is Time,
            ChunkPhaseView::Refreshing => event is Playlist,
            ChunkPhaseView::Initializing => event is Resource,
            ChunkPhaseView::Downloading { initialization } => event is Resource,
            ChunkPhaseView::Unlocking { initialization, media } => event is Key,
            ChunkPhaseView::Done => false,
        }
    }
}

/// Why a chunk could not be made.
#[derive(Debug, PartialEq, Eq)]
pub enum ChunkFailure {
    /// Something about the stream or its server was refused.
    Refused(VideoError),
    /// A segment has a number that does not fit in 64 bits.
    SequenceOverflow,
}

/// What a [`ChunkFailure`] says.
pub enum ChunkFailureView {
    Refused(VideoErrorView),
    SequenceOverflow,
}

impl View for ChunkFailure {
    type V = ChunkFailureView;

    open spec fn view(&self) -> ChunkFailureView {
        match *self {
            ChunkFailure::Refused(error) => ChunkFailureView::Refused(error@),
            ChunkFailure::SequenceOverflow => ChunkFailureView::SequenceOverflow,
        }
    }
}

/// A step of making a chunk by view.
pub open spec fn step_view(step: Result<(ChunkPhase, ChunkAction), ChunkFailure>) -> Result<
    (ChunkPhaseView, ChunkActionView),
    ChunkFailureView,
> {
    match step {
        Ok((phase, action)) => Ok((phase@, action@)),
        Err(failure) => Err(failure@),
    }
}

} // verus!
