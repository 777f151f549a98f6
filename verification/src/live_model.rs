use vstd::prelude::*;
use vstd::utf8;

use crate::chunk::{ChunkActionView, ChunkEventView, ChunkFailureView, ChunkPhaseView};
use crate::encryption;
use crate::encryption::EncryptionView;
use crate::error::VideoErrorView;
use crate::media_range;
use crate::playlist;
use crate::playlist::{ByteRange, PlaylistSegmentView, PlaylistView};
use crate::remote_data;
use crate::remote_data::{RangeUse, RemoteDataView};
use crate::resource_url;
use crate::segment::SegmentView;

verus! {

/// How many milliseconds a playlist is good for.
pub const REFRESH_MILLIS: u128 = 20000;

/// The time from `last_refresh` to `current_time`, never below zero.
pub open spec fn elapsed_millis(last_refresh: u128, current_time: u128) -> int {
    if current_time >= last_refresh {
        current_time - last_refresh
    } else {
        0
    }
}

/// What a live stream holds.
#[verifier::ext_equal]
pub struct LiveStreamView {
    /// Where the playlist is.
    pub stream_url: Seq<char>,
    /// When the playlist was read last, in milliseconds.
    pub last_refresh: u128,
    /// The segments to download, in order.
    pub segments: Seq<(SegmentView, EncryptionView)>,
    /// Whether no segments will be added.
    pub is_end: bool,
    /// The number of the last segment that was taken from the playlist.
    pub last_seg: Option<(u64, u64)>,
    /// The initialization section that the reader has.
    pub emitted_initialization: Option<RemoteDataView>,
}

/// Whether a segment number comes before another one: first by discontinuity,
/// then by sequence.
pub open spec fn number_before(a: (u64, u64), b: (u64, u64)) -> bool {
    a.0 < b.0 || (a.0 == b.0 && a.1 < b.1)
}

/// Whether a segment with this number was taken from the playlist already.
pub open spec fn already_taken(last_seg: Option<(u64, u64)>, number: (u64, u64)) -> bool {
    last_seg matches Some(last) && !number_before(last, number)
}

/// What is carried from segment to segment while a playlist is read.
pub struct PlaylistWalk {
    /// The stream so far.
    pub stream: LiveStreamView,
    /// The initialization section that applies.
    pub initialization: Option<RemoteDataView>,
    /// The sub-range that an implicit byte range continues.
    pub previous: Option<(Seq<char>, u64)>,
    /// How many discontinuities the playlist had so far.
    pub discontinuities: nat,
    /// The encryption that applies.
    pub encryption: EncryptionView,
}

/// A segment to queue, and how it is encrypted.
pub struct QueuedSegment {
    pub segment: SegmentView,
    pub encryption: EncryptionView,
}

impl PlaylistWalk {
    /// Before the first segment nothing applies.
    pub open spec fn start(stream: LiveStreamView) -> PlaylistWalk {
        PlaylistWalk {
            stream,
            initialization: None,
            previous: None,
            discontinuities: 0,
            encryption: EncryptionView::Unencrypted,
        }
    }

    /// The byte range of a segment, and the sub-range that the next one may
    /// continue. Resources are told apart by the addresses that they resolve to.
    pub open spec fn byte_range(self, segment: PlaylistSegmentView) -> Result<
        (Option<ByteRange>, Option<(Seq<char>, u64)>),
        VideoErrorView,
    > {
        match segment.byte_range {
            None => Ok((None, None)),
            Some(range) => match resource_url::absolute_url(
                self.stream.stream_url,
                segment.uri,
            ) {
                Err(error) => Err(error),
                Ok(resource) => media_range::normalized(resource, Some(range), self.previous),
            },
        }
    }

    /// The encryption that applies from a segment on.
    pub open spec fn encryption_from(self, segment: PlaylistSegmentView, seq: u64) -> Result<
        EncryptionView,
        VideoErrorView,
    > {
        match segment.key {
            None => Ok(self.encryption),
            Some(key) => encryption::encryption_of(key, self.stream.stream_url, seq),
        }
    }

    /// The initialization section that applies from a segment on.
    pub open spec fn initialization_from(self, segment: PlaylistSegmentView) -> Result<
        Option<RemoteDataView>,
        VideoErrorView,
    > {
        match segment.map {
            None => Ok(self.initialization),
            Some(map) => match resource_url::absolute_url(self.stream.stream_url, map.uri) {
                Err(error) => Err(error),
                Ok(url) => Ok(Some(RemoteDataView { url, byte_range: map.byte_range })),
            },
        }
    }

    /// The initialization section that applies behind a segment that is not queued.
    /// A map that does not resolve changes nothing there.
    pub open spec fn initialization_past(self, segment: PlaylistSegmentView) -> Option<
        RemoteDataView,
    > {
        match self.initialization_from(segment) {
            Ok(initialization) => initialization,
            Err(error) => self.initialization,
        }
    }

    /// What a listed segment is queued as.
    pub open spec fn queued(
        self,
        segment: PlaylistSegmentView,
        byte_range: Option<ByteRange>,
        number: (u64, u64),
    ) -> Result<QueuedSegment, VideoErrorView> {
        match self.encryption_from(segment, number.1) {
            Err(error) => Err(error),
            Ok(encryption) => match resource_url::absolute_url(
                self.stream.stream_url,
                segment.uri,
            ) {
                Err(error) => Err(error),
                Ok(url) => match self.initialization_from(segment) {
                    Err(error) => Err(error),
                    Ok(initialization) => Ok(
                        QueuedSegment {
                            segment: SegmentView {
                                data: RemoteDataView { url, byte_range },
                                discon_seq: number.0,
                                seq: number.1,
                                initialization,
                            },
                            encryption,
                        },
                    ),
                },
            },
        }
    }

    /// What reading the segment `i` of a playlist does. A segment that was taken
    /// already is not queued again; it counts, its byte range may be continued, and
    /// its map applies to the segments that follow it. Every other one is queued, and
    /// only then is its number noted.
    pub open spec fn step(self, playlist: PlaylistView, i: int) -> Result<
        PlaylistWalk,
        ChunkFailureView,
    > {
        let segment = playlist.segments[i];
        let discontinuities = if segment.discontinuity {
            self.discontinuities + 1
        } else {
            self.discontinuities
        };
        let discon_seq = playlist.discontinuity_sequence + discontinuities;
        let seq = playlist.media_sequence + i;
        if seq > u64::MAX || discon_seq > u64::MAX {
            Err(ChunkFailureView::SequenceOverflow)
        } else {
            let number = (discon_seq as u64, seq as u64);
            match self.byte_range(segment) {
                Err(error) => Err(ChunkFailureView::Refused(error)),
                Ok((byte_range, previous)) => if already_taken(self.stream.last_seg, number) {
                    Ok(
                        PlaylistWalk {
                            initialization: self.initialization_past(segment),
                            previous,
                            discontinuities,
                            ..self
                        },
                    )
                } else {
                    match self.queued(segment, byte_range, number) {
                        Err(error) => Err(ChunkFailureView::Refused(error)),
                        Ok(queued) => Ok(
                            PlaylistWalk {
                                stream: self.stream.with_segment(queued),
                                initialization: queued.segment.initialization,
                                previous,
                                discontinuities,
                                encryption: queued.encryption,
                            },
                        ),
                    }
                },
            }
        }
    }

    /// What reading a playlist from the segment `i` on does: the stream after it,
    /// and what stopped the reading, if anything did.
    pub open spec fn run(self, playlist: PlaylistView, i: nat) -> (
        LiveStreamView,
        Option<ChunkFailureView>,
    )
        decreases playlist.segments.len() - i,
    {
        if i >= playlist.segments.len() {
            (self.stream, None)
        } else {
            match self.step(playlist, i as int) {
                Ok(next) => next.run(playlist, i + 1),
                Err(failure) => (self.stream, Some(failure)),
            }
        }
    }
}

impl LiveStreamView {
    /// A stream that has not been read from.
    pub open spec fn fresh(stream_url: Seq<char>) -> LiveStreamView {
        LiveStreamView {
            stream_url,
            last_refresh: 0,
            segments: Seq::empty(),
            is_end: false,
            last_seg: None,
            emitted_initialization: None,
        }
    }

    /// The queued segments are in order, none is queued twice, every one of them
    /// was taken from the playlist, and every one of them can be decrypted.
    pub open spec fn well_formed(self) -> bool {
        &&& forall|i: int, j: int|
            0 <= i < j < self.segments.len() ==> number_before(
                (#[trigger] self.segments[i]).0.number(),
                (#[trigger] self.segments[j]).0.number(),
            )
        &&& forall|i: int|
            0 <= i < self.segments.len() ==> already_taken(
                self.last_seg,
                (#[trigger] self.segments[i]).0.number(),
            )
        &&& forall|i: int|
            0 <= i < self.segments.len() ==> !((#[trigger] self.segments[i]).1 is SampleAes)
    }

    /// Whether a segment with this number is queued.
    pub open spec fn is_queued(self, number: (u64, u64)) -> bool {
        exists|i: int|
            0 <= i < self.segments.len() && (#[trigger] self.segments[i]).0.number() == number
    }

    /// The same stream with a segment queued, unless it is queued already, and its
    /// number noted.
    pub open spec fn with_segment(self, queued: QueuedSegment) -> LiveStreamView {
        LiveStreamView {
            segments: if self.is_queued(queued.segment.number()) {
                self.segments
            } else {
                self.segments.push((queued.segment, queued.encryption))
            },
            last_seg: Some(queued.segment.number()),
            ..self
        }
    }

    /// What reading a playlist does to the stream, and what stopped it, if
    /// anything did.
    pub open spec fn applied(self, playlist: PlaylistView) -> (
        LiveStreamView,
        Option<ChunkFailureView>,
    ) {
        PlaylistWalk::start(self).run(playlist, 0)
    }

    /// What a refresh does, given what the playlist's text was read as. Only a
    /// playlist that was read to its end counts as a refresh; the stream is over
    /// for good once a playlist says so.
    pub open spec fn refreshed(self, parsed: Result<PlaylistView, Seq<char>>, now: u128) -> (
        LiveStreamView,
        Option<ChunkFailureView>,
    ) {
        match parsed {
            Err(text) => (
                self,
                Some(ChunkFailureView::Refused(VideoErrorView::M3U8ParseError(text))),
            ),
            Ok(playlist) => {
                let (stream, failure) = self.applied(playlist);
                match failure {
                    Some(failure) => (stream, Some(failure)),
                    None => (
                        LiveStreamView {
                            last_refresh: now,
                            is_end: stream.is_end || playlist.end_list,
                            ..stream
                        },
                        None,
                    ),
                }
            },
        }
    }

    /// The stream is over: nothing is queued and nothing will be.
    pub open spec fn finished(self) -> bool {
        self.is_end && self.segments.len() == 0
    }

    /// How the making of a chunk starts.
    pub open spec fn begun(self) -> (ChunkPhaseView, ChunkActionView) {
        if self.finished() {
            (ChunkPhaseView::Done, ChunkActionView::End)
        } else {
            (ChunkPhaseView::Started, ChunkActionView::ReadClock { after: 0 })
        }
    }

    /// How long to wait before looking for new segments: where there is nothing to
    /// hand out, until the playlist may be read again.
    pub open spec fn wait(self, now: u128) -> u64 {
        let elapsed = elapsed_millis(self.last_refresh, now);
        if elapsed < REFRESH_MILLIS && self.segments.len() == 0 && !self.is_end {
            (REFRESH_MILLIS - elapsed) as u64
        } else {
            0
        }
    }

    /// Whether the playlist is to be read again.
    pub open spec fn refresh_is_due(self, now: u128) -> bool {
        elapsed_millis(self.last_refresh, now) >= REFRESH_MILLIS && !self.is_end
    }

    /// The initialization section that has to go before the first segment, where
    /// the reader does not have it.
    pub open spec fn missing_initialization(self) -> Option<RemoteDataView> {
        match self.segments[0].0.initialization {
            Some(section) => if self.emitted_initialization == Some(section) {
                None
            } else {
                Some(section)
            },
            None => None,
        }
    }

    /// What comes after the playlist is up to date: an empty chunk where nothing is
    /// queued, else the initialization section of the first segment where it is
    /// missing, else its media.
    pub open spec fn planned(self) -> (ChunkPhaseView, ChunkActionView) {
        if self.segments.len() == 0 {
            (ChunkPhaseView::Done, ChunkActionView::Emit(Seq::empty()))
        } else {
            match self.missing_initialization() {
                Some(section) => (
                    ChunkPhaseView::Initializing,
                    ChunkActionView::FetchInitialization(section),
                ),
                None => (
                    ChunkPhaseView::Downloading { initialization: None },
                    ChunkActionView::FetchSegment(self.segments[0].0.data),
                ),
            }
        }
    }

    /// The stream after the first segment was handed out, behind an initialization
    /// section if there was one.
    pub open spec fn after_segment(self, initialized: bool) -> LiveStreamView {
        LiveStreamView {
            segments: self.segments.drop_first(),
            emitted_initialization: if initialized {
                self.segments[0].0.initialization
            } else {
                self.emitted_initialization
            },
            ..self
        }
    }

    /// What decrypting the first segment's media comes to, given the body of the
    /// reply from the key's address: the segment is handed out, or stays.
    pub open spec fn unlocked(
        self,
        initialization: Option<Seq<u8>>,
        key_body: Seq<u8>,
        media: Seq<u8>,
    ) -> (LiveStreamView, Result<(ChunkPhaseView, ChunkActionView), ChunkFailureView>) {
        match encryption::decrypted(self.segments[0].1, key_body, media) {
            Err(error) => (self, Err(ChunkFailureView::Refused(error))),
            Ok(plain) => (
                self.after_segment(initialization is Some),
                Ok((ChunkPhaseView::Done, ChunkActionView::Emit(chunk_bytes(initialization, plain)))),
            ),
        }
    }

    /// Whether the stream can be in this phase of making a chunk.
    pub open spec fn fits(self, phase: ChunkPhaseView) -> bool {
        match phase {
            ChunkPhaseView::Initializing => {
                &&& self.segments.len() > 0
                &&& self.segments[0].0.initialization is Some
            },
            ChunkPhaseView::Downloading { initialization } => self.segments.len() > 0,
            ChunkPhaseView::Unlocking { initialization, media } => {
                &&& self.segments.len() > 0
                &&& self.segments[0].1 is Aes128
            },
            _ => true,
        }
    }

    /// What the stream makes of what it is told: the stream after it, and either
    /// how it goes on or why the chunk failed.
    pub open spec fn advanced(self, phase: ChunkPhaseView, event: ChunkEventView) -> (
        LiveStreamView,
        Result<(ChunkPhaseView, ChunkActionView), ChunkFailureView>,
    )
        recommends
            self.fits(phase),
            phase.accepts(event),
    {
        match (phase, event) {
            (ChunkPhaseView::Started, ChunkEventView::Time(now)) => (
                self,
                Ok((ChunkPhaseView::Waited, ChunkActionView::ReadClock { after: self.wait(now) })),
            ),
            (ChunkPhaseView::Waited, ChunkEventView::Time(now)) => (
                self,
                if self.refresh_is_due(now) {
                    Ok((ChunkPhaseView::Refreshing, ChunkActionView::FetchPlaylist))
                } else {
                    Ok(self.planned())
                },
            ),
            (ChunkPhaseView::Refreshing, ChunkEventView::Playlist { text, now }) => {
                let parsed = playlist::media_playlist(utf8::encode_utf8(text));
                let (stream, failure) = self.refreshed(parsed, now);
                (
                    stream,
                    match failure {
                        Some(failure) => Err(failure),
                        None => Ok(stream.planned()),
                    },
                )
            },
            (ChunkPhaseView::Initializing, ChunkEventView::Resource { delivered, body }) => (
                self,
                match remote_data::delivered_part(
                    RangeUse::Remote,
                    self.segments[0].0.initialization->0.bounds(),
                    delivered,
                    body,
                ) {
                    Err(error) => Err(ChunkFailureView::Refused(error)),
                    Ok(section) => Ok(
                        (
                            ChunkPhaseView::Downloading { initialization: Some(section) },
                            ChunkActionView::FetchSegment(self.segments[0].0.data),
                        ),
                    ),
                },
            ),
            (
                ChunkPhaseView::Downloading { initialization },
                ChunkEventView::Resource { delivered, body },
            ) => match remote_data::delivered_part(
                RangeUse::Segment,
                self.segments[0].0.data.bounds(),
                delivered,
                body,
            ) {
                Err(error) => (self, Err(ChunkFailureView::Refused(error))),
                Ok(media) => match self.segments[0].1 {
                    EncryptionView::Aes128 { key_uri, iv } => (
                        self,
                        Ok(
                            (
                                ChunkPhaseView::Unlocking { initialization, media },
                                ChunkActionView::FetchKey(key_uri),
                            ),
                        ),
                    ),
                    _ => self.unlocked(initialization, Seq::empty(), media),
                },
            },
            (
                ChunkPhaseView::Unlocking { initialization, media },
                ChunkEventView::Key(key_body),
            ) => self.unlocked(initialization, key_body, media),
            _ => (self, Ok((ChunkPhaseView::Done, ChunkActionView::End))),
        }
    }
}

/// The bytes of a chunk: an initialization section, if there is one, and the
/// media behind it.
pub open spec fn chunk_bytes(initialization: Option<Seq<u8>>, media: Seq<u8>) -> Seq<u8> {
    match initialization {
        Some(section) => section + media,
        None => media,
    }
}

/// Queueing an encryption that can be decrypted keeps a stream well formed, where
/// its number was not taken yet.
pub proof fn lemma_with_segment_well_formed(stream: LiveStreamView, queued: QueuedSegment)
    requires
        stream.well_formed(),
        !already_taken(stream.last_seg, queued.segment.number()),
        !(queued.encryption is SampleAes),
    ensures
        stream.with_segment(queued).well_formed(),
        !stream.is_queued(queued.segment.number()),
{
    let next = stream.with_segment(queued);
    assert forall|i: int| 0 <= i < stream.segments.len() implies number_before(
        (#[trigger] stream.segments[i]).0.number(),
        queued.segment.number(),
    ) by {
        assert(already_taken(stream.last_seg, stream.segments[i].0.number()));
    }
}

} // verus!
