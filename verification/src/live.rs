use bytes::Bytes;
use vstd::prelude::*;
use vstd::slice::slice_to_vec;
use vstd::utf8;

use crate::buffer;
use crate::buffer::{bytes_as_slice, bytes_from_vec, join_slices};
use crate::chunk;
use crate::chunk::{ChunkAction, ChunkEvent, ChunkFailure, ChunkPhase};
use crate::encryption::{Encryption, EncryptionView};
use crate::error;
use crate::error::VideoError;
use crate::live_model;
use crate::live_model::{LiveStreamView, PlaylistWalk, QueuedSegment, REFRESH_MILLIS};
use crate::media_range;
use crate::media_range::normalize_media_byte_range;
use crate::playlist;
use crate::playlist::{parse_playlist, ByteRange, Playlist, PlaylistSegment};
use crate::remote_data::{requested_part, RangeUse, RemoteData};
use crate::resource_url::{make_absolute_url, ResourceUrl};
use crate::segment::{Segment, SegmentView};
use crate::status;
use crate::status::{classify_status, Delivery};
use crate::views;

verus! {

/// How many milliseconds have passed since the last refresh. A clock that was
/// set back counts as no time.
pub fn elapsed_since(last_refresh: u128, current_time: u128) -> (elapsed: u128)
    ensures
        elapsed == live_model::elapsed_millis(last_refresh, current_time),
{
    current_time.saturating_sub(last_refresh)
}

/// How a live stream is set up.
pub struct LiveStreamOptions {
    /// Where its playlist is.
    pub stream_url: String,
}

/// A live stream: a queue of segments that is filled from a playlist and emptied
/// chunk by chunk.
pub struct LiveStream {
    stream_url: String,
    last_refresh: u128,
    segments: Vec<(Segment, Encryption)>,
    is_end: bool,
    last_seg: Option<(u64, u64)>,
    emitted_initialization: Option<RemoteData>,
}

/// A queue of segments by view.
pub open spec fn queue_view(queue: Seq<(Segment, Encryption)>) -> Seq<
    (SegmentView, EncryptionView),
> {
    Seq::new(queue.len(), |i: int| (queue[i].0@, queue[i].1@))
}

impl View for LiveStream {
    type V = LiveStreamView;

    closed spec fn view(&self) -> LiveStreamView {
        LiveStreamView {
            stream_url: self.stream_url@,
            last_refresh: self.last_refresh,
            segments: queue_view(self.segments@),
            is_end: self.is_end,
            last_seg: self.last_seg,
            emitted_initialization: views::view_option(self.emitted_initialization),
        }
    }
}

impl LiveStream {
    /// Sets a stream up. Nothing about it can be refused.
    pub fn new(options: LiveStreamOptions) -> (stream: Result<LiveStream, VideoError>)
        ensures
            stream is Ok,
            stream->Ok_0@ == LiveStreamView::fresh(options.stream_url@),
            stream->Ok_0@.well_formed(),
    {
        let stream: LiveStream = LiveStream {
            stream_url: options.stream_url,
            last_refresh: 0,
            segments: Vec::new(),
            is_end: false,
            last_seg: None,
            emitted_initialization: None,
        };
        assert(stream@.segments =~= Seq::empty());
        Ok(stream)
    }

    /// Whether a segment with these numbers is queued.
    fn is_queued(&self, discon_seq: u64, seq: u64) -> (found: bool)
        ensures
            found == self@.is_queued((discon_seq, seq)),
    {
        let mut i: usize = 0;
        while i < self.segments.len()
            invariant
                0 <= i <= self.segments@.len(),
                forall|k: int|
                    0 <= k < i ==> (#[trigger] self@.segments[k]).0.number() != (discon_seq, seq),
            decreases self.segments@.len() - i,
        {
            let segment: &Segment = &self.segments[i].0;
            assert(self@.segments[i as int].0 == segment@);
            if segment.discon_seq == discon_seq && segment.seq == seq {
                return true;
            }
            i = i + 1;
        }
        false
    }

    /// Whether a segment with these numbers was taken from the playlist already.
    fn is_taken(&self, discon_seq: u64, seq: u64) -> (taken: bool)
        ensures
            taken == live_model::already_taken(self@.last_seg, (discon_seq, seq)),
    {
        match self.last_seg {
            Some((last_discon, last_seq)) => last_discon > discon_seq || (last_discon == discon_seq
                && last_seq >= seq),
            None => false,
        }
    }

    /// The byte range of a listed segment.
    fn segment_byte_range(
        &self,
        segment: &PlaylistSegment,
        previous: &mut Option<(ResourceUrl, u64)>,
        walk: Ghost<PlaylistWalk>,
    ) -> (range: Result<Option<ByteRange>, VideoError>)
        requires
            walk@.stream == self@,
            walk@.previous == media_range::previous_view(*old(previous)),
        ensures
            match walk@.byte_range(segment@) {
                Ok((normal, next)) => {
                    &&& range == Ok::<Option<ByteRange>, VideoError>(normal)
                    &&& media_range::previous_view(*final(previous)) == next
                },
                Err(error) => range is Err && range->Err_0@ == error,
            },
    {
        match &segment.byte_range {
            None => {
                *previous = None;
                Ok(None)
            },
            Some(byte_range) => match make_absolute_url(
                self.stream_url.as_str(),
                segment.uri.as_str(),
            ) {
                Ok(resource) => normalize_media_byte_range(&resource, Some(byte_range), previous),
                Err(error) => Err(error),
            },
        }
    }

    /// Queues a segment that was not taken from the playlist yet, and notes its
    /// number.
    pub fn queue_segment(&mut self, segment: Segment, encryption: Encryption)
        requires
            old(self)@.well_formed(),
            !live_model::already_taken(old(self)@.last_seg, segment@.number()),
            !(encryption is SampleAes),
        ensures
            final(self)@ == old(self)@.with_segment(
                QueuedSegment { segment: segment@, encryption: encryption@ },
            ),
            final(self)@.well_formed(),
    {
        proof {
            live_model::lemma_with_segment_well_formed(
                self@,
                QueuedSegment { segment: segment@, encryption: encryption@ },
            );
        }
        let number: (u64, u64) = (segment.discon_seq, segment.seq);
        if !self.is_queued(segment.discon_seq, segment.seq) {
            let ghost before = self.segments@;
            self.segments.push((segment, encryption));
            assert(queue_view(self.segments@) =~= queue_view(before).push(
                (segment@, encryption@),
            ));
        }
        self.last_seg = Some(number);
    }

    /// Queues a listed segment and notes its number, and notes what applies from
    /// it on. Where anything about the segment is refused the stream stays as it
    /// was, and the segment can be taken from a later playlist.
    fn take_segment(
        &mut self,
        segment: &PlaylistSegment,
        byte_range: Option<ByteRange>,
        discon_seq: u64,
        seq: u64,
        encryption: &mut Encryption,
        initialization: &mut Option<RemoteData>,
        walk: Ghost<PlaylistWalk>,
    ) -> (taken: Result<(), VideoError>)
        requires
            walk@.stream == old(self)@,
            walk@.encryption == old(encryption)@,
            walk@.initialization == views::view_option(*old(initialization)),
            !(walk@.encryption is SampleAes),
            old(self)@.well_formed(),
            !live_model::already_taken(old(self)@.last_seg, (discon_seq, seq)),
        ensures
            final(self)@.well_formed(),
            !(final(encryption)@ is SampleAes),
            match walk@.queued(segment@, byte_range, (discon_seq, seq)) {
                Ok(queued) => {
                    &&& taken is Ok
                    &&& final(self)@ == old(self)@.with_segment(queued)
                    &&& final(encryption)@ == queued.encryption
                    &&& views::view_option(*final(initialization)) == queued.segment.initialization
                },
                Err(error) => {
                    &&& taken is Err
                    &&& taken->Err_0@ == error
                    &&& final(self)@ == old(self)@
                },
            },
    {
        if let Some(key) = &segment.key {
            match Encryption::new(key, self.stream_url.as_str(), seq) {
                Ok(found) => {
                    *encryption = found;
                },
                Err(error) => {
                    return Err(error);
                },
            }
        }
        let url: ResourceUrl = match make_absolute_url(
            self.stream_url.as_str(),
            segment.uri.as_str(),
        ) {
            Ok(url) => url,
            Err(error) => {
                return Err(error);
            },
        };
        if let Some(map) = &segment.map {
            match make_absolute_url(self.stream_url.as_str(), map.uri.as_str()) {
                Ok(url) => {
                    *initialization = Some(RemoteData::new(url, map.byte_range));
                },
                Err(error) => {
                    return Err(error);
                },
            }
        }
        self.queue_segment(
            Segment {
                data: RemoteData::new(url, byte_range),
                discon_seq,
                seq,
                initialization: initialization.clone(),
            },
            encryption.clone(),
        );
        Ok(())
    }

    /// Reads a playlist: queues the segments that were not taken yet, in order, each
    /// with the initialization section of the last map at or before it. What stops
    /// the reading leaves the segments before it queued and everything from it on
    /// untaken.
    pub fn apply_playlist(&mut self, playlist: &Playlist) -> (applied: Result<(), ChunkFailure>)
        requires
            old(self)@.well_formed(),
        ensures
            final(self)@.well_formed(),
            ({
                let (stream, failure) = old(self)@.applied(playlist@);
                &&& final(self)@ == stream
                &&& match failure {
                    None => applied is Ok,
                    Some(failure) => applied is Err && applied->Err_0@ == failure,
                }
            }),
    {
        let mut initialization: Option<RemoteData> = None;
        let mut previous: Option<(ResourceUrl, u64)> = None;
        let mut discontinuities: u64 = 0;
        let mut encryption: Encryption = Encryption::Unencrypted;
        let mut i: usize = 0;
        let ghost mut walk = PlaylistWalk::start(self@);
        while i < playlist.segments.len()
            invariant
                0 <= i <= playlist.segments@.len(),
                discontinuities <= i,
                walk.stream == self@,
                walk.initialization == views::view_option(initialization),
                walk.previous == media_range::previous_view(previous),
                walk.discontinuities == discontinuities,
                walk.encryption == encryption@,
                !(walk.encryption is SampleAes),
                self@.well_formed(),
                old(self)@.applied(playlist@) == walk.run(playlist@, i as nat),
            decreases playlist.segments@.len() - i,
        {
            let segment: &PlaylistSegment = &playlist.segments[i];
            assert(playlist@.segments[i as int] == segment@);
            if segment.discontinuity {
                discontinuities = discontinuities + 1;
            }
            let numbers: (Option<u64>, Option<u64>) = (
                playlist.discontinuity_sequence.checked_add(discontinuities),
                playlist.media_sequence.checked_add(i as u64),
            );
            let (discon_seq, seq): (u64, u64) = match numbers {
                (Some(discon_seq), Some(seq)) => (discon_seq, seq),
                _ => {
                    return Err(ChunkFailure::SequenceOverflow);
                },
            };
            let byte_range: Option<ByteRange> = match self.segment_byte_range(
                segment,
                &mut previous,
                Ghost(walk),
            ) {
                Ok(byte_range) => byte_range,
                Err(error) => {
                    return Err(ChunkFailure::Refused(error));
                },
            };
            if !self.is_taken(discon_seq, seq) {
                if let Err(error) = self.take_segment(
                    segment,
                    byte_range,
                    discon_seq,
                    seq,
                    &mut encryption,
                    &mut initialization,
                    Ghost(walk),
                ) {
                    return Err(ChunkFailure::Refused(error));
                }
            } else if let Some(map) = &segment.map {
                if let Ok(url) = make_absolute_url(self.stream_url.as_str(), map.uri.as_str()) {
                    initialization = Some(RemoteData::new(url, map.byte_range));
                }
            }
            proof {
                walk = walk.step(playlist@, i as int)->Ok_0;
            }
            i = i + 1;
        }
        Ok(())
    }

    /// Refreshes the stream with what the playlist's text was read as.
    pub fn refresh_with(&mut self, parsed: Result<Playlist, String>, now: u128) -> (
        refreshed: Result<(), ChunkFailure>)
        requires
            old(self)@.well_formed(),
        ensures
            final(self)@.well_formed(),
            ({
                let (stream, failure) = old(self)@.refreshed(playlist::parsed_view(parsed), now);
                &&& final(self)@ == stream
                &&& match failure {
                    None => refreshed is Ok,
                    Some(failure) => refreshed is Err && refreshed->Err_0@ == failure,
                }
            }),
    {
        let playlist: Playlist = match parsed {
            Ok(playlist) => playlist,
            Err(text) => {
                return Err(ChunkFailure::Refused(VideoError::M3U8ParseError(text)));
            },
        };
        if let Err(failure) = self.apply_playlist(&playlist) {
            return Err(failure);
        }
        self.last_refresh = now;
        if playlist.end_list {
            self.is_end = true;
        }
        Ok(())
    }

    /// Refreshes the stream with the text of its playlist.
    pub fn refresh_playlist(&mut self, body: &str, now: u128) -> (refreshed: Result<
        (),
        ChunkFailure,
    >)
        requires
            old(self)@.well_formed(),
        ensures
            final(self)@.well_formed(),
            ({
                let parsed = playlist::media_playlist(utf8::encode_utf8(body@));
                let (stream, failure) = old(self)@.refreshed(parsed, now);
                &&& final(self)@ == stream
                &&& match failure {
                    None => refreshed is Ok,
                    Some(failure) => refreshed is Err && refreshed->Err_0@ == failure,
                }
            }),
    {
        self.refresh_with(parse_playlist(body.as_bytes()), now)
    }

    /// When the playlist was read last, in milliseconds.
    pub fn last_refresh(&self) -> (millis: u128)
        ensures
            millis == self@.last_refresh,
    {
        self.last_refresh
    }

    /// The segments to download, in order.
    pub fn segments(&self) -> (segments: &Vec<(Segment, Encryption)>)
        ensures
            queue_view(segments@) == self@.segments,
    {
        &self.segments
    }

    /// Whether no segments will be added.
    pub fn is_end(&self) -> (is_end: bool)
        ensures
            is_end == self@.is_end,
    {
        self.is_end
    }

    /// The number of the last segment that was taken from the playlist.
    pub fn last_seg(&self) -> (last_seg: Option<(u64, u64)>)
        ensures
            last_seg == self@.last_seg,
    {
        self.last_seg
    }

    /// Where the playlist is.
    pub fn stream_url(&self) -> (url: &str)
        ensures
            url@ == self@.stream_url,
    {
        self.stream_url.as_str()
    }

    /// Sorts the status of a reply to a request for a segment into what it
    /// delivers.
    pub fn segment_status(status: u16) -> (delivered: Result<Delivery, VideoError>)
        ensures
            error::plain_result(delivered) == status::delivery(status, "HLS media segment"@),
    {
        classify_status(status, "HLS media segment")
    }

    /// Starts the making of a chunk.
    pub fn begin_chunk(&self) -> (begun: (ChunkPhase, ChunkAction))
        ensures
            (begun.0@, begun.1@) == self@.begun(),
    {
        if self.is_end && self.segments.len() == 0 {
            (ChunkPhase::Done, ChunkAction::End)
        } else {
            (ChunkPhase::Started, ChunkAction::ReadClock { after: 0 })
        }
    }

    /// How long to wait before looking for new segments.
    pub fn wait_before_refresh(&self, now: u128) -> (millis: u64)
        ensures
            millis == self@.wait(now),
    {
        let elapsed: u128 = elapsed_since(self.last_refresh, now);
        if elapsed < REFRESH_MILLIS && self.segments.len() == 0 && !self.is_end {
            (REFRESH_MILLIS - elapsed) as u64
        } else {
            0
        }
    }

    /// Decides what comes after the playlist is up to date.
    pub fn plan_chunk(&self) -> (planned: (ChunkPhase, ChunkAction))
        ensures
            (planned.0@, planned.1@) == self@.planned(),
            self@.fits(planned.0@),
    {
        if self.segments.len() == 0 {
            return (ChunkPhase::Done, ChunkAction::Emit(Bytes::new()));
        }
        let segment: &Segment = &self.segments[0].0;
        assert(self@.segments[0].0 == segment@);
        if let Some(section) = &segment.initialization {
            let has_it: bool = match &self.emitted_initialization {
                Some(emitted) => emitted.same_as(section),
                None => false,
            };
            if !has_it {
                return (
                    ChunkPhase::Initializing,
                    ChunkAction::FetchInitialization(section.clone()),
                );
            }
        }
        (
            ChunkPhase::Downloading { initialization: None },
            ChunkAction::FetchSegment(segment.data.clone()),
        )
    }

    /// Hands the first segment out, behind an initialization section if there is
    /// one, and takes it off the queue.
    pub fn emit_segment(&mut self, initialization: Option<Vec<u8>>, media: &[u8]) -> (chunk: Bytes)
        requires
            old(self)@.segments.len() > 0,
        ensures
            final(self)@ == old(self)@.after_segment(initialization is Some),
            old(self)@.well_formed() ==> final(self)@.well_formed(),
            buffer::bytes_contents(chunk) == live_model::chunk_bytes(
                views::view_option(initialization),
                media@,
            ),
    {
        let ghost before = self.segments@;
        let (segment, _): (Segment, Encryption) = self.segments.remove(0);
        assert(queue_view(self.segments@) =~= queue_view(before).drop_first());
        assert(queue_view(before)[0].0 == segment@);
        match initialization {
            Some(section) => {
                self.emitted_initialization = segment.initialization;
                join_slices(section.as_slice(), media)
            },
            None => bytes_from_vec(slice_to_vec(media)),
        }
    }

    /// Decrypts the media of the first segment and hands it out. Media that does
    /// not decrypt leaves the segment where it is.
    fn unlock_segment(&mut self, initialization: Option<Vec<u8>>, key_body: &[u8], media: &[u8]) -> (
        step: Result<(ChunkPhase, ChunkAction), ChunkFailure>)
        requires
            old(self)@.well_formed(),
            old(self)@.segments.len() > 0,
        ensures
            ({
                let (stream, result) = old(self)@.unlocked(
                    views::view_option(initialization),
                    key_body@,
                    media@,
                );
                final(self)@ == stream && chunk::step_view(step) == result
            }),
    {
        assert(self@.segments[0].1 == self.segments@[0].1@);
        match self.segments[0].1.decrypt(key_body, media) {
            Ok(plain) => Ok(
                (
                    ChunkPhase::Done,
                    ChunkAction::Emit(self.emit_segment(initialization, plain.as_slice())),
                ),
            ),
            Err(error) => Err(ChunkFailure::Refused(error)),
        }
    }

    /// Goes on with a chunk by what the stream was told. A failure leaves the
    /// queue, the notes of what was emitted and everything else as they were, but
    /// for the segments that a refused playlist listed before what was refused.
    pub fn advance(&mut self, phase: ChunkPhase, event: ChunkEvent) -> (step: Result<
        (ChunkPhase, ChunkAction),
        ChunkFailure,
    >)
        requires
            old(self)@.well_formed(),
            old(self)@.fits(phase@),
            phase@.accepts(event@),
        ensures
            final(self)@.well_formed(),
            ({
                let (stream, result) = old(self)@.advanced(phase@, event@);
                final(self)@ == stream && chunk::step_view(step) == result
            }),
            step matches Ok((next, action)) ==> final(self)@.fits(next@),
    {
        match (phase, event) {
            (ChunkPhase::Started, ChunkEvent::Time(now)) => Ok(
                (
                    ChunkPhase::Waited,
                    ChunkAction::ReadClock { after: self.wait_before_refresh(now) },
                ),
            ),
            (ChunkPhase::Waited, ChunkEvent::Time(now)) => {
                if elapsed_since(self.last_refresh, now) >= REFRESH_MILLIS && !self.is_end {
                    Ok((ChunkPhase::Refreshing, ChunkAction::FetchPlaylist))
                } else {
                    Ok(self.plan_chunk())
                }
            },
            (ChunkPhase::Refreshing, ChunkEvent::Playlist { text, now }) => {
                match self.refresh_playlist(text.as_str(), now) {
                    Ok(()) => Ok(self.plan_chunk()),
                    Err(failure) => Err(failure),
                }
            },
            (ChunkPhase::Initializing, ChunkEvent::Resource { delivered, body }) => {
                let segment: &Segment = &self.segments[0].0;
                assert(self@.segments[0].0 == segment@);
                match &segment.initialization {
                    Some(section) => match section.received(delivered, bytes_as_slice(&body)) {
                        Ok(bytes) => Ok(
                            (
                                ChunkPhase::Downloading { initialization: Some(bytes) },
                                ChunkAction::FetchSegment(segment.data.clone()),
                            ),
                        ),
                        Err(error) => Err(ChunkFailure::Refused(error)),
                    },
                    // The phase fits a segment with a section only.
                    None => Ok((ChunkPhase::Done, ChunkAction::End)),
                }
            },
            (
                ChunkPhase::Downloading { initialization },
                ChunkEvent::Resource { delivered, body },
            ) => {
                let segment: &Segment = &self.segments[0].0;
                assert(self@.segments[0].0 == segment@);
                assert(self@.segments[0].1 == self.segments@[0].1@);
                let media: &[u8] = match requested_part(
                    RangeUse::Segment,
                    segment.data.byte_range_bounds(),
                    delivered,
                    bytes_as_slice(&body),
                ) {
                    Ok(media) => media,
                    Err(error) => {
                        return Err(ChunkFailure::Refused(error));
                    },
                };
                match self.segments[0].1.key_address() {
                    Some(address) => Ok(
                        (
                            ChunkPhase::Unlocking { initialization, media: slice_to_vec(media) },
                            ChunkAction::FetchKey(address.clone()),
                        ),
                    ),
                    None => self.unlock_segment(initialization, &[], media),
                }
            },
            (ChunkPhase::Unlocking { initialization, media }, ChunkEvent::Key(body)) => {
                self.unlock_segment(initialization, bytes_as_slice(&body), media.as_slice())
            },
            // No other event is accepted.
            (_, _) => Ok((ChunkPhase::Done, ChunkAction::End)),
        }
    }
}

} // verus!
