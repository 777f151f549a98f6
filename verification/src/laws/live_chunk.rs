use vstd::prelude::*;
use vstd::utf8;

use crate::chunk::{ChunkActionView, ChunkEventView, ChunkFailureView, ChunkPhaseView};
use crate::encryption;
use crate::encryption::EncryptionView;
use crate::error::VideoErrorView;
use crate::live_model;
use crate::live_model::LiveStreamView;
use crate::playlist;
use crate::playlist::{ByteRange, PlaylistView};
use crate::remote_data;
use crate::remote_data::{RangeUse, RemoteDataView};
use crate::status::Delivery;
use crate::text;

verus! {

/// A chunk starts with the end exactly where the playlist has ended and everything was
/// handed out, and else with a look at the clock.
pub proof fn law_stream_ends_when_all_is_handed_out(stream: LiveStreamView)
    ensures
        stream.is_end && stream.segments.len() == 0 ==> stream.begun() == (
            ChunkPhaseView::Done,
            ChunkActionView::End,
        ),
        !stream.is_end || stream.segments.len() > 0 ==> stream.begun() == (
            ChunkPhaseView::Started,
            ChunkActionView::ReadClock { after: 0 },
        ),
{
}

/// Once a playlist that has ended was read, and its segments were handed out, the
/// stream says so.
pub proof fn law_ended_playlist_ends_the_stream(
    stream: LiveStreamView,
    listed: PlaylistView,
    now: u128,
    later: LiveStreamView,
)
    requires
        listed.end_list,
        stream.refreshed(Ok(listed), now).1 is None,
        later.is_end == stream.refreshed(Ok(listed), now).0.is_end,
        later.segments.len() == 0,
    ensures
        later.begun() == (ChunkPhaseView::Done, ChunkActionView::End),
{
}

/// How long a stream waits: not at all where it has something to hand out or nothing
/// to come, and else until twenty seconds after the last refresh, by a clock that
/// never runs backwards.
pub proof fn law_wait_is_until_the_next_refresh(stream: LiveStreamView, now: u128)
    ensures
        stream.segments.len() > 0 || stream.is_end ==> stream.wait(now) == 0,
        stream.segments.len() == 0 && !stream.is_end && now >= stream.last_refresh + 20000
            ==> stream.wait(now) == 0,
        stream.segments.len() == 0 && !stream.is_end && stream.last_refresh <= now
            < stream.last_refresh + 20000 ==> stream.wait(now) == stream.last_refresh + 20000 - now,
        stream.segments.len() == 0 && !stream.is_end && now < stream.last_refresh
            ==> stream.wait(now) == 20000,
{
}

/// A refresh is due from twenty seconds after the last one on, until the playlist has
/// ended.
pub proof fn law_refresh_is_due_after_twenty_seconds(stream: LiveStreamView, now: u128)
    ensures
        stream.refresh_is_due(now) <==> !stream.is_end && now >= stream.last_refresh + 20000,
{
}

/// A plan for the next chunk is right: an empty chunk where nothing is queued; the
/// section of the first segment where it has one that is not the one last handed out;
/// and else the media of the first segment.
pub open spec fn right_plan(
    stream: LiveStreamView,
    plan: (ChunkPhaseView, ChunkActionView),
) -> bool {
    let first = stream.segments[0].0;
    if stream.segments.len() == 0 {
        plan == (ChunkPhaseView::Done, ChunkActionView::Emit(Seq::empty()))
    } else if first.initialization is Some && stream.emitted_initialization
        != first.initialization {
        plan == (
            ChunkPhaseView::Initializing,
            ChunkActionView::FetchInitialization(first.initialization->0),
        )
    } else {
        plan == (
            ChunkPhaseView::Downloading { initialization: None },
            ChunkActionView::FetchSegment(first.data),
        )
    }
}

/// What comes after the playlist is up to date is right.
pub proof fn law_plan_is_right(stream: LiveStreamView)
    ensures
        right_plan(stream, stream.planned()),
{
}

/// The section of the first segment is fetched exactly where it differs, in its
/// address or its byte range, from the one that was handed out last, or where none
/// was.
pub proof fn law_section_is_fetched_exactly_when_it_changed(
    stream: LiveStreamView,
    section: RemoteDataView,
)
    requires
        stream.segments.len() > 0,
        stream.segments[0].0.initialization == Some(section),
    ensures
        stream.planned().1 == ChunkActionView::FetchInitialization(section) <==> (
        stream.emitted_initialization matches Some(emitted) ==> emitted.url != section.url
            || emitted.byte_range != section.byte_range),
        stream.planned().1 == ChunkActionView::FetchSegment(stream.segments[0].0.data) <==> (
        stream.emitted_initialization matches Some(emitted) && emitted.url == section.url
            && emitted.byte_range == section.byte_range),
{
}

/// The stream after its first segment was handed out, behind a section or not: the
/// segment is gone from the queue, the section is noted, and nothing else changed.
pub open spec fn handed_out_first(
    stream: LiveStreamView,
    next: LiveStreamView,
    initialized: bool,
) -> bool {
    &&& next.segments == stream.segments.skip(1)
    &&& initialized ==> next.emitted_initialization == stream.segments[0].0.initialization
    &&& !initialized ==> next.emitted_initialization == stream.emitted_initialization
    &&& next.stream_url == stream.stream_url
    &&& next.last_refresh == stream.last_refresh
    &&& next.is_end == stream.is_end
    &&& next.last_seg == stream.last_seg
}

/// Handing the first segment out takes it off the queue and notes its section.
pub proof fn law_handing_out_takes_the_first_segment(stream: LiveStreamView, initialized: bool)
    requires
        stream.segments.len() > 0,
    ensures
        handed_out_first(stream, stream.after_segment(initialized), initialized),
{
}

/// After a segment was handed out as planned, the section that is noted is its own,
/// where it has one; so the next segment is downloaded without its section where that
/// is the same, and with it where it is another.
pub proof fn law_changed_section_goes_before_its_media(
    stream: LiveStreamView,
    next: LiveStreamView,
    a: RemoteDataView,
    b: RemoteDataView,
)
    requires
        stream.segments.len() > 1,
        stream.segments[0].0.initialization == Some(a),
        stream.segments[1].0.initialization == Some(b),
        handed_out_first(stream, next, stream.planned().0 is Initializing),
    ensures
        next.emitted_initialization == Some(a),
        a != b ==> next.planned() == (
            ChunkPhaseView::Initializing,
            ChunkActionView::FetchInitialization(b),
        ),
        a == b ==> next.planned() == (
            ChunkPhaseView::Downloading { initialization: None },
            ChunkActionView::FetchSegment(stream.segments[1].0.data),
        ),
{
}

/// The part of a reply that was asked for: the whole body, but for a sub-range of a
/// resource that came back whole; `None` where the body does not reach that far.
pub open spec fn asked_part(
    byte_range: Option<ByteRange>,
    delivered: Delivery,
    body: Seq<u8>,
) -> Option<Seq<u8>> {
    if delivered is Full && byte_range is Some {
        let range = byte_range->0;
        let start = if range.offset is Some {
            range.offset->0 as int
        } else {
            0
        };
        if start + range.length <= body.len() {
            Some(body.subrange(start, start + range.length))
        } else {
            None
        }
    } else {
        Some(body)
    }
}

/// How a chunk fails for a body that does not reach as far as the range that was asked
/// for.
pub open spec fn refused_part(purpose: RangeUse, range: ByteRange, body: Seq<u8>) -> Result<
    (ChunkPhaseView, ChunkActionView),
    ChunkFailureView,
> {
    let start = if range.offset is Some {
        range.offset->0
    } else {
        0
    };
    Err(
        ChunkFailureView::Refused(
            remote_data::part_of(purpose, start, range.length, body)->Err_0,
        ),
    )
}

/// The bytes of a chunk: the section before the media, where there is one.
pub open spec fn section_then_media(section: Option<Seq<u8>>, media: Seq<u8>) -> Seq<u8> {
    if section is Some {
        section->0 + media
    } else {
        media
    }
}

/// A chunk is its section and then its media.
pub proof fn law_chunk_is_section_then_media(section: Option<Seq<u8>>, media: Seq<u8>)
    ensures
        live_model::chunk_bytes(section, media) == section_then_media(section, media),
{
}

/// The first look at the clock decides how long to wait, and nothing else.
pub proof fn law_first_look_at_the_clock(stream: LiveStreamView, now: u128)
    ensures
        stream.advanced(ChunkPhaseView::Started, ChunkEventView::Time(now)) == (
            stream,
            Ok::<(ChunkPhaseView, ChunkActionView), ChunkFailureView>(
                (
                    ChunkPhaseView::Waited,
                    ChunkActionView::ReadClock { after: stream.wait(now) },
                ),
            ),
        ),
{
}

/// The second look at the clock decides whether the playlist is read again; where it
/// is not, what is queued is handed out.
pub proof fn law_second_look_at_the_clock(stream: LiveStreamView, now: u128)
    ensures
        ({
            let (next, result) = stream.advanced(
                ChunkPhaseView::Waited,
                ChunkEventView::Time(now),
            );
            &&& next == stream
            &&& !stream.is_end && now >= stream.last_refresh + 20000 ==> result == Ok::<
                (ChunkPhaseView, ChunkActionView),
                ChunkFailureView,
            >((ChunkPhaseView::Refreshing, ChunkActionView::FetchPlaylist))
            &&& stream.is_end || now < stream.last_refresh + 20000 ==> result is Ok
                && right_plan(stream, result->Ok_0)
        }),
{
}

/// The playlist that was fetched refreshes the stream; where that fails the chunk
/// fails, and else what is queued then is handed out.
pub proof fn law_fetched_playlist_refreshes(stream: LiveStreamView, text: Seq<char>, now: u128)
    ensures
        ({
            let (next, result) = stream.advanced(
                ChunkPhaseView::Refreshing,
                ChunkEventView::Playlist { text, now },
            );
            let (refreshed, failure) = stream.refreshed(
                playlist::media_playlist(utf8::encode_utf8(text)),
                now,
            );
            &&& next == refreshed
            &&& failure matches Some(failure) ==> result == Err::<
                (ChunkPhaseView, ChunkActionView),
                ChunkFailureView,
            >(failure)
            &&& failure is None ==> result is Ok && right_plan(next, result->Ok_0)
        }),
{
}

/// The section that was fetched is kept for the chunk, and the media is fetched; a
/// section that is too short fails the chunk. The stream does not change.
pub proof fn law_fetched_section_is_kept(
    stream: LiveStreamView,
    delivered: Delivery,
    body: Seq<u8>,
)
    requires
        stream.segments.len() > 0,
        stream.segments[0].0.initialization is Some,
        body.len() <= usize::MAX,
    ensures
        ({
            let first = stream.segments[0].0;
            let (next, result) = stream.advanced(
                ChunkPhaseView::Initializing,
                ChunkEventView::Resource { delivered, body },
            );
            &&& next == stream
            &&& match asked_part(first.initialization->0.byte_range, delivered, body) {
                None => result == refused_part(
                    RangeUse::Remote,
                    first.initialization->0.byte_range->0,
                    body,
                ),
                Some(section) => result == Ok::<
                    (ChunkPhaseView, ChunkActionView),
                    ChunkFailureView,
                >(
                    (
                        ChunkPhaseView::Downloading { initialization: Some(section) },
                        ChunkActionView::FetchSegment(first.data),
                    ),
                ),
            }
        }),
{
}

/// The media that was fetched of a segment in the clear is handed out behind the
/// section that was kept for it; media that is too short fails the chunk and changes
/// nothing.
pub proof fn law_fetched_clear_media_is_handed_out(
    stream: LiveStreamView,
    initialization: Option<Seq<u8>>,
    delivered: Delivery,
    body: Seq<u8>,
)
    requires
        stream.segments.len() > 0,
        stream.segments[0].1 is Unencrypted,
        body.len() <= usize::MAX,
    ensures
        ({
            let (next, result) = stream.advanced(
                ChunkPhaseView::Downloading { initialization },
                ChunkEventView::Resource { delivered, body },
            );
            match asked_part(stream.segments[0].0.data.byte_range, delivered, body) {
                None => next == stream && result == refused_part(
                    RangeUse::Segment,
                    stream.segments[0].0.data.byte_range->0,
                    body,
                ),
                Some(media) => {
                    &&& handed_out_first(stream, next, initialization is Some)
                    &&& result == Ok::<(ChunkPhaseView, ChunkActionView), ChunkFailureView>(
                        (
                            ChunkPhaseView::Done,
                            ChunkActionView::Emit(section_then_media(initialization, media)),
                        ),
                    )
                },
            }
        }),
{
}

/// The media that was fetched of an encrypted segment is kept, with its section, until
/// its own key was fetched. The stream does not change.
pub proof fn law_fetched_encrypted_media_is_kept(
    stream: LiveStreamView,
    initialization: Option<Seq<u8>>,
    delivered: Delivery,
    body: Seq<u8>,
)
    requires
        stream.segments.len() > 0,
        stream.segments[0].1 is Aes128,
        body.len() <= usize::MAX,
    ensures
        ({
            let (next, result) = stream.advanced(
                ChunkPhaseView::Downloading { initialization },
                ChunkEventView::Resource { delivered, body },
            );
            &&& next == stream
            &&& match asked_part(stream.segments[0].0.data.byte_range, delivered, body) {
                None => result == refused_part(
                    RangeUse::Segment,
                    stream.segments[0].0.data.byte_range->0,
                    body,
                ),
                Some(media) => result == Ok::<(ChunkPhaseView, ChunkActionView), ChunkFailureView>(
                    (
                        ChunkPhaseView::Unlocking { initialization, media },
                        ChunkActionView::FetchKey(stream.segments[0].1->key_uri),
                    ),
                ),
            }
        }),
{
}

/// With its key the media of the first segment is decrypted under the whole of the
/// segment's vector, and handed out behind its section. A key that has not sixteen
/// bytes, and media that does not decrypt, fail the chunk and change nothing.
pub proof fn law_fetched_key_unlocks_the_media(
    stream: LiveStreamView,
    initialization: Option<Seq<u8>>,
    media: Seq<u8>,
    key_body: Seq<u8>,
    key_uri: Seq<char>,
    iv: Seq<u8>,
)
    requires
        stream.segments.len() > 0,
        stream.segments[0].1 == (EncryptionView::Aes128 { key_uri, iv }),
    ensures
        ({
            let (next, result) = stream.advanced(
                ChunkPhaseView::Unlocking { initialization, media },
                ChunkEventView::Key(key_body),
            );
            if key_body.len() != 16 {
                &&& next == stream
                &&& result == Err::<(ChunkPhaseView, ChunkActionView), ChunkFailureView>(
                    ChunkFailureView::Refused(
                        VideoErrorView::EncryptionError(
                            "AES-128 key must be exactly 16 bytes, got "@ + text::decimal(
                                key_body.len(),
                            ),
                        ),
                    ),
                )
            } else {
                match encryption::aes128_cbc(key_body, iv, media) {
                    Ok(plain) => {
                        &&& handed_out_first(stream, next, initialization is Some)
                        &&& result == Ok::<(ChunkPhaseView, ChunkActionView), ChunkFailureView>(
                            (
                                ChunkPhaseView::Done,
                                ChunkActionView::Emit(section_then_media(initialization, plain)),
                            ),
                        )
                    },
                    Err(words) => {
                        &&& next == stream
                        &&& result == Err::<(ChunkPhaseView, ChunkActionView), ChunkFailureView>(
                            ChunkFailureView::Refused(VideoErrorView::DecryptionError(words)),
                        )
                    },
                }
            }
        }),
{
}

/// The time that has passed is what lies between the two readings, and none where the
/// clock was set back.
pub proof fn law_elapsed_time_lies_between_the_readings(last_refresh: u128, now: u128)
    ensures
        last_refresh <= now ==> last_refresh + live_model::elapsed_millis(last_refresh, now) == now,
        now <= last_refresh ==> live_model::elapsed_millis(last_refresh, now) == 0,
{
}

} // verus!
