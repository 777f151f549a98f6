use vstd::prelude::*;

use crate::buffer;
use crate::chunk::{
    ChunkAction, ChunkActionView, ChunkEvent, ChunkEventView, ChunkFailure, ChunkFailureView,
    ChunkPhase, ChunkPhaseView,
};
use crate::encryption::{Encryption, EncryptionView};
use crate::error::{VideoError, VideoErrorView};
use crate::live;
use crate::playlist::{InitializationMap, Key, Playlist, PlaylistSegment};
use crate::segment::Segment;

verus! {

/// The model of a key tag has all that the tag says.
pub proof fn law_key_is_seen_whole(key: Key)
    ensures
        key@.method == key.method@,
        key@.uri is Some == key.uri is Some,
        key.uri matches Some(uri) ==> key@.uri->0 == uri@,
        key@.iv is Some == key.iv is Some,
        key.iv matches Some(iv) ==> key@.iv->0 == iv@,
        key@.keyformat is Some == key.keyformat is Some,
        key.keyformat matches Some(keyformat) ==> key@.keyformat->0 == keyformat@,
{
}

/// The model of a map has all that the map says.
pub proof fn law_map_is_seen_whole(map: InitializationMap)
    ensures
        map@.uri == map.uri@,
        map@.byte_range == map.byte_range,
{
}

/// The model of a listed segment has all that is listed.
pub proof fn law_listed_segment_is_seen_whole(segment: PlaylistSegment)
    ensures
        segment@.uri == segment.uri@,
        segment@.byte_range == segment.byte_range,
        segment@.discontinuity == segment.discontinuity,
        segment@.key is Some == segment.key is Some,
        segment.key matches Some(key) ==> segment@.key->0 == key@,
        segment@.map is Some == segment.map is Some,
        segment.map matches Some(map) ==> segment@.map->0 == map@,
{
}

/// The model of a playlist has all that is listed, in order.
pub proof fn law_playlist_is_seen_whole(playlist: Playlist)
    ensures
        playlist@.media_sequence == playlist.media_sequence,
        playlist@.discontinuity_sequence == playlist.discontinuity_sequence,
        playlist@.end_list == playlist.end_list,
        playlist@.segments.len() == playlist.segments@.len(),
        forall|i: int|
            0 <= i < playlist.segments@.len() ==> #[trigger] playlist@.segments[i]
                == playlist.segments@[i]@,
{
}

/// The model of a segment to download has all that it holds.
pub proof fn law_segment_is_seen_whole(segment: Segment)
    ensures
        segment@.data == segment.data@,
        segment@.discon_seq == segment.discon_seq,
        segment@.seq == segment.seq,
        segment@.initialization is Some == segment.initialization is Some,
        segment.initialization matches Some(section) ==> segment@.initialization->0 == section@,
{
}

/// The model of a queue has its segments, in order, each with its encryption.
pub proof fn law_queue_is_seen_whole(queue: Seq<(Segment, Encryption)>)
    ensures
        live::queue_view(queue).len() == queue.len(),
        forall|i: int|
            0 <= i < queue.len() ==> #[trigger] live::queue_view(queue)[i] == (
                queue[i].0@,
                queue[i].1@,
            ),
{
}

/// The model of an encryption has its method, its address and its whole vector.
pub proof fn law_encryption_is_seen_whole(encryption: Encryption)
    ensures
        match encryption {
            Encryption::Unencrypted => encryption@ == EncryptionView::Unencrypted,
            Encryption::Aes128 { key_uri, iv } => encryption@ == (EncryptionView::Aes128 {
                key_uri: key_uri@,
                iv: iv@,
            }),
            Encryption::SampleAes => encryption@ == EncryptionView::SampleAes,
        },
{
}

/// The model of an event has all that the stream is told.
pub proof fn law_event_is_seen_whole(event: ChunkEvent)
    ensures
        match event {
            ChunkEvent::Time(now) => event@ == ChunkEventView::Time(now),
            ChunkEvent::Playlist { text, now } => event@ == (ChunkEventView::Playlist {
                text: text@,
                now,
            }),
            ChunkEvent::Resource { delivered, body } => event@ == (ChunkEventView::Resource {
                delivered,
                body: buffer::bytes_contents(body),
            }),
            ChunkEvent::Key(body) => event@ == ChunkEventView::Key(buffer::bytes_contents(body)),
        },
{
}

/// The model of an action has all that the stream asks for.
pub proof fn law_action_is_seen_whole(action: ChunkAction)
    ensures
        match action {
            ChunkAction::ReadClock { after } => action@ == (ChunkActionView::ReadClock { after }),
            ChunkAction::FetchPlaylist => action@ == ChunkActionView::FetchPlaylist,
            ChunkAction::FetchInitialization(data) => action@
                == ChunkActionView::FetchInitialization(data@),
            ChunkAction::FetchSegment(data) => action@ == ChunkActionView::FetchSegment(data@),
            ChunkAction::FetchKey(url) => action@ == ChunkActionView::FetchKey(url@),
            ChunkAction::Emit(bytes) => action@ == ChunkActionView::Emit(
                buffer::bytes_contents(bytes),
            ),
            ChunkAction::End => action@ == ChunkActionView::End,
        },
{
}

/// The model of a phase has all that is kept for the chunk.
pub proof fn law_phase_is_seen_whole(phase: ChunkPhase)
    ensures
        phase is Started ==> phase@ == ChunkPhaseView::Started,
        phase is Waited ==> phase@ == ChunkPhaseView::Waited,
        phase is Refreshing ==> phase@ == ChunkPhaseView::Refreshing,
        phase is Initializing ==> phase@ == ChunkPhaseView::Initializing,
        phase is Done ==> phase@ == ChunkPhaseView::Done,
        phase matches ChunkPhase::Downloading { initialization } ==> {
            &&& phase@ is Downloading
            &&& phase@->Downloading_initialization is Some == initialization is Some
            &&& initialization matches Some(section) ==> phase@->Downloading_initialization->0
                == section@
        },
        phase matches ChunkPhase::Unlocking { initialization, media } ==> {
            &&& phase@ is Unlocking
            &&& phase@->media == media@
            &&& phase@->Unlocking_initialization is Some == initialization is Some
            &&& initialization matches Some(section) ==> phase@->Unlocking_initialization->0
                == section@
        },
{
}

/// The model of a failure has its words.
pub proof fn law_failure_is_seen_whole(failure: ChunkFailure, error: VideoError)
    ensures
        failure is SequenceOverflow ==> failure@ == ChunkFailureView::SequenceOverflow,
        failure matches ChunkFailure::Refused(error) ==> failure@ == ChunkFailureView::Refused(
            error@,
        ),
        match error {
            VideoError::DownloadError(text) => error@ == VideoErrorView::DownloadError(text@),
            VideoError::M3U8ParseError(text) => error@ == VideoErrorView::M3U8ParseError(text@),
            VideoError::EncryptionError(text) => error@ == VideoErrorView::EncryptionError(text@),
            VideoError::DecryptionError(text) => error@ == VideoErrorView::DecryptionError(text@),
            VideoError::UrlParseError(text) => error@ == VideoErrorView::UrlParseError(text@),
            VideoError::HexError(inner) => error@ == VideoErrorView::HexError(inner),
            VideoError::HttpStatus(status) => error@ == VideoErrorView::HttpStatus(status),
            VideoError::BodyCannotParsed => error@ == VideoErrorView::BodyCannotParsed,
        },
{
}

} // verus!
