use vstd::prelude::*;

use crate::chunk::ChunkFailureView;
use crate::encryption;
use crate::encryption::EncryptionView;
use crate::error::VideoErrorView;
use crate::laws;
use crate::live_model;
use crate::live_model::{LiveStreamView, PlaylistWalk, QueuedSegment};
use crate::playlist::{ByteRange, PlaylistView};
use crate::resource_url;

verus! {

/// Segment numbers are ordered by discontinuity, and within one by sequence. What
/// has been taken is the last number that was, and everything before it.
pub proof fn law_numbers_are_ordered(a: (u64, u64), b: (u64, u64))
    ensures
        a.0 < b.0 ==> live_model::number_before(a, b) && !live_model::number_before(b, a),
        a.0 == b.0 && a.1 < b.1 ==> live_model::number_before(a, b) && !live_model::number_before(
            b,
            a,
        ),
        !live_model::number_before(a, a),
        !live_model::already_taken(None, a),
        live_model::already_taken(Some(b), a) <==> a == b || live_model::number_before(a, b),
{
}

/// A new stream has nothing queued, nothing taken and nothing handed out, has never
/// been refreshed and is not over.
pub proof fn law_new_stream_is_empty(stream_url: Seq<char>, number: (u64, u64))
    ensures
        ({
            let stream = LiveStreamView::fresh(stream_url);
            &&& stream.stream_url == stream_url
            &&& stream.segments.len() == 0
            &&& !live_model::already_taken(stream.last_seg, number)
            &&& stream.emitted_initialization is None
            &&& stream.last_refresh == 0
            &&& !stream.is_end
        }),
{
}

/// Queueing a segment that was not taken puts it behind all the others, just as it
/// is, and notes its number; nothing else changes.
pub proof fn law_queued_segment_goes_last(stream: LiveStreamView, queued: QueuedSegment)
    requires
        stream.well_formed(),
        !live_model::already_taken(stream.last_seg, queued.segment.number()),
    ensures
        ({
            let next = stream.with_segment(queued);
            &&& next.segments == stream.segments.push((queued.segment, queued.encryption))
            &&& next.last_seg == Some((queued.segment.discon_seq, queued.segment.seq))
            &&& next.stream_url == stream.stream_url
            &&& next.last_refresh == stream.last_refresh
            &&& next.is_end == stream.is_end
            &&& next.emitted_initialization == stream.emitted_initialization
        }),
{
    assert forall|i: int| 0 <= i < stream.segments.len() implies (
    #[trigger] stream.segments[i]).0.number() != queued.segment.number() by {
        assert(live_model::already_taken(stream.last_seg, stream.segments[i].0.number()));
    }
}

/// Whether the segment `k` of a playlist was not taken before.
pub open spec fn untaken(stream: LiveStreamView, playlist: PlaylistView, k: int) -> bool {
    !live_model::already_taken(stream.last_seg, laws::live::listed_number(playlist, k))
}

/// Where the media of the segment `k` is.
pub open spec fn address(stream: LiveStreamView, playlist: PlaylistView, k: int) -> Result<
    Seq<char>,
    VideoErrorView,
> {
    resource_url::absolute_url(stream.stream_url, playlist.segments[k].uri)
}

/// Whether the numbers of the segment `k` have 64 bits.
pub open spec fn numbers_fit(playlist: PlaylistView, k: int) -> bool {
    &&& playlist.media_sequence + k <= u64::MAX
    &&& playlist.discontinuity_sequence + laws::live::discontinuities_in(playlist, (k + 1) as nat)
        <= u64::MAX
}

/// How many bytes the segment `k` lists.
pub open spec fn listed_length(playlist: PlaylistView, k: int) -> int {
    match playlist.segments[k].byte_range {
        Some(range) => range.length as int,
        None => 0,
    }
}

/// The byte that the sub-range of the segment `k` starts at: the one that it lists,
/// and else the one behind the sub-range of the segment before it.
pub open spec fn listed_start(playlist: PlaylistView, k: nat) -> int
    decreases k,
{
    match playlist.segments[k as int].byte_range {
        None => 0,
        Some(range) => match range.offset {
            Some(offset) => offset as int,
            None => if k == 0 {
                0
            } else {
                listed_start(playlist, (k - 1) as nat) + listed_length(playlist, k - 1)
            },
        },
    }
}

/// Whether the segment `k` may continue a sub-range: the segment before it has one,
/// of the same resource.
pub open spec fn continues(stream: LiveStreamView, playlist: PlaylistView, k: int) -> bool {
    &&& k > 0
    &&& playlist.segments[k - 1].byte_range is Some
    &&& address(stream, playlist, k - 1) == address(stream, playlist, k)
}

/// A segment's byte range is the one that it lists: none where it lists none; where
/// it lists a length and an offset, just these; where it lists a length only, that
/// length right behind the sub-range of the segment before it.
pub open spec fn range_as_listed(
    stream: LiveStreamView,
    playlist: PlaylistView,
    k: int,
    byte_range: Option<ByteRange>,
) -> bool {
    match playlist.segments[k].byte_range {
        None => byte_range is None,
        Some(listed) => {
            &&& byte_range is Some
            &&& byte_range->0.length == listed.length
            &&& listed.offset is Some ==> byte_range->0.offset == listed.offset
            &&& listed.offset is None ==> {
                &&& continues(stream, playlist, k)
                &&& byte_range->0.offset is Some
                &&& byte_range->0.offset->0 == listed_start(playlist, (k - 1) as nat)
                    + listed_length(playlist, k - 1)
            }
        },
    }
}

/// The segment `j` was not taken before and has a key tag.
pub open spec fn sets_key(stream: LiveStreamView, playlist: PlaylistView, j: int) -> bool {
    untaken(stream, playlist, j) && playlist.segments[j].key is Some
}

/// The segment `j` has the last key tag among the first `n`.
pub open spec fn has_last_key(
    stream: LiveStreamView,
    playlist: PlaylistView,
    n: int,
    j: int,
) -> bool {
    &&& 0 <= j < n
    &&& sets_key(stream, playlist, j)
    &&& forall|m: int| j < m < n ==> !#[trigger] sets_key(stream, playlist, m)
}

/// An encryption is the one in force behind the first `n` segments: what the last key
/// tag among those that were not taken before asks for, under the sequence number of
/// its segment; and none where there is no such tag.
pub open spec fn in_force(
    stream: LiveStreamView,
    playlist: PlaylistView,
    n: int,
    found: EncryptionView,
) -> bool {
    ||| {
        &&& found is Unencrypted
        &&& forall|j: int| 0 <= j < n ==> !#[trigger] sets_key(stream, playlist, j)
    }
    ||| exists|j: int| #[trigger]
        has_last_key(stream, playlist, n, j) && encryption::encryption_of(
            playlist.segments[j].key->0,
            stream.stream_url,
            (playlist.media_sequence + j) as u64,
        ) == Ok::<EncryptionView, VideoErrorView>(found)
}

/// The segment `k` of a playlist stands at this place of a queue as it is listed: with
/// its number, its address, its byte range, the encryption in force and the section
/// of the last map at or before it.
pub open spec fn queued_as_listed(
    stream: LiveStreamView,
    after: LiveStreamView,
    place: int,
    playlist: PlaylistView,
    k: int,
) -> bool {
    let (segment, encryption) = after.segments[place];
    &&& 0 <= k < playlist.segments.len()
    &&& untaken(stream, playlist, k)
    &&& segment.discon_seq == playlist.discontinuity_sequence + laws::live::discontinuities_in(
        playlist,
        (k + 1) as nat,
    )
    &&& segment.seq == playlist.media_sequence + k
    &&& address(stream, playlist, k) == Ok::<Seq<char>, VideoErrorView>(segment.data.url)
    &&& range_as_listed(stream, playlist, k, segment.data.byte_range)
    &&& in_force(stream, playlist, k + 1, encryption)
    &&& segment.initialization == laws::live::section_in(
        stream.stream_url,
        playlist,
        (k + 1) as nat,
    )
}

/// What is wrong with the byte range of the segment `k`, if anything is.
pub open spec fn range_trouble(stream: LiveStreamView, playlist: PlaylistView, k: int) -> Option<
    VideoErrorView,
> {
    match playlist.segments[k].byte_range {
        None => None,
        Some(range) => if address(stream, playlist, k) is Err {
            Some(address(stream, playlist, k)->Err_0)
        } else if range.length == 0 {
            Some(
                VideoErrorView::M3U8ParseError("HLS byte range length must be greater than zero"@),
            )
        } else if range.offset is None && (k == 0 || playlist.segments[k - 1].byte_range is None) {
            Some(
                VideoErrorView::M3U8ParseError(
                    "implicit HLS byte range has no previous sub-range"@,
                ),
            )
        } else if range.offset is None && !continues(stream, playlist, k) {
            Some(VideoErrorView::M3U8ParseError("implicit HLS byte range changed media resource"@))
        } else if listed_start(playlist, k as nat) > u64::MAX {
            Some(VideoErrorView::M3U8ParseError("implicit HLS byte range offset overflow"@))
        } else if listed_start(playlist, k as nat) + range.length - 1 > u64::MAX {
            Some(VideoErrorView::M3U8ParseError("HLS byte range end overflow"@))
        } else {
            None
        },
    }
}

/// What keeps the segment `k` of a playlist from being read, if anything does: a
/// number that has more than 64 bits; a byte range that makes no sense; and, where it
/// was not taken before, a key tag that is refused or an address that does not
/// resolve.
pub open spec fn trouble(stream: LiveStreamView, playlist: PlaylistView, k: int) -> Option<
    ChunkFailureView,
> {
    let segment = playlist.segments[k];
    let key = encryption::encryption_of(
        segment.key->0,
        stream.stream_url,
        (playlist.media_sequence + k) as u64,
    );
    let section = resource_url::absolute_url(stream.stream_url, segment.map->0.uri);
    if !numbers_fit(playlist, k) {
        Some(ChunkFailureView::SequenceOverflow)
    } else if range_trouble(stream, playlist, k) is Some {
        Some(ChunkFailureView::Refused(range_trouble(stream, playlist, k)->0))
    } else if !untaken(stream, playlist, k) {
        None
    } else if segment.key is Some && key is Err {
        Some(ChunkFailureView::Refused(key->Err_0))
    } else if address(stream, playlist, k) is Err {
        Some(ChunkFailureView::Refused(address(stream, playlist, k)->Err_0))
    } else if segment.map is Some && section is Err {
        Some(ChunkFailureView::Refused(section->Err_0))
    } else {
        None
    }
}

/// What a walk over a playlist carries when it has come to the segment `i`, by what
/// is listed before it.
pub open spec fn on_track(
    stream: LiveStreamView,
    walk: PlaylistWalk,
    playlist: PlaylistView,
    i: nat,
) -> bool {
    &&& stream.well_formed()
    &&& laws::live::only_adds(stream, walk.stream)
    &&& !(walk.encryption is SampleAes)
    &&& walk.discontinuities == laws::live::discontinuities_in(playlist, i)
    &&& walk.stream.last_seg == if i > 0 && untaken(stream, playlist, i - 1) {
        Some(laws::live::listed_number(playlist, i - 1))
    } else {
        stream.last_seg
    }
    &&& i > 0 ==> numbers_fit(playlist, i - 1)
    &&& if i > 0 && playlist.segments[i - 1].byte_range is Some {
        let end = listed_start(playlist, (i - 1) as nat) + listed_length(playlist, i - 1) - 1;
        &&& address(stream, playlist, i - 1) is Ok
        &&& 0 <= end <= u64::MAX
        &&& walk.previous == Some((address(stream, playlist, i - 1)->Ok_0, end as u64))
    } else {
        walk.previous is None
    }
    &&& walk.initialization == laws::live::section_in(stream.stream_url, playlist, i)
    &&& in_force(stream, playlist, i as int, walk.encryption)
}

/// The byte range of the segment that a walk has come to.
proof fn lemma_range_on_track(
    stream: LiveStreamView,
    walk: PlaylistWalk,
    playlist: PlaylistView,
    i: nat,
)
    requires
        i < playlist.segments.len(),
        on_track(stream, walk, playlist, i),
    ensures
        match walk.byte_range(playlist.segments[i as int]) {
            Err(error) => range_trouble(stream, playlist, i as int) == Some(error),
            Ok((byte_range, previous)) => {
                &&& range_trouble(stream, playlist, i as int) is None
                &&& range_as_listed(stream, playlist, i as int, byte_range)
                &&& match playlist.segments[i as int].byte_range {
                    None => previous is None,
                    Some(range) => {
                        let end = listed_start(playlist, i) + range.length - 1;
                        &&& address(stream, playlist, i as int) is Ok
                        &&& 0 <= end <= u64::MAX
                        &&& previous == Some(
                            (address(stream, playlist, i as int)->Ok_0, end as u64),
                        )
                    },
                }
            },
        },
{
}

/// The key tags among one segment more.
proof fn lemma_in_force_grows(
    stream: LiveStreamView,
    playlist: PlaylistView,
    i: int,
    before: EncryptionView,
    found: EncryptionView,
)
    requires
        0 <= i,
        in_force(stream, playlist, i, before),
        if sets_key(stream, playlist, i) {
            encryption::encryption_of(
                playlist.segments[i].key->0,
                stream.stream_url,
                (playlist.media_sequence + i) as u64,
            ) == Ok::<EncryptionView, VideoErrorView>(found)
        } else {
            found == before
        },
    ensures
        in_force(stream, playlist, i + 1, found),
{
    if sets_key(stream, playlist, i) {
        assert(has_last_key(stream, playlist, i + 1, i));
    } else if exists|j: int| #[trigger]
        has_last_key(stream, playlist, i, j) && encryption::encryption_of(
            playlist.segments[j].key->0,
            stream.stream_url,
            (playlist.media_sequence + j) as u64,
        ) == Ok::<EncryptionView, VideoErrorView>(before) {
        let j = choose|j: int| #[trigger]
            has_last_key(stream, playlist, i, j) && encryption::encryption_of(
                playlist.segments[j].key->0,
                stream.stream_url,
                (playlist.media_sequence + j) as u64,
            ) == Ok::<EncryptionView, VideoErrorView>(before);
        assert(has_last_key(stream, playlist, i + 1, j));
    }
}

/// Whether the segment that a walk has come to was taken by it is whether it was taken
/// before.
proof fn lemma_taken_on_track(
    stream: LiveStreamView,
    walk: PlaylistWalk,
    playlist: PlaylistView,
    i: nat,
)
    requires
        i < playlist.segments.len(),
        on_track(stream, walk, playlist, i),
        numbers_fit(playlist, i as int),
    ensures
        live_model::already_taken(
            walk.stream.last_seg,
            laws::live::listed_number(playlist, i as int),
        ) == !untaken(stream, playlist, i as int),
        i > 0 && untaken(stream, playlist, i - 1) ==> untaken(stream, playlist, i as int),
{
}

/// One step of a walk: it stops on trouble and only then, and goes on as listed.
proof fn lemma_step_on_track(
    stream: LiveStreamView,
    walk: PlaylistWalk,
    playlist: PlaylistView,
    i: nat,
)
    requires
        i < playlist.segments.len(),
        on_track(stream, walk, playlist, i),
    ensures
        match walk.step(playlist, i as int) {
            Err(failure) => trouble(stream, playlist, i as int) == Some(failure),
            Ok(next) => {
                &&& trouble(stream, playlist, i as int) is None
                &&& on_track(stream, next, playlist, i + 1)
                &&& if untaken(stream, playlist, i as int) {
                    let place = walk.stream.segments.len() as int;
                    &&& next.stream.segments.len() == place + 1
                    &&& queued_as_listed(stream, next.stream, place, playlist, i as int)
                } else {
                    next.stream == walk.stream
                }
            },
        },
{
    let segment = playlist.segments[i as int];
    if numbers_fit(playlist, i as int) {
        lemma_range_on_track(stream, walk, playlist, i);
        lemma_taken_on_track(stream, walk, playlist, i);
    }
    if let Ok(next) = walk.step(playlist, i as int) {
        laws::live::lemma_step_only_adds(walk, playlist, i as int);
        lemma_only_adds_is_transitive(stream, walk.stream, next.stream);
        lemma_in_force_grows(stream, playlist, i as int, walk.encryption, next.encryption);
        if untaken(stream, playlist, i as int) {
            let number = laws::live::listed_number(playlist, i as int);
            let queued = walk.queued(segment, walk.byte_range(segment)->Ok_0.0, number)->Ok_0;
            live_model::lemma_with_segment_well_formed(walk.stream, queued);
        }
    }
}

/// Adding twice is adding.
proof fn lemma_only_adds_is_transitive(a: LiveStreamView, b: LiveStreamView, c: LiveStreamView)
    requires
        laws::live::only_adds(a, b),
        laws::live::only_adds(b, c),
    ensures
        laws::live::only_adds(a, c),
{
    assert forall|k: int|
        a.segments.len() <= k < c.segments.len() implies !live_model::already_taken(
        a.last_seg,
        (#[trigger] c.segments[k]).0.number(),
    ) by {
        if k < b.segments.len() {
            assert(c.segments[k] == b.segments[k]);
        }
    }
}

/// The rest of a walk stops at the first trouble, and only there.
proof fn lemma_run_stops_at_trouble(
    stream: LiveStreamView,
    walk: PlaylistWalk,
    playlist: PlaylistView,
    i: nat,
)
    requires
        i <= playlist.segments.len(),
        on_track(stream, walk, playlist, i),
    ensures
        match walk.run(playlist, i).1 {
            None => forall|k: int|
                i <= k < playlist.segments.len() ==> (#[trigger] trouble(
                    stream,
                    playlist,
                    k,
                )) is None,
            Some(failure) => exists|k: int|
                i <= k < playlist.segments.len() && #[trigger] first_trouble(
                    stream,
                    playlist,
                    i as int,
                    k,
                    failure,
                ),
        },
    decreases playlist.segments.len() - i,
{
    if i < playlist.segments.len() {
        lemma_step_on_track(stream, walk, playlist, i);
        match walk.step(playlist, i as int) {
            Err(failure) => {
                assert(first_trouble(stream, playlist, i as int, i as int, failure));
            },
            Ok(next) => {
                lemma_run_stops_at_trouble(stream, next, playlist, i + 1);
                if let Some(failure) = next.run(playlist, i + 1).1 {
                    let k = choose|k: int|
                        i + 1 <= k < playlist.segments.len() && #[trigger] first_trouble(
                            stream,
                            playlist,
                            (i + 1) as int,
                            k,
                            failure,
                        );
                    assert(first_trouble(stream, playlist, i as int, k, failure));
                }
            },
        }
    }
}

/// The segment `k` is the first from `i` on that there is trouble with, and this is
/// the trouble.
pub open spec fn first_trouble(
    stream: LiveStreamView,
    playlist: PlaylistView,
    i: int,
    k: int,
    failure: ChunkFailureView,
) -> bool {
    &&& trouble(stream, playlist, k) == Some(failure)
    &&& forall|j: int| i <= j < k ==> (#[trigger] trouble(stream, playlist, j)) is None
}

/// A walk starts on track.
proof fn lemma_start_on_track(stream: LiveStreamView, playlist: PlaylistView)
    requires
        stream.well_formed(),
    ensures
        on_track(stream, PlaylistWalk::start(stream), playlist, 0),
{
}

/// A playlist is read to its end exactly where there is no trouble with any of its
/// segments; else the first trouble stops the reading, and is what is reported.
pub proof fn law_reading_stops_at_the_first_trouble(
    stream: LiveStreamView,
    playlist: PlaylistView,
)
    requires
        stream.well_formed(),
    ensures
        match stream.applied(playlist).1 {
            None => forall|k: int|
                0 <= k < playlist.segments.len() ==> (#[trigger] trouble(
                    stream,
                    playlist,
                    k,
                )) is None,
            Some(failure) => exists|k: int|
                0 <= k < playlist.segments.len() && #[trigger] first_trouble(
                    stream,
                    playlist,
                    0,
                    k,
                    failure,
                ),
        },
{
    lemma_start_on_track(stream, playlist);
    lemma_run_stops_at_trouble(stream, PlaylistWalk::start(stream), playlist, 0);
}

/// What is queued by the rest of a walk is queued as listed.
proof fn lemma_run_queues_as_listed(
    stream: LiveStreamView,
    walk: PlaylistWalk,
    playlist: PlaylistView,
    i: nat,
    place: int,
)
    requires
        i <= playlist.segments.len(),
        on_track(stream, walk, playlist, i),
        walk.stream.segments.len() <= place < walk.run(playlist, i).0.segments.len(),
    ensures
        exists|k: int| #[trigger]
            queued_as_listed(stream, walk.run(playlist, i).0, place, playlist, k),
    decreases playlist.segments.len() - i,
{
    if i < playlist.segments.len() {
        lemma_step_on_track(stream, walk, playlist, i);
        if let Ok(next) = walk.step(playlist, i as int) {
            let last = walk.run(playlist, i).0;
            laws::live::lemma_run_only_adds(next, playlist, i + 1);
            if place < next.stream.segments.len() {
                assert(last.segments[place] == next.stream.segments[place]);
                assert(queued_as_listed(stream, last, place, playlist, i as int));
            } else {
                lemma_run_queues_as_listed(stream, next, playlist, i + 1, place);
                let k = choose|k: int| #[trigger]
                    queued_as_listed(stream, last, place, playlist, k);
                assert(queued_as_listed(stream, last, place, playlist, k));
            }
        }
    }
}

/// Whether a playlist is read to its end or not, every segment that it newly queues is
/// one of its own that was not taken before, queued as it is listed: with its number,
/// its address, its byte range, the encryption that its own key tag asks for or else
/// the last one before it, and the section of the last map at or before it.
pub proof fn law_new_segment_is_queued_as_listed(
    stream: LiveStreamView,
    playlist: PlaylistView,
    place: int,
)
    requires
        stream.well_formed(),
        stream.segments.len() <= place < stream.applied(playlist).0.segments.len(),
    ensures
        exists|k: int| #[trigger]
            queued_as_listed(stream, stream.applied(playlist).0, place, playlist, k),
{
    lemma_start_on_track(stream, playlist);
    lemma_run_queues_as_listed(stream, PlaylistWalk::start(stream), playlist, 0, place);
}

/// What is listed and was not taken is queued by the rest of a walk.
proof fn lemma_run_queues_listed(
    stream: LiveStreamView,
    walk: PlaylistWalk,
    playlist: PlaylistView,
    i: nat,
    k: int,
)
    requires
        on_track(stream, walk, playlist, i),
        i <= k < playlist.segments.len(),
        untaken(stream, playlist, k),
        forall|j: int| i <= j <= k ==> (#[trigger] trouble(stream, playlist, j)) is None,
    ensures
        exists|place: int|
            walk.stream.segments.len() <= place < walk.run(playlist, i).0.segments.len()
                && #[trigger] queued_as_listed(
                stream,
                walk.run(playlist, i).0,
                place,
                playlist,
                k,
            ),
    decreases playlist.segments.len() - i,
{
    lemma_step_on_track(stream, walk, playlist, i);
    assert(trouble(stream, playlist, i as int) is None);
    let next = walk.step(playlist, i as int)->Ok_0;
    let last = walk.run(playlist, i).0;
    laws::live::lemma_run_only_adds(next, playlist, i + 1);
    if k == i {
        let place = walk.stream.segments.len() as int;
        assert(last.segments[place] == next.stream.segments[place]);
        assert(queued_as_listed(stream, last, place, playlist, k));
    } else {
        lemma_run_queues_listed(stream, next, playlist, i + 1, k);
        let place = choose|place: int|
            next.stream.segments.len() <= place < last.segments.len()
                && #[trigger] queued_as_listed(stream, last, place, playlist, k);
        assert(queued_as_listed(stream, last, place, playlist, k));
    }
}

/// Every listed segment that was not taken before is newly queued as it is listed, as
/// long as there is no trouble with it or with a segment before it.
pub proof fn law_sound_segments_are_queued(
    stream: LiveStreamView,
    playlist: PlaylistView,
    k: int,
)
    requires
        stream.well_formed(),
        0 <= k < playlist.segments.len(),
        untaken(stream, playlist, k),
        forall|j: int| 0 <= j <= k ==> (#[trigger] trouble(stream, playlist, j)) is None,
    ensures
        exists|place: int|
            stream.segments.len() <= place < stream.applied(playlist).0.segments.len()
                && #[trigger] queued_as_listed(
                stream,
                stream.applied(playlist).0,
                place,
                playlist,
                k,
            ),
{
    lemma_start_on_track(stream, playlist);
    lemma_run_queues_listed(stream, PlaylistWalk::start(stream), playlist, 0, k);
    let after = stream.applied(playlist).0;
    let place = choose|place: int|
        stream.segments.len() <= place < after.segments.len() && #[trigger] queued_as_listed(
            stream,
            after,
            place,
            playlist,
            k,
        );
    assert(queued_as_listed(stream, after, place, playlist, k));
}

/// The last number at the end of a walk.
proof fn lemma_run_last_number(
    stream: LiveStreamView,
    walk: PlaylistWalk,
    playlist: PlaylistView,
    i: nat,
)
    requires
        i <= playlist.segments.len(),
        on_track(stream, walk, playlist, i),
        walk.run(playlist, i).1 is None,
    ensures
        ({
            let n = playlist.segments.len() as int;
            walk.run(playlist, i).0.last_seg == if n > 0 && untaken(stream, playlist, n - 1) {
                Some(laws::live::listed_number(playlist, n - 1))
            } else {
                stream.last_seg
            }
        }),
    decreases playlist.segments.len() - i,
{
    if i < playlist.segments.len() {
        lemma_step_on_track(stream, walk, playlist, i);
        lemma_run_last_number(stream, walk.step(playlist, i as int)->Ok_0, playlist, i + 1);
    }
}

/// After a playlist was read to its end, the last number that was taken is that of its
/// last segment, where that one is new; and else it is what it was. No number is taken
/// that was not listed.
pub proof fn law_last_number_is_the_last_listed(stream: LiveStreamView, playlist: PlaylistView)
    requires
        stream.well_formed(),
        stream.applied(playlist).1 is None,
    ensures
        ({
            let n = playlist.segments.len() as int;
            stream.applied(playlist).0.last_seg == if n > 0 && untaken(stream, playlist, n - 1) {
                Some(laws::live::listed_number(playlist, n - 1))
            } else {
                stream.last_seg
            }
        }),
{
    lemma_start_on_track(stream, playlist);
    lemma_run_last_number(stream, PlaylistWalk::start(stream), playlist, 0);
}

/// What is listed behind a segment does not change how it is queued: a playlist queues
/// first what it would queue if it were cut anywhere, where the cut one is read to its
/// end.
pub proof fn law_later_segments_do_not_matter(
    stream: LiveStreamView,
    playlist: PlaylistView,
    k: nat,
)
    requires
        stream.well_formed(),
        k <= playlist.segments.len(),
        stream.applied(laws::live::cut_before(playlist, k)).1 is None,
    ensures
        stream.applied(laws::live::cut_before(playlist, k)).0.segments.is_prefix_of(
            stream.applied(playlist).0.segments,
        ),
{
    lemma_cut_run(PlaylistWalk::start(stream), playlist, 0, k);
}

/// A cut playlist is read like the whole one, as far as it goes.
proof fn lemma_cut_run(walk: PlaylistWalk, playlist: PlaylistView, i: nat, k: nat)
    requires
        i <= k <= playlist.segments.len(),
        walk.stream.well_formed(),
        !(walk.encryption is SampleAes),
        walk.run(laws::live::cut_before(playlist, k), i).1 is None,
    ensures
        walk.run(laws::live::cut_before(playlist, k), i).0.segments.is_prefix_of(
            walk.run(playlist, i).0.segments,
        ),
    decreases k - i,
{
    let cut = laws::live::cut_before(playlist, k);
    if i == k {
        laws::live::lemma_run_only_adds(walk, playlist, i);
    } else {
        assert(cut.segments[i as int] == playlist.segments[i as int]);
        assert(walk.step(cut, i as int) == walk.step(playlist, i as int));
        laws::live::lemma_step_only_adds(walk, playlist, i as int);
        lemma_cut_run(walk.step(playlist, i as int)->Ok_0, playlist, i + 1, k);
    }
}

/// A refresh that succeeds was of a playlist that could be read. It makes the stream
/// over exactly where it was so before or the playlist says so, whenever the last
/// refresh was, and is noted with its time; the queue and the numbers are those that
/// the playlist gives.
pub proof fn law_refresh_follows_the_playlist(
    stream: LiveStreamView,
    parsed: Result<PlaylistView, Seq<char>>,
    now: u128,
)
    requires
        stream.well_formed(),
        stream.refreshed(parsed, now).1 is None,
    ensures
        ({
            let (next, failure) = stream.refreshed(parsed, now);
            &&& parsed is Ok
            &&& next.is_end <==> stream.is_end || parsed->Ok_0.end_list
            &&& next.last_refresh == now
            &&& next.segments == stream.applied(parsed->Ok_0).0.segments
            &&& next.last_seg == stream.applied(parsed->Ok_0).0.last_seg
            &&& next.emitted_initialization == stream.emitted_initialization
            &&& next.stream_url == stream.stream_url
        }),
{
    laws::live::law_playlist_only_adds(stream, parsed->Ok_0);
}

/// A refresh fails exactly where its text is no playlist, in the words of the parser,
/// or where there is trouble with a segment; the stream is then neither over nor
/// refreshed for it. A text that is no playlist changes nothing at all.
pub proof fn law_refresh_fails_with_the_playlist(
    stream: LiveStreamView,
    parsed: Result<PlaylistView, Seq<char>>,
    now: u128,
)
    requires
        stream.well_formed(),
    ensures
        ({
            let (next, failure) = stream.refreshed(parsed, now);
            &&& parsed matches Err(text) ==> {
                &&& next == stream
                &&& failure == Some(
                    ChunkFailureView::Refused(VideoErrorView::M3U8ParseError(text)),
                )
            }
            &&& parsed matches Ok(playlist) ==> failure == stream.applied(playlist).1
            &&& failure is Some ==> {
                &&& next.is_end == stream.is_end
                &&& next.last_refresh == stream.last_refresh
            }
            &&& failure is Some && parsed is Ok ==> next == stream.applied(parsed->Ok_0).0
        }),
{
    if let Ok(playlist) = parsed {
        laws::live::law_playlist_only_adds(stream, playlist);
    }
}

} // verus!
