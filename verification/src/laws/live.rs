use vstd::prelude::*;
use vstd::utf8;

use crate::chunk::{ChunkActionView, ChunkEventView, ChunkFailureView, ChunkPhaseView};
use crate::encryption;
use crate::error::VideoErrorView;
use crate::live_model;
use crate::live_model::{LiveStreamView, PlaylistWalk, REFRESH_MILLIS};
use crate::playlist;
use crate::playlist::PlaylistView;
use crate::remote_data;
use crate::remote_data::{RangeUse, RemoteDataView};
use crate::resource_url;
use crate::status::Delivery;

verus! {

/// How many of the first `n` segments of a playlist follow a discontinuity.
pub open spec fn discontinuities_in(playlist: PlaylistView, n: nat) -> nat
    decreases n,
{
    if n == 0 {
        0
    } else {
        discontinuities_in(playlist, (n - 1) as nat) + if playlist.segments[n - 1].discontinuity {
            1nat
        } else {
            0nat
        }
    }
}

/// The number of the segment `i` of a playlist.
pub open spec fn listed_number(playlist: PlaylistView, i: int) -> (u64, u64) {
    (
        (playlist.discontinuity_sequence + discontinuities_in(playlist, (i + 1) as nat)) as u64,
        (playlist.media_sequence + i) as u64,
    )
}

/// `after` is `before` with segments put behind its queue, all of them new.
pub open spec fn only_adds(before: LiveStreamView, after: LiveStreamView) -> bool {
    &&& after.well_formed()
    &&& before.segments.is_prefix_of(after.segments)
    &&& forall|n: (u64, u64)| #[trigger]
        live_model::already_taken(before.last_seg, n) ==> live_model::already_taken(
            after.last_seg,
            n,
        )
    &&& forall|k: int|
        before.segments.len() <= k < after.segments.len() ==> !live_model::already_taken(
            before.last_seg,
            (#[trigger] after.segments[k]).0.number(),
        )
    &&& after.stream_url == before.stream_url
    &&& after.emitted_initialization == before.emitted_initialization
}

/// Reading one segment only adds to the stream.
pub proof fn lemma_step_only_adds(walk: PlaylistWalk, playlist: PlaylistView, i: int)
    requires
        walk.stream.well_formed(),
        !(walk.encryption is SampleAes),
    ensures
        walk.step(playlist, i) matches Ok(next) ==> {
            &&& only_adds(walk.stream, next.stream)
            &&& next.stream.last_refresh == walk.stream.last_refresh
            &&& next.stream.is_end == walk.stream.is_end
            &&& !(next.encryption is SampleAes)
        },
{
    if let Ok(next) = walk.step(playlist, i) {
        let segment = playlist.segments[i];
        if next.stream != walk.stream {
            let number = next.stream.last_seg->0;
            let queued = walk.queued(segment, walk.byte_range(segment)->Ok_0.0, number)->Ok_0;
            live_model::lemma_with_segment_well_formed(walk.stream, queued);
        }
    }
}

/// Reading the rest of a playlist only adds to the stream.
pub proof fn lemma_run_only_adds(walk: PlaylistWalk, playlist: PlaylistView, i: nat)
    requires
        walk.stream.well_formed(),
        !(walk.encryption is SampleAes),
    ensures
        only_adds(walk.stream, walk.run(playlist, i).0),
        walk.run(playlist, i).0.last_refresh == walk.stream.last_refresh,
        walk.run(playlist, i).0.is_end == walk.stream.is_end,
    decreases playlist.segments.len() - i,
{
    if i < playlist.segments.len() {
        if let Ok(next) = walk.step(playlist, i as int) {
            lemma_step_only_adds(walk, playlist, i as int);
            lemma_run_only_adds(next, playlist, i + 1);
            let last = next.run(playlist, i + 1).0;
            assert forall|k: int|
                walk.stream.segments.len() <= k
                    < last.segments.len() implies !live_model::already_taken(
                walk.stream.last_seg,
                (#[trigger] last.segments[k]).0.number(),
            ) by {
                if k < next.stream.segments.len() {
                    assert(last.segments[k] == next.stream.segments[k]);
                }
            }
        }
    }
}

/// Reading a playlist, to its end or not, only ever adds new segments behind the
/// queue. The queue stays in order and free of doubles, what was taken stays
/// taken, and nothing else about the stream changes.
pub proof fn law_playlist_only_adds(stream: LiveStreamView, playlist: PlaylistView)
    requires
        stream.well_formed(),
    ensures
        only_adds(stream, stream.applied(playlist).0),
        stream.applied(playlist).0.last_refresh == stream.last_refresh,
        stream.applied(playlist).0.is_end == stream.is_end,
{
    lemma_run_only_adds(PlaylistWalk::start(stream), playlist, 0);
}

/// What one step does to the numbers.
proof fn lemma_step_numbers(walk: PlaylistWalk, playlist: PlaylistView, i: int)
    requires
        0 <= i < playlist.segments.len(),
        walk.discontinuities == discontinuities_in(playlist, i as nat),
    ensures
        walk.step(playlist, i) matches Ok(next) ==> {
            &&& next.discontinuities == discontinuities_in(playlist, (i + 1) as nat)
            &&& playlist.discontinuity_sequence + next.discontinuities <= u64::MAX
            &&& playlist.media_sequence + i <= u64::MAX
            &&& live_model::already_taken(next.stream.last_seg, listed_number(playlist, i))
            &&& next.stream.last_seg == walk.stream.last_seg || next.stream.last_seg == Some(
                listed_number(playlist, i),
            )
        },
{
}

/// Once a playlist was read to its end, all of its segments are taken.
proof fn lemma_run_takes_all(walk: PlaylistWalk, playlist: PlaylistView, i: nat, k: int)
    requires
        walk.stream.well_formed(),
        !(walk.encryption is SampleAes),
        walk.discontinuities == discontinuities_in(playlist, i),
        walk.run(playlist, i).1 is None,
        i <= k < playlist.segments.len(),
    ensures
        live_model::already_taken(walk.run(playlist, i).0.last_seg, listed_number(playlist, k)),
    decreases playlist.segments.len() - i,
{
    let next = walk.step(playlist, i as int)->Ok_0;
    lemma_step_numbers(walk, playlist, i as int);
    lemma_step_only_adds(walk, playlist, i as int);
    lemma_run_only_adds(next, playlist, i + 1);
    if k > i {
        lemma_run_takes_all(next, playlist, i + 1, k);
    }
}

/// Reading on with a stream that has all the segments taken changes nothing.
proof fn lemma_run_again(
    first: PlaylistWalk,
    second: PlaylistWalk,
    playlist: PlaylistView,
    i: nat,
)
    requires
        first.stream.well_formed(),
        !(first.encryption is SampleAes),
        first.discontinuities == discontinuities_in(playlist, i),
        first.run(playlist, i).1 is None,
        second.stream.stream_url == first.stream.stream_url,
        second.previous == first.previous,
        second.discontinuities == first.discontinuities,
        forall|n: (u64, u64)| #[trigger]
            live_model::already_taken(first.run(playlist, i).0.last_seg, n)
                ==> live_model::already_taken(second.stream.last_seg, n),
    ensures
        second.run(playlist, i) == (second.stream, None::<ChunkFailureView>),
    decreases playlist.segments.len() - i,
{
    if i < playlist.segments.len() {
        let next = first.step(playlist, i as int)->Ok_0;
        lemma_step_numbers(first, playlist, i as int);
        lemma_step_only_adds(first, playlist, i as int);
        lemma_run_takes_all(first, playlist, i, i as int);
        let again = second.step(playlist, i as int)->Ok_0;
        lemma_run_again(next, again, playlist, i + 1);
    }
}

/// Once a playlist was read to its end, reading it again changes nothing, however
/// many segments were handed out or taken from other playlists in between.
pub proof fn law_playlist_read_again_adds_nothing(
    stream: LiveStreamView,
    playlist: PlaylistView,
    later: LiveStreamView,
)
    requires
        stream.well_formed(),
        stream.applied(playlist).1 is None,
        later.stream_url == stream.stream_url,
        forall|n: (u64, u64)| #[trigger]
            live_model::already_taken(stream.applied(playlist).0.last_seg, n)
                ==> live_model::already_taken(later.last_seg, n),
    ensures
        later.applied(playlist) == (later, None::<ChunkFailureView>),
{
    lemma_run_again(PlaylistWalk::start(stream), PlaylistWalk::start(later), playlist, 0);
}

/// The last number that a walk took comes before the segment that it is at, or is
/// the one that it started with.
pub open spec fn behind(
    start: LiveStreamView,
    walk: PlaylistWalk,
    playlist: PlaylistView,
    i: nat,
) -> bool {
    ||| walk.stream.last_seg == start.last_seg
    ||| walk.stream.last_seg matches Some(last) && last.0 <= playlist.discontinuity_sequence
        + discontinuities_in(playlist, i) && last.1 < playlist.media_sequence + i
}

/// The initialization section that the last map among the first `n` segments of a
/// playlist names, of those that resolve.
pub open spec fn section_in(stream_url: Seq<char>, playlist: PlaylistView, n: nat) -> Option<
    RemoteDataView,
>
    decreases n,
{
    if n == 0 {
        None
    } else {
        let before = section_in(stream_url, playlist, (n - 1) as nat);
        match playlist.segments[n - 1].map {
            None => before,
            Some(map) => match resource_url::absolute_url(stream_url, map.uri) {
                Err(error) => before,
                Ok(url) => Some(RemoteDataView { url, byte_range: map.byte_range }),
            },
        }
    }
}

/// The segment `k` of a playlist is at this place of a queue, with the section of
/// the last map at or before it.
pub open spec fn queued_at(
    stream: LiveStreamView,
    place: int,
    playlist: PlaylistView,
    k: int,
) -> bool {
    &&& stream.segments[place].0.number() == listed_number(playlist, k)
    &&& stream.segments[place].0.initialization == section_in(
        stream.stream_url,
        playlist,
        (k + 1) as nat,
    )
}

/// Every segment that a run queues has the section of the last map at or before it.
proof fn lemma_run_sections(walk: PlaylistWalk, playlist: PlaylistView, i: nat, place: int)
    requires
        walk.stream.well_formed(),
        !(walk.encryption is SampleAes),
        walk.discontinuities == discontinuities_in(playlist, i),
        walk.initialization == section_in(walk.stream.stream_url, playlist, i),
        walk.stream.segments.len() <= place < walk.run(playlist, i).0.segments.len(),
    ensures
        exists|k: int|
            i <= k < playlist.segments.len() && #[trigger] queued_at(
                walk.run(playlist, i).0,
                place,
                playlist,
                k,
            ),
    decreases playlist.segments.len() - i,
{
    if i < playlist.segments.len() {
        if let Ok(next) = walk.step(playlist, i as int) {
            let last = walk.run(playlist, i).0;
            lemma_step_numbers(walk, playlist, i as int);
            lemma_step_only_adds(walk, playlist, i as int);
            lemma_run_only_adds(next, playlist, i + 1);
            assert(next.initialization == section_in(
                next.stream.stream_url,
                playlist,
                (i + 1) as nat,
            ));
            if place < next.stream.segments.len() {
                assert(last.segments[place] == next.stream.segments[place]);
                assert(queued_at(last, place, playlist, i as int));
            } else {
                lemma_run_sections(next, playlist, i + 1, place);
                let k = choose|k: int|
                    i + 1 <= k < playlist.segments.len() && #[trigger] queued_at(
                        last,
                        place,
                        playlist,
                        k,
                    );
                assert(queued_at(last, place, playlist, k));
            }
        }
    }
}

/// A map is the initialization section of the segments that follow it: whether a
/// playlist is read to its end or not, every segment that is newly queued has the
/// section of the last map at or before it in the playlist, also where that map was
/// listed with a segment that was taken before.
pub proof fn law_new_segment_has_the_last_map(
    stream: LiveStreamView,
    playlist: PlaylistView,
    place: int,
)
    requires
        stream.well_formed(),
        stream.segments.len() <= place < stream.applied(playlist).0.segments.len(),
    ensures
        exists|k: int|
            0 <= k < playlist.segments.len() && #[trigger] queued_at(
                stream.applied(playlist).0,
                place,
                playlist,
                k,
            ),
{
    lemma_run_sections(PlaylistWalk::start(stream), playlist, 0, place);
}

/// Every segment that was not taken before ends up behind the queue.
proof fn lemma_run_queues_new(
    start: LiveStreamView,
    walk: PlaylistWalk,
    playlist: PlaylistView,
    i: nat,
    k: int,
)
    requires
        walk.stream.well_formed(),
        !(walk.encryption is SampleAes),
        walk.discontinuities == discontinuities_in(playlist, i),
        walk.initialization == section_in(walk.stream.stream_url, playlist, i),
        behind(start, walk, playlist, i),
        walk.run(playlist, i).1 is None,
        i <= k < playlist.segments.len(),
        !live_model::already_taken(start.last_seg, listed_number(playlist, k)),
    ensures
        exists|place: int|
            walk.stream.segments.len() <= place < walk.run(playlist, i).0.segments.len()
                && #[trigger] queued_at(walk.run(playlist, i).0, place, playlist, k),
    decreases playlist.segments.len() - i,
{
    let next = walk.step(playlist, i as int)->Ok_0;
    let last = next.run(playlist, i + 1).0;
    lemma_step_numbers(walk, playlist, i as int);
    lemma_step_only_adds(walk, playlist, i as int);
    lemma_run_only_adds(next, playlist, i + 1);
    if k == i {
        let number = listed_number(playlist, k);
        assert(!live_model::already_taken(walk.stream.last_seg, number));
        let segment = playlist.segments[k];
        let queued = walk.queued(segment, walk.byte_range(segment)->Ok_0.0, number)->Ok_0;
        live_model::lemma_with_segment_well_formed(walk.stream, queued);
        let place = walk.stream.segments.len() as int;
        assert(last.segments[place] == next.stream.segments[place]);
        assert(queued_at(last, place, playlist, k));
    } else {
        lemma_run_queues_new(start, next, playlist, i + 1, k);
        let place = choose|place: int|
            next.stream.segments.len() <= place < last.segments.len() && #[trigger] queued_at(
                last,
                place,
                playlist,
                k,
            );
        assert(queued_at(last, place, playlist, k));
    }
}

/// A playlist that is read to its end leaves no new segment behind: every listed
/// segment that was not taken before is put behind the queue, with the section of
/// the last map at or before it.
pub proof fn law_every_new_segment_is_queued(
    stream: LiveStreamView,
    playlist: PlaylistView,
    k: int,
)
    requires
        stream.well_formed(),
        stream.applied(playlist).1 is None,
        0 <= k < playlist.segments.len(),
        !live_model::already_taken(stream.last_seg, listed_number(playlist, k)),
    ensures
        stream.applied(playlist).0.is_queued(listed_number(playlist, k)),
        exists|place: int|
            stream.segments.len() <= place < stream.applied(playlist).0.segments.len()
                && #[trigger] queued_at(stream.applied(playlist).0, place, playlist, k),
{
    lemma_run_queues_new(stream, PlaylistWalk::start(stream), playlist, 0, k);
}

/// A playlist without its segments from `k` on.
pub open spec fn cut_before(playlist: PlaylistView, k: nat) -> PlaylistView {
    PlaylistView { segments: playlist.segments.take(k as int), ..playlist }
}

/// Where a run stops is where the playlist could have been cut, and the segment
/// there is not taken.
proof fn lemma_failure_cuts(
    start: LiveStreamView,
    walk: PlaylistWalk,
    playlist: PlaylistView,
    i: nat,
) -> (k: nat)
    requires
        i <= playlist.segments.len(),
        walk.run(playlist, i).1 is Some,
        walk.discontinuities == discontinuities_in(playlist, i),
        behind(start, walk, playlist, i),
    ensures
        i <= k < playlist.segments.len(),
        walk.run(cut_before(playlist, k), i) == (
            walk.run(playlist, i).0,
            None::<ChunkFailureView>,
        ),
        stays_untaken(start, walk.run(playlist, i), playlist, k as int),
    decreases playlist.segments.len() - i,
{
    match walk.step(playlist, i as int) {
        Err(failure) => { i },
        Ok(next) => {
            lemma_step_numbers(walk, playlist, i as int);
            let k = lemma_failure_cuts(start, next, playlist, i + 1);
            assert(cut_before(playlist, k).segments[i as int] == playlist.segments[i as int]);
            assert(walk.step(cut_before(playlist, k), i as int) == walk.step(playlist, i as int));
            k
        },
    }
}

/// A segment that was refused and was not taken before is not taken after it.
pub open spec fn stays_untaken(
    before: LiveStreamView,
    after: (LiveStreamView, Option<ChunkFailureView>),
    playlist: PlaylistView,
    k: int,
) -> bool {
    &&& after.1 is Some
    &&& after.1->0 is Refused && !live_model::already_taken(
        before.last_seg,
        listed_number(playlist, k),
    ) ==> !live_model::already_taken(after.0.last_seg, listed_number(playlist, k))
}

/// A playlist that is refused at some segment has the effect of the same playlist
/// cut before that segment: the segments before it are queued, and it stays
/// untaken for the next refresh.
pub proof fn law_refused_segment_can_be_retried(stream: LiveStreamView, playlist: PlaylistView)
    requires
        stream.applied(playlist).1 is Some,
    ensures
        exists|k: nat|
            k < playlist.segments.len() && #[trigger] stream.applied(cut_before(playlist, k)) == (
                stream.applied(playlist).0,
                None::<ChunkFailureView>,
            ) && stays_untaken(stream, stream.applied(playlist), playlist, k as int),
{
    let k = lemma_failure_cuts(stream, PlaylistWalk::start(stream), playlist, 0);
    assert(stream.applied(cut_before(playlist, k)) == (
        stream.applied(playlist).0,
        None::<ChunkFailureView>,
    ));
}

/// A refresh that fails does not count as one: it is due again at once.
pub proof fn law_failed_refresh_is_due_again(
    stream: LiveStreamView,
    parsed: Result<PlaylistView, Seq<char>>,
    now: u128,
    later: u128,
)
    requires
        stream.well_formed(),
        stream.refreshed(parsed, now).1 is Some,
    ensures
        stream.refreshed(parsed, now).0.refresh_is_due(later) == stream.refresh_is_due(later),
{
    if let Ok(playlist) = parsed {
        law_playlist_only_adds(stream, playlist);
    }
}

/// A clock that is set back never makes a wait longer than a playlist is good for,
/// and never makes a refresh due.
pub proof fn law_clock_rollback_is_harmless(stream: LiveStreamView, now: u128)
    ensures
        live_model::elapsed_millis(stream.last_refresh, now) >= 0,
        now <= stream.last_refresh ==> live_model::elapsed_millis(stream.last_refresh, now) == 0,
        stream.wait(now) <= REFRESH_MILLIS,
        now <= stream.last_refresh ==> !stream.refresh_is_due(now),
{
}

/// After a wait the playlist is due, so that an empty queue is looked at again.
pub proof fn law_refresh_is_due_after_waiting(stream: LiveStreamView, now: u128, later: u128)
    requires
        stream.last_refresh <= now,
        stream.wait(now) > 0,
        later >= now + stream.wait(now),
    ensures
        stream.refresh_is_due(later),
{
}

/// A step that hands out the first segment.
pub open spec fn hands_out(
    phase: ChunkPhaseView,
    result: Result<(ChunkPhaseView, ChunkActionView), ChunkFailureView>,
) -> bool {
    &&& phase is Downloading || phase is Unlocking
    &&& result matches Ok((next, action)) && action is Emit
}

/// What any step does to the stream: it takes the first segment off the queue and
/// hands it out, or only adds.
proof fn lemma_advance_effect(
    stream: LiveStreamView,
    phase: ChunkPhaseView,
    event: ChunkEventView,
)
    requires
        stream.well_formed(),
        stream.fits(phase),
        phase.accepts(event),
    ensures
        ({
            let (next, result) = stream.advanced(phase, event);
            if hands_out(phase, result) {
                &&& stream.segments.len() > 0
                &&& next.segments == stream.segments.drop_first()
                &&& next.last_seg == stream.last_seg
                &&& next.well_formed()
            } else {
                only_adds(stream, next)
            }
        }),
{
    if let ChunkEventView::Playlist { text, now } = event {
        let parsed = playlist::media_playlist(utf8::encode_utf8(text));
        if let Ok(playlist) = parsed {
            law_playlist_only_adds(stream, playlist);
        }
    }
    let (next, result) = stream.advanced(phase, event);
    if hands_out(phase, result) {
        let rest = stream.segments.drop_first();
        assert forall|i: int, j: int| 0 <= i < j < rest.len() implies live_model::number_before(
            (#[trigger] rest[i]).0.number(),
            (#[trigger] rest[j]).0.number(),
        ) by {
            assert(rest[i] == stream.segments[i + 1] && rest[j] == stream.segments[j + 1]);
        }
        assert forall|i: int| 0 <= i < rest.len() implies live_model::already_taken(
            stream.last_seg,
            (#[trigger] rest[i]).0.number(),
        ) && !(rest[i].1 is SampleAes) by {
            assert(rest[i] == stream.segments[i + 1]);
        }
    }
}

/// A chunk that fails leaves the stream as it was: the segment stays first in the
/// queue, and its initialization section stays missing. (What a refused playlist
/// does is another law's matter.)
pub proof fn law_failed_chunk_changes_nothing(
    stream: LiveStreamView,
    phase: ChunkPhaseView,
    event: ChunkEventView,
)
    requires
        stream.fits(phase),
        phase.accepts(event),
        !(phase is Refreshing),
        stream.advanced(phase, event).1 is Err,
    ensures
        stream.advanced(phase, event).0 == stream,
{
}

/// A segment leaves the queue exactly when its bytes are handed to the reader.
pub proof fn law_segment_leaves_when_handed_out(
    stream: LiveStreamView,
    phase: ChunkPhaseView,
    event: ChunkEventView,
)
    requires
        stream.well_formed(),
        stream.fits(phase),
        phase.accepts(event),
    ensures
        ({
            let (next, result) = stream.advanced(phase, event);
            if hands_out(phase, result) {
                next.segments == stream.segments.drop_first()
            } else {
                stream.segments.is_prefix_of(next.segments)
            }
        }),
{
    lemma_advance_effect(stream, phase, event);
}

/// The numbers of the segments that are handed out over a row of steps, as far as
/// each of them is one that the stream waits for.
pub open spec fn handed_out(
    stream: LiveStreamView,
    steps: Seq<(ChunkPhaseView, ChunkEventView)>,
) -> Seq<(u64, u64)>
    decreases steps.len(),
{
    if steps.len() == 0 {
        Seq::empty()
    } else {
        let (phase, event) = steps.first();
        if stream.fits(phase) && phase.accepts(event) {
            let (next, result) = stream.advanced(phase, event);
            let rest = handed_out(next, steps.drop_first());
            if hands_out(phase, result) {
                seq![stream.segments[0].0.number()] + rest
            } else {
                rest
            }
        } else {
            Seq::empty()
        }
    }
}

/// What one step hands out, before the others.
proof fn lemma_handed_out_by_one_step(
    stream: LiveStreamView,
    steps: Seq<(ChunkPhaseView, ChunkEventView)>,
)
    requires
        steps.len() > 0,
    ensures
        ({
            let (phase, event) = steps.first();
            let (next, result) = stream.advanced(phase, event);
            let rest = handed_out(next, steps.drop_first());
            handed_out(stream, steps) == if !(stream.fits(phase) && phase.accepts(event)) {
                Seq::empty()
            } else if hands_out(phase, result) {
                seq![stream.segments[0].0.number()] + rest
            } else {
                rest
            }
        }),
{
}

/// Numbers that all come after `n`.
pub open spec fn all_after(n: (u64, u64), numbers: Seq<(u64, u64)>) -> bool {
    forall|i: int|
        0 <= i < numbers.len() ==> live_model::number_before(n, #[trigger] numbers[i])
}

/// Numbers in order, none of them twice.
pub open spec fn in_order(numbers: Seq<(u64, u64)>) -> bool {
    forall|i: int, j: int|
        0 <= i < j < numbers.len() ==> live_model::number_before(
            #[trigger] numbers[i],
            #[trigger] numbers[j],
        )
}

/// Putting a number before others that come after it.
proof fn lemma_number_goes_first(n: (u64, u64), m: (u64, u64), rest: Seq<(u64, u64)>)
    ensures
        all_after(n, rest) && live_model::number_before(n, m) ==> all_after(n, seq![m] + rest),
        in_order(rest) && all_after(m, rest) ==> in_order(seq![m] + rest),
{
    let all = seq![m] + rest;
    assert forall|i: int| 0 < i < all.len() implies #[trigger] all[i] == rest[i - 1] by {}
}

/// Everything that is handed out comes after what was taken and is not queued.
proof fn lemma_handed_out_after(
    stream: LiveStreamView,
    steps: Seq<(ChunkPhaseView, ChunkEventView)>,
    n: (u64, u64),
)
    requires
        stream.well_formed(),
        live_model::already_taken(stream.last_seg, n),
        forall|k: int|
            0 <= k < stream.segments.len() ==> live_model::number_before(
                n,
                (#[trigger] stream.segments[k]).0.number(),
            ),
    ensures
        all_after(n, handed_out(stream, steps)),
    decreases steps.len(),
{
    if steps.len() > 0 {
        let (phase, event) = steps.first();
        lemma_handed_out_by_one_step(stream, steps);
        if stream.fits(phase) && phase.accepts(event) {
            let (next, result) = stream.advanced(phase, event);
            lemma_advance_effect(stream, phase, event);
            assert forall|k: int| 0 <= k < next.segments.len() implies live_model::number_before(
                n,
                (#[trigger] next.segments[k]).0.number(),
            ) by {
                if hands_out(phase, result) {
                    assert(next.segments[k] == stream.segments[k + 1]);
                } else if k < stream.segments.len() {
                    assert(next.segments[k] == stream.segments[k]);
                } else {
                    assert(!live_model::already_taken(
                        stream.last_seg,
                        next.segments[k].0.number(),
                    ));
                }
            }
            lemma_handed_out_after(next, steps.drop_first(), n);
            if hands_out(phase, result) {
                lemma_number_goes_first(
                    n,
                    stream.segments[0].0.number(),
                    handed_out(next, steps.drop_first()),
                );
            }
        }
    }
}

/// However a stream is driven, segments are handed out in the order of their
/// numbers, and none of them twice.
pub proof fn law_segments_are_handed_out_once_and_in_order(
    stream: LiveStreamView,
    steps: Seq<(ChunkPhaseView, ChunkEventView)>,
)
    requires
        stream.well_formed(),
    ensures
        in_order(handed_out(stream, steps)),
    decreases steps.len(),
{
    if steps.len() > 0 {
        let (phase, event) = steps.first();
        lemma_handed_out_by_one_step(stream, steps);
        if stream.fits(phase) && phase.accepts(event) {
            let (next, result) = stream.advanced(phase, event);
            lemma_advance_effect(stream, phase, event);
            law_segments_are_handed_out_once_and_in_order(next, steps.drop_first());
            if hands_out(phase, result) {
                let n = stream.segments[0].0.number();
                assert forall|k: int| 0 <= k < next.segments.len() implies
                    live_model::number_before(n, (#[trigger] next.segments[k]).0.number()) by {
                    assert(next.segments[k] == stream.segments[k + 1]);
                }
                lemma_handed_out_after(next, steps.drop_first(), n);
                lemma_number_goes_first(n, n, handed_out(next, steps.drop_first()));
            }
        }
    }
}

/// A stream that is over stays over, whatever it is told.
pub proof fn law_end_is_final(
    stream: LiveStreamView,
    phase: ChunkPhaseView,
    event: ChunkEventView,
)
    requires
        stream.well_formed(),
        stream.fits(phase),
        phase.accepts(event),
        stream.is_end,
    ensures
        stream.advanced(phase, event).0.is_end,
{
    if let ChunkEventView::Playlist { text, now } = event {
        let parsed = playlist::media_playlist(utf8::encode_utf8(text));
        if let Ok(playlist) = parsed {
            law_playlist_only_adds(stream, playlist);
        }
    }
}

/// Whether an event is what comes of doing what the stream asks for.
pub open spec fn answers(action: ChunkActionView, event: ChunkEventView) -> bool {
    match action {
        ChunkActionView::ReadClock { after } => event is Time,
        ChunkActionView::FetchPlaylist => event is Playlist,
        ChunkActionView::FetchInitialization(data) => event is Resource,
        ChunkActionView::FetchSegment(data) => event is Resource,
        ChunkActionView::FetchKey(url) => event is Key,
        ChunkActionView::Emit(bytes) => false,
        ChunkActionView::End => false,
    }
}

/// How many steps a chunk can still take.
pub open spec fn steps_left(phase: ChunkPhaseView) -> nat {
    match phase {
        ChunkPhaseView::Started => 6,
        ChunkPhaseView::Waited => 5,
        ChunkPhaseView::Refreshing => 4,
        ChunkPhaseView::Initializing => 3,
        ChunkPhaseView::Downloading { initialization } => 2,
        ChunkPhaseView::Unlocking { initialization, media } => 1,
        ChunkPhaseView::Done => 0,
    }
}

/// Whoever does what the stream asks for has what it waits for: the answer to each
/// action is accepted by the phase that comes with it, and nothing is asked for
/// exactly when the chunk is done.
pub proof fn law_actions_lead_to_accepted_events(
    stream: LiveStreamView,
    phase: ChunkPhaseView,
    event: ChunkEventView,
    answer: ChunkEventView,
)
    requires
        stream.fits(phase),
        phase.accepts(event),
    ensures
        answers(stream.begun().1, answer) ==> stream.begun().0.accepts(answer),
        stream.fits(stream.begun().0),
        stream.advanced(phase, event).1 matches Ok((next, action)) ==> {
            &&& answers(action, answer) ==> next.accepts(answer)
            &&& stream.advanced(phase, event).0.fits(next)
            &&& next is Done <==> action is Emit || action is End
        },
{
}

/// A chunk is made in a few steps: each one leaves fewer to come.
pub proof fn law_chunk_is_made_in_few_steps(
    stream: LiveStreamView,
    phase: ChunkPhaseView,
    event: ChunkEventView,
)
    requires
        stream.fits(phase),
        phase.accepts(event),
    ensures
        stream.advanced(phase, event).1 matches Ok((next, action)) ==> steps_left(next)
            < steps_left(phase),
{
}

/// A new initialization section is fetched before the media of its segment, and
/// handed out right before it in the same chunk; only then is it noted as handed
/// out.
pub proof fn law_new_initialization_goes_first(
    stream: LiveStreamView,
    section_delivered: Delivery,
    section_body: Seq<u8>,
    delivered: Delivery,
    body: Seq<u8>,
    section: Seq<u8>,
    media: Seq<u8>,
)
    requires
        stream.segments.len() > 0,
        stream.missing_initialization() is Some,
        stream.segments[0].1 is Unencrypted,
        remote_data::delivered_part(
            RangeUse::Remote,
            stream.missing_initialization()->0.bounds(),
            section_delivered,
            section_body,
        ) == Ok::<Seq<u8>, VideoErrorView>(section),
        remote_data::delivered_part(
            RangeUse::Segment,
            stream.segments[0].0.data.bounds(),
            delivered,
            body,
        ) == Ok::<Seq<u8>, VideoErrorView>(media),
    ensures
        ({
            let first = stream.segments[0].0;
            let downloading = ChunkPhaseView::Downloading { initialization: Some(section) };
            &&& stream.planned() == (
                ChunkPhaseView::Initializing,
                ChunkActionView::FetchInitialization(stream.missing_initialization()->0),
            )
            &&& stream.advanced(
                ChunkPhaseView::Initializing,
                ChunkEventView::Resource { delivered: section_delivered, body: section_body },
            ) == (
                stream,
                Ok::<(ChunkPhaseView, ChunkActionView), ChunkFailureView>(
                    (downloading, ChunkActionView::FetchSegment(first.data)),
                ),
            )
            &&& stream.advanced(downloading, ChunkEventView::Resource { delivered, body }) == (
                stream.after_segment(true),
                Ok::<(ChunkPhaseView, ChunkActionView), ChunkFailureView>(
                    (ChunkPhaseView::Done, ChunkActionView::Emit(section + media)),
                ),
            )
            &&& stream.after_segment(true).emitted_initialization == first.initialization
        }),
{
}

/// An initialization section is handed out once: the next segment that needs the
/// same section is downloaded without it.
pub proof fn law_initialization_is_handed_out_once(stream: LiveStreamView)
    requires
        stream.segments.len() > 1,
        stream.segments[1].0.initialization == stream.segments[0].0.initialization,
    ensures
        ({
            let next = stream.after_segment(stream.missing_initialization() is Some);
            &&& next.missing_initialization() is None
            &&& next.planned() == (
                ChunkPhaseView::Downloading { initialization: None },
                ChunkActionView::FetchSegment(stream.segments[1].0.data),
            )
        }),
{
}

/// Encrypted media is never handed out before its key was fetched and accepted.
pub proof fn law_encrypted_media_waits_for_its_key(
    stream: LiveStreamView,
    initialization: Option<Seq<u8>>,
    delivered: Delivery,
    body: Seq<u8>,
)
    requires
        stream.segments.len() > 0,
        stream.segments[0].1 is Aes128,
    ensures
        ({
            let (next, result) = stream.advanced(
                ChunkPhaseView::Downloading { initialization },
                ChunkEventView::Resource { delivered, body },
            );
            &&& next == stream
            &&& result == match remote_data::delivered_part(
                RangeUse::Segment,
                stream.segments[0].0.data.bounds(),
                delivered,
                body,
            ) {
                Ok(media) => Ok::<(ChunkPhaseView, ChunkActionView), ChunkFailureView>(
                    (
                        ChunkPhaseView::Unlocking { initialization, media },
                        ChunkActionView::FetchKey(stream.segments[0].1->key_uri),
                    ),
                ),
                Err(error) => Err(ChunkFailureView::Refused(error)),
            }
        }),
{
}

/// Where the key does its work, what is handed out is what decryption gives.
pub proof fn law_decrypted_media_is_handed_out(
    stream: LiveStreamView,
    initialization: Option<Seq<u8>>,
    media: Seq<u8>,
    key_body: Seq<u8>,
)
    requires
        stream.segments.len() > 0,
        stream.segments[0].1 is Aes128,
    ensures
        stream.advanced(
            ChunkPhaseView::Unlocking { initialization, media },
            ChunkEventView::Key(key_body),
        ) == match encryption::decrypted(stream.segments[0].1, key_body, media) {
            Ok(plain) => (
                stream.after_segment(initialization is Some),
                Ok::<(ChunkPhaseView, ChunkActionView), ChunkFailureView>(
                    (
                        ChunkPhaseView::Done,
                        ChunkActionView::Emit(live_model::chunk_bytes(initialization, plain)),
                    ),
                ),
            ),
            Err(error) => (stream, Err(ChunkFailureView::Refused(error))),
        },
{
}

} // verus!
