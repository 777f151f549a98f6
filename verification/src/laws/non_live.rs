use vstd::prelude::*;

use crate::error::VideoErrorView;
use crate::laws;
use crate::non_live;
use crate::non_live::NonLiveStreamView;
use crate::status::Delivery;
use crate::text;

verus! {

/// A `Content-Range` header, put together from the texts of its bounds and its
/// total.
pub open spec fn header_of(first: Seq<char>, last: Seq<char>, total: Seq<char>) -> Seq<char> {
    "bytes "@ + first + "-"@ + last + "/"@ + total
}

/// The header of a partial reply that serves the bytes `start` to `end`, with
/// `total` behind the slash.
pub open spec fn content_range_header(start: u64, end: u64, total: Seq<char>) -> Seq<char> {
    header_of(text::decimal(start as nat), text::decimal(end as nat), total)
}

/// A total that agrees with the length of a resource: an asterisk, or the length
/// itself, with the served range ending before it.
pub open spec fn total_agrees(total: Seq<char>, end: u64, content_length: u64) -> bool {
    total == "*"@ || (text::parsed_u64(total) == Some(content_length) && end < content_length)
}

/// The header says that the bytes `start` to `end` are served, of a resource of
/// this length.
pub open spec fn serves(
    content_range: Seq<char>,
    start: u64,
    end: u64,
    content_length: u64,
) -> bool {
    exists|first: Seq<char>, last: Seq<char>, total: Seq<char>|
        {
            &&& content_range == #[trigger] header_of(first, last, total)
            &&& text::parsed_u64(first) == Some(start)
            &&& text::parsed_u64(last) == Some(end)
            &&& total_agrees(total, end, content_length)
        }
}

/// Splitting at the first `c` undoes joining with `c`, where the head is free of it.
proof fn lemma_split_of_join(head: Seq<char>, c: char, tail: Seq<char>)
    requires
        !head.contains(c),
    ensures
        text::split_at_first(head.push(c) + tail, c) == Some((head, tail)),
{
    let joined = head.push(c) + tail;
    assert forall|i: int| 0 <= i < head.len() implies joined[i] != c by {
        assert(joined[i] == head[i]);
        assert(head.contains(head[i]));
    }
    assert(joined[head.len() as int] == c);
    text::lemma_first_index_at(joined, c, head.len() as int);
    assert(joined.subrange(0, head.len() as int) =~= head);
    assert(joined.subrange(head.len() as int + 1, joined.len() as int) =~= tail);
}

/// Joining with `c` undoes splitting at the first `c`.
proof fn lemma_join_of_split(joined: Seq<char>, c: char)
    ensures
        text::split_at_first(joined, c) matches Some((head, tail)) ==> joined == head.push(c)
            + tail,
{
    text::lemma_first_index(joined, c);
    if let Some((head, tail)) = text::split_at_first(joined, c) {
        assert(joined =~= head.push(c) + tail);
    }
}

/// A text that reads as a number holds digits and plus signs only.
proof fn lemma_number_characters(number: Seq<char>, c: char)
    requires
        text::parsed_u64(number) is Some,
        !text::is_digit(c),
        c != '+',
    ensures
        !number.contains(c),
{
    let digits = text::without_plus(number);
    assert forall|i: int| 0 <= i < number.len() implies number[i] != c by {
        if number[0] == '+' {
            if i > 0 {
                assert(digits[i - 1] == number[i]);
                assert(text::is_digit(digits[i - 1]));
            }
        } else {
            assert(text::is_digit(digits[i]));
        }
    }
}

/// How a header is taken apart whose bounds are numbers.
proof fn lemma_header_parts(first: Seq<char>, last: Seq<char>, total: Seq<char>)
    requires
        text::parsed_u64(first) is Some,
        text::parsed_u64(last) is Some,
    ensures
        ({
            let bounds = first.push('-') + last;
            &&& text::after_prefix(header_of(first, last, total), "bytes "@) == Some(
                bounds.push('/') + total,
            )
            &&& text::split_at_first(bounds.push('/') + total, '/') == Some((bounds, total))
            &&& text::split_at_first(bounds, '-') == Some((first, last))
        }),
{
    reveal_strlit("bytes ");
    reveal_strlit("-");
    reveal_strlit("/");
    let header = header_of(first, last, total);
    let bounds = first.push('-') + last;
    assert(header =~= "bytes "@ + (bounds.push('/') + total));
    assert("bytes "@.is_prefix_of(header));
    assert(header.subrange("bytes "@.len() as int, header.len() as int) =~= bounds.push('/')
        + total);
    lemma_number_characters(first, '-');
    lemma_split_of_join(first, '-', last);
    lemma_number_characters(first, '/');
    lemma_number_characters(last, '/');
    assert(!bounds.contains('/')) by {
        assert forall|i: int| 0 <= i < bounds.len() implies bounds[i] != '/' by {
            if i < first.len() {
                assert(bounds[i] == first[i]);
                assert(first.contains(first[i]));
            } else if i > first.len() {
                assert(bounds[i] == last[i - first.len() - 1]);
                assert(last.contains(last[i - first.len() - 1]));
            }
        }
    }
    lemma_split_of_join(bounds, '/', total);
}

/// How a header is put together again from its parts.
proof fn lemma_parts_of_header(
    content_range: Seq<char>,
    range: Seq<char>,
    bounds: Seq<char>,
    total: Seq<char>,
    first: Seq<char>,
    last: Seq<char>,
)
    requires
        text::after_prefix(content_range, "bytes "@) == Some(range),
        text::split_at_first(range, '/') == Some((bounds, total)),
        text::split_at_first(bounds, '-') == Some((first, last)),
    ensures
        content_range == header_of(first, last, total),
{
    reveal_strlit("bytes ");
    reveal_strlit("-");
    reveal_strlit("/");
    lemma_join_of_split(range, '/');
    lemma_join_of_split(bounds, '-');
    assert(content_range =~= "bytes "@ + range);
    assert(content_range =~= header_of(first, last, total));
}

/// What a header is taken apart into decides whether the reply is accepted.
proof fn lemma_agreeing_parts_are_accepted(
    content_range: Seq<char>,
    range: Seq<char>,
    bounds: Seq<char>,
    total: Seq<char>,
    first: Seq<char>,
    last: Seq<char>,
    start: u64,
    end: u64,
    requested_end: u64,
    content_length: u64,
)
    requires
        text::after_prefix(content_range, "bytes "@) == Some(range),
        text::split_at_first(range, '/') == Some((bounds, total)),
        text::split_at_first(bounds, '-') == Some((first, last)),
        text::parsed_u64(first) == Some(start),
        text::parsed_u64(last) == Some(end),
        total_agrees(total, end, content_length),
        start <= end <= requested_end,
        end - start < u64::MAX,
    ensures
        non_live::served_end(
            content_range,
            start,
            requested_end,
            content_length,
            (end - start + 1) as nat,
        ) == Ok::<u64, VideoErrorView>(end),
{
}

/// An accepted header says what was served.
proof fn lemma_accepted_header_serves(
    content_range: Seq<char>,
    start: u64,
    requested_end: u64,
    content_length: u64,
    body_len: nat,
)
    requires
        non_live::served_end(
            content_range,
            start,
            requested_end,
            content_length,
            body_len,
        ) is Ok,
    ensures
        serves(
            content_range,
            start,
            non_live::served_end(
                content_range,
                start,
                requested_end,
                content_length,
                body_len,
            )->Ok_0,
            content_length,
        ),
{
    let range = text::after_prefix(content_range, "bytes "@)->0;
    let (bounds, total) = text::split_at_first(range, '/')->0;
    let (first, last) = text::split_at_first(bounds, '-')->0;
    lemma_parts_of_header(content_range, range, bounds, total, first, last);
}

/// When a partial reply is accepted, and only then: its body is not empty and has a
/// length of 64 bits at most, it ends no later than it was asked to, and its header
/// says that just these bytes are served, of a resource of the right length.
pub proof fn law_partial_reply_is_accepted_exactly_when_it_fits(
    content_range: Seq<char>,
    start: u64,
    end: u64,
    requested_end: u64,
    content_length: u64,
    body_len: nat,
)
    ensures
        (non_live::served_end(content_range, start, requested_end, content_length, body_len) == Ok::<
            u64,
            VideoErrorView,
        >(end)) <==> {
            &&& 0 < body_len <= u64::MAX
            &&& end == start + body_len - 1
            &&& end <= requested_end
            &&& serves(content_range, start, end, content_length)
        },
{
    if non_live::served_end(content_range, start, requested_end, content_length, body_len) == Ok::<
        u64,
        VideoErrorView,
    >(end) {
        law_accepted_partial_reply_fits_the_request(
            content_range,
            start,
            requested_end,
            content_length,
            body_len,
        );
        lemma_accepted_header_serves(
            content_range,
            start,
            requested_end,
            content_length,
            body_len,
        );
    }
    if 0 < body_len <= u64::MAX && end == start + body_len - 1 && end <= requested_end && serves(
        content_range,
        start,
        end,
        content_length,
    ) {
        let (first, last, total) = choose|
            first: Seq<char>,
            last: Seq<char>,
            total: Seq<char>,
        |
            {
                &&& content_range == #[trigger] header_of(first, last, total)
                &&& text::parsed_u64(first) == Some(start)
                &&& text::parsed_u64(last) == Some(end)
                &&& total_agrees(total, end, content_length)
            };
        lemma_header_parts(first, last, total);
        let bounds = first.push('-') + last;
        lemma_agreeing_parts_are_accepted(
            content_range,
            bounds.push('/') + total,
            bounds,
            total,
            first,
            last,
            start,
            end,
            requested_end,
            content_length,
        );
    }
}

/// A header that names the bytes `start` to `end` in decimal says that they are
/// served.
proof fn lemma_decimal_header_serves(
    start: u64,
    end: u64,
    total: Seq<char>,
    content_length: u64,
)
    requires
        total_agrees(total, end, content_length),
    ensures
        serves(content_range_header(start, end, total), start, end, content_length),
{
    laws::text::law_decimal_round_trip(start);
    laws::text::law_decimal_round_trip(end);
}

/// A partial reply that serves what was asked for, or a shorter run from the same
/// start, and says so with the right total, is accepted, and its last byte is the
/// one that it names.
pub proof fn law_exact_partial_reply_is_accepted(
    start: u64,
    end: u64,
    requested_end: u64,
    content_length: u64,
)
    requires
        start <= end <= requested_end,
        end < content_length,
    ensures
        non_live::served_end(
            content_range_header(start, end, text::decimal(content_length as nat)),
            start,
            requested_end,
            content_length,
            (end - start + 1) as nat,
        ) == Ok::<u64, VideoErrorView>(end),
{
    let total = text::decimal(content_length as nat);
    laws::text::law_decimal_round_trip(content_length);
    lemma_decimal_header_serves(start, end, total, content_length);
    law_partial_reply_is_accepted_exactly_when_it_fits(
        content_range_header(start, end, total),
        start,
        end,
        requested_end,
        content_length,
        (end - start + 1) as nat,
    );
}

/// A partial reply may leave the total open with an asterisk.
pub proof fn law_open_total_is_accepted(
    start: u64,
    end: u64,
    requested_end: u64,
    content_length: u64,
)
    requires
        start <= end <= requested_end,
        end - start < u64::MAX,
    ensures
        non_live::served_end(
            content_range_header(start, end, "*"@),
            start,
            requested_end,
            content_length,
            (end - start + 1) as nat,
        ) == Ok::<u64, VideoErrorView>(end),
{
    lemma_decimal_header_serves(start, end, "*"@, content_length);
    law_partial_reply_is_accepted_exactly_when_it_fits(
        content_range_header(start, end, "*"@),
        start,
        end,
        requested_end,
        content_length,
        (end - start + 1) as nat,
    );
}

/// An accepted partial reply starts where it was asked to, ends no later than it
/// was asked to, and its body has exactly the bytes of that run.
pub proof fn law_accepted_partial_reply_fits_the_request(
    content_range: Seq<char>,
    start: u64,
    requested_end: u64,
    content_length: u64,
    body_len: nat,
)
    ensures
        non_live::served_end(content_range, start, requested_end, content_length, body_len) matches Ok(
            end,
        ) ==> {
            &&& named_bounds(content_range) == Some((start, end))
            &&& start <= end <= requested_end
            &&& end - start + 1 == body_len
        },
{
}

/// The first and the last byte that a `Content-Range` header names.
pub open spec fn named_bounds(content_range: Seq<char>) -> Option<(u64, u64)> {
    match text::after_prefix(content_range, "bytes "@) {
        None => None,
        Some(range) => match text::split_at_first(range, '/') {
            None => None,
            Some((bounds, total)) => match text::split_at_first(bounds, '-') {
                None => None,
                Some((start, end)) => match (text::parsed_u64(start), text::parsed_u64(end)) {
                    (Some(start), Some(end)) => Some((start, end)),
                    _ => None,
                },
            },
        },
    }
}

/// A reply to a ranged request.
pub struct Reply {
    pub delivered: Delivery,
    pub content_range: Option<Seq<char>>,
    pub body: Seq<u8>,
}

impl Reply {
    /// The reply carries what it claims to: the whole resource, or the run of it
    /// that its header names.
    pub open spec fn truthful(self, resource: Seq<u8>) -> bool {
        match self.delivered {
            Delivery::Full => self.body == resource,
            Delivery::Partial => self.content_range matches Some(header) ==> (named_bounds(
                header,
            ) matches Some((start, end)) ==> {
                &&& start <= end < resource.len()
                &&& self.body == resource.subrange(start as int, end + 1)
            }),
        }
    }
}

impl Reply {
    /// The reply gives the stream what it asks for: the whole resource, or the
    /// asked range of it from its start on, not empty, under a header that says
    /// just that.
    pub open spec fn proper(self, stream: NonLiveStreamView, resource: Seq<u8>) -> bool {
        match self.delivered {
            Delivery::Full => self.body == resource,
            Delivery::Partial => {
                &&& 0 < self.body.len()
                &&& self.last_byte(stream) <= stream.request_end()
                &&& self.content_range is Some
                &&& serves(
                    self.content_range->0,
                    stream.start,
                    self.last_byte(stream) as u64,
                    stream.content_length,
                )
                &&& self.body == resource.subrange(
                    stream.start as int,
                    stream.start + self.body.len(),
                )
            },
        }
    }

    /// The last byte of the run that the body is, from where the stream stands.
    pub open spec fn last_byte(self, stream: NonLiveStreamView) -> int {
        stream.start + self.body.len() - 1
    }

    /// The stream after this reply.
    pub open spec fn moves(self, stream: NonLiveStreamView) -> NonLiveStreamView {
        match self.delivered {
            Delivery::Full => stream.after_full(),
            Delivery::Partial => stream.after_partial(self.last_byte(stream) as u64),
        }
    }
}

/// An accepted reply moves the stream on, by exactly the bytes that it hands out,
/// and never past the end of the resource.
pub proof fn law_accepted_reply_advances_by_what_it_hands_out(
    stream: NonLiveStreamView,
    reply: Reply,
)
    requires
        !stream.exhausted(),
    ensures
        stream.finished(reply.delivered, reply.content_range, reply.body) matches Ok(
            (next, bytes),
        ) ==> {
            &&& bytes.len() > 0
            &&& next.start == stream.start + bytes.len()
            &&& next.start <= next.content_length
            &&& next == (NonLiveStreamView { start: next.start, end: next.end, ..stream })
        },
{
    if let Some(header) = reply.content_range {
        law_accepted_partial_reply_fits_the_request(
            header,
            stream.start,
            stream.request_end(),
            stream.content_length,
            reply.body.len(),
        );
    }
}

/// No request reaches past the end of the resource, and one made of an ascending
/// range is ascending.
pub proof fn law_requests_stay_inside(stream: NonLiveStreamView)
    requires
        !stream.exhausted(),
    ensures
        stream.request_end() < stream.content_length,
        stream.ascending() ==> stream.start <= stream.request_end(),
{
}

/// Every accepted reply leaves an ascending range to ask for, or none at all, and
/// keeps the stream well formed.
pub proof fn law_ranges_never_descend(stream: NonLiveStreamView, reply: Reply)
    requires
        stream.well_formed(),
        !stream.exhausted(),
    ensures
        stream.finished(reply.delivered, reply.content_range, reply.body) matches Ok(
            (next, bytes),
        ) ==> {
            &&& next.well_formed()
            &&& next.exhausted() || next.start <= next.request_end()
        },
{
    if let Some(header) = reply.content_range {
        law_accepted_partial_reply_fits_the_request(
            header,
            stream.start,
            stream.request_end(),
            stream.content_length,
            reply.body.len(),
        );
    }
}

/// Two chunks in a row are asked for in disjoint ranges: the later one starts
/// behind everything that the earlier one handed out.
pub proof fn law_chunks_do_not_overlap(stream: NonLiveStreamView, first: Reply)
    requires
        !stream.exhausted(),
    ensures
        stream.finished(first.delivered, first.content_range, first.body) matches Ok(
            (next, bytes),
        ) ==> stream.start + bytes.len() - 1 < next.start,
{
    law_accepted_reply_advances_by_what_it_hands_out(stream, first);
}

/// After a full reply nothing is left to ask for.
pub proof fn law_full_reply_ends_the_stream(
    stream: NonLiveStreamView,
    content_range: Option<Seq<char>>,
    body: Seq<u8>,
)
    ensures
        stream.finished(Delivery::Full, content_range, body) matches Ok((next, bytes)) ==> {
            &&& next.exhausted()
            &&& bytes == body.subrange(stream.start as int, body.len() as int)
        },
{
}

/// At the end of the resource the stream is again as it was when it was set up.
pub proof fn law_rewound_stream_is_fresh(stream: NonLiveStreamView)
    ensures
        stream.rewound() == NonLiveStreamView::fresh(
            stream.link,
            stream.content_length,
            stream.dl_chunk_size,
            stream.start_static,
            stream.end_static,
        ),
{
}

/// What a stream hands out over a row of replies, each to the request that the
/// stream makes at that point; `None` where the stream ends before the replies
/// do, or refuses one of them.
pub open spec fn read_all(stream: NonLiveStreamView, replies: Seq<Reply>) -> Option<
    (NonLiveStreamView, Seq<u8>),
>
    decreases replies.len(),
{
    if replies.len() == 0 {
        Some((stream, Seq::empty()))
    } else if stream.exhausted() {
        None
    } else {
        let reply = replies.first();
        match stream.finished(reply.delivered, reply.content_range, reply.body) {
            Err(error) => None,
            Ok((next, bytes)) => match read_all(next, replies.drop_first()) {
                None => None,
                Some((last, rest)) => Some((last, bytes + rest)),
            },
        }
    }
}

/// Where the replies are truthful, a stream hands out the resource byte for byte
/// from where it stood to where it got: nothing twice and nothing left out.
pub proof fn law_stream_hands_out_the_resource(
    stream: NonLiveStreamView,
    replies: Seq<Reply>,
    resource: Seq<u8>,
)
    requires
        stream.start <= stream.content_length,
        stream.content_length == resource.len(),
        forall|i: int| 0 <= i < replies.len() ==> (#[trigger] replies[i]).truthful(resource),
    ensures
        read_all(stream, replies) matches Some((last, bytes)) ==> {
            &&& stream.start <= last.start <= last.content_length
            &&& last.content_length == stream.content_length
            &&& bytes == resource.subrange(stream.start as int, last.start as int)
            &&& last.exhausted() ==> bytes == resource.subrange(
                stream.start as int,
                resource.len() as int,
            )
        },
    decreases replies.len(),
{
    if replies.len() == 0 {
        assert(resource.subrange(stream.start as int, stream.start as int) =~= Seq::<u8>::empty());
    } else if !stream.exhausted() {
        let reply = replies.first();
        assert(reply.truthful(resource));
        law_accepted_reply_advances_by_what_it_hands_out(stream, reply);
        if let Some(header) = reply.content_range {
            law_accepted_partial_reply_fits_the_request(
                header,
                stream.start,
                stream.request_end(),
                stream.content_length,
                reply.body.len(),
            );
        }
        if let Ok((next, bytes)) = stream.finished(
            reply.delivered,
            reply.content_range,
            reply.body,
        ) {
            assert(bytes =~= resource.subrange(stream.start as int, next.start as int));
            let rest = replies.drop_first();
            assert forall|i: int| 0 <= i < rest.len() implies (#[trigger] rest[i]).truthful(
                resource,
            ) by {
                assert(rest[i] == replies[i + 1]);
            }
            law_stream_hands_out_the_resource(next, rest, resource);
            if let Some((last, tail)) = read_all(next, rest) {
                assert(bytes + tail =~= resource.subrange(stream.start as int, last.start as int));
            }
        }
    }
}

/// A reply that gives a stream what it asks for is not refused: its bytes are
/// handed out, and the stream moves on behind them.
pub proof fn law_proper_reply_is_accepted(
    stream: NonLiveStreamView,
    reply: Reply,
    resource: Seq<u8>,
)
    requires
        !stream.exhausted(),
        stream.content_length == resource.len(),
        reply.proper(stream, resource),
    ensures
        stream.finished(reply.delivered, reply.content_range, reply.body) == Ok::<
            (NonLiveStreamView, Seq<u8>),
            VideoErrorView,
        >(
            (
                reply.moves(stream),
                resource.subrange(stream.start as int, reply.moves(stream).start as int),
            ),
        ),
{
    if reply.delivered is Partial {
        law_partial_reply_is_accepted_exactly_when_it_fits(
            reply.content_range->0,
            stream.start,
            reply.last_byte(stream) as u64,
            stream.request_end(),
            stream.content_length,
            reply.body.len(),
        );
    }
}

/// Replies in a row, each of which gives the stream what it asks for at that point.
pub open spec fn proper_row(
    stream: NonLiveStreamView,
    replies: Seq<Reply>,
    resource: Seq<u8>,
) -> bool
    decreases replies.len(),
{
    replies.len() == 0 || {
        &&& !stream.exhausted()
        &&& replies.first().proper(stream, resource)
        &&& proper_row(replies.first().moves(stream), replies.drop_first(), resource)
    }
}

/// Over a whole read no reply is refused that gives the stream what it asks for,
/// be it the full resource or a run of the asked range from its start on; and what
/// is handed out is the resource, from where the stream stood to where it got.
pub proof fn law_proper_replies_are_never_refused(
    stream: NonLiveStreamView,
    replies: Seq<Reply>,
    resource: Seq<u8>,
)
    requires
        stream.start <= stream.content_length,
        stream.content_length == resource.len(),
        proper_row(stream, replies, resource),
    ensures
        read_all(stream, replies) is Some,
        ({
            let (last, bytes) = read_all(stream, replies)->0;
            &&& stream.start <= last.start <= last.content_length
            &&& last.content_length == stream.content_length
            &&& bytes == resource.subrange(stream.start as int, last.start as int)
        }),
    decreases replies.len(),
{
    if replies.len() == 0 {
        assert(resource.subrange(stream.start as int, stream.start as int) =~= Seq::<u8>::empty());
    } else {
        let reply = replies.first();
        let next = reply.moves(stream);
        law_proper_reply_is_accepted(stream, reply, resource);
        law_accepted_reply_advances_by_what_it_hands_out(stream, reply);
        law_proper_replies_are_never_refused(next, replies.drop_first(), resource);
        let (last, rest) = read_all(next, replies.drop_first())->0;
        assert(resource.subrange(stream.start as int, next.start as int) + rest
            =~= resource.subrange(stream.start as int, last.start as int));
    }
}

/// Reading a stream to its end takes no more replies than bytes are left: each
/// one that is accepted hands out at least one byte.
pub proof fn law_reading_ends(stream: NonLiveStreamView, replies: Seq<Reply>)
    requires
        stream.start <= stream.content_length,
    ensures
        read_all(stream, replies) is Some ==> replies.len() <= stream.content_length
            - stream.start,
    decreases replies.len(),
{
    if replies.len() > 0 && !stream.exhausted() {
        let reply = replies.first();
        law_accepted_reply_advances_by_what_it_hands_out(stream, reply);
        if let Ok((next, bytes)) = stream.finished(
            reply.delivered,
            reply.content_range,
            reply.body,
        ) {
            law_reading_ends(next, replies.drop_first());
        }
    }
}

/// A new stream stands at the range that it was set up with, and goes back to it.
pub proof fn law_new_stream_stands_at_its_first_range(
    link: Seq<char>,
    content_length: u64,
    dl_chunk_size: u64,
    start: u64,
    end: u64,
)
    ensures
        ({
            let stream = NonLiveStreamView::fresh(link, content_length, dl_chunk_size, start, end);
            &&& stream.link == link
            &&& stream.content_length == content_length
            &&& stream.dl_chunk_size == dl_chunk_size
            &&& stream.start == start
            &&& stream.end == end
            &&& stream.rewound() == stream
        }),
{
}

/// Going back changes where the stream stands and nothing else, and takes it to the
/// range that it was set up with.
pub proof fn law_rewinding_goes_back_to_the_first_range(stream: NonLiveStreamView)
    ensures
        stream.rewound().start == stream.start_static,
        stream.rewound().end == stream.end_static,
        stream.rewound() == (NonLiveStreamView {
            start: stream.rewound().start,
            end: stream.rewound().end,
            ..stream
        }),
{
}

/// A stream is over exactly where it stands at the end of its resource or behind it,
/// and until then it asks for its range up to the last byte that the resource has.
pub proof fn law_request_is_the_range_that_the_resource_has(stream: NonLiveStreamView)
    ensures
        stream.exhausted() <==> stream.start >= stream.content_length,
        !stream.exhausted() && stream.end < stream.content_length ==> stream.request_end()
            == stream.end,
        !stream.exhausted() && stream.end >= stream.content_length ==> stream.request_end()
            == stream.content_length - 1,
{
}

/// A full reply is accepted exactly where it has as many bytes as the resource, with
/// or without a header. What is handed out is what follows the place where the stream
/// stands, and the stream is over.
pub proof fn law_full_reply_is_accepted_exactly_when_whole(
    stream: NonLiveStreamView,
    content_range: Option<Seq<char>>,
    body: Seq<u8>,
)
    requires
        !stream.exhausted(),
    ensures
        stream.finished(Delivery::Full, content_range, body) is Ok <==> body.len()
            == stream.content_length,
        stream.finished(Delivery::Full, content_range, body) matches Ok((next, bytes)) ==> {
            &&& bytes == body.skip(stream.start as int)
            &&& next.start == stream.content_length
            &&& next.end == stream.content_length - 1
            &&& next == (NonLiveStreamView { start: next.start, end: next.end, ..stream })
        },
{
}

/// A partial reply is accepted exactly where it fits the request under a header that
/// says so. What is handed out is its body as it is; the stream goes on right behind
/// it, with a range of its chunk size.
pub proof fn law_partial_reply_moves_on_by_its_body(
    stream: NonLiveStreamView,
    content_range: Option<Seq<char>>,
    body: Seq<u8>,
)
    requires
        !stream.exhausted(),
    ensures
        ({
            let last = stream.start + body.len() - 1;
            let done = stream.finished(Delivery::Partial, content_range, body);
            &&& done is Ok <==> {
                &&& content_range is Some
                &&& body.len() > 0
                &&& last <= stream.end
                &&& last < stream.content_length
                &&& serves(
                    content_range->0,
                    stream.start,
                    last as u64,
                    stream.content_length,
                )
            }
            &&& done matches Ok((next, bytes)) ==> {
                &&& bytes == body
                &&& next.start == stream.start + body.len()
                &&& last + stream.dl_chunk_size <= u64::MAX ==> next.end == last
                    + stream.dl_chunk_size
                &&& last + stream.dl_chunk_size > u64::MAX ==> next.end == u64::MAX
                &&& next == (NonLiveStreamView { start: next.start, end: next.end, ..stream })
            }
        }),
{
    let last = stream.start + body.len() - 1;
    if let Some(header) = content_range {
        law_accepted_partial_reply_fits_the_request(
            header,
            stream.start,
            stream.request_end(),
            stream.content_length,
            body.len(),
        );
        law_partial_reply_is_accepted_exactly_when_it_fits(
            header,
            stream.start,
            last as u64,
            stream.request_end(),
            stream.content_length,
            body.len(),
        );
        if let Ok(end) = non_live::served_end(
            header,
            stream.start,
            stream.request_end(),
            stream.content_length,
            body.len(),
        ) {
            assert(end == last);
        }
    }
}

/// Behind a partial reply the stream asks for as many bytes as its chunk size says,
/// or for all that are left where these are fewer.
pub proof fn law_next_request_has_the_chunk_size(
    stream: NonLiveStreamView,
    content_range: Option<Seq<char>>,
    body: Seq<u8>,
)
    requires
        !stream.exhausted(),
        stream.well_formed(),
    ensures
        stream.finished(Delivery::Partial, content_range, body) matches Ok((next, bytes)) ==> (
        !next.exhausted() ==> {
            let asked = next.request_end() - next.start + 1;
            let left = next.content_length - next.start;
            asked == if stream.dl_chunk_size < left {
                stream.dl_chunk_size as int
            } else {
                left
            }
        }),
{
    law_partial_reply_moves_on_by_its_body(stream, content_range, body);
}

/// A refused reply says why: a full one that has not the length of the resource, and
/// a partial one without a header or with one that does not fit.
pub proof fn law_refused_reply_says_why(
    stream: NonLiveStreamView,
    content_range: Option<Seq<char>>,
    body: Seq<u8>,
)
    requires
        !stream.exhausted(),
    ensures
        body.len() != stream.content_length ==> stream.finished(
            Delivery::Full,
            content_range,
            body,
        ) == Err::<(NonLiveStreamView, Seq<u8>), VideoErrorView>(
            VideoErrorView::DownloadError(
                "server ignored Range but returned "@ + text::decimal(body.len())
                    + " bytes for a "@ + text::decimal(stream.content_length as nat)
                    + "-byte representation"@,
            ),
        ),
        stream.finished(Delivery::Partial, None, body) == Err::<
            (NonLiveStreamView, Seq<u8>),
            VideoErrorView,
        >(VideoErrorView::DownloadError("partial response was missing Content-Range"@)),
        content_range matches Some(header) ==> (stream.finished(
            Delivery::Partial,
            content_range,
            body,
        ) matches Err(error) ==> non_live::served_end(
            header,
            stream.start,
            stream.request_end(),
            stream.content_length,
            body.len(),
        ) == Err::<u64, VideoErrorView>(error)),
{
}

/// Every refusal of a partial reply that cannot be read says why: an empty body before
/// all, then a header in another unit, without a slash, without a hyphen before it,
/// or with bounds that are no numbers.
pub proof fn law_unreadable_header_says_why(
    content_range: Seq<char>,
    rest: Seq<char>,
    bounds: Seq<char>,
    first: Seq<char>,
    last: Seq<char>,
    total: Seq<char>,
    start: u64,
    requested_end: u64,
    content_length: u64,
    body_len: nat,
)
    ensures
        ({
            let end = non_live::served_end(
                content_range,
                start,
                requested_end,
                content_length,
                body_len,
            );
            let refused = |words: Seq<char>|
                end == Err::<u64, VideoErrorView>(VideoErrorView::DownloadError(words));
            let in_bytes = body_len > 0 && content_range == "bytes "@ + rest;
            let in_parts = in_bytes && rest == bounds.push('/') + total && !bounds.contains('/');
            let in_bounds = in_parts && bounds == first.push('-') + last && !first.contains('-');
            &&& body_len == 0 ==> refused("partial response body was empty"@)
            &&& body_len > 0 && text::after_prefix(content_range, "bytes "@) is None ==> refused(
                "invalid Content-Range unit: "@ + content_range,
            )
            &&& in_bytes && !rest.contains('/') ==> refused(
                "invalid Content-Range: "@ + content_range,
            )
            &&& in_parts && !bounds.contains('-') ==> refused(
                "invalid Content-Range bounds: "@ + content_range,
            )
            &&& in_bounds && text::parsed_u64(first) is None ==> refused(
                "invalid Content-Range start: "@ + content_range,
            )
            &&& in_bounds && text::parsed_u64(first) is Some && text::parsed_u64(last) is None
                ==> refused("invalid Content-Range end: "@ + content_range)
        }),
{
    laws::text::law_prefix_is_taken_off(content_range, "bytes "@, rest);
    laws::text::law_split_is_at_the_first(rest, '/', bounds, total);
    laws::text::law_split_is_at_the_first(bounds, '-', first, last);
}

/// How a reply whose header can be read is refused.
pub open spec fn refused_in_words(
    header: Seq<char>,
    a: u64,
    b: u64,
    total: Seq<char>,
    start: u64,
    requested_end: u64,
    content_length: u64,
    body_len: nat,
    words: Seq<char>,
) -> bool {
    let asked = a == start && a <= b <= requested_end;
    let read = text::parsed_u64(total);
    let agrees = asked && total_agrees(total, b, content_length);
    ||| !asked && words == "unexpected Content-Range "@ + header + " for requested bytes="@
        + text::decimal(start as nat) + "-"@ + text::decimal(requested_end as nat)
    ||| asked && total != "*"@ && read is None && words == "invalid Content-Range total: "@ + header
    ||| asked && total != "*"@ && read is Some && read->0 != content_length && words
        == "Content-Range representation length "@ + text::decimal(read->0 as nat)
        + " does not match expected content length "@ + text::decimal(content_length as nat) + ": "@
        + header
    ||| asked && total != "*"@ && read == Some(content_length) && b >= content_length && words
        == "Content-Range end exceeds representation length: "@ + header
    ||| agrees && b - a + 1 > u64::MAX && words == "partial response length overflow"@
    ||| agrees && b - a + 1 <= u64::MAX && b - a + 1 != body_len && words == "Content-Range "@
        + header + " describes "@ + text::decimal((b - a + 1) as nat)
        + " bytes but body contained "@ + text::decimal(body_len)
}

/// How a reply is refused whose header is taken apart into numbers.
proof fn lemma_disagreeing_parts(
    content_range: Seq<char>,
    range: Seq<char>,
    bounds: Seq<char>,
    first: Seq<char>,
    last: Seq<char>,
    total: Seq<char>,
    start: u64,
    requested_end: u64,
    content_length: u64,
    body_len: nat,
    words: Seq<char>,
)
    requires
        body_len > 0,
        text::after_prefix(content_range, "bytes "@) == Some(range),
        text::split_at_first(range, '/') == Some((bounds, total)),
        text::split_at_first(bounds, '-') == Some((first, last)),
        text::parsed_u64(first) is Some,
        text::parsed_u64(last) is Some,
        refused_in_words(
            content_range,
            text::parsed_u64(first)->0,
            text::parsed_u64(last)->0,
            total,
            start,
            requested_end,
            content_length,
            body_len,
            words,
        ),
    ensures
        non_live::served_end(content_range, start, requested_end, content_length, body_len)
            == Err::<u64, VideoErrorView>(VideoErrorView::DownloadError(words)),
{
}

/// Every refusal of a partial reply that can be read says why: a range that is not the
/// one asked for, a total that is no number or does not agree, and a body of another
/// length.
pub proof fn law_disagreeing_header_says_why(
    first: Seq<char>,
    last: Seq<char>,
    total: Seq<char>,
    start: u64,
    requested_end: u64,
    content_length: u64,
    body_len: nat,
    words: Seq<char>,
)
    requires
        body_len > 0,
        text::parsed_u64(first) is Some,
        text::parsed_u64(last) is Some,
        refused_in_words(
            header_of(first, last, total),
            text::parsed_u64(first)->0,
            text::parsed_u64(last)->0,
            total,
            start,
            requested_end,
            content_length,
            body_len,
            words,
        ),
    ensures
        non_live::served_end(
            header_of(first, last, total),
            start,
            requested_end,
            content_length,
            body_len,
        ) == Err::<u64, VideoErrorView>(VideoErrorView::DownloadError(words)),
{
    lemma_header_parts(first, last, total);
    let bounds = first.push('-') + last;
    lemma_disagreeing_parts(
        header_of(first, last, total),
        bounds.push('/') + total,
        bounds,
        first,
        last,
        total,
        start,
        requested_end,
        content_length,
        body_len,
        words,
    );
}

} // verus!
