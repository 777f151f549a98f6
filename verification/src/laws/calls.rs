use vstd::prelude::*;

use crate::chunk::{ChunkAction, ChunkActionView, ChunkPhase};
use crate::encryption;
use crate::encryption::{sequence_vector, Encryption};
use crate::error::{VideoError, VideoErrorView};
use crate::hexadecimal;
use crate::hexadecimal::HexError;
use crate::laws;
use crate::live::{elapsed_since, LiveStream, LiveStreamOptions};
use crate::non_live::{partial_response_end, NonLiveStream, NonLiveStreamOptions};
use crate::playlist::{ByteRange, Key};
use crate::range::range_header_value;
use crate::remote_data::RemoteData;
use crate::resource_url;
use crate::resource_url::{make_absolute_url, ParsedUrlView, ResourceUrl};
use crate::status::Delivery;
use crate::text;
use crate::text::{decimal_text, parse_u64};

verus! {

/// Setting a ranged stream up fails exactly for a chunk size of zero, and else gives a
/// stream that stands where the options say.
pub proof fn law_ranged_stream_is_set_up_as_asked(
    options: NonLiveStreamOptions,
    stream: Result<NonLiveStream, VideoError>,
)
    requires
        call_ensures(NonLiveStream::new, (options,), stream),
    ensures
        stream is Err <==> options.dl_chunk_size == 0,
        stream matches Ok(stream) ==> {
            &&& stream@.link == options.link@
            &&& stream@.content_length == options.content_length
            &&& stream@.dl_chunk_size == options.dl_chunk_size
            &&& stream@.start == options.start
            &&& stream@.end == options.end
            &&& stream@.rewound() == stream@
        },
{
}

/// Setting a live stream up never fails, and gives one on its playlist with nothing in
/// it.
pub proof fn law_live_stream_is_set_up_as_asked(
    options: LiveStreamOptions,
    stream: Result<LiveStream, VideoError>,
)
    requires
        call_ensures(LiveStream::new, (options,), stream),
    ensures
        stream is Ok,
        stream->Ok_0@.stream_url == options.stream_url@,
        stream->Ok_0@.segments.len() == 0,
        stream->Ok_0@.last_seg is None,
        stream->Ok_0@.emitted_initialization is None,
        stream->Ok_0@.last_refresh == 0,
        !stream->Ok_0@.is_end,
{
}

/// The statuses of ranged requests and of segments are told apart alike, and only
/// success delivers.
pub proof fn law_statuses_deliver_alike(
    status: u16,
    ranged: Result<Delivery, VideoError>,
    segment: Result<Delivery, VideoError>,
    remote: Result<Delivery, VideoError>,
)
    requires
        call_ensures(NonLiveStream::range_status, (status,), ranged),
        call_ensures(LiveStream::segment_status, (status,), segment),
        call_ensures(RemoteData::fetch_status, (status,), remote),
    ensures
        ranged is Ok <==> status == 200 || status == 206,
        segment is Ok <==> status == 200 || status == 206,
        remote is Ok <==> 200 <= status <= 299,
        status == 200 ==> ranged->Ok_0 == Delivery::Full && segment->Ok_0 == Delivery::Full
            && remote->Ok_0 == Delivery::Full,
        status == 206 ==> ranged->Ok_0 == Delivery::Partial && segment->Ok_0 == Delivery::Partial
            && remote->Ok_0 == Delivery::Partial,
        400 <= status < 600 ==> {
            &&& ranged->Err_0@ == VideoErrorView::HttpStatus(status)
            &&& segment->Err_0@ == VideoErrorView::HttpStatus(status)
        },
{
    laws::status::law_only_two_statuses_deliver(status, "ranged media request"@);
    laws::status::law_only_two_statuses_deliver(status, "HLS media segment"@);
}

/// A key is fetched for AES-128 exactly, from the address that it names.
pub proof fn law_key_is_fetched_from_its_address(
    encryption: Encryption,
    address: Option<&ResourceUrl>,
)
    requires
        call_ensures(Encryption::key_address, (&encryption,), address),
    ensures
        address is Some <==> encryption is Aes128,
        encryption matches Encryption::Aes128 { key_uri, iv } ==> address->0@ == key_uri@,
{
}

/// What is decrypted in the clear is the data itself.
pub proof fn law_clear_data_is_handed_back(
    key_body: &[u8],
    data: &[u8],
    plain: Result<Vec<u8>, VideoError>,
)
    requires
        call_ensures(Encryption::decrypt, (&Encryption::Unencrypted, key_body, data), plain),
    ensures
        plain is Ok,
        plain->Ok_0@ == data@,
{
}

/// With a key of sixteen bytes, data is decrypted to what AES-128 in CBC mode makes of
/// it under the whole vector.
pub proof fn law_data_is_decrypted_under_its_vector(
    key_uri: ResourceUrl,
    iv: [u8; 16],
    key_body: &[u8],
    data: &[u8],
    plain: Result<Vec<u8>, VideoError>,
)
    requires
        key_body@.len() == 16,
        call_ensures(
            Encryption::decrypt,
            (&Encryption::Aes128 { key_uri, iv }, key_body, data),
            plain,
        ),
    ensures
        match encryption::aes128_cbc(key_body@, iv@, data@) {
            Ok(bytes) => plain is Ok && plain->Ok_0@ == bytes,
            Err(words) => plain is Err && plain->Err_0@ == VideoErrorView::DecryptionError(words),
        },
{
    laws::encryption::law_decryption_is_that_of_key_vector_and_data(
        key_uri@,
        key_body@,
        iv@,
        data@,
    );
}

/// The vector of a sequence number is sixteen bytes that write it down.
pub proof fn law_vector_writes_its_number(seq: u64, iv: [u8; 16])
    requires
        call_ensures(sequence_vector, (seq,), iv),
    ensures
        laws::encryption::be_value(iv@) == seq,
{
    laws::encryption::law_sequence_vector_writes_the_number(seq);
}

/// A sub-range is asked for by its first and its last byte.
pub proof fn law_sub_range_is_asked_for_by_its_bytes(
    url: ResourceUrl,
    length: u64,
    offset: u64,
    data: RemoteData,
    header: Option<String>,
    bounds: Option<(u64, u64)>,
)
    requires
        0 < length,
        offset + length - 1 <= u64::MAX,
        call_ensures(
            RemoteData::new,
            (url, Some(ByteRange { length, offset: Some(offset) })),
            data,
        ),
        call_ensures(RemoteData::byte_range_string, (&data,), header),
        call_ensures(RemoteData::byte_range_bounds, (&data,), bounds),
    ensures
        bounds == Some((offset, length)),
        header is Some,
        header->0@ == "bytes="@ + text::decimal(offset as nat) + "-"@ + text::decimal(
            (offset + length - 1) as nat,
        ),
        data@.url == url@,
{
    laws::remote_data::law_bounds_are_as_listed(url@, length, offset);
    laws::remote_data::law_header_names_the_sub_range(url@, length, offset);
}

/// The value of a `Range` header names the two bounds.
pub proof fn law_range_header_value_names_its_bounds(start: u64, end: u64, value: String)
    requires
        call_ensures(range_header_value, (start, end), value),
    ensures
        value@ == "bytes="@ + text::decimal(start as nat) + "-"@ + text::decimal(end as nat),
{
}

/// The time since a refresh lies between the two readings of the clock.
pub proof fn law_elapsed_time_is_never_negative(last_refresh: u128, now: u128, elapsed: u128)
    requires
        call_ensures(elapsed_since, (last_refresh, now), elapsed),
    ensures
        last_refresh <= now ==> last_refresh + elapsed == now,
        now <= last_refresh ==> elapsed == 0,
{
}

/// What a live stream plans is right: an empty chunk, a section that changed, or the
/// media of the first segment.
pub proof fn law_stream_plans_what_is_next(
    stream: LiveStream,
    planned: (ChunkPhase, ChunkAction),
    begun: (ChunkPhase, ChunkAction),
)
    requires
        call_ensures(LiveStream::plan_chunk, (&stream,), planned),
        call_ensures(LiveStream::begin_chunk, (&stream,), begun),
    ensures
        laws::live_chunk::right_plan(stream@, (planned.0@, planned.1@)),
        begun.1@ is End <==> stream@.is_end && stream@.segments.len() == 0,
        !(begun.1@ is End) ==> begun.0@ is Started && begun.1@ == (ChunkActionView::ReadClock {
            after: 0,
        }),
{
    laws::live_chunk::law_plan_is_right(stream@);
    laws::live_chunk::law_stream_ends_when_all_is_handed_out(stream@);
}

/// A live stream with nothing to hand out waits until twenty seconds after its last
/// refresh, and any other does not wait.
pub proof fn law_stream_waits_for_its_playlist(stream: LiveStream, now: u128, millis: u64)
    requires
        call_ensures(LiveStream::wait_before_refresh, (&stream, now), millis),
        stream@.last_refresh <= now,
    ensures
        stream@.segments.len() == 0 && !stream@.is_end && now < stream@.last_refresh + 20000
            ==> now + millis == stream@.last_refresh + 20000,
        stream@.segments.len() > 0 || stream@.is_end || now >= stream@.last_refresh + 20000
            ==> millis == 0,
{
    laws::live_chunk::law_wait_is_until_the_next_refresh(stream@, now);
}

/// A key tag is read as it says: in the clear exactly where it says so, and else with
/// the address that it resolves to and its vector or the number of the segment.
pub proof fn law_key_tag_is_read(
    key: Key,
    base_url: &str,
    seq: u64,
    found: Result<Encryption, VideoError>,
)
    requires
        call_ensures(Encryption::new, (&key, base_url, seq), found),
    ensures
        found is Ok && found->Ok_0 is Unencrypted <==> key.method@ == "NONE"@,
        found is Ok ==> key.method@ == "NONE"@ || key.method@ == "AES-128"@,
        !(found is Ok && found->Ok_0 is SampleAes),
        found is Ok && found->Ok_0 is Aes128 ==> {
            &&& key.uri is Some
            &&& resource_url::absolute_url(base_url@, key.uri->0@) == Ok::<
                Seq<char>,
                VideoErrorView,
            >(found->Ok_0->key_uri@)
            &&& key.iv is None ==> laws::encryption::be_value(found->Ok_0->iv@) == seq
            &&& key.iv is Some ==> hexadecimal::vector_block(key.iv->0@) == Ok::<
                Seq<u8>,
                HexError,
            >(found->Ok_0->iv@)
        },
{
    laws::encryption::law_only_none_leaves_segments_clear(key@, base_url@, seq);
    laws::encryption::law_other_tags_are_refused(key@, base_url@, seq);
    laws::encryption::law_sequence_vector_writes_the_number(seq);
}

/// A partial reply is accepted exactly where its body is the run that its header names,
/// from the requested start to no later than the requested end.
pub proof fn law_partial_reply_is_checked(
    content_range: &str,
    start: u64,
    requested_end: u64,
    content_length: u64,
    body_len: usize,
    end: Result<u64, VideoError>,
)
    requires
        call_ensures(
            partial_response_end,
            (content_range, start, requested_end, content_length, body_len),
            end,
        ),
    ensures
        end is Ok <==> {
            let last = start + body_len - 1;
            &&& body_len > 0
            &&& last <= requested_end
            &&& laws::non_live::serves(content_range@, start, last as u64, content_length)
        },
        end matches Ok(end) ==> end == start + body_len - 1,
{
    let last = (start + body_len - 1) as u64;
    laws::non_live::law_partial_reply_is_accepted_exactly_when_it_fits(
        content_range@,
        start,
        last,
        requested_end,
        content_length,
        body_len as nat,
    );
    if let Ok(end) = end {
        laws::non_live::law_partial_reply_is_accepted_exactly_when_it_fits(
            content_range@,
            start,
            end,
            requested_end,
            content_length,
            body_len as nat,
        );
    }
}

/// What is fetched of a sub-range is the sub-range, whether the server sends all of the
/// resource or just that, and it comes with the address of the reply.
pub proof fn law_sub_range_is_fetched(
    data: RemoteData,
    offset: u64,
    length: u64,
    status: u16,
    body: &[u8],
    final_url: ResourceUrl,
    fetched: Result<(Vec<u8>, ResourceUrl), VideoError>,
)
    requires
        data@.byte_range == Some(ByteRange { length, offset: Some(offset) }),
        call_ensures(RemoteData::fetch, (&data, status, body, final_url), fetched),
    ensures
        status == 200 && offset + length <= body@.len() <= usize::MAX ==> fetched is Ok
            && fetched->Ok_0.0@ == body@.subrange(offset as int, offset + length),
        status == 200 && offset + length > body@.len() ==> fetched is Err,
        201 <= status <= 299 ==> fetched is Ok && fetched->Ok_0.0@ == body@,
        !(200 <= status <= 299) ==> fetched is Err && fetched->Err_0@
            == VideoErrorView::BodyCannotParsed,
        fetched is Ok ==> fetched->Ok_0.1@ == final_url@,
{
}

/// An address is the URL itself where that is absolute, and else the URL joined to the
/// address of its document.
pub proof fn law_address_is_found(
    base: &str,
    url: &str,
    address: Result<ResourceUrl, VideoError>,
)
    requires
        call_ensures(make_absolute_url, (base, url), address),
    ensures
        resource_url::url_parse(url@) matches ParsedUrlView::Absolute(found) ==> address is Ok
            && address->Ok_0@ == found,
        resource_url::url_parse(url@) is Invalid ==> address is Err,
        resource_url::url_parse(url@) is Relative ==> match resource_url::url_join(base@, url@) {
            ParsedUrlView::Absolute(found) => address is Ok && address->Ok_0@ == found,
            _ => address is Err,
        },
{
}

/// A number that is written in decimal is read back.
pub proof fn law_written_number_is_read_back(
    n: u64,
    written: String,
    s: &str,
    read: Option<u64>,
)
    requires
        call_ensures(decimal_text, (n,), written),
        s@ == written@,
        call_ensures(parse_u64, (s,), read),
    ensures
        read == Some(n),
{
    laws::text::law_decimal_round_trip(n);
}

} // verus!
