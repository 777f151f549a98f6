use vstd::prelude::*;

use crate::views;

verus! {

/// A sub-range of a resource: how many bytes, and where they start. Without an
/// offset the range continues the one before it.
#[derive(Debug, Clone, Copy, PartialEq, Eq, Hash)]
pub struct ByteRange {
    pub length: u64,
    pub offset: Option<u64>,
}

/// How the segments from here on are encrypted.
#[derive(Debug)]
pub struct Key {
    /// The name of the method.
    pub method: String,
    /// Where the key is.
    pub uri: Option<String>,
    /// The initialization vector, in hexadecimal.
    pub iv: Option<String>,
    /// How the key is represented.
    pub keyformat: Option<String>,
}

/// What a [`Key`] says, with its texts as character sequences.
pub struct KeyView {
    pub method: Seq<char>,
    pub uri: Option<Seq<char>>,
    pub iv: Option<Seq<char>>,
    pub keyformat: Option<Seq<char>>,
}

impl View for Key {
    type V = KeyView;

    open spec fn view(&self) -> KeyView {
        KeyView {
            method: self.method@,
            uri: views::view_option(self.uri),
            iv: views::view_option(self.iv),
            keyformat: views::view_option(self.keyformat),
        }
    }
}

/// Where the initialization section of the segments from here on is.
#[derive(Debug)]
pub struct InitializationMap {
    pub uri: String,
    pub byte_range: Option<ByteRange>,
}

/// What an [`InitializationMap`] says.
pub struct InitializationMapView {
    pub uri: Seq<char>,
    pub byte_range: Option<ByteRange>,
}

impl View for InitializationMap {
    type V = InitializationMapView;

    open spec fn view(&self) -> InitializationMapView {
        InitializationMapView { uri: self.uri@, byte_range: self.byte_range }
    }
}

/// One media segment of a playlist, as it is listed.
#[derive(Debug)]
pub struct PlaylistSegment {
    pub uri: String,
    pub byte_range: Option<ByteRange>,
    pub discontinuity: bool,
    pub key: Option<Key>,
    pub map: Option<InitializationMap>,
}

/// What a [`PlaylistSegment`] says.
pub struct PlaylistSegmentView {
    pub uri: Seq<char>,
    pub byte_range: Option<ByteRange>,
    pub discontinuity: bool,
    pub key: Option<KeyView>,
    pub map: Option<InitializationMapView>,
}

impl View for PlaylistSegment {
    type V = PlaylistSegmentView;

    open spec fn view(&self) -> PlaylistSegmentView {
        PlaylistSegmentView {
            uri: self.uri@,
            byte_range: self.byte_range,
            discontinuity: self.discontinuity,
            key: views::view_option(self.key),
            map: views::view_option(self.map),
        }
    }
}

/// A media playlist.
#[derive(Debug)]
pub struct Playlist {
    /// The sequence number of the first segment.
    pub media_sequence: u64,
    /// How many discontinuities there were before the first segment.
    pub discontinuity_sequence: u64,
    /// Whether no segments will be added.
    pub end_list: bool,
    /// The segments, in order.
    pub segments: Vec<PlaylistSegment>,
}

/// What a [`Playlist`] says.
pub struct PlaylistView {
    pub media_sequence: u64,
    pub discontinuity_sequence: u64,
    pub end_list: bool,
    pub segments: Seq<PlaylistSegmentView>,
}

impl View for Playlist {
    type V = PlaylistView;

    open spec fn view(&self) -> PlaylistView {
        PlaylistView {
            media_sequence: self.media_sequence,
            discontinuity_sequence: self.discontinuity_sequence,
            end_list: self.end_list,
            segments: Seq::new(self.segments@.len(), |i: int| self.segments@[i]@),
        }
    }
}

/// A playlist or what is wrong with its text, taken by view.
pub open spec fn parsed_view(parsed: Result<Playlist, String>) -> Result<PlaylistView, Seq<char>> {
    match parsed {
        Ok(playlist) => Ok(playlist@),
        Err(text) => Err(text@),
    }
}

/// What `m3u8_rs::parse_media_playlist` reads out of a playlist's bytes.
pub uninterp spec fn media_playlist(data: Seq<u8>) -> Result<PlaylistView, Seq<char>>;

/// `m3u8_rs::parse_media_playlist`: what the library looks at of the playlist
/// that the bytes write down, field for field, with the method of a key by its
/// `Display`; or what the `Display` of the error says. It depends on the bytes
/// alone.
#[verifier::external_body]
pub(crate) fn parse_playlist(data: &[u8]) -> (parsed: Result<Playlist, String>)
    ensures
        parsed_view(parsed) == media_playlist(data@),
{
    let range = |r: m3u8_rs::ByteRange| ByteRange { length: r.length, offset: r.offset };
    m3u8_rs::parse_media_playlist(data).map_err(|e| e.to_string()).map(|(_, p)| Playlist {
        media_sequence: p.media_sequence,
        discontinuity_sequence: p.discontinuity_sequence,
        end_list: p.end_list,
        segments: p.segments.into_iter().map(|s| PlaylistSegment {
            uri: s.uri,
            byte_range: s.byte_range.map(range),
            discontinuity: s.discontinuity,
            key: s.key.map(|k| Key { method: k.method.to_string(), uri: k.uri, iv: k.iv, keyformat: k.keyformat }),
            map: s.map.map(|m| InitializationMap { uri: m.uri, byte_range: m.byte_range.map(range) }),
        }).collect(),
    })
}

} // verus!
