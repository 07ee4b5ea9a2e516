//! Track information from the tags of an audio file: which tags fill which
//! field, the fallbacks for missing ones, and which embedded pictures can be
//! cover art. Reading the file is for the caller; it hands over the tags.

use std::io::Cursor;
use vstd::prelude::*;
use image::imageops::FilterType;
use crate::protocol::{opt_string_view, TrackArt, TrackMetadata, TrackMetadataModel};
use crate::text::chars_of;

verus! {

/// The standard tags that carry track information.
#[derive(Debug, Clone, Copy, PartialEq, Eq, Structural)]
pub enum TagKind {
    TrackTitle,
    Album,
    Artist,
    TrackNumber,
    AlbumArtist,
    /// Any other tag.
    Other,
}

/// A tag of an audio file: its kind and its value as text.
#[derive(Debug)]
pub struct Tag {
    pub kind: TagKind,
    pub value: String,
}

/// The value of the last tag of this kind, if there is one.
pub open spec fn last_of(tags: Seq<Tag>, kind: TagKind) -> Option<Seq<char>>
    decreases tags.len(),
{
    if tags.len() == 0 {
        None
    } else if tags.last().kind == kind {
        Some(tags.last().value@)
    } else {
        last_of(tags.drop_last(), kind)
    }
}

/// A field after the tags: the last tag of its kind, else what it was.
pub open spec fn filled(old: Option<Seq<char>>, tags: Seq<Tag>, kind: TagKind) -> Option<Seq<char>> {
    match last_of(tags, kind) {
        Some(v) => Some(v),
        None => old,
    }
}

/// Track information after reading tags: title, album, artist, track
/// number and album artist come from the last tag of their kind; an album
/// artist that is still missing is taken from the artist. Duration and art
/// are untouched.
pub open spec fn with_tags(md: TrackMetadataModel, tags: Seq<Tag>) -> TrackMetadataModel {
    let artist = filled(md.artist, tags, TagKind::Artist);
    let album_artist = filled(md.album_artist, tags, TagKind::AlbumArtist);
    TrackMetadataModel {
        title: filled(md.title, tags, TagKind::TrackTitle),
        album: filled(md.album, tags, TagKind::Album),
        artist,
        track_no: filled(md.track_no, tags, TagKind::TrackNumber),
        album_artist: if album_artist is None {
            artist
        } else {
            album_artist
        },
        ..md
    }
}

fn copy_string(s: &String) -> (out: String)
    ensures
        out@ == s@,
{
    s.clone()
}

/// Fills track information from tags; see `with_tags`.
pub fn fill_tags(md: &mut TrackMetadata, tags: &Vec<Tag>)
    ensures
        final(md)@ == with_tags(old(md)@, tags@),
{
    let mut i: usize = 0;
    while i < tags.len()
        invariant
            i <= tags@.len(),
            md@.duration_bits == old(md)@.duration_bits,
            md@.art == old(md)@.art,
            md@.title == filled(old(md)@.title, tags@.take(i as int), TagKind::TrackTitle),
            md@.album == filled(old(md)@.album, tags@.take(i as int), TagKind::Album),
            md@.artist == filled(old(md)@.artist, tags@.take(i as int), TagKind::Artist),
            md@.track_no == filled(old(md)@.track_no, tags@.take(i as int), TagKind::TrackNumber),
            md@.album_artist == filled(old(md)@.album_artist, tags@.take(i as int), TagKind::AlbumArtist),
        decreases tags.len() - i,
    {
        let tag = &tags[i];
        assert(tags@.take(i + 1).drop_last() =~= tags@.take(i as int));
        assert(tags@.take(i + 1).last() == *tag);
        match tag.kind {
            TagKind::TrackTitle => {
                md.title = Some(copy_string(&tag.value));
            },
            TagKind::Album => {
                md.album = Some(copy_string(&tag.value));
            },
            TagKind::Artist => {
                md.artist = Some(copy_string(&tag.value));
            },
            TagKind::TrackNumber => {
                md.track_no = Some(copy_string(&tag.value));
            },
            TagKind::AlbumArtist => {
                md.album_artist = Some(copy_string(&tag.value));
            },
            TagKind::Other => {},
        }
        i = i + 1;
    }
    assert(tags@.take(tags@.len() as int) =~= tags@);
    if md.album_artist.is_none() {
        match &md.artist {
            Some(a) => {
                md.album_artist = Some(copy_string(a));
            },
            None => {},
        }
    }
}

/// A track without a title tag is called by its file name.
pub fn title_or_file_name(md: &mut TrackMetadata, file_name: String)
    ensures
        final(md)@ == (TrackMetadataModel {
            title: if old(md)@.title is None {
                Some(file_name@)
            } else {
                old(md)@.title
            },
            ..old(md)@
        }),
{
    if md.title.is_none() {
        md.title = Some(file_name);
    }
}

/// The media types of embedded pictures that are used as cover art.
pub open spec fn is_cover_type(media_type: Seq<char>) -> bool {
    ||| media_type == seq!['i', 'm', 'a', 'g', 'e', '/', 'p', 'n', 'g']
    ||| media_type == seq!['i', 'm', 'a', 'g', 'e', '/', 'j', 'p', 'g']
    ||| media_type == seq!['i', 'm', 'a', 'g', 'e', '/', 'j', 'p', 'e', 'g']
}

/// Whether a picture of this media type can be cover art.
pub fn cover_type(media_type: &str) -> (r: bool)
    ensures
        r == is_cover_type(media_type@),
{
    let cs = chars_of(media_type);
    let n = cs.len();
    if n < 9 || n > 10 {
        return false;
    }
    let prefix = cs[0] == 'i' && cs[1] == 'm' && cs[2] == 'a' && cs[3] == 'g' && cs[4] == 'e' && cs[5] == '/';
    if !prefix {
        assert(!is_cover_type(cs@)) by {
            if is_cover_type(cs@) {
                assert(cs@[0] == 'i' && cs@[1] == 'm' && cs@[2] == 'a' && cs@[3] == 'g' && cs@[4] == 'e'
                    && cs@[5] == '/');
            }
        }
        return false;
    }
    let r = if n == 9 {
        (cs[6] == 'p' && cs[7] == 'n' && cs[8] == 'g') || (cs[6] == 'j' && cs[7] == 'p' && cs[8] == 'g')
    } else {
        cs[6] == 'j' && cs[7] == 'p' && cs[8] == 'e' && cs[9] == 'g'
    };
    proof {
        if r {
            if n == 9 {
                if cs@[6] == 'p' {
                    assert(cs@ =~= seq!['i', 'm', 'a', 'g', 'e', '/', 'p', 'n', 'g']);
                } else {
                    assert(cs@ =~= seq!['i', 'm', 'a', 'g', 'e', '/', 'j', 'p', 'g']);
                }
            } else {
                assert(cs@ =~= seq!['i', 'm', 'a', 'g', 'e', '/', 'j', 'p', 'e', 'g']);
            }
        } else {
            if cs@ == seq!['i', 'm', 'a', 'g', 'e', '/', 'p', 'n', 'g'] {
                assert(cs@[6] == 'p' && cs@[7] == 'n' && cs@[8] == 'g');
            }
            if cs@ == seq!['i', 'm', 'a', 'g', 'e', '/', 'j', 'p', 'g'] {
                assert(cs@[6] == 'j' && cs@[7] == 'p' && cs@[8] == 'g');
            }
            if cs@ == seq!['i', 'm', 'a', 'g', 'e', '/', 'j', 'p', 'e', 'g'] {
                assert(cs@[6] == 'j' && cs@[7] == 'p' && cs@[8] == 'e' && cs@[9] == 'g');
            }
        }
    }
    r
}

/// Width and height of the square that cover art is shrunk to fit.
pub const COVER_SIZE: u32 = 29;

/// The JPEG that `image` makes of a picture file's bytes, shrunk with
/// nearest-neighbour sampling to fit a `size` by `size` square; `None` where
/// the bytes do not decode as a picture or the result does not encode.
pub uninterp spec fn cover_thumbnail(data: Seq<u8>, size: u32) -> Option<Seq<u8>>;

/// `image::io::Reader::new(..).with_guessed_format()`, `decode`,
/// `DynamicImage::resize(size, size, FilterType::Nearest)` and
/// `JpegEncoder::encode_image` (image), each error mapped to `None`.
/// Trusted: the result is the one named by `cover_thumbnail`, a function of
/// the bytes and the size alone.
#[verifier::external_body]
fn small_cover(data: &[u8], size: u32) -> (r: Option<Vec<u8>>)
    ensures
        match r {
            Some(v) => cover_thumbnail(data@, size) == Some(v@),
            None => cover_thumbnail(data@, size) is None,
        },
{
    let reader = image::io::Reader::new(Cursor::new(data)).with_guessed_format().ok()?;
    let resized = reader.decode().ok()?.resize(size, size, FilterType::Nearest);
    let mut buf: Vec<u8> = Vec::new();
    image::codecs::jpeg::JpegEncoder::new(&mut buf).encode_image(&resized).ok()?;
    Some(buf)
}

/// Takes an embedded picture as the track's cover art: a picture of a
/// cover type becomes its thumbnail (or no art at all, where it does not
/// decode); any other picture leaves the track as it was, and `false` says
/// that it was not used.
pub fn fill_art(md: &mut TrackMetadata, media_type: &str, data: &[u8]) -> (used: bool)
    ensures
        used == is_cover_type(media_type@),
        used ==> final(md)@ == (TrackMetadataModel { art: cover_thumbnail(data@, COVER_SIZE), ..old(md)@ }),
        !used ==> final(md)@ == old(md)@,
{
    if !cover_type(media_type) {
        return false;
    }
    md.art = match small_cover(data, COVER_SIZE) {
        Some(jpeg) => Some(TrackArt::Jpeg(jpeg)),
        None => None,
    };
    true
}

} // verus!
