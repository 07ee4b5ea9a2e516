use image::GenericImageView;
use multiplayer::protocol::{TrackArt, TrackMetadata};
use multiplayer::tags::{cover_type, fill_art, fill_tags, title_or_file_name, Tag, TagKind};

fn empty() -> TrackMetadata {
    TrackMetadata { duration_bits: 9, track_no: None, title: None, artist: None, album: None, album_artist: None, art: None }
}

fn tag(kind: TagKind, value: &str) -> Tag {
    Tag { kind, value: value.to_string() }
}

#[test]
fn tags_fill_their_fields_and_the_last_wins() {
    let mut md = empty();
    fill_tags(
        &mut md,
        &vec![
            tag(TagKind::TrackTitle, "first"),
            tag(TagKind::Album, "LP"),
            tag(TagKind::Other, "ignored"),
            tag(TagKind::TrackNumber, "2/9"),
            tag(TagKind::TrackTitle, "second"),
        ],
    );
    assert_eq!(md.title.as_deref(), Some("second"));
    assert_eq!(md.album.as_deref(), Some("LP"));
    assert_eq!(md.track_no.as_deref(), Some("2/9"));
    assert_eq!(md.artist, None);
    assert_eq!(md.album_artist, None);
    assert_eq!(md.duration_bits, 9);
}

#[test]
fn the_album_artist_defaults_to_the_artist() {
    let mut md = empty();
    fill_tags(&mut md, &vec![tag(TagKind::Artist, "Ann")]);
    assert_eq!(md.album_artist.as_deref(), Some("Ann"));
    let mut md = empty();
    fill_tags(&mut md, &vec![tag(TagKind::AlbumArtist, "Band"), tag(TagKind::Artist, "Ann")]);
    assert_eq!(md.album_artist.as_deref(), Some("Band"));
    assert_eq!(md.artist.as_deref(), Some("Ann"));
}

#[test]
fn tracks_without_a_title_take_the_file_name() {
    let mut md = empty();
    title_or_file_name(&mut md, "song.flac".to_string());
    assert_eq!(md.title.as_deref(), Some("song.flac"));
    title_or_file_name(&mut md, "other.flac".to_string());
    assert_eq!(md.title.as_deref(), Some("song.flac"));
}

#[test]
fn cover_art_media_types() {
    assert!(cover_type("image/png"));
    assert!(cover_type("image/jpg"));
    assert!(cover_type("image/jpeg"));
    assert!(!cover_type("image/gif"));
    assert!(!cover_type("image/PNG"));
    assert!(!cover_type("image/jpegx"));
    assert!(!cover_type(""));
}

fn png_bytes(w: u32, h: u32) -> Vec<u8> {
    let img = image::RgbImage::from_pixel(w, h, image::Rgb([200, 10, 10]));
    let mut buf: Vec<u8> = Vec::new();
    image::DynamicImage::ImageRgb8(img)
        .write_to(&mut std::io::Cursor::new(&mut buf), image::ImageOutputFormat::Png)
        .unwrap();
    buf
}

#[test]
fn cover_pictures_become_small_jpegs() {
    let mut md = empty();
    md.title = Some("kept".to_string());
    let png = png_bytes(60, 60);
    assert!(fill_art(&mut md, "image/png", &png));
    let jpeg = match &md.art {
        Some(TrackArt::Jpeg(j)) => j.clone(),
        None => panic!("no art"),
    };
    assert_eq!(&jpeg[..2], &[0xff, 0xd8]);
    assert_ne!(jpeg, png);
    let thumb = image::load_from_memory(&jpeg).unwrap();
    assert_eq!(thumb.dimensions(), (29, 29));
    assert_eq!(md.title.as_deref(), Some("kept"));
    assert_eq!(md.duration_bits, 9);
}

#[test]
fn wide_covers_keep_their_aspect() {
    let mut md = empty();
    assert!(fill_art(&mut md, "image/jpeg", &png_bytes(116, 58)));
    match &md.art {
        Some(TrackArt::Jpeg(j)) => assert_eq!(image::load_from_memory(j).unwrap().dimensions(), (29, 15)),
        None => panic!("no art"),
    }
}

#[test]
fn undecodable_covers_clear_the_art() {
    let mut md = empty();
    md.art = Some(TrackArt::Jpeg(vec![1, 2, 3]));
    assert!(fill_art(&mut md, "image/jpg", &[0, 1, 2, 3, 4]));
    assert!(md.art.is_none());
}

#[test]
fn other_pictures_leave_the_track_alone() {
    let mut md = empty();
    md.art = Some(TrackArt::Jpeg(vec![1, 2, 3]));
    assert!(!fill_art(&mut md, "image/gif", &png_bytes(4, 4)));
    assert!(matches!(&md.art, Some(TrackArt::Jpeg(j)) if *j == vec![1, 2, 3]));
}
