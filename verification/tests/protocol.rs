use std::collections::VecDeque;

use multiplayer::protocol::{copy_tracks, RoomListing, Track, TrackArt, TrackMetadata};

fn track(id: u32) -> Track {
    Track {
        id,
        owner: "o".to_string(),
        path: vec![1, 2, 3],
        metadata: TrackMetadata {
            duration_bits: 7,
            track_no: Some("1/2".to_string()),
            title: Some("t".to_string()),
            artist: None,
            album: Some("a".to_string()),
            album_artist: None,
            art: Some(TrackArt::Jpeg(vec![9])),
        },
    }
}

#[test]
fn duplicates_are_equal_copies() {
    let t = track(4);
    let d = t.duplicate();
    assert_eq!(format!("{t:?}"), format!("{d:?}"));
    let q: VecDeque<Track> = VecDeque::from(vec![track(1), track(2)]);
    let c = copy_tracks(&q);
    assert_eq!(c.iter().map(|t| t.id).collect::<Vec<_>>(), vec![1, 2]);
    assert_eq!(format!("{q:?}"), format!("{c:?}"));
    let l = RoomListing { id: 1, name: "n".to_string(), user_names: vec!["u".to_string()] };
    assert_eq!(format!("{l:?}"), format!("{:?}", l.duplicate()));
}
