use multiplayer::preferences::HALF_VOLUME_BITS;
use multiplayer::state::Preferences;

#[test]
fn fresh_preferences() {
    let p = Preferences::with_ids(5, 6);
    assert_eq!(f32::from_bits(p.volume_bits), 0.5);
    assert_eq!(p.volume_bits, HALF_VOLUME_BITS);
    assert_eq!(p.name, "anon");
    assert_eq!(p.id, 5);
    assert!(p.lyrics_show_warning_arrows);
    assert!(!p.display_album_artist);
    assert_eq!(p.servers.len(), 1);
    assert_eq!(p.servers[0].id, 6);
    assert_eq!(p.servers[0].name, "local");
    assert_eq!(p.servers[0].addr, "127.0.0.1:5119");
}

#[test]
fn generated_preferences_get_random_v4_ids() {
    let a = Preferences::generate().expect("the system's random number generator works");
    let b = Preferences::generate().unwrap();
    assert_eq!(a.name, "anon");
    assert_eq!(a.servers[0].addr, "127.0.0.1:5119");
    assert_eq!((a.id >> 76) & 0xf, 4);
    assert_eq!((a.id >> 62) & 0x3, 2);
    assert_eq!((a.servers[0].id >> 76) & 0xf, 4);
    assert_ne!(a.id, b.id);
    assert_ne!(a.id, a.servers[0].id);
}
