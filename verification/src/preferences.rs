//! What a fresh installation of the player starts with.

use vstd::prelude::*;
use crate::key::random_bytes;
use crate::state::{Preferences, Server};

verus! {

/// The bit pattern of the `f32` 0.5, the starting volume.
pub const HALF_VOLUME_BITS: u32 = 0x3f00_0000;

/// The 128-bit value of a random version-4 UUID: version nibble 4,
/// RFC 4122 variant.
pub open spec fn is_v4_uuid(id: u128) -> bool {
    (id >> 76u128) & 0xf == 4 && (id >> 62u128) & 0x3 == 2
}

/// The 128-bit value of the UUID with these 16 bytes, the first the most
/// significant.
pub open spec fn uuid_value(b: Seq<u8>) -> u128 {
    ((b[0] as u128) << 120u128) | ((b[1] as u128) << 112u128) | ((b[2] as u128) << 104u128) | ((
    b[3] as u128) << 96u128) | ((b[4] as u128) << 88u128) | ((b[5] as u128) << 80u128) | ((
    b[6] as u128) << 72u128) | ((b[7] as u128) << 64u128) | ((b[8] as u128) << 56u128) | ((
    b[9] as u128) << 48u128) | ((b[10] as u128) << 40u128) | ((b[11] as u128) << 32u128) | ((
    b[12] as u128) << 24u128) | ((b[13] as u128) << 16u128) | ((b[14] as u128) << 8u128) | (
    b[15] as u128)
}

/// The bytes with the version nibble set to 4 (random) and the variant bits
/// to those of RFC 4122.
pub open spec fn with_v4_bits(b: Seq<u8>) -> Seq<u8> {
    b.update(6, (b[6] & 0x0f) | 0x40).update(8, (b[8] & 0x3f) | 0x80)
}

/// `Builder::from_random_bytes(bytes).into_uuid().as_u128()` (uuid): the
/// bytes as a UUID, with the version and variant bits of a random UUID set,
/// read as a big-endian number. Its `requires` makes the conversion to a
/// 16-byte array succeed.
#[verifier::external_body]
fn uuid_from_random_bytes(bytes: &[u8]) -> (id: u128)
    requires
        bytes@.len() == 16,
    ensures
        id == uuid_value(with_v4_bits(bytes@)),
{
    let array: [u8; 16] = bytes.try_into().unwrap();
    uuid::Builder::from_random_bytes(array).into_uuid().as_u128()
}

proof fn lemma_uuid_value_is_v4(b: Seq<u8>)
    requires
        b.len() == 16,
    ensures
        is_v4_uuid(uuid_value(with_v4_bits(b))),
{
    let w = with_v4_bits(b);
    let (b0, b1, b2, b3, b4, b5, b7) = (w[0], w[1], w[2], w[3], w[4], w[5], w[7]);
    let (b9, b10, b11, b12, b13, b14, b15) = (w[9], w[10], w[11], w[12], w[13], w[14], w[15]);
    let (x6, x8) = (b[6], b[8]);
    assert(w[6] == (x6 & 0x0f) | 0x40);
    assert(w[8] == (x8 & 0x3f) | 0x80);
    let v = uuid_value(w);
    assert(v == ((b0 as u128) << 120u128) | ((b1 as u128) << 112u128) | ((b2 as u128) << 104u128) | ((
    b3 as u128) << 96u128) | ((b4 as u128) << 88u128) | ((b5 as u128) << 80u128) | (((
    (x6 & 0x0f) | 0x40) as u128) << 72u128) | ((b7 as u128) << 64u128) | (((((x8 & 0x3f) | 0x80)) as u128)
        << 56u128) | ((b9 as u128) << 48u128) | ((b10 as u128) << 40u128) | ((b11 as u128) << 32u128) | ((
    b12 as u128) << 24u128) | ((b13 as u128) << 16u128) | ((b14 as u128) << 8u128) | (b15 as u128));
    assert(is_v4_uuid(
        ((b0 as u128) << 120u128) | ((b1 as u128) << 112u128) | ((b2 as u128) << 104u128) | ((
        b3 as u128) << 96u128) | ((b4 as u128) << 88u128) | ((b5 as u128) << 80u128) | (((
        (x6 & 0x0f) | 0x40) as u128) << 72u128) | ((b7 as u128) << 64u128) | (((((x8 & 0x3f) | 0x80))
            as u128) << 56u128) | ((b9 as u128) << 48u128) | ((b10 as u128) << 40u128) | ((b11 as u128)
            << 32u128) | ((b12 as u128) << 24u128) | ((b13 as u128) << 16u128) | ((b14 as u128) << 8u128)
            | (b15 as u128),
    )) by (bit_vector);
}

/// A random version-4 UUID drawn from the operating system's random number
/// generator, as its 128-bit value; `None` where that generator fails.
fn random_uuid() -> (id: Option<u128>)
    ensures
        id matches Some(v) ==> is_v4_uuid(v),
{
    match random_bytes(16) {
        Some(bytes) => {
            proof {
                lemma_uuid_value_is_v4(bytes@);
            }
            Some(uuid_from_random_bytes(bytes.as_slice()))
        },
        None => None,
    }
}

/// The preferences of a fresh installation, given the player's id and the
/// id of the one server it knows.
pub open spec fn is_fresh(p: Preferences, id: u128, server_id: u128) -> bool {
    &&& p.volume_bits == HALF_VOLUME_BITS
    &&& p.name@ == seq!['a', 'n', 'o', 'n']
    &&& p.id == id
    &&& p.lyrics_show_warning_arrows
    &&& !p.display_album_artist
    &&& p.servers@.len() == 1
    &&& p.servers@[0].id == server_id
    &&& p.servers@[0].name@ == seq!['l', 'o', 'c', 'a', 'l']
    &&& p.servers@[0].addr@ == seq!['1', '2', '7', '.', '0', '.', '0', '.', '1', ':', '5', '1', '1', '9']
}

impl Preferences {
    /// Fresh preferences with the given ids: volume one half, the name
    /// `anon`, lyric warning arrows on, album artists off, and one server,
    /// `local` at `127.0.0.1:5119`.
    pub fn with_ids(id: u128, server_id: u128) -> (p: Preferences)
        ensures
            is_fresh(p, id, server_id),
    {
        let name = "anon".to_owned();
        let server_name = "local".to_owned();
        let addr = "127.0.0.1:5119".to_owned();
        proof {
            reveal_strlit("anon");
            reveal_strlit("local");
            reveal_strlit("127.0.0.1:5119");
        }
        assert(name@ =~= seq!['a', 'n', 'o', 'n']);
        assert(server_name@ =~= seq!['l', 'o', 'c', 'a', 'l']);
        assert(addr@ =~= seq!['1', '2', '7', '.', '0', '.', '0', '.', '1', ':', '5', '1', '1', '9']);
        let mut servers: Vec<Server> = Vec::new();
        servers.push(Server { id: server_id, name: server_name, addr });
        Preferences {
            volume_bits: HALF_VOLUME_BITS,
            name,
            id,
            lyrics_show_warning_arrows: true,
            display_album_artist: false,
            servers,
        }
    }
}

impl Preferences {
    /// Fresh preferences with a random id for the player and for its
    /// server; `None` where the operating system's random number generator
    /// fails.
    pub fn generate() -> (p: Option<Preferences>)
        ensures
            p matches Some(p) ==> is_fresh(p, p.id, p.servers@[0].id) && is_v4_uuid(p.id) && is_v4_uuid(
                p.servers@[0].id,
            ),
    {
        let id = match random_uuid() {
            Some(id) => id,
            None => return None,
        };
        let server_id = match random_uuid() {
            Some(id) => id,
            None => return None,
        };
        Some(Preferences::with_ids(id, server_id))
    }
}

} // verus!
