//! Maps as the content subsystem sees them: an identifier and the bytes that
//! were loaded for it.

use crate::bank::{is_random_uuid, random_uuid_bits};
use base64::Engine;
use vstd::prelude::*;

verus! {

/// Identifies one map placed on the table.
#[derive(Clone, Copy, Debug, PartialEq, Eq, Structural, Hash)]
pub struct MapId(pub u128);

/// A fresh map identifier.
pub fn get_new_id() -> (id: MapId)
    ensures
        is_random_uuid(id.0),
{
    MapId(random_uuid_bits())
}

/// The grid of a map, in whole cells and pixels per cell.
#[derive(Clone, Copy, Debug, PartialEq, Eq, Structural, Default)]
pub struct MapGrid {
    pub pixels_per: i64,
    pub width: i64,
    pub height: i64,
}

/// The bytes of a map, delivered to whatever draws it.
#[derive(Clone, Debug, PartialEq, Eq)]
pub struct MapLoad {
    pub map_id: MapId,
    pub data: Vec<u8>,
}

/// The value of a `MapLoad`, as contracts speak of it.
pub struct MapLoadView {
    pub map_id: MapId,
    pub data: Seq<u8>,
}

impl View for MapLoad {
    type V = MapLoadView;

    open spec fn view(&self) -> MapLoadView {
        MapLoadView { map_id: self.map_id, data: self.data@ }
    }
}

/// The bytes that `text` stands for in standard base64 with padding, where
/// it stands for any: what the decoder of the `base64` crate gives.
pub uninterp spec fn base64_bytes_of(text: Seq<char>) -> Option<Seq<u8>>;

/// `base64::Engine::decode` of the standard engine. The result is named,
/// not described; an error of the decoder is `None`.
#[verifier::external_body]
fn base64_decode(text: &String) -> (bytes: Option<Vec<u8>>)
    ensures
        match bytes {
            Some(bytes) => base64_bytes_of(text@) == Some(bytes@),
            None => base64_bytes_of(text@) is None,
        },
{
    base64::engine::general_purpose::STANDARD.decode(text).ok()
}

/// The bytes of the image of a map, which its file holds as base64 text.
/// Text that is no base64 holds no image.
pub fn decode_img(img: &String) -> (image: Option<Vec<u8>>)
    ensures
        match image {
            Some(image) => base64_bytes_of(img@) == Some(image@),
            None => base64_bytes_of(img@) is None,
        },
{
    base64_decode(img)
}

} // verus!
