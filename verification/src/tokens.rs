//! Tokens as the content subsystem sees them.

use crate::bank::{is_random_uuid, random_uuid_bits};
use vstd::prelude::*;

verus! {

/// Identifies one token placed on the table.
#[derive(Clone, Copy, Debug, PartialEq, Eq, Structural, Hash)]
pub struct TokenId(pub u128);

/// A fresh token identifier.
pub fn get_new_id() -> (id: TokenId)
    ensures
        is_random_uuid(id.0),
{
    TokenId(random_uuid_bits())
}

/// The bytes of a token, delivered to whatever draws it.
#[derive(Clone, Debug, PartialEq, Eq)]
pub struct TokenLoad {
    pub token_id: TokenId,
    pub data: Vec<u8>,
}

/// The value of a `TokenLoad`, as contracts speak of it.
pub struct TokenLoadView {
    pub token_id: TokenId,
    pub data: Seq<u8>,
}

impl View for TokenLoad {
    type V = TokenLoadView;

    open spec fn view(&self) -> TokenLoadView {
        TokenLoadView { token_id: self.token_id, data: self.data@ }
    }
}

/// The largest number that is added to the number of a token to colour it.
pub const COLOR_OFFSET_MAX: u128 = 26535586659465879067;

/// One channel of the colour of a token, out of 255.
pub open spec fn color_channel(bits: u128, offset: u128, modulus: u128) -> u8 {
    (((bits + offset) % (modulus as int)) % 255) as u8
}

/// The colour that marks a token, as red, green and blue out of 255. It
/// depends on the identifier of the token alone.
pub fn token_color_channels(id: &TokenId) -> (channels: (u8, u8, u8))
    requires
        id.0 <= u128::MAX - COLOR_OFFSET_MAX,
    ensures
        channels.0 == color_channel(id.0, 13486234213461729271, 26180914946810149033),
        channels.1 == color_channel(id.0, 26535586659465879067, 60290778083769636181),
        channels.2 == color_channel(id.0, 12181176441617899549, 83443272550043138497),
{
    let val: u128 = id.0;
    let red: u128 = ((val + 13486234213461729271) % 26180914946810149033) % 255;
    let green: u128 = ((val + 26535586659465879067) % 60290778083769636181) % 255;
    let blue: u128 = ((val + 12181176441617899549) % 83443272550043138497) % 255;
    (red as u8, green as u8, blue as u8)
}

} // verus!
