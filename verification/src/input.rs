//! What the user asks for, as far as it concerns content: new content is
//! stored, entered into its registry and shown to every peer.

use crate::bank::Bank;
use crate::fileload::LoadIdentifier;
use crate::files::{RegisterMap, RegisterToken};
use crate::networking::{ClientCommandEvent, ClientCommandEventView, NetworkReliability};
use crate::orders::{
    Command, CommandView, CreateMapCommand, CreateTokenCommand, LoadEncounterCommand, OrderEvent,
    OrderEventView,
};
use cute_dnd_dice::Modifier;
use std::num::NonZeroU16;
use vstd::prelude::*;
use vstd::string::StringSliceAdditionalSpecFns;

verus! {

/// An order of this process on the reliable channel.
pub open spec fn client_order(command: CommandView) -> ClientCommandEventView {
    ClientCommandEventView {
        order: OrderEventView { command },
        reliability: NetworkReliability::Reliable,
    }
}

/// The order that places, at the origin, a new map that shows the content
/// named by `load_identifier`.
pub fn create_map(load_identifier: LoadIdentifier) -> (event: ClientCommandEvent)
    ensures
        event@.reliability == NetworkReliability::Reliable,
        event@.order.command matches CommandView::CreateMap(placed) && placed.x == 0 && placed.y
            == 0 && placed.data_id == load_identifier && crate::bank::is_random_uuid(
            placed.map_id.0,
        ),
{
    ClientCommandEvent {
        order: OrderEvent {
            command: Command::CreateMap(
                CreateMapCommand {
                    x: 0,
                    y: 0,
                    data_id: load_identifier,
                    map_id: crate::maps::get_new_id(),
                },
            ),
        },
        reliability: NetworkReliability::Reliable,
    }
}

/// The order that replaces the table with the encounter named by
/// `load_identifier`.
pub fn load_encounter(load_identifier: LoadIdentifier) -> (event: ClientCommandEvent)
    ensures
        event@ == client_order(
            CommandView::LoadEncounter(LoadEncounterCommand { load_identifier }),
        ),
{
    ClientCommandEvent {
        order: OrderEvent {
            command: Command::LoadEncounter(LoadEncounterCommand { load_identifier }),
        },
        reliability: NetworkReliability::Reliable,
    }
}

/// The order that places, at the origin, a new token that shows the content
/// named by `load_identifier`.
pub fn create_token(load_identifier: LoadIdentifier) -> (event: ClientCommandEvent)
    ensures
        event@.reliability == NetworkReliability::Reliable,
        event@.order.command matches CommandView::CreateToken(placed) && placed.x == 0 && placed.y
            == 0 && placed.load_identifier == load_identifier && crate::bank::is_random_uuid(
            placed.id.0,
        ),
{
    ClientCommandEvent {
        order: OrderEvent {
            command: Command::CreateToken(
                CreateTokenCommand {
                    x: 0,
                    y: 0,
                    id: crate::tokens::get_new_id(),
                    load_identifier,
                },
            ),
        },
        reliability: NetworkReliability::Reliable,
    }
}

/// What follows the import of a map: its entry into the registry, and the
/// order that places it.
#[derive(Clone, Debug, PartialEq, Eq)]
pub struct ImportedMap {
    pub register: RegisterMap,
    pub order: ClientCommandEvent,
}

/// What follows the creation of a token: its entry into the registry, and
/// the order that places it.
#[derive(Clone, Debug, PartialEq, Eq)]
pub struct CreatedToken {
    pub register: RegisterToken,
    pub order: ClientCommandEvent,
}

/// Stores the bytes of a map that the user picked, under a fresh identifier,
/// and says what is to follow: the entry of the map into the registry under
/// `name`, and the order that places it at the origin.
pub fn create_map_from_file(bank: &mut Bank, name: String, data: Vec<u8>) -> (imported:
    ImportedMap)
    ensures
        imported.register@.name == name@,
        imported.register@.load_identifier.data_id.is_generated(),
        imported.register@.load_identifier.size == data@.len(),
        final(bank)@ == old(bank)@.insert(imported.register@.load_identifier.data_id, data@),
        imported.order@.reliability == NetworkReliability::Reliable,
        imported.order@.order.command matches CommandView::CreateMap(placed) && placed.x == 0
            && placed.y == 0 && placed.data_id == imported.register@.load_identifier
            && crate::bank::is_random_uuid(placed.map_id.0),
{
    let load_identifier = bank.store(data);
    ImportedMap {
        register: RegisterMap { load_identifier, name },
        order: create_map(load_identifier),
    }
}

/// Stores the bytes of a token that the user made, under a fresh identifier,
/// and says what is to follow: the entry of the token into the registry
/// under `name`, and the order that places it at the origin.
pub fn create_token_from_data(bank: &mut Bank, name: String, data: Vec<u8>) -> (created:
    CreatedToken)
    ensures
        created.register@.name == name@,
        created.register@.load_identifier.data_id.is_generated(),
        created.register@.load_identifier.size == data@.len(),
        final(bank)@ == old(bank)@.insert(created.register@.load_identifier.data_id, data@),
        created.order@.reliability == NetworkReliability::Reliable,
        created.order@.order.command matches CommandView::CreateToken(placed) && placed.x == 0
            && placed.y == 0 && placed.load_identifier == created.register@.load_identifier
            && crate::bank::is_random_uuid(placed.id.0),
{
    let load_identifier = bank.store(data);
    CreatedToken {
        register: RegisterToken { load_identifier, name },
        order: create_token(load_identifier),
    }
}

/// The bytes of the word that asks for a roll, `/roll`.
pub open spec fn roll_word() -> Seq<u8> {
    seq![0x2fu8, 0x72u8, 0x6fu8, 0x6cu8, 0x6cu8]
}

/// The dice that a message asks to roll, if it asks for a roll: the message
/// begins with the word `/roll`, and what follows the word, without its
/// spaces, names the dice.
pub open spec fn roll_expression(text: Seq<u8>) -> Option<Seq<u8>> {
    if text.len() >= 5 && text.subrange(0, 5) == roll_word() && (text.len() == 5 || text[5]
        == 0x20u8) {
        Some(text.skip(5).filter(|byte: u8| byte != 0x20u8))
    } else {
        None
    }
}

/// Reads from a message the dice that it asks to roll, if it asks for a
/// roll.
pub fn dice_expression(text: &str) -> (dice: Option<Vec<u8>>)
    ensures
        match dice {
            Some(dice) => roll_expression(text.spec_bytes()) == Some(dice@),
            None => roll_expression(text.spec_bytes()) is None,
        },
{
    let bytes = text.as_bytes();
    if bytes.len() < 5 {
        return None;
    }
    if !(bytes[0] == 0x2f && bytes[1] == 0x72 && bytes[2] == 0x6f && bytes[3] == 0x6c && bytes[4]
        == 0x6c) {
        return None;
    }
    assert(bytes@.subrange(0, 5) =~= roll_word());
    if bytes.len() > 5 && bytes[5] != 0x20 {
        return None;
    }
    let mut dice: Vec<u8> = Vec::new();
    let mut at: usize = 5;
    let ghost spaceless = |byte: u8| byte != 0x20u8;
    while at < bytes.len()
        invariant
            5 <= at <= bytes.len(),
            spaceless == |byte: u8| byte != 0x20u8,
            dice@ == bytes@.skip(5).take(at - 5).filter(spaceless),
        decreases bytes.len() - at,
    {
        proof {
            bytes@.skip(5).lemma_take_succ_push(at - 5);
            bytes@.skip(5).take(at - 5).lemma_filter_push(bytes@[at as int], spaceless);
        }
        if bytes[at] != 0x20 {
            dice.push(bytes[at]);
        }
        at = at + 1;
    }
    assert(bytes@.skip(5).take(at - 5) =~= bytes@.skip(5));
    Some(dice)
}

/// Dice as numbers: how many, with how many faces each, and what is taken
/// from the sum (`minus`) or added to it.
#[derive(Clone, Copy, Debug, PartialEq, Eq, Structural)]
pub struct Dice {
    pub num: u16,
    pub faces: u16,
    pub minus: bool,
    pub extra: u16,
}

/// The dice that `cute_dnd_dice::Roll::from_str` reads from the text that
/// `text` holds, where the bytes are text and it reads any.
pub uninterp spec fn parsed_dice(text: Seq<u8>) -> Option<Dice>;

/// `cute_dnd_dice::Roll::from_str` on the text that `dice` holds. The result
/// is named, not described, but for this: dice that were read have at least
/// one face, as their type in the crate says. Bytes that are no text, and
/// text that the crate does not read, give `None`.
#[verifier::external_body]
fn parse_dice(dice: &Vec<u8>) -> (parsed: Option<Dice>)
    ensures
        parsed == parsed_dice(dice@),
        parsed matches Some(read) ==> read.faces > 0,
{
    let roll = cute_dnd_dice::Roll::from_str(std::str::from_utf8(dice).ok()?).ok()?;
    let (num, faces) = (roll.num, roll.faces.get());
    Some(
        match roll.extra {
            Modifier::Plus(extra) => Dice { num, faces, minus: false, extra },
            Modifier::Minus(extra) => Dice { num, faces, minus: true, extra },
        },
    )
}

/// A sum of dice with what `dice` adds to it or takes from it, kept within
/// the numbers that a roll can be.
pub open spec fn modified(sum: int, dice: Dice) -> int {
    if dice.minus {
        if sum - dice.extra < 0 {
            0
        } else {
            sum - dice.extra
        }
    } else {
        if sum + dice.extra > u16::MAX {
            u16::MAX as int
        } else {
            sum + dice.extra
        }
    }
}

/// The least that `dice` can roll: every die shows one.
pub open spec fn lowest_roll(dice: Dice) -> int {
    modified(dice.num as int, dice)
}

/// The most that `dice` can roll: every die shows its last face.
pub open spec fn highest_roll(dice: Dice) -> int {
    modified(
        if dice.num * dice.faces > u16::MAX {
            u16::MAX as int
        } else {
            dice.num * dice.faces
        },
        dice,
    )
}

/// `cute_dnd_dice::Roll::roll` on the dice given. The roll is random; what is
/// claimed is that it lies between the least and the most that the dice can
/// roll, since each die shows between one and its number of faces and the
/// crate adds and subtracts without leaving the range of its numbers.
#[verifier::external_body]
fn roll_dice(dice: Dice) -> (rolled: u16)
    requires
        dice.faces > 0,
    ensures
        lowest_roll(dice) <= rolled <= highest_roll(dice),
{
    let extra = if dice.minus { Modifier::Minus(dice.extra) } else { Modifier::Plus(dice.extra) };
    cute_dnd_dice::Roll::new(dice.num, NonZeroU16::new(dice.faces).unwrap(), extra).roll()
}

/// What a roll for `text` can be: none where the message asks for no roll or
/// names no dice that can be read; else a number that the dice can roll.
pub open spec fn rolls_for(text: Seq<u8>, rolled: Option<u16>) -> bool {
    match roll_expression(text) {
        Some(named) => match parsed_dice(named) {
            Some(dice) => rolled matches Some(value) && lowest_roll(dice) <= value
                <= highest_roll(dice),
            None => rolled is None,
        },
        None => rolled is None,
    }
}

/// Rolls the dice that a message asks to roll. A message that asks for no
/// roll, or for a roll of dice that cannot be read, gives none; every other
/// message gives a number that its dice can roll.
pub fn process_dice(text: &str) -> (rolled: Option<u16>)
    ensures
        rolls_for(text.spec_bytes(), rolled),
{
    match dice_expression(text) {
        Some(named) => match parse_dice(&named) {
            Some(dice) => Some(roll_dice(dice)),
            None => None,
        },
        None => None,
    }
}

} // verus!
