//! Encounters as the content subsystem sees them.

use crate::bank::{get_new_id, Bank, DataId};
use crate::files::RegisterEncounter;
use crate::orders::{CreateMapCommand, CreateTokenCommand};
use vstd::prelude::*;

verus! {

/// The bytes of an encounter, delivered to whatever unpacks it.
#[derive(Clone, Debug, PartialEq, Eq)]
pub struct EncounterLoad {
    pub data_id: DataId,
    pub data: Vec<u8>,
}

/// The value of a `EncounterLoad`, as contracts speak of it.
pub struct EncounterLoadView {
    pub data_id: DataId,
    pub data: Seq<u8>,
}

impl View for EncounterLoad {
    type V = EncounterLoadView;

    open spec fn view(&self) -> EncounterLoadView {
        EncounterLoadView { data_id: self.data_id, data: self.data@ }
    }
}

/// The identifier under which the encounter on the table is kept.
#[derive(Clone, Copy, Debug, PartialEq, Eq, Structural)]
pub struct CurrentEncounterID(pub DataId);

impl CurrentEncounterID {
    /// A fresh identifier for the encounter that the table begins with.
    pub fn new() -> (current: CurrentEncounterID)
        ensures
            current.0.is_generated(),
    {
        CurrentEncounterID(get_new_id())
    }
}

/// Asks that the encounter on the table be kept under `name`.
#[derive(Clone, Debug, PartialEq, Eq)]
pub struct EncounterSave {
    pub name: String,
}

/// One map of an encounter, as the command that places it.
#[derive(Clone, Copy, Debug, PartialEq, Eq, Structural)]
pub struct MapInstance {
    pub command: CreateMapCommand,
}

/// One token of an encounter, as the command that places it.
#[derive(Clone, Copy, Debug, PartialEq, Eq, Structural)]
pub struct TokenInstance {
    pub command: CreateTokenCommand,
}

/// What stands on the table.
#[derive(Clone, Debug, PartialEq, Eq)]
pub struct Encounter {
    pub map_instances: Vec<MapInstance>,
    pub token_instances: Vec<TokenInstance>,
}

/// The commands that set an encounter up.
#[derive(Clone, Debug, PartialEq, Eq)]
pub struct EncounterCommands {
    pub maps: Vec<CreateMapCommand>,
    pub tokens: Vec<CreateTokenCommand>,
}

/// Makes the encounter kept under `data_id` the one on the table, and gives
/// the commands that place its maps and its tokens, in their order. Where
/// its bytes held no encounter, the table is left empty.
pub fn load_encounter(
    current: &mut CurrentEncounterID,
    data_id: DataId,
    encounter: Option<&Encounter>,
) -> (commands: EncounterCommands)
    ensures
        final(current).0 == data_id,
        commands.maps@ == match encounter {
            Some(encounter) => encounter.map_instances@.map_values(
                |instance: MapInstance| instance.command,
            ),
            None => Seq::empty(),
        },
        commands.tokens@ == match encounter {
            Some(encounter) => encounter.token_instances@.map_values(
                |instance: TokenInstance| instance.command,
            ),
            None => Seq::empty(),
        },
{
    current.0 = data_id;
    let mut maps: Vec<CreateMapCommand> = Vec::new();
    let mut tokens: Vec<CreateTokenCommand> = Vec::new();
    let encounter = match encounter {
        Some(encounter) => encounter,
        None => {
            return EncounterCommands { maps, tokens };
        },
    };
    let mut i: usize = 0;
    while i < encounter.map_instances.len()
        invariant
            i <= encounter.map_instances.len(),
            maps@ == encounter.map_instances@.take(i as int).map_values(
                |instance: MapInstance| instance.command,
            ),
        decreases encounter.map_instances.len() - i,
    {
        maps.push(encounter.map_instances[i].command);
        i = i + 1;
    }
    let mut k: usize = 0;
    while k < encounter.token_instances.len()
        invariant
            k <= encounter.token_instances.len(),
            tokens@ == encounter.token_instances@.take(k as int).map_values(
                |instance: TokenInstance| instance.command,
            ),
        decreases encounter.token_instances.len() - k,
    {
        tokens.push(encounter.token_instances[k].command);
        k = k + 1;
    }
    EncounterCommands { maps, tokens }
}

/// Keeps the bytes of the encounter on the table under its identifier,
/// replacing what was kept there, and asks that it be entered into the
/// registry under `name`.
pub fn save_encounter(
    current: &CurrentEncounterID,
    name: String,
    encoded: Vec<u8>,
    bank: &mut Bank,
) -> (register: RegisterEncounter)
    ensures
        register@.name == name@,
        register@.load_identifier.data_id == current.0,
        register@.load_identifier.size == encoded@.len(),
        final(bank)@ == old(bank)@.insert(current.0, encoded@),
{
    let load_identifier = bank.store_at_id(&current.0, encoded);
    RegisterEncounter { name, load_identifier }
}

} // verus!
