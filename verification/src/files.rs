//! The registries: the lists of maps, tokens and encounters, each kept as a
//! blob under an identifier that is fixed once and for all.

use crate::bank::{Bank, DataId, RANDOM_VERSION_VARIANT, VERSION_VARIANT_MASK};
use crate::fileload::LoadIdentifier;
use crate::sequences::{lemma_views_push, views};
use vstd::prelude::*;

verus! {

/// The list of campaigns is kept under the identifier of this number.
pub const CAMPAIGNS_ID: u128 = 0x0000_0000_0000_0000_0000_ffff_ff00_0000;

/// The list of tokens is kept under the identifier of this number.
pub const TOKENS_ID: u128 = 0x0000_0000_0000_0000_0000_ffff_ff00_0001;

/// The list of encounters is kept under the identifier of this number.
pub const ENCOUNTER_ID: u128 = 0x0000_0000_0000_0000_0000_ffff_ff00_0003;

/// The list of maps is kept under the identifier of this number.
pub const MAPS_ID: u128 = 0x0000_0000_0000_0000_0000_ffff_ff00_0002;

/// Whether `id` is one of the identifiers under which a registry is kept.
pub open spec fn is_registry_id(id: DataId) -> bool {
    id.0 == CAMPAIGNS_ID || id.0 == TOKENS_ID || id.0 == ENCOUNTER_ID || id.0 == MAPS_ID
}

/// No identifier that is generated for a blob is that of a registry.
pub proof fn lemma_generated_is_no_registry(id: DataId)
    requires
        id.is_generated(),
    ensures
        !is_registry_id(id),
{
    let bits = id.0;
    assert(bits & VERSION_VARIANT_MASK == RANDOM_VERSION_VARIANT ==> bits
        != 0x0000_0000_0000_0000_0000_ffff_ff00_0000u128 && bits
        != 0x0000_0000_0000_0000_0000_ffff_ff00_0001u128 && bits
        != 0x0000_0000_0000_0000_0000_ffff_ff00_0002u128 && bits
        != 0x0000_0000_0000_0000_0000_ffff_ff00_0003u128) by (bit_vector);
}

/// The campaigns that this process knows.
#[derive(Clone, Debug, PartialEq, Eq)]
pub struct MainMenu {
    pub campaigns: Vec<DataId>,
}

impl MainMenu {
    /// A menu without campaigns.
    pub fn new() -> (menu: MainMenu)
        ensures
            menu.campaigns@ == Seq::<DataId>::empty(),
    {
        MainMenu { campaigns: Vec::new() }
    }
}

/// One token of the registry: its name and the content that holds it.
#[derive(Clone, Debug, PartialEq, Eq)]
pub struct TokenFileData {
    pub name: String,
    pub load_identifier: LoadIdentifier,
}

/// The value of a `TokenFileData`, as contracts speak of it.
pub struct TokenFileDataView {
    pub name: Seq<char>,
    pub load_identifier: LoadIdentifier,
}

impl View for TokenFileData {
    type V = TokenFileDataView;

    open spec fn view(&self) -> TokenFileDataView {
        TokenFileDataView { name: self.name@, load_identifier: self.load_identifier }
    }
}

/// The registry of tokens, oldest entry first.
#[derive(Clone, Debug, PartialEq, Eq)]
pub struct TokenList {
    pub tokens: Vec<TokenFileData>,
}

impl View for TokenList {
    type V = Seq<TokenFileDataView>;

    open spec fn view(&self) -> Seq<TokenFileDataView> {
        views(self.tokens@)
    }
}

impl TokenList {
    /// A registry without entries.
    pub fn new() -> (list: TokenList)
        ensures
            list@ == Seq::<TokenFileDataView>::empty(),
    {
        let list = TokenList { tokens: Vec::new() };
        list
    }
}

/// Asks that a token be entered into the registry under `name`.
#[derive(Clone, Debug, PartialEq, Eq)]
pub struct RegisterToken {
    pub name: String,
    pub load_identifier: LoadIdentifier,
}

/// The value of a `RegisterToken`, as contracts speak of it.
pub struct RegisterTokenView {
    pub name: Seq<char>,
    pub load_identifier: LoadIdentifier,
}

impl View for RegisterToken {
    type V = RegisterTokenView;

    open spec fn view(&self) -> RegisterTokenView {
        RegisterTokenView { name: self.name@, load_identifier: self.load_identifier }
    }
}

/// The registry of tokens has changed.
#[derive(Clone, Copy, Debug, PartialEq, Eq, Structural)]
pub struct TokenListUpdated;

/// The entry that `event` asks for.
pub open spec fn token_entry(event: RegisterTokenView) -> TokenFileDataView {
    TokenFileDataView { name: event.name, load_identifier: event.load_identifier }
}

/// Enters what `events` ask for behind the entries that the registry holds,
/// in order, and reports one change for each.
pub fn register_token(
    list: &mut TokenList,
    events: &Vec<RegisterToken>,
) -> (updates: Vec<TokenListUpdated>)
    ensures
        final(list)@ == old(list)@ + views(events@).map_values(
            |event: RegisterTokenView| token_entry(event),
        ),
        updates@ == Seq::new(events@.len(), |i: int| TokenListUpdated),
{
    let mut updates: Vec<TokenListUpdated> = Vec::new();
    let mut i: usize = 0;
    while i < events.len()
        invariant
            i <= events.len(),
            list@ == old(list)@ + views(events@).take(i as int).map_values(
                |event: RegisterTokenView| token_entry(event),
            ),
            updates@ == Seq::new(i as nat, |i: int| TokenListUpdated),
        decreases events.len() - i,
    {
        let event = &events[i];
        let ghost entered = list.tokens@;
        list.tokens.push(
            TokenFileData { name: event.name.clone(), load_identifier: event.load_identifier },
        );
        updates.push(TokenListUpdated);
        i = i + 1;
        proof {
            lemma_views_push(entered, list.tokens@.last());
        }
    }
    updates
}

/// One encounter of the registry: its name and the content that holds it.
#[derive(Clone, Debug, PartialEq, Eq)]
pub struct EncounterFileData {
    pub name: String,
    pub load_identifier: LoadIdentifier,
}

/// The value of a `EncounterFileData`, as contracts speak of it.
pub struct EncounterFileDataView {
    pub name: Seq<char>,
    pub load_identifier: LoadIdentifier,
}

impl View for EncounterFileData {
    type V = EncounterFileDataView;

    open spec fn view(&self) -> EncounterFileDataView {
        EncounterFileDataView { name: self.name@, load_identifier: self.load_identifier }
    }
}

/// The registry of encounters, oldest entry first.
#[derive(Clone, Debug, PartialEq, Eq)]
pub struct EncounterList {
    pub encounters: Vec<EncounterFileData>,
}

impl View for EncounterList {
    type V = Seq<EncounterFileDataView>;

    open spec fn view(&self) -> Seq<EncounterFileDataView> {
        views(self.encounters@)
    }
}

impl EncounterList {
    /// A registry without entries.
    pub fn new() -> (list: EncounterList)
        ensures
            list@ == Seq::<EncounterFileDataView>::empty(),
    {
        let list = EncounterList { encounters: Vec::new() };
        list
    }
}

/// Asks that a encounter be entered into the registry under `name`.
#[derive(Clone, Debug, PartialEq, Eq)]
pub struct RegisterEncounter {
    pub name: String,
    pub load_identifier: LoadIdentifier,
}

/// The value of a `RegisterEncounter`, as contracts speak of it.
pub struct RegisterEncounterView {
    pub name: Seq<char>,
    pub load_identifier: LoadIdentifier,
}

impl View for RegisterEncounter {
    type V = RegisterEncounterView;

    open spec fn view(&self) -> RegisterEncounterView {
        RegisterEncounterView { name: self.name@, load_identifier: self.load_identifier }
    }
}

/// The registry of encounters has changed.
#[derive(Clone, Copy, Debug, PartialEq, Eq, Structural)]
pub struct EncounterListUpdated;

/// The entry that `event` asks for.
pub open spec fn encounter_entry(event: RegisterEncounterView) -> EncounterFileDataView {
    EncounterFileDataView { name: event.name, load_identifier: event.load_identifier }
}

/// Enters what `events` ask for behind the entries that the registry holds,
/// in order, and reports one change for each.
pub fn register_encounter(
    list: &mut EncounterList,
    events: &Vec<RegisterEncounter>,
) -> (updates: Vec<EncounterListUpdated>)
    ensures
        final(list)@ == old(list)@ + views(events@).map_values(
            |event: RegisterEncounterView| encounter_entry(event),
        ),
        updates@ == Seq::new(events@.len(), |i: int| EncounterListUpdated),
{
    let mut updates: Vec<EncounterListUpdated> = Vec::new();
    let mut i: usize = 0;
    while i < events.len()
        invariant
            i <= events.len(),
            list@ == old(list)@ + views(events@).take(i as int).map_values(
                |event: RegisterEncounterView| encounter_entry(event),
            ),
            updates@ == Seq::new(i as nat, |i: int| EncounterListUpdated),
        decreases events.len() - i,
    {
        let event = &events[i];
        let ghost entered = list.encounters@;
        list.encounters.push(
            EncounterFileData { name: event.name.clone(), load_identifier: event.load_identifier },
        );
        updates.push(EncounterListUpdated);
        i = i + 1;
        proof {
            lemma_views_push(entered, list.encounters@.last());
        }
    }
    updates
}

/// One map of the registry: its name and the content that holds it.
#[derive(Clone, Debug, PartialEq, Eq)]
pub struct MapFileData {
    pub name: String,
    pub load_identifier: LoadIdentifier,
}

/// The value of a `MapFileData`, as contracts speak of it.
pub struct MapFileDataView {
    pub name: Seq<char>,
    pub load_identifier: LoadIdentifier,
}

impl View for MapFileData {
    type V = MapFileDataView;

    open spec fn view(&self) -> MapFileDataView {
        MapFileDataView { name: self.name@, load_identifier: self.load_identifier }
    }
}

/// The registry of maps, oldest entry first.
#[derive(Clone, Debug, PartialEq, Eq)]
pub struct MapList {
    pub maps: Vec<MapFileData>,
}

impl View for MapList {
    type V = Seq<MapFileDataView>;

    open spec fn view(&self) -> Seq<MapFileDataView> {
        views(self.maps@)
    }
}

impl MapList {
    /// A registry without entries.
    pub fn new() -> (list: MapList)
        ensures
            list@ == Seq::<MapFileDataView>::empty(),
    {
        let list = MapList { maps: Vec::new() };
        list
    }
}

/// Asks that a map be entered into the registry under `name`.
#[derive(Clone, Debug, PartialEq, Eq)]
pub struct RegisterMap {
    pub name: String,
    pub load_identifier: LoadIdentifier,
}

/// The value of a `RegisterMap`, as contracts speak of it.
pub struct RegisterMapView {
    pub name: Seq<char>,
    pub load_identifier: LoadIdentifier,
}

impl View for RegisterMap {
    type V = RegisterMapView;

    open spec fn view(&self) -> RegisterMapView {
        RegisterMapView { name: self.name@, load_identifier: self.load_identifier }
    }
}

/// The registry of maps has changed.
#[derive(Clone, Copy, Debug, PartialEq, Eq, Structural)]
pub struct MapListUpdated;

/// The entry that `event` asks for.
pub open spec fn map_entry(event: RegisterMapView) -> MapFileDataView {
    MapFileDataView { name: event.name, load_identifier: event.load_identifier }
}

/// Enters what `events` ask for behind the entries that the registry holds,
/// in order, and reports one change for each.
pub fn register_map(list: &mut MapList, events: &Vec<RegisterMap>) -> (updates: Vec<MapListUpdated>)
    ensures
        final(list)@ == old(list)@ + views(events@).map_values(
            |event: RegisterMapView| map_entry(event),
        ),
        updates@ == Seq::new(events@.len(), |i: int| MapListUpdated),
{
    let mut updates: Vec<MapListUpdated> = Vec::new();
    let mut i: usize = 0;
    while i < events.len()
        invariant
            i <= events.len(),
            list@ == old(list)@ + views(events@).take(i as int).map_values(
                |event: RegisterMapView| map_entry(event),
            ),
            updates@ == Seq::new(i as nat, |i: int| MapListUpdated),
        decreases events.len() - i,
    {
        let event = &events[i];
        let ghost entered = list.maps@;
        list.maps.push(
            MapFileData { name: event.name.clone(), load_identifier: event.load_identifier },
        );
        updates.push(MapListUpdated);
        i = i + 1;
        proof {
            lemma_views_push(entered, list.maps@.last());
        }
    }
    updates
}

/// The blobs that the registries begin as.
#[derive(Clone, Debug, PartialEq, Eq)]
pub struct RegistryDefaults {
    pub campaigns: Vec<u8>,
    pub tokens: Vec<u8>,
    pub encounters: Vec<u8>,
    pub maps: Vec<u8>,
}

/// `bank` with `blob` under `id`, unless it holds something there already.
pub open spec fn kept_or(bank: Map<DataId, Seq<u8>>, id: DataId, blob: Seq<u8>) -> Map<
    DataId,
    Seq<u8>,
> {
    if bank.contains_key(id) {
        bank
    } else {
        bank.insert(id, blob)
    }
}

/// Makes sure that the store holds each registry: one that is missing is
/// created as the blob given for it, one that is there is left as it is.
pub fn check_for_main(bank: &mut Bank, defaults: RegistryDefaults)
    ensures
        final(bank)@ == kept_or(
            kept_or(
                kept_or(
                    kept_or(old(bank)@, DataId(CAMPAIGNS_ID), defaults.campaigns@),
                    DataId(TOKENS_ID),
                    defaults.tokens@,
                ),
                DataId(ENCOUNTER_ID),
                defaults.encounters@,
            ),
            DataId(MAPS_ID),
            defaults.maps@,
        ),
        forall|id: DataId| is_registry_id(id) ==> final(bank)@.contains_key(id),
        forall|id: DataId|
            old(bank)@.contains_key(id) ==> final(bank)@.contains_key(id) && final(bank)@[id]
                == old(bank)@[id],
        forall|id: DataId| final(bank)@.contains_key(id) ==> old(bank)@.contains_key(id)
            || is_registry_id(id),
{
    let RegistryDefaults { campaigns, tokens, encounters, maps } = defaults;
    if !bank.contains_data(&DataId(CAMPAIGNS_ID)) {
        bank.insert_data(&DataId(CAMPAIGNS_ID), campaigns);
    }
    if !bank.contains_data(&DataId(TOKENS_ID)) {
        bank.insert_data(&DataId(TOKENS_ID), tokens);
    }
    if !bank.contains_data(&DataId(ENCOUNTER_ID)) {
        bank.insert_data(&DataId(ENCOUNTER_ID), encounters);
    }
    if !bank.contains_data(&DataId(MAPS_ID)) {
        bank.insert_data(&DataId(MAPS_ID), maps);
    }
}

} // verus!
