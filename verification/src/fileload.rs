//! The load coordinator: a request for content is answered from the store,
//! or handed to the transfer manager.

use crate::bank::{Bank, DataId};
use crate::encounters::{EncounterLoad, EncounterLoadView};
use crate::filetransfer::LoadQueue;
use crate::maps::{MapId, MapLoad, MapLoadView};
use crate::sequences::views;
use vstd::prelude::*;

verus! {

/// Names one blob independent of where it is held: its identifier, its length
/// in bytes and the hash taken when it was stored.
#[derive(Clone, Copy, Debug, PartialEq, Eq, Structural)]
pub struct LoadIdentifier {
    pub data_id: DataId,
    pub size: usize,
    pub hash: u64,
}

/// What the loaded bytes are for.
#[derive(Clone, Copy, Debug, PartialEq, Eq, Structural)]
pub enum FileEndpoint {
    MapFile(MapId),
    Encounter,
}

#[derive(Clone, Copy, Debug, PartialEq, Eq, Structural)]
pub struct LoadRequest {
    pub id: LoadIdentifier,
    pub endpoint: FileEndpoint,
}

/// A request that the store could answer, with the bytes it asked for.
#[derive(Clone, Debug, PartialEq, Eq)]
pub struct SuccessfulLoad {
    request: LoadRequest,
    data: Vec<u8>,
}

/// The value of a `SuccessfulLoad`, as contracts speak of it.
pub struct SuccessfulLoadView {
    pub request: LoadRequest,
    pub data: Seq<u8>,
}

impl View for SuccessfulLoad {
    type V = SuccessfulLoadView;

    closed spec fn view(&self) -> SuccessfulLoadView {
        SuccessfulLoadView { request: self.request, data: self.data@ }
    }
}

impl SuccessfulLoad {
    /// The request that was answered.
    pub fn request(&self) -> (request: LoadRequest)
        ensures
            request == self@.request,
    {
        self.request
    }

    /// The bytes that the store held for it.
    pub fn data(&self) -> (data: &Vec<u8>)
        ensures
            data@ == self@.data,
    {
        &self.data
    }
}

/// What the store answers to `request`: the load, if it holds the content.
pub open spec fn answered(
    bank: Map<DataId, Seq<u8>>,
    request: LoadRequest,
) -> Option<SuccessfulLoadView> {
    if bank.contains_key(request.id.data_id) {
        Some(SuccessfulLoadView { request, data: bank[request.id.data_id] })
    } else {
        None
    }
}

/// The loads that the store can answer among `requests`, in order.
pub open spec fn hits(
    bank: Map<DataId, Seq<u8>>,
    requests: Seq<LoadRequest>,
) -> Seq<SuccessfulLoadView> {
    requests.filter_map(|request: LoadRequest| answered(bank, request))
}

/// The requests among `requests` whose content the store does not hold, in
/// order.
pub open spec fn misses(
    bank: Map<DataId, Seq<u8>>,
    requests: Seq<LoadRequest>,
) -> Seq<LoadRequest> {
    requests.filter(|request: LoadRequest| !bank.contains_key(request.id.data_id))
}

/// Round trip: once `data` has been stored under `id`, a request for `id` is
/// answered from the store, with `data` as it was stored, and nothing is
/// left for the transfer manager.
pub proof fn lemma_store_then_load(
    bank: Map<DataId, Seq<u8>>,
    id: DataId,
    data: Seq<u8>,
    request: LoadRequest,
)
    requires
        request.id.data_id == id,
    ensures
        hits(bank.insert(id, data), seq![request]) == seq![SuccessfulLoadView { request, data }],
        misses(bank.insert(id, data), seq![request]) == Seq::<LoadRequest>::empty(),
{
    let stored = bank.insert(id, data);
    Seq::lemma_filter_map_singleton(request, |request: LoadRequest| answered(stored, request));
    let absent = |request: LoadRequest| !stored.contains_key(request.id.data_id);
    assert(seq![request].filter(absent) =~= Seq::<LoadRequest>::empty()) by {
        reveal_with_fuel(Seq::filter, 2);
    }
}

/// Answers each request from the store where the store holds its content,
/// and puts every other request into the queue of the transfer manager.
pub fn recieve_request(
    requests: &Vec<LoadRequest>,
    load_queue: &mut LoadQueue,
    bank: &Bank,
) -> (loaded: Vec<SuccessfulLoad>)
    ensures
        views(loaded@) == hits(bank@, requests@),
        final(load_queue)@ == old(load_queue)@ + misses(bank@, requests@),
{
    let mut loaded: Vec<SuccessfulLoad> = Vec::new();
    let mut i: usize = 0;
    while i < requests.len()
        invariant
            i <= requests.len(),
            views(loaded@) == hits(bank@, requests@.take(i as int)),
            load_queue@ == old(load_queue)@ + misses(bank@, requests@.take(i as int)),
        decreases requests.len() - i,
    {
        let request = requests[i];
        proof {
            requests@.lemma_filter_map_take_succ(
                |request: LoadRequest| answered(bank@, request),
                i as int,
            );
            requests@.lemma_take_succ_push(i as int);
            requests@.take(i as int).lemma_filter_push(
                request,
                |request: LoadRequest| !bank@.contains_key(request.id.data_id),
            );
        }
        match bank.request_data(&request.id.data_id) {
            Some(data) => {
                loaded.push(SuccessfulLoad { request, data: data.clone() });
            },
            None => {
                load_queue.add(request);
            },
        }
        i = i + 1;
    }
    assert(requests@.take(i as int) =~= requests@);
    loaded
}

/// The loads of `events`, sorted by what they are for.
#[derive(Clone, Debug, PartialEq, Eq)]
pub struct LoadedContent {
    pub maps: Vec<MapLoad>,
    pub encounters: Vec<EncounterLoad>,
}

/// The map that a load delivers, if it is for a map.
pub open spec fn map_of(load: SuccessfulLoadView) -> Option<MapLoadView> {
    match load.request.endpoint {
        FileEndpoint::MapFile(map_id) => Some(MapLoadView { map_id, data: load.data }),
        FileEndpoint::Encounter => None,
    }
}

/// The encounter that a load delivers, if it is for an encounter.
pub open spec fn encounter_of(load: SuccessfulLoadView) -> Option<EncounterLoadView> {
    match load.request.endpoint {
        FileEndpoint::MapFile(_) => None,
        FileEndpoint::Encounter => Some(
            EncounterLoadView { data_id: load.request.id.data_id, data: load.data },
        ),
    }
}

/// Hands each load to what its endpoint names: the bytes of a map to the map,
/// the bytes of an encounter to the encounter.
pub fn process_successful_load(events: &Vec<SuccessfulLoad>) -> (delivered: LoadedContent)
    ensures
        views(delivered.maps@) == views(events@).filter_map(
            |load: SuccessfulLoadView| map_of(load),
        ),
        views(delivered.encounters@) == views(events@).filter_map(
            |load: SuccessfulLoadView| encounter_of(load),
        ),
{
    let mut maps: Vec<MapLoad> = Vec::new();
    let mut encounters: Vec<EncounterLoad> = Vec::new();
    let mut i: usize = 0;
    while i < events.len()
        invariant
            i <= events.len(),
            views(maps@) == views(events@).take(i as int).filter_map(
                |load: SuccessfulLoadView| map_of(load),
            ),
            views(encounters@) == views(events@).take(i as int).filter_map(
                |load: SuccessfulLoadView| encounter_of(load),
            ),
        decreases events.len() - i,
    {
        let event = &events[i];
        proof {
            views(events@).lemma_filter_map_take_succ(
                |load: SuccessfulLoadView| map_of(load),
                i as int,
            );
            views(events@).lemma_filter_map_take_succ(
                |load: SuccessfulLoadView| encounter_of(load),
                i as int,
            );
        }
        match event.request.endpoint {
            FileEndpoint::MapFile(map_id) => {
                maps.push(MapLoad { map_id, data: event.data.clone() });
            },
            FileEndpoint::Encounter => {
                encounters.push(
                    EncounterLoad { data_id: event.request.id.data_id, data: event.data.clone() },
                );
            },
        }
        i = i + 1;
    }
    assert(views(events@).take(i as int) =~= views(events@));
    LoadedContent { maps, encounters }
}

} // verus!
