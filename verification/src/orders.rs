//! The closed vocabulary of commands that peers exchange, and the dispatcher
//! that hands each command to the component it concerns.

use crate::fileload::{FileEndpoint, LoadIdentifier, LoadRequest};
use crate::filetransfer::{
    DataRequest, DataSectionIdentifier, DownloadedSection, DownloadedSectionView,
    IncomingDownload, IncomingDownloadView, SuccessfulUploadLock, UnlockUpload, UploadAvailable,
    UploadRequest,
};
use crate::sequences::{lemma_views_empty, lemma_views_push, views};
use crate::maps::MapId;
use crate::networking::PeerId;
use crate::tokens::TokenId;
use vstd::prelude::*;

verus! {

/// Moves a token. `x` and `y` are the bit patterns of single-precision
/// coordinates.
#[derive(Clone, Copy, Debug, PartialEq, Eq, Structural)]
pub struct MoveCommand {
    pub x: u32,
    pub y: u32,
    pub id: TokenId,
}

/// Places a token whose content is named by `load_identifier`. `x` and `y`
/// are the bit patterns of single-precision coordinates.
#[derive(Clone, Copy, Debug, PartialEq, Eq, Structural)]
pub struct CreateTokenCommand {
    pub x: u32,
    pub y: u32,
    pub id: TokenId,
    pub load_identifier: LoadIdentifier,
}

/// Places a map whose content is named by `data_id`. `x` and `y` are the bit
/// patterns of single-precision coordinates.
#[derive(Clone, Copy, Debug, PartialEq, Eq, Structural)]
pub struct CreateMapCommand {
    pub x: u32,
    pub y: u32,
    pub map_id: MapId,
    pub data_id: LoadIdentifier,
}

/// Replaces the table with the encounter named by `load_identifier`.
#[derive(Clone, Copy, Debug, PartialEq, Eq, Structural)]
pub struct LoadEncounterCommand {
    pub load_identifier: LoadIdentifier,
}

/// Asks the receiver to serve `load_id` to `peer_id` alone.
#[derive(Clone, Copy, Debug, PartialEq, Eq, Structural)]
pub struct RequestUploadLockCommand {
    pub load_id: LoadIdentifier,
    pub peer_id: PeerId,
}

/// Tells a requester that `peer_id` now serves it.
#[derive(Clone, Copy, Debug, PartialEq, Eq, Structural)]
pub struct SuccessfulUploadLockedCommand {
    pub peer_id: PeerId,
}

/// Asks the serving peer for the bytes of one section, on behalf of `peer_id`.
#[derive(Clone, Copy, Debug, PartialEq, Eq, Structural)]
pub struct RequestDataCommand {
    pub peer_id: PeerId,
    pub section: DataSectionIdentifier,
}

/// Carries the bytes of one section from the serving peer `peer_id`.
#[derive(Debug, PartialEq, Eq)]
pub struct RecieveDataCommand {
    pub peer_id: PeerId,
    pub data: DownloadedSection,
}

/// The value of a `RecieveDataCommand`, as contracts speak of it.
pub struct RecieveDataCommandView {
    pub peer_id: PeerId,
    pub data: DownloadedSectionView,
}

impl View for RecieveDataCommand {
    type V = RecieveDataCommandView;

    open spec fn view(&self) -> RecieveDataCommandView {
        RecieveDataCommandView { peer_id: self.peer_id, data: self.data@ }
    }
}

impl Clone for RecieveDataCommand {
    fn clone(&self) -> (copy: Self)
        ensures
            copy@ == self@,
    {
        RecieveDataCommand { peer_id: self.peer_id, data: self.data.clone() }
    }
}

/// Releases the serving peer.
#[derive(Clone, Copy, Debug, PartialEq, Eq, Structural)]
pub struct UnlockUploadCommand;

/// Announces that `peer_id` is free to serve.
#[derive(Clone, Copy, Debug, PartialEq, Eq, Structural)]
pub struct UploadAvailableCommand {
    pub peer_id: PeerId,
}

#[derive(Debug, PartialEq, Eq)]
pub enum Command {
    Move(MoveCommand),
    CreateToken(CreateTokenCommand),
    CreateMap(CreateMapCommand),
    LoadEncounter(LoadEncounterCommand),
    RequestData(RequestDataCommand),
    RequestUploadLock(RequestUploadLockCommand),
    SuccessfulUploadLock(SuccessfulUploadLockedCommand),
    RecieveData(RecieveDataCommand),
    UnlockUpload(UnlockUploadCommand),
    UploadAvailable(UploadAvailableCommand),
}

/// The value of a `Command`, as contracts speak of it.
pub enum CommandView {
    Move(MoveCommand),
    CreateToken(CreateTokenCommand),
    CreateMap(CreateMapCommand),
    LoadEncounter(LoadEncounterCommand),
    RequestData(RequestDataCommand),
    RequestUploadLock(RequestUploadLockCommand),
    SuccessfulUploadLock(SuccessfulUploadLockedCommand),
    RecieveData(RecieveDataCommandView),
    UnlockUpload(UnlockUploadCommand),
    UploadAvailable(UploadAvailableCommand),
}

impl View for Command {
    type V = CommandView;

    open spec fn view(&self) -> CommandView {
        match *self {
            Command::Move(c) => CommandView::Move(c),
            Command::CreateToken(c) => CommandView::CreateToken(c),
            Command::CreateMap(c) => CommandView::CreateMap(c),
            Command::LoadEncounter(c) => CommandView::LoadEncounter(c),
            Command::RequestData(c) => CommandView::RequestData(c),
            Command::RequestUploadLock(c) => CommandView::RequestUploadLock(c),
            Command::SuccessfulUploadLock(c) => CommandView::SuccessfulUploadLock(c),
            Command::RecieveData(c) => CommandView::RecieveData(c@),
            Command::UnlockUpload(c) => CommandView::UnlockUpload(c),
            Command::UploadAvailable(c) => CommandView::UploadAvailable(c),
        }
    }
}

impl Clone for Command {
    fn clone(&self) -> (copy: Self)
        ensures
            copy@ == self@,
    {
        match self {
            Command::Move(c) => Command::Move(*c),
            Command::CreateToken(c) => Command::CreateToken(*c),
            Command::CreateMap(c) => Command::CreateMap(*c),
            Command::LoadEncounter(c) => Command::LoadEncounter(*c),
            Command::RequestData(c) => Command::RequestData(*c),
            Command::RequestUploadLock(c) => Command::RequestUploadLock(*c),
            Command::SuccessfulUploadLock(c) => Command::SuccessfulUploadLock(*c),
            Command::RecieveData(c) => Command::RecieveData(c.clone()),
            Command::UnlockUpload(c) => Command::UnlockUpload(*c),
            Command::UploadAvailable(c) => Command::UploadAvailable(*c),
        }
    }
}

/// One command, as it crosses the peer boundary or is applied locally.
#[derive(Debug, PartialEq, Eq)]
pub struct OrderEvent {
    pub command: Command,
}

/// The value of a `OrderEvent`, as contracts speak of it.
pub struct OrderEventView {
    pub command: CommandView,
}

impl View for OrderEvent {
    type V = OrderEventView;

    open spec fn view(&self) -> OrderEventView {
        OrderEventView { command: self.command@ }
    }
}

impl Clone for OrderEvent {
    fn clone(&self) -> (copy: Self)
        ensures
            copy@ == self@,
    {
        OrderEvent { command: self.command.clone() }
    }
}

/// The commands of a run of orders, sorted by kind; within a kind they keep
/// the order in which they came.
#[derive(Clone, Debug, PartialEq, Eq)]
pub struct DispatchedOrders {
    pub moves: Vec<MoveCommand>,
    pub create_tokens: Vec<CreateTokenCommand>,
    pub create_maps: Vec<CreateMapCommand>,
    pub load_encounters: Vec<LoadEncounterCommand>,
    pub data_requests: Vec<RequestDataCommand>,
    pub upload_lock_requests: Vec<RequestUploadLockCommand>,
    pub successful_upload_locks: Vec<SuccessfulUploadLockedCommand>,
    pub recieved_data: Vec<RecieveDataCommand>,
    pub unlock_uploads: Vec<UnlockUploadCommand>,
    pub upload_availables: Vec<UploadAvailableCommand>,
}

/// The value of a `DispatchedOrders`, as contracts speak of it.
pub struct DispatchedOrdersView {
    pub moves: Seq<MoveCommand>,
    pub create_tokens: Seq<CreateTokenCommand>,
    pub create_maps: Seq<CreateMapCommand>,
    pub load_encounters: Seq<LoadEncounterCommand>,
    pub data_requests: Seq<RequestDataCommand>,
    pub upload_lock_requests: Seq<RequestUploadLockCommand>,
    pub successful_upload_locks: Seq<SuccessfulUploadLockedCommand>,
    pub recieved_data: Seq<RecieveDataCommandView>,
    pub unlock_uploads: Seq<UnlockUploadCommand>,
    pub upload_availables: Seq<UploadAvailableCommand>,
}

impl View for DispatchedOrders {
    type V = DispatchedOrdersView;

    open spec fn view(&self) -> DispatchedOrdersView {
        DispatchedOrdersView {
            moves: self.moves@,
            create_tokens: self.create_tokens@,
            create_maps: self.create_maps@,
            load_encounters: self.load_encounters@,
            data_requests: self.data_requests@,
            upload_lock_requests: self.upload_lock_requests@,
            successful_upload_locks: self.successful_upload_locks@,
            recieved_data: views(self.recieved_data@),
            unlock_uploads: self.unlock_uploads@,
            upload_availables: self.upload_availables@,
        }
    }
}

/// What no orders dispatch to.
pub open spec fn nothing_dispatched() -> DispatchedOrdersView {
    DispatchedOrdersView {
        moves: Seq::empty(),
        create_tokens: Seq::empty(),
        create_maps: Seq::empty(),
        load_encounters: Seq::empty(),
        data_requests: Seq::empty(),
        upload_lock_requests: Seq::empty(),
        successful_upload_locks: Seq::empty(),
        recieved_data: Seq::empty(),
        unlock_uploads: Seq::empty(),
        upload_availables: Seq::empty(),
    }
}

/// `so_far` with `command` behind the commands of its kind.
pub open spec fn with_command(
    so_far: DispatchedOrdersView,
    command: CommandView,
) -> DispatchedOrdersView {
    match command {
        CommandView::Move(c) => DispatchedOrdersView { moves: so_far.moves.push(c), ..so_far },
        CommandView::CreateToken(c) => DispatchedOrdersView {
            create_tokens: so_far.create_tokens.push(c),
            ..so_far
        },
        CommandView::CreateMap(c) => DispatchedOrdersView {
            create_maps: so_far.create_maps.push(c),
            ..so_far
        },
        CommandView::LoadEncounter(c) => DispatchedOrdersView {
            load_encounters: so_far.load_encounters.push(c),
            ..so_far
        },
        CommandView::RequestData(c) => DispatchedOrdersView {
            data_requests: so_far.data_requests.push(c),
            ..so_far
        },
        CommandView::RequestUploadLock(c) => DispatchedOrdersView {
            upload_lock_requests: so_far.upload_lock_requests.push(c),
            ..so_far
        },
        CommandView::SuccessfulUploadLock(c) => DispatchedOrdersView {
            successful_upload_locks: so_far.successful_upload_locks.push(c),
            ..so_far
        },
        CommandView::RecieveData(c) => DispatchedOrdersView {
            recieved_data: so_far.recieved_data.push(c),
            ..so_far
        },
        CommandView::UnlockUpload(c) => DispatchedOrdersView {
            unlock_uploads: so_far.unlock_uploads.push(c),
            ..so_far
        },
        CommandView::UploadAvailable(c) => DispatchedOrdersView {
            upload_availables: so_far.upload_availables.push(c),
            ..so_far
        },
    }
}

/// The commands of `orders`, sorted by kind.
pub open spec fn dispatched(orders: Seq<OrderEventView>) -> DispatchedOrdersView
    decreases orders.len(),
{
    if orders.len() == 0 {
        nothing_dispatched()
    } else {
        with_command(dispatched(orders.drop_last()), orders.last().command)
    }
}

/// How many commands `sorted` holds, over all kinds.
pub open spec fn dispatched_count(sorted: DispatchedOrdersView) -> nat {
    sorted.moves.len()
        + sorted.create_tokens.len()
        + sorted.create_maps.len()
        + sorted.load_encounters.len()
        + sorted.data_requests.len()
        + sorted.upload_lock_requests.len()
        + sorted.successful_upload_locks.len()
        + sorted.recieved_data.len()
        + sorted.unlock_uploads.len()
        + sorted.upload_availables.len()
}

/// Dispatch is a fan-out that neither drops nor doubles: each command goes
/// to the one kind it is of, so as many commands come out as orders went in.
pub proof fn lemma_dispatch_keeps_all(orders: Seq<OrderEventView>)
    ensures
        dispatched_count(dispatched(orders)) == orders.len(),
    decreases orders.len(),
{
    if orders.len() > 0 {
        lemma_dispatch_keeps_all(orders.drop_last());
    }
}

/// Dispatch takes the orders one by one: what a run of orders followed by one
/// more dispatches to is what the run dispatches to, with the command of the
/// last behind the commands of its kind. Where an order comes from, this
/// process or a peer, plays no part.
pub proof fn lemma_dispatch_push(orders: Seq<OrderEventView>, order: OrderEventView)
    ensures
        dispatched(orders.push(order)) == with_command(dispatched(orders), order.command),
{
    assert(orders.push(order).drop_last() =~= orders);
}

/// Hands each order to the component that its command concerns.
pub fn recieve_orders(orders: &Vec<OrderEvent>) -> (sorted: DispatchedOrders)
    ensures
        sorted@ == dispatched(views(orders@)),
{
    let mut moves: Vec<MoveCommand> = Vec::new();
    let mut create_tokens: Vec<CreateTokenCommand> = Vec::new();
    let mut create_maps: Vec<CreateMapCommand> = Vec::new();
    let mut load_encounters: Vec<LoadEncounterCommand> = Vec::new();
    let mut data_requests: Vec<RequestDataCommand> = Vec::new();
    let mut upload_lock_requests: Vec<RequestUploadLockCommand> = Vec::new();
    let mut successful_upload_locks: Vec<SuccessfulUploadLockedCommand> = Vec::new();
    let mut recieved_data: Vec<RecieveDataCommand> = Vec::new();
    let mut unlock_uploads: Vec<UnlockUploadCommand> = Vec::new();
    let mut upload_availables: Vec<UploadAvailableCommand> = Vec::new();
    proof {
        lemma_views_empty::<RecieveDataCommand>();
    }
    let mut i: usize = 0;
    while i < orders.len()
        invariant
            i <= orders.len(),
            (DispatchedOrdersView {
                moves: moves@,
                create_tokens: create_tokens@,
                create_maps: create_maps@,
                load_encounters: load_encounters@,
                data_requests: data_requests@,
                upload_lock_requests: upload_lock_requests@,
                successful_upload_locks: successful_upload_locks@,
                recieved_data: views(recieved_data@),
                unlock_uploads: unlock_uploads@,
                upload_availables: upload_availables@,
            }) == dispatched(views(orders@).take(i as int)),
        decreases orders.len() - i,
    {
        proof {
            assert(views(orders@).take(i + 1).drop_last() =~= views(orders@).take(i as int));
        }
        match &orders[i].command {
            Command::Move(c) => moves.push(*c),
            Command::CreateToken(c) => create_tokens.push(*c),
            Command::CreateMap(c) => create_maps.push(*c),
            Command::LoadEncounter(c) => load_encounters.push(*c),
            Command::RequestData(c) => data_requests.push(*c),
            Command::RequestUploadLock(c) => upload_lock_requests.push(*c),
            Command::SuccessfulUploadLock(c) => successful_upload_locks.push(*c),
            Command::RecieveData(c) => {
                let ghost sent = recieved_data@;
                recieved_data.push(c.clone());
                proof {
                    lemma_views_push(sent, recieved_data@.last());
                }
            },
            Command::UnlockUpload(c) => unlock_uploads.push(*c),
            Command::UploadAvailable(c) => upload_availables.push(*c),
        }
        i = i + 1;
    }
    assert(views(orders@).take(i as int) =~= views(orders@));
    DispatchedOrders {
        moves,
        create_tokens,
        create_maps,
        load_encounters,
        data_requests,
        upload_lock_requests,
        successful_upload_locks,
        recieved_data,
        unlock_uploads,
        upload_availables,
    }
}

/// Passes each request for a lock on to the transfer manager.
pub fn recieve_upload_request(
    events: &Vec<RequestUploadLockCommand>,
) -> (passed: Vec<UploadRequest>)
    ensures
        passed@ == events@.map_values(
            |event: RequestUploadLockCommand|
                UploadRequest { load_id: event.load_id, peer_id: event.peer_id },
        ),
{
    let mut passed: Vec<UploadRequest> = Vec::new();
    let mut i: usize = 0;
    while i < events.len()
        invariant
            i <= events.len(),
            passed@ == events@.take(i as int).map_values(
                |event: RequestUploadLockCommand|
                    UploadRequest { load_id: event.load_id, peer_id: event.peer_id },
            ),
        decreases events.len() - i,
    {
        let event = events[i];
        passed.push(UploadRequest { load_id: event.load_id, peer_id: event.peer_id });
        i = i + 1;
    }
    passed
}

/// Passes each granted lock on to the transfer manager.
pub fn recieve_successful_upload_lock(
    events: &Vec<SuccessfulUploadLockedCommand>,
) -> (passed: Vec<SuccessfulUploadLock>)
    ensures
        passed@ == events@.map_values(
            |event: SuccessfulUploadLockedCommand|
                SuccessfulUploadLock { peer_id: event.peer_id },
        ),
{
    let mut passed: Vec<SuccessfulUploadLock> = Vec::new();
    let mut i: usize = 0;
    while i < events.len()
        invariant
            i <= events.len(),
            passed@ == events@.take(i as int).map_values(
                |event: SuccessfulUploadLockedCommand|
                    SuccessfulUploadLock { peer_id: event.peer_id },
            ),
        decreases events.len() - i,
    {
        let event = events[i];
        passed.push(SuccessfulUploadLock { peer_id: event.peer_id });
        i = i + 1;
    }
    passed
}

/// Passes each request for data on to the transfer manager.
pub fn recieve_data_request(events: &Vec<RequestDataCommand>) -> (passed: Vec<DataRequest>)
    ensures
        passed@ == events@.map_values(
            |event: RequestDataCommand|
                DataRequest { peer_id: event.peer_id, section: event.section },
        ),
{
    let mut passed: Vec<DataRequest> = Vec::new();
    let mut i: usize = 0;
    while i < events.len()
        invariant
            i <= events.len(),
            passed@ == events@.take(i as int).map_values(
                |event: RequestDataCommand|
                    DataRequest { peer_id: event.peer_id, section: event.section },
            ),
        decreases events.len() - i,
    {
        let event = events[i];
        passed.push(DataRequest { peer_id: event.peer_id, section: event.section });
        i = i + 1;
    }
    passed
}

/// Passes each release on to the transfer manager.
pub fn recieve_unlock_upload(events: &Vec<UnlockUploadCommand>) -> (passed: Vec<UnlockUpload>)
    ensures
        passed@ == events@.map_values(
            |event: UnlockUploadCommand|
                UnlockUpload,
        ),
{
    let mut passed: Vec<UnlockUpload> = Vec::new();
    let mut i: usize = 0;
    while i < events.len()
        invariant
            i <= events.len(),
            passed@ == events@.take(i as int).map_values(
                |event: UnlockUploadCommand|
                    UnlockUpload,
            ),
        decreases events.len() - i,
    {
        passed.push(UnlockUpload);
        i = i + 1;
    }
    passed
}

/// Passes each announcement of a free peer on to the transfer manager.
pub fn recieve_upload_available(
    events: &Vec<UploadAvailableCommand>,
) -> (passed: Vec<UploadAvailable>)
    ensures
        passed@ == events@.map_values(
            |event: UploadAvailableCommand|
                UploadAvailable { peer_id: event.peer_id },
        ),
{
    let mut passed: Vec<UploadAvailable> = Vec::new();
    let mut i: usize = 0;
    while i < events.len()
        invariant
            i <= events.len(),
            passed@ == events@.take(i as int).map_values(
                |event: UploadAvailableCommand|
                    UploadAvailable { peer_id: event.peer_id },
            ),
        decreases events.len() - i,
    {
        let event = events[i];
        passed.push(UploadAvailable { peer_id: event.peer_id });
        i = i + 1;
    }
    passed
}

/// Asks, for each map that is placed, for the content that it shows.
pub fn recieve_create_map(events: &Vec<CreateMapCommand>) -> (passed: Vec<LoadRequest>)
    ensures
        passed@ == events@.map_values(
            |event: CreateMapCommand|
                LoadRequest { id: event.data_id, endpoint: FileEndpoint::MapFile(event.map_id) },
        ),
{
    let mut passed: Vec<LoadRequest> = Vec::new();
    let mut i: usize = 0;
    while i < events.len()
        invariant
            i <= events.len(),
            passed@ == events@.take(i as int).map_values(
                |event: CreateMapCommand|
                    LoadRequest { id: event.data_id, endpoint: FileEndpoint::MapFile(event.map_id) },
            ),
        decreases events.len() - i,
    {
        let event = events[i];
        passed.push(
            LoadRequest { id: event.data_id, endpoint: FileEndpoint::MapFile(event.map_id) },
        );
        i = i + 1;
    }
    passed
}

/// Asks, for each encounter that is to be loaded, for its content.
pub fn recieve_load_encounter(events: &Vec<LoadEncounterCommand>) -> (passed: Vec<LoadRequest>)
    ensures
        passed@ == events@.map_values(
            |event: LoadEncounterCommand|
                LoadRequest { id: event.load_identifier, endpoint: FileEndpoint::Encounter },
        ),
{
    let mut passed: Vec<LoadRequest> = Vec::new();
    let mut i: usize = 0;
    while i < events.len()
        invariant
            i <= events.len(),
            passed@ == events@.take(i as int).map_values(
                |event: LoadEncounterCommand|
                    LoadRequest { id: event.load_identifier, endpoint: FileEndpoint::Encounter },
            ),
        decreases events.len() - i,
    {
        let event = events[i];
        passed.push(LoadRequest { id: event.load_identifier, endpoint: FileEndpoint::Encounter });
        i = i + 1;
    }
    passed
}

/// The arrival that `command` reports.
pub open spec fn arrival_of(command: RecieveDataCommandView) -> IncomingDownloadView {
    IncomingDownloadView { downloaded_section: command.data, peer_id: command.peer_id }
}

/// Passes each section that has arrived on to the transfer manager.
pub fn recieve_recieve_data(events: &Vec<RecieveDataCommand>) -> (passed: Vec<IncomingDownload>)
    ensures
        views(passed@) == views(events@).map_values(
            |command: RecieveDataCommandView| arrival_of(command),
        ),
{
    let mut passed: Vec<IncomingDownload> = Vec::new();
    let mut i: usize = 0;
    while i < events.len()
        invariant
            i <= events.len(),
            passed.len() == i,
            forall|k: int| 0 <= k < i ==> (#[trigger] passed@[k])@ == arrival_of(events@[k]@),
        decreases events.len() - i,
    {
        let event = &events[i];
        passed.push(
            IncomingDownload { downloaded_section: event.data.clone(), peer_id: event.peer_id },
        );
        i = i + 1;
    }
    passed
}

} // verus!
