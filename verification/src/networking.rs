//! Peers, channels and recipients: where an order goes and how it is framed
//! on the wire.

use crate::bank::DataId;
use crate::fileload::LoadIdentifier;
use crate::filetransfer::{DataSectionIdentifier, DownloadedSection, DownloadedSectionView};
use crate::maps::MapId;
use crate::orders::{
    dispatched, lemma_dispatch_push, with_command, Command, CommandView, CreateMapCommand,
    CreateTokenCommand, LoadEncounterCommand, MoveCommand, OrderEvent, OrderEventView,
    RecieveDataCommand, RecieveDataCommandView, RequestDataCommand, RequestUploadLockCommand,
    SuccessfulUploadLockedCommand, UnlockUploadCommand, UploadAvailableCommand,
};
use crate::sequences::{lemma_views_push, views};
use crate::tokens::TokenId;
use vstd::prelude::*;

verus! {

/// Identifies one peer of the session. The number is the 128-bit value of the
/// UUID that the signalling server gave it.
#[derive(Clone, Copy, Debug, PartialEq, Eq, Structural, Hash)]
pub struct PeerId(pub u128);

/// The identity of this process among the peers, once the server has told it.
#[derive(Clone, Copy, Debug, PartialEq, Eq, Structural)]
pub struct LocalPeerId {
    pub id: PeerId,
}

#[derive(Clone, Copy, Debug, PartialEq, Eq, Structural)]
pub struct PeerConnected(pub PeerId);

#[derive(Clone, Copy, Debug, PartialEq, Eq, Structural)]
pub struct PeerDisconnected(pub PeerId);

/// The two logical channels of a peer connection.
#[derive(Clone, Copy, Debug, PartialEq, Eq, Structural)]
pub enum NetworkReliability {
    /// Ordered and retransmitted.
    Reliable,
    /// Best effort, unordered.
    Unreliable,
}

/// To whom an order is sent.
#[derive(Clone, Copy, Debug, PartialEq, Eq, Structural)]
pub enum RecepientPeer {
    All,
    Peer(PeerId),
}

/// An order on its way to other peers.
#[derive(Clone, Debug, PartialEq, Eq)]
pub struct NetworkedCommandEvent {
    pub order: OrderEvent,
    pub reliability: NetworkReliability,
    pub peer_id: RecepientPeer,
}

/// The value of a `NetworkedCommandEvent`, as contracts speak of it.
pub struct NetworkedCommandEventView {
    pub order: OrderEventView,
    pub reliability: NetworkReliability,
    pub peer_id: RecepientPeer,
}

impl View for NetworkedCommandEvent {
    type V = NetworkedCommandEventView;

    open spec fn view(&self) -> NetworkedCommandEventView {
        NetworkedCommandEventView {
            order: self.order@,
            reliability: self.reliability,
            peer_id: self.peer_id,
        }
    }
}

/// An order that this process issues: it is applied here and sent to all.
#[derive(Clone, Debug, PartialEq, Eq)]
pub struct ClientCommandEvent {
    pub order: OrderEvent,
    pub reliability: NetworkReliability,
}

/// The value of a `ClientCommandEvent`, as contracts speak of it.
pub struct ClientCommandEventView {
    pub order: OrderEventView,
    pub reliability: NetworkReliability,
}

impl View for ClientCommandEvent {
    type V = ClientCommandEventView;

    open spec fn view(&self) -> ClientCommandEventView {
        ClientCommandEventView { order: self.order@, reliability: self.reliability }
    }
}

impl RecepientPeer {
    /// Whether an order addressed to `self` goes to the peer `id`.
    pub open spec fn includes(self, id: PeerId) -> bool {
        match self {
            RecepientPeer::All => true,
            RecepientPeer::Peer(x) => x == id,
        }
    }

    /// Whether an order addressed to `self` goes to the peer `id`.
    pub fn valid_for_peer(&self, id: &PeerId) -> (valid: bool)
        ensures
            valid == self.includes(*id),
    {
        match self {
            RecepientPeer::All => true,
            RecepientPeer::Peer(x) => *x == *id,
        }
    }
}

/// One order as it travels: the number of its kind, the numbers that it
/// holds, and the bytes that it carries.
#[derive(Clone, Debug, PartialEq, Eq)]
pub struct NetworkPacket {
    pub tag: u32,
    pub words: Vec<u128>,
    pub payload: Vec<u8>,
}

/// The value of a `NetworkPacket`, as contracts speak of it.
pub struct NetworkPacketView {
    pub tag: u32,
    pub words: Seq<u128>,
    pub payload: Seq<u8>,
}

impl View for NetworkPacket {
    type V = NetworkPacketView;

    open spec fn view(&self) -> NetworkPacketView {
        NetworkPacketView { tag: self.tag, words: self.words@, payload: self.payload@ }
    }
}

/// The tags of the kinds of command, in the order of the vocabulary.
pub const TAG_MOVE: u32 = 0;

pub const TAG_CREATE_TOKEN: u32 = 1;

pub const TAG_CREATE_MAP: u32 = 2;

pub const TAG_LOAD_ENCOUNTER: u32 = 3;

pub const TAG_REQUEST_DATA: u32 = 4;

pub const TAG_REQUEST_UPLOAD_LOCK: u32 = 5;

pub const TAG_SUCCESSFUL_UPLOAD_LOCK: u32 = 6;

pub const TAG_RECIEVE_DATA: u32 = 7;

pub const TAG_UNLOCK_UPLOAD: u32 = 8;

pub const TAG_UPLOAD_AVAILABLE: u32 = 9;

/// A packet that carries no bytes.
pub open spec fn plain_packet(tag: u32, words: Seq<u128>) -> NetworkPacketView {
    NetworkPacketView { tag, words, payload: Seq::empty() }
}

/// The packet that stands for `command`.
pub open spec fn packet_of(command: CommandView) -> NetworkPacketView {
    match command {
        CommandView::Move(c) => plain_packet(TAG_MOVE, seq![c.x as u128, c.y as u128, c.id.0]),
        CommandView::CreateToken(c) => plain_packet(
            TAG_CREATE_TOKEN,
            seq![
                c.x as u128,
                c.y as u128,
                c.id.0,
                c.load_identifier.data_id.0,
                c.load_identifier.size as u128,
                c.load_identifier.hash as u128,
            ],
        ),
        CommandView::CreateMap(c) => plain_packet(
            TAG_CREATE_MAP,
            seq![
                c.x as u128,
                c.y as u128,
                c.map_id.0,
                c.data_id.data_id.0,
                c.data_id.size as u128,
                c.data_id.hash as u128,
            ],
        ),
        CommandView::LoadEncounter(c) => plain_packet(
            TAG_LOAD_ENCOUNTER,
            seq![
                c.load_identifier.data_id.0,
                c.load_identifier.size as u128,
                c.load_identifier.hash as u128,
            ],
        ),
        CommandView::RequestData(c) => plain_packet(
            TAG_REQUEST_DATA,
            seq![
                c.peer_id.0,
                c.section.index as u128,
                c.section.start as u128,
                c.section.end as u128,
                c.section.data_id.0,
            ],
        ),
        CommandView::RequestUploadLock(c) => plain_packet(
            TAG_REQUEST_UPLOAD_LOCK,
            seq![c.load_id.data_id.0, c.load_id.size as u128, c.load_id.hash as u128, c.peer_id.0],
        ),
        CommandView::SuccessfulUploadLock(c) => plain_packet(
            TAG_SUCCESSFUL_UPLOAD_LOCK,
            seq![c.peer_id.0],
        ),
        CommandView::RecieveData(c) => NetworkPacketView {
            tag: TAG_RECIEVE_DATA,
            words: seq![
                c.peer_id.0,
                c.data.id.index as u128,
                c.data.id.start as u128,
                c.data.id.end as u128,
                c.data.id.data_id.0,
            ],
            payload: c.data.data,
        },
        CommandView::UnlockUpload(c) => plain_packet(TAG_UNLOCK_UPLOAD, Seq::empty()),
        CommandView::UploadAvailable(c) => plain_packet(TAG_UPLOAD_AVAILABLE, seq![c.peer_id.0]),
    }
}

/// Whether `words`, from `at` on, can be read as the description of a blob.
pub open spec fn describes(words: Seq<u128>, at: int) -> bool {
    words[at + 1] <= usize::MAX && words[at + 2] <= u64::MAX
}

/// The description of a blob that `words` hold from `at` on.
pub open spec fn described(words: Seq<u128>, at: int) -> LoadIdentifier {
    LoadIdentifier {
        data_id: DataId(words[at]),
        size: words[at + 1] as usize,
        hash: words[at + 2] as u64,
    }
}

/// Whether `words`, from `at` on, can be read as a section.
pub open spec fn delimits(words: Seq<u128>, at: int) -> bool {
    words[at] <= usize::MAX && words[at + 1] <= usize::MAX && words[at + 2] <= usize::MAX
}

/// The section that `words` hold from `at` on.
pub open spec fn delimited(words: Seq<u128>, at: int) -> DataSectionIdentifier {
    DataSectionIdentifier {
        index: words[at] as usize,
        start: words[at + 1] as usize,
        end: words[at + 2] as usize,
        data_id: DataId(words[at + 3]),
    }
}

/// The command that `packet` stands for, if it stands for one: its tag is
/// that of a kind of command, it holds as many numbers as that kind needs,
/// each within the range of its field, and it carries bytes only where the
/// command does.
pub open spec fn command_of(packet: NetworkPacketView) -> Option<CommandView> {
    let words = packet.words;
    let bare = packet.payload.len() == 0;
    if packet.tag == TAG_MOVE {
        if words.len() == 3 && bare && words[0] <= u32::MAX && words[1] <= u32::MAX {
            Some(
                CommandView::Move(
                    MoveCommand { x: words[0] as u32, y: words[1] as u32, id: TokenId(words[2]) },
                ),
            )
        } else {
            None
        }
    } else if packet.tag == TAG_CREATE_TOKEN {
        if words.len() == 6 && bare && words[0] <= u32::MAX && words[1] <= u32::MAX && describes(
            words,
            3,
        ) {
            Some(
                CommandView::CreateToken(
                    CreateTokenCommand {
                        x: words[0] as u32,
                        y: words[1] as u32,
                        id: TokenId(words[2]),
                        load_identifier: described(words, 3),
                    },
                ),
            )
        } else {
            None
        }
    } else if packet.tag == TAG_CREATE_MAP {
        if words.len() == 6 && bare && words[0] <= u32::MAX && words[1] <= u32::MAX && describes(
            words,
            3,
        ) {
            Some(
                CommandView::CreateMap(
                    CreateMapCommand {
                        x: words[0] as u32,
                        y: words[1] as u32,
                        map_id: MapId(words[2]),
                        data_id: described(words, 3),
                    },
                ),
            )
        } else {
            None
        }
    } else if packet.tag == TAG_LOAD_ENCOUNTER {
        if words.len() == 3 && bare && describes(words, 0) {
            Some(
                CommandView::LoadEncounter(
                    LoadEncounterCommand { load_identifier: described(words, 0) },
                ),
            )
        } else {
            None
        }
    } else if packet.tag == TAG_REQUEST_DATA {
        if words.len() == 5 && bare && delimits(words, 1) {
            Some(
                CommandView::RequestData(
                    RequestDataCommand { peer_id: PeerId(words[0]), section: delimited(words, 1) },
                ),
            )
        } else {
            None
        }
    } else if packet.tag == TAG_REQUEST_UPLOAD_LOCK {
        if words.len() == 4 && bare && describes(words, 0) {
            Some(
                CommandView::RequestUploadLock(
                    RequestUploadLockCommand {
                        load_id: described(words, 0),
                        peer_id: PeerId(words[3]),
                    },
                ),
            )
        } else {
            None
        }
    } else if packet.tag == TAG_SUCCESSFUL_UPLOAD_LOCK {
        if words.len() == 1 && bare {
            Some(
                CommandView::SuccessfulUploadLock(
                    SuccessfulUploadLockedCommand { peer_id: PeerId(words[0]) },
                ),
            )
        } else {
            None
        }
    } else if packet.tag == TAG_RECIEVE_DATA {
        if words.len() == 5 && delimits(words, 1) {
            Some(
                CommandView::RecieveData(
                    RecieveDataCommandView {
                        peer_id: PeerId(words[0]),
                        data: DownloadedSectionView {
                            data: packet.payload,
                            id: delimited(words, 1),
                        },
                    },
                ),
            )
        } else {
            None
        }
    } else if packet.tag == TAG_UNLOCK_UPLOAD {
        if words.len() == 0 && bare {
            Some(CommandView::UnlockUpload(UnlockUploadCommand))
        } else {
            None
        }
    } else if packet.tag == TAG_UPLOAD_AVAILABLE {
        if words.len() == 1 && bare {
            Some(
                CommandView::UploadAvailable(UploadAvailableCommand { peer_id: PeerId(words[0]) }),
            )
        } else {
            None
        }
    } else {
        None
    }
}

/// A command is read back from its packet as it was.
pub proof fn lemma_packet_round_trip(command: CommandView)
    ensures
        command_of(packet_of(command)) == Some(command),
{
    match command {
        CommandView::RecieveData(c) => {
        },
        _ => {},
    }
}

/// No two packets stand for the same command: the packet that is read as a
/// command is the packet of that command.
pub proof fn lemma_packet_unique(packet: NetworkPacketView, command: CommandView)
    requires
        command_of(packet) == Some(command),
    ensures
        packet_of(command) == packet,
{
    assert(packet_of(command).words =~= packet.words);
    assert(packet_of(command).payload =~= packet.payload);
}

/// What `postcard::to_stdvec` writes for the triple of a packet's tag, numbers
/// and bytes, where it writes anything.
pub uninterp spec fn postcard_bytes_of(tag: u32, words: Seq<u128>, payload: Seq<u8>) -> Option<
    Seq<u8>,
>;

/// What `postcard::from_bytes` reads from `bytes` as the triple of a packet's
/// tag, numbers and bytes, where it can read one.
pub uninterp spec fn postcard_packet_of(bytes: Seq<u8>) -> Option<(u32, Seq<u128>, Seq<u8>)>;

/// `postcard::to_stdvec` on the triple of tag, numbers and bytes. The
/// result is named, not described; what is claimed beyond the name is that
/// `postcard::from_bytes` reads back from the bytes written the triple that
/// was given, as the documentation of postcard shows of a value and the
/// bytes that it was serialised to.
#[verifier::external_body]
fn postcard_write(tag: u32, words: &Vec<u128>, payload: &Vec<u8>) -> (written: Option<Vec<u8>>)
    ensures
        match written {
            Some(bytes) => postcard_bytes_of(tag, words@, payload@) == Some(bytes@),
            None => postcard_bytes_of(tag, words@, payload@) is None,
        },
        written matches Some(bytes) ==> postcard_packet_of(bytes@) == Some(
            (tag, words@, payload@),
        ),
{
    postcard::to_stdvec(&(tag, words, payload)).ok()
}

/// `postcard::from_bytes` for the triple of tag, numbers and bytes. The
/// result is named, not described; an error of postcard is `None`.
#[verifier::external_body]
fn postcard_read(bytes: &Vec<u8>) -> (read: Option<(u32, Vec<u128>, Vec<u8>)>)
    ensures
        match read {
            Some(triple) => postcard_packet_of(bytes@) == Some(
                (triple.0, triple.1@, triple.2@),
            ),
            None => postcard_packet_of(bytes@) is None,
        },
{
    postcard::from_bytes::<(u32, Vec<u128>, Vec<u8>)>(bytes.as_slice()).ok()
}

/// The bytes that carry `order` from peer to peer, where postcard writes any.
pub open spec fn encoded(order: OrderEventView) -> Option<Seq<u8>> {
    let packet = packet_of(order.command);
    postcard_bytes_of(packet.tag, packet.words, packet.payload)
}

/// The order that `bytes` carry, if they carry one.
pub open spec fn decoded(bytes: Seq<u8>) -> Option<OrderEventView> {
    match postcard_packet_of(bytes) {
        Some((tag, words, payload)) => match command_of(NetworkPacketView { tag, words, payload }) {
            Some(command) => Some(OrderEventView { command }),
            None => None,
        },
        None => None,
    }
}

fn push_description(words: &mut Vec<u128>, described: &LoadIdentifier)
    ensures
        final(words)@ == old(words)@ + seq![
            described.data_id.0,
            described.size as u128,
            described.hash as u128,
        ],
{
    words.push(described.data_id.0);
    words.push(described.size as u128);
    words.push(described.hash as u128);
}

fn push_section(words: &mut Vec<u128>, section: &DataSectionIdentifier)
    ensures
        final(words)@ == old(words)@ + seq![
            section.index as u128,
            section.start as u128,
            section.end as u128,
            section.data_id.0,
        ],
{
    words.push(section.index as u128);
    words.push(section.start as u128);
    words.push(section.end as u128);
    words.push(section.data_id.0);
}

fn read_description(words: &Vec<u128>, at: usize) -> (read: Option<LoadIdentifier>)
    requires
        at + 3 <= words.len(),
    ensures
        read == if describes(words@, at as int) {
            Some(described(words@, at as int))
        } else {
            None
        },
{
    if words[at + 1] <= usize::MAX as u128 && words[at + 2] <= u64::MAX as u128 {
        Some(
            LoadIdentifier {
                data_id: DataId(words[at]),
                size: words[at + 1] as usize,
                hash: words[at + 2] as u64,
            },
        )
    } else {
        None
    }
}

fn read_section(words: &Vec<u128>, at: usize) -> (read: Option<DataSectionIdentifier>)
    requires
        at + 4 <= words.len(),
    ensures
        read == if delimits(words@, at as int) {
            Some(delimited(words@, at as int))
        } else {
            None
        },
{
    if words[at] <= usize::MAX as u128 && words[at + 1] <= usize::MAX as u128 && words[at + 2]
        <= usize::MAX as u128 {
        Some(
            DataSectionIdentifier {
                index: words[at] as usize,
                start: words[at + 1] as usize,
                end: words[at + 2] as usize,
                data_id: DataId(words[at + 3]),
            },
        )
    } else {
        None
    }
}

impl NetworkPacket {
    /// The packet that stands for `order`.
    pub fn from_order(order: &OrderEvent) -> (packet: NetworkPacket)
        ensures
            packet@ == packet_of(order@.command),
    {
        let mut words: Vec<u128> = Vec::new();
        let mut payload: Vec<u8> = Vec::new();
        let tag: u32 = match &order.command {
            Command::Move(c) => {
                words.push(c.x as u128);
                words.push(c.y as u128);
                words.push(c.id.0);
                TAG_MOVE
            },
            Command::CreateToken(c) => {
                words.push(c.x as u128);
                words.push(c.y as u128);
                words.push(c.id.0);
                push_description(&mut words, &c.load_identifier);
                TAG_CREATE_TOKEN
            },
            Command::CreateMap(c) => {
                words.push(c.x as u128);
                words.push(c.y as u128);
                words.push(c.map_id.0);
                push_description(&mut words, &c.data_id);
                TAG_CREATE_MAP
            },
            Command::LoadEncounter(c) => {
                push_description(&mut words, &c.load_identifier);
                TAG_LOAD_ENCOUNTER
            },
            Command::RequestData(c) => {
                words.push(c.peer_id.0);
                push_section(&mut words, &c.section);
                TAG_REQUEST_DATA
            },
            Command::RequestUploadLock(c) => {
                push_description(&mut words, &c.load_id);
                words.push(c.peer_id.0);
                TAG_REQUEST_UPLOAD_LOCK
            },
            Command::SuccessfulUploadLock(c) => {
                words.push(c.peer_id.0);
                TAG_SUCCESSFUL_UPLOAD_LOCK
            },
            Command::RecieveData(c) => {
                words.push(c.peer_id.0);
                push_section(&mut words, &c.data.id);
                payload = c.data.data.clone();
                TAG_RECIEVE_DATA
            },
            Command::UnlockUpload(c) => TAG_UNLOCK_UPLOAD,
            Command::UploadAvailable(c) => {
                words.push(c.peer_id.0);
                TAG_UPLOAD_AVAILABLE
            },
        };
        assert(words@ =~= packet_of(order@.command).words);
        NetworkPacket { tag, words, payload }
    }

    /// The order that this packet stands for, if it stands for one.
    pub fn to_order(self) -> (order: Option<OrderEvent>)
        ensures
            match order {
                Some(order) => command_of(self@) == Some(order@.command),
                None => command_of(self@) is None,
            },
    {
        let NetworkPacket { tag, words, payload } = self;
        let bare = payload.len() == 0;
        let command = if tag == TAG_MOVE {
            if words.len() == 3 && bare && words[0] <= u32::MAX as u128 && words[1]
                <= u32::MAX as u128 {
                Command::Move(
                    MoveCommand { x: words[0] as u32, y: words[1] as u32, id: TokenId(words[2]) },
                )
            } else {
                return None;
            }
        } else if tag == TAG_CREATE_TOKEN {
            if words.len() == 6 && bare && words[0] <= u32::MAX as u128 && words[1]
                <= u32::MAX as u128 {
                match read_description(&words, 3) {
                    Some(load_identifier) => Command::CreateToken(
                        CreateTokenCommand {
                            x: words[0] as u32,
                            y: words[1] as u32,
                            id: TokenId(words[2]),
                            load_identifier,
                        },
                    ),
                    None => {
                        return None;
                    },
                }
            } else {
                return None;
            }
        } else if tag == TAG_CREATE_MAP {
            if words.len() == 6 && bare && words[0] <= u32::MAX as u128 && words[1]
                <= u32::MAX as u128 {
                match read_description(&words, 3) {
                    Some(data_id) => Command::CreateMap(
                        CreateMapCommand {
                            x: words[0] as u32,
                            y: words[1] as u32,
                            map_id: MapId(words[2]),
                            data_id,
                        },
                    ),
                    None => {
                        return None;
                    },
                }
            } else {
                return None;
            }
        } else if tag == TAG_LOAD_ENCOUNTER {
            if words.len() == 3 && bare {
                match read_description(&words, 0) {
                    Some(load_identifier) => Command::LoadEncounter(
                        LoadEncounterCommand { load_identifier },
                    ),
                    None => {
                        return None;
                    },
                }
            } else {
                return None;
            }
        } else if tag == TAG_REQUEST_DATA {
            if words.len() == 5 && bare {
                match read_section(&words, 1) {
                    Some(section) => Command::RequestData(
                        RequestDataCommand { peer_id: PeerId(words[0]), section },
                    ),
                    None => {
                        return None;
                    },
                }
            } else {
                return None;
            }
        } else if tag == TAG_REQUEST_UPLOAD_LOCK {
            if words.len() == 4 && bare {
                match read_description(&words, 0) {
                    Some(load_id) => Command::RequestUploadLock(
                        RequestUploadLockCommand { load_id, peer_id: PeerId(words[3]) },
                    ),
                    None => {
                        return None;
                    },
                }
            } else {
                return None;
            }
        } else if tag == TAG_SUCCESSFUL_UPLOAD_LOCK {
            if words.len() == 1 && bare {
                Command::SuccessfulUploadLock(
                    SuccessfulUploadLockedCommand { peer_id: PeerId(words[0]) },
                )
            } else {
                return None;
            }
        } else if tag == TAG_RECIEVE_DATA {
            if words.len() == 5 {
                match read_section(&words, 1) {
                    Some(id) => Command::RecieveData(
                        RecieveDataCommand {
                            peer_id: PeerId(words[0]),
                            data: DownloadedSection { data: payload, id },
                        },
                    ),
                    None => {
                        return None;
                    },
                }
            } else {
                return None;
            }
        } else if tag == TAG_UNLOCK_UPLOAD {
            if words.len() == 0 && bare {
                Command::UnlockUpload(UnlockUploadCommand)
            } else {
                return None;
            }
        } else if tag == TAG_UPLOAD_AVAILABLE {
            if words.len() == 1 && bare {
                Command::UploadAvailable(UploadAvailableCommand { peer_id: PeerId(words[0]) })
            } else {
                return None;
            }
        } else {
            return None;
        };
        Some(OrderEvent { command })
    }
}

/// Writes `order` as the bytes that carry it from peer to peer. The bytes
/// that come out are read back as `order`.
pub fn encode_order(order: &OrderEvent) -> (bytes: Option<Vec<u8>>)
    ensures
        match bytes {
            Some(bytes) => encoded(order@) == Some(bytes@) && decoded(bytes@) == Some(order@),
            None => encoded(order@) is None,
        },
{
    let packet = NetworkPacket::from_order(order);
    postcard_write(packet.tag, &packet.words, &packet.payload)
}

/// Reads from `bytes` the order that they carry, if they carry one.
pub fn decode_order(bytes: &Vec<u8>) -> (order: Option<OrderEvent>)
    ensures
        match order {
            Some(order) => decoded(bytes@) == Some(order@),
            None => decoded(bytes@) is None,
        },
{
    match postcard_read(bytes) {
        Some((tag, words, payload)) => (NetworkPacket { tag, words, payload }).to_order(),
        None => None,
    }
}

/// The order of `event`, addressed to every peer on the channel that
/// `event` names.
pub open spec fn broadcast_of(event: ClientCommandEventView) -> NetworkedCommandEventView {
    NetworkedCommandEventView {
        order: event.order,
        reliability: event.reliability,
        peer_id: RecepientPeer::All,
    }
}

/// The orders that this process issues, once for the peers and once for
/// itself.
#[derive(Clone, Debug, PartialEq, Eq)]
pub struct SplitEvents {
    pub networked: Vec<NetworkedCommandEvent>,
    pub local: Vec<OrderEvent>,
}

/// Splits the orders that this process issues: each goes to every peer, and
/// each is applied here, in the order of issue.
pub fn split_client_events(events: &Vec<ClientCommandEvent>) -> (split: SplitEvents)
    ensures
        views(split.networked@) == views(events@).map_values(
            |event: ClientCommandEventView| broadcast_of(event),
        ),
        views(split.local@) == views(events@).map_values(
            |event: ClientCommandEventView| event.order,
        ),
{
    let mut networked: Vec<NetworkedCommandEvent> = Vec::new();
    let mut local: Vec<OrderEvent> = Vec::new();
    let mut i: usize = 0;
    while i < events.len()
        invariant
            i <= events.len(),
            networked.len() == i,
            local.len() == i,
            forall|k: int| 0 <= k < i ==> (#[trigger] networked@[k])@ == broadcast_of(events@[k]@),
            forall|k: int| 0 <= k < i ==> (#[trigger] local@[k])@ == events@[k]@.order,
        decreases events.len() - i,
    {
        let event = &events[i];
        networked.push(
            NetworkedCommandEvent {
                order: event.order.clone(),
                reliability: event.reliability,
                peer_id: RecepientPeer::All,
            },
        );
        local.push(event.order.clone());
        i = i + 1;
    }
    SplitEvents { networked, local }
}

/// The number of the channel that carries traffic of the given reliability.
pub open spec fn channel_of(reliability: NetworkReliability) -> usize {
    match reliability {
        NetworkReliability::Reliable => 0,
        NetworkReliability::Unreliable => 1,
    }
}

/// One frame for one peer on one channel.
#[derive(Clone, Debug, PartialEq, Eq)]
pub struct OutgoingPacket {
    pub peer_id: PeerId,
    pub channel: usize,
    pub bytes: Vec<u8>,
}

/// The value of a `OutgoingPacket`, as contracts speak of it.
pub struct OutgoingPacketView {
    pub peer_id: PeerId,
    pub channel: usize,
    pub bytes: Seq<u8>,
}

impl View for OutgoingPacket {
    type V = OutgoingPacketView;

    open spec fn view(&self) -> OutgoingPacketView {
        OutgoingPacketView { peer_id: self.peer_id, channel: self.channel, bytes: self.bytes@ }
    }
}

/// The frame of `bytes` for `peer`, if an order for `recipient` goes to it.
pub open spec fn frame_for(
    recipient: RecepientPeer,
    channel: usize,
    bytes: Seq<u8>,
    peer: PeerId,
) -> Option<OutgoingPacketView> {
    if recipient.includes(peer) {
        Some(OutgoingPacketView { peer_id: peer, channel, bytes })
    } else {
        None
    }
}

/// The frames that carry `event` to the connected peers it is for, in the
/// order of `peers`. An order that postcard cannot write gives none.
pub open spec fn frames_of(
    event: NetworkedCommandEventView,
    peers: Seq<PeerId>,
) -> Seq<OutgoingPacketView> {
    match encoded(event.order) {
        Some(bytes) => peers.filter_map(
            |peer: PeerId| frame_for(event.peer_id, channel_of(event.reliability), bytes, peer),
        ),
        None => Seq::empty(),
    }
}

/// The frames that carry `events`, in order.
pub open spec fn frames_of_all(events: Seq<NetworkedCommandEventView>, peers: Seq<PeerId>) -> Seq<
    OutgoingPacketView,
>
    decreases events.len(),
{
    if events.len() == 0 {
        Seq::empty()
    } else {
        frames_of_all(events.drop_last(), peers) + frames_of(events.last(), peers)
    }
}

/// Frames each order for the connected peers that it is addressed to: the
/// bytes of the order, the peer, and the channel of its reliability.
pub fn send_networked_events(
    events: &Vec<NetworkedCommandEvent>,
    connected: &Vec<PeerId>,
) -> (frames: Vec<OutgoingPacket>)
    ensures
        views(frames@) == frames_of_all(views(events@), connected@),
{
    let mut frames: Vec<OutgoingPacket> = Vec::new();
    let mut i: usize = 0;
    while i < events.len()
        invariant
            i <= events.len(),
            views(frames@) == frames_of_all(views(events@).take(i as int), connected@),
        decreases events.len() - i,
    {
        let event = &events[i];
        let ghost framed = views(frames@);
        proof {
            assert(views(events@).take(i + 1).drop_last() =~= views(events@).take(i as int));
        }
        let channel: usize = match event.reliability {
            NetworkReliability::Reliable => 0,
            NetworkReliability::Unreliable => 1,
        };
        match encode_order(&event.order) {
            Some(bytes) => {
                let mut k: usize = 0;
                while k < connected.len()
                    invariant
                        k <= connected.len(),
                        encoded(event@.order) == Some(bytes@),
                        channel == channel_of(event@.reliability),
                        views(frames@) == framed + frames_of(event@, connected@.take(k as int)),
                    decreases connected.len() - k,
                {
                    let peer = connected[k];
                    proof {
                        connected@.lemma_filter_map_take_succ(
                            |peer: PeerId|
                                frame_for(
                                    event@.peer_id,
                                    channel_of(event@.reliability),
                                    bytes@,
                                    peer,
                                ),
                            k as int,
                        );
                    }
                    if event.peer_id.valid_for_peer(&peer) {
                        let ghost sent = frames@;
                        frames.push(
                            OutgoingPacket { peer_id: peer, channel, bytes: bytes.clone() },
                        );
                        proof {
                            lemma_views_push(sent, frames@.last());
                        }
                    }
                    k = k + 1;
                }
                assert(connected@.take(k as int) =~= connected@);
            },
            None => {
            },
        }
        i = i + 1;
    }
    assert(views(events@).take(i as int) =~= views(events@));
    frames
}

/// The bytes that came from one peer on one channel.
#[derive(Clone, Debug, PartialEq, Eq)]
pub struct IncomingPacket {
    pub peer_id: PeerId,
    pub bytes: Vec<u8>,
}

/// The value of a `IncomingPacket`, as contracts speak of it.
pub struct IncomingPacketView {
    pub peer_id: PeerId,
    pub bytes: Seq<u8>,
}

impl View for IncomingPacket {
    type V = IncomingPacketView;

    open spec fn view(&self) -> IncomingPacketView {
        IncomingPacketView { peer_id: self.peer_id, bytes: self.bytes@ }
    }
}

/// The orders that `packets` carry, in order; what carries none is left out.
pub open spec fn orders_of(packets: Seq<IncomingPacketView>) -> Seq<OrderEventView> {
    packets.filter_map(|packet: IncomingPacketView| decoded(packet.bytes))
}

/// Symmetry: an order that arrives in a frame is dispatched as the same
/// order issued by this process is. Whatever was dispatched before, the
/// frame adds to it what the order adds.
pub proof fn lemma_relay_symmetry(
    earlier: Seq<OrderEventView>,
    order: OrderEventView,
    packet: IncomingPacketView,
)
    requires
        decoded(packet.bytes) == Some(order),
    ensures
        orders_of(seq![packet]) == seq![order],
        dispatched(earlier + orders_of(seq![packet])) == dispatched(earlier.push(order)),
        dispatched(earlier.push(order)) == with_command(dispatched(earlier), order.command),
{
    Seq::lemma_filter_map_singleton(packet, |packet: IncomingPacketView| decoded(packet.bytes));
    assert(earlier + seq![order] =~= earlier.push(order));
    lemma_dispatch_push(earlier, order);
}

fn decode_all(packets: &Vec<IncomingPacket>, orders: &mut Vec<OrderEvent>)
    ensures
        views(final(orders)@) == views(old(orders)@) + orders_of(views(packets@)),
{
    let mut i: usize = 0;
    while i < packets.len()
        invariant
            i <= packets.len(),
            views(orders@) == views(old(orders)@) + orders_of(views(packets@).take(i as int)),
        decreases packets.len() - i,
    {
        proof {
            views(packets@).lemma_filter_map_take_succ(
                |packet: IncomingPacketView| decoded(packet.bytes),
                i as int,
            );
        }
        match decode_order(&packets[i].bytes) {
            Some(order) => {
                let ghost read = orders@;
                orders.push(order);
                proof {
                    lemma_views_push(read, order);
                }
            },
            None => {},
        }
        i = i + 1;
    }
    assert(views(packets@).take(i as int) =~= views(packets@));
}

/// Reads the orders that came from the peers: those of the reliable channel
/// first, then those of the unreliable one. Bytes that carry no order are
/// dropped.
pub fn recieve_networked_events(
    reliable: &Vec<IncomingPacket>,
    unreliable: &Vec<IncomingPacket>,
) -> (orders: Vec<OrderEvent>)
    ensures
        views(orders@) == orders_of(views(reliable@)) + orders_of(views(unreliable@)),
{
    let mut orders: Vec<OrderEvent> = Vec::new();
    decode_all(reliable, &mut orders);
    decode_all(unreliable, &mut orders);
    orders
}

/// What the signalling server says of a peer.
#[derive(Clone, Copy, Debug, PartialEq, Eq, Structural)]
pub enum PeerState {
    Connected,
    Disconnected,
}

/// One change among the peers.
#[derive(Clone, Copy, Debug, PartialEq, Eq, Structural)]
pub struct PeerUpdate {
    pub peer_id: PeerId,
    pub state: PeerState,
}

/// The changes among the peers, sorted, and the local identity once known.
#[derive(Clone, Debug, PartialEq, Eq)]
pub struct ConnectionChanges {
    pub local_peer_id: Option<LocalPeerId>,
    pub connected: Vec<PeerConnected>,
    pub disconnected: Vec<PeerDisconnected>,
}

/// The peer that `update` reports as connected, if it reports that.
pub open spec fn connected_of(update: PeerUpdate) -> Option<PeerConnected> {
    match update.state {
        PeerState::Connected => Some(PeerConnected(update.peer_id)),
        PeerState::Disconnected => None,
    }
}

/// The peer that `update` reports as gone, if it reports that.
pub open spec fn disconnected_of(update: PeerUpdate) -> Option<PeerDisconnected> {
    match update.state {
        PeerState::Connected => None,
        PeerState::Disconnected => Some(PeerDisconnected(update.peer_id)),
    }
}

/// Takes note of what the socket reports: the local identity, if it was not
/// known and the socket now has one, and the peers that came and went.
pub fn deal_with_connections(
    local_peer_id: Option<LocalPeerId>,
    socket_id: Option<PeerId>,
    updated_peers: &Vec<PeerUpdate>,
) -> (changes: ConnectionChanges)
    ensures
        changes.local_peer_id == match (local_peer_id, socket_id) {
            (Some(local), _) => Some(local),
            (None, Some(id)) => Some(LocalPeerId { id }),
            (None, None) => None,
        },
        changes.connected@ == updated_peers@.filter_map(|update: PeerUpdate| connected_of(update)),
        changes.disconnected@ == updated_peers@.filter_map(
            |update: PeerUpdate| disconnected_of(update),
        ),
{
    let local = match local_peer_id {
        Some(local) => Some(local),
        None => match socket_id {
            Some(id) => Some(LocalPeerId { id }),
            None => None,
        },
    };
    let mut connected: Vec<PeerConnected> = Vec::new();
    let mut disconnected: Vec<PeerDisconnected> = Vec::new();
    let mut i: usize = 0;
    while i < updated_peers.len()
        invariant
            i <= updated_peers.len(),
            connected@ == updated_peers@.take(i as int).filter_map(
                |update: PeerUpdate| connected_of(update),
            ),
            disconnected@ == updated_peers@.take(i as int).filter_map(
                |update: PeerUpdate| disconnected_of(update),
            ),
        decreases updated_peers.len() - i,
    {
        let update = updated_peers[i];
        proof {
            updated_peers@.lemma_filter_map_take_succ(
                |update: PeerUpdate| connected_of(update),
                i as int,
            );
            updated_peers@.lemma_filter_map_take_succ(
                |update: PeerUpdate| disconnected_of(update),
                i as int,
            );
        }
        match update.state {
            PeerState::Connected => {
                connected.push(PeerConnected(update.peer_id));
            },
            PeerState::Disconnected => {
                disconnected.push(PeerDisconnected(update.peer_id));
            },
        }
        i = i + 1;
    }
    assert(updated_peers@.take(i as int) =~= updated_peers@);
    ConnectionChanges { local_peer_id: local, connected, disconnected }
}

} // verus!
