use adaman_vtt::bank::DataId;
use adaman_vtt::fileload::{FileEndpoint, LoadIdentifier, LoadRequest};
use adaman_vtt::filetransfer::{
    DataRequest, DataSectionIdentifier, DownloadedSection, IncomingDownload,
    SuccessfulUploadLock, UnlockUpload, UploadRequest,
};
use adaman_vtt::maps::MapId;
use adaman_vtt::networking::{
    deal_with_connections, decode_order, encode_order, recieve_networked_events,
    send_networked_events, split_client_events, ClientCommandEvent, IncomingPacket, LocalPeerId,
    NetworkPacket, NetworkReliability, NetworkedCommandEvent, OutgoingPacket, PeerConnected,
    PeerDisconnected, PeerId, PeerState, PeerUpdate, RecepientPeer, TAG_MOVE, TAG_RECIEVE_DATA,
    TAG_REQUEST_DATA, TAG_UNLOCK_UPLOAD, TAG_UPLOAD_AVAILABLE,
};
use adaman_vtt::orders::{
    recieve_create_map, recieve_data_request, recieve_load_encounter, recieve_orders,
    recieve_recieve_data, recieve_successful_upload_lock, recieve_unlock_upload,
    recieve_upload_request, Command, CreateMapCommand, CreateTokenCommand, LoadEncounterCommand,
    MoveCommand, OrderEvent, RecieveDataCommand, RequestDataCommand, RequestUploadLockCommand,
    SuccessfulUploadLockedCommand, UnlockUploadCommand, UploadAvailableCommand,
};
use adaman_vtt::tokens::TokenId;

fn described() -> LoadIdentifier {
    LoadIdentifier { data_id: DataId(u128::MAX - 3), size: 123_456, hash: u64::MAX }
}

fn section() -> DataSectionIdentifier {
    DataSectionIdentifier { index: 3, start: 49152, end: 65536, data_id: DataId(77) }
}

fn every_command() -> Vec<Command> {
    vec![
        Command::Move(MoveCommand {
            x: 1.5f32.to_bits(),
            y: (-2.25f32).to_bits(),
            id: TokenId(5),
        }),
        Command::CreateToken(CreateTokenCommand {
            x: 0,
            y: u32::MAX,
            id: TokenId(u128::MAX),
            load_identifier: described(),
        }),
        Command::CreateMap(CreateMapCommand {
            x: 7,
            y: 8,
            map_id: MapId(9),
            data_id: described(),
        }),
        Command::LoadEncounter(LoadEncounterCommand { load_identifier: described() }),
        Command::RequestData(RequestDataCommand { peer_id: PeerId(1), section: section() }),
        Command::RequestUploadLock(RequestUploadLockCommand {
            load_id: described(),
            peer_id: PeerId(2),
        }),
        Command::SuccessfulUploadLock(SuccessfulUploadLockedCommand { peer_id: PeerId(3) }),
        Command::RecieveData(RecieveDataCommand {
            peer_id: PeerId(4),
            data: DownloadedSection { data: vec![0, 1, 2, 255, 254], id: section() },
        }),
        Command::UnlockUpload(UnlockUploadCommand),
        Command::UploadAvailable(UploadAvailableCommand { peer_id: PeerId(0) }),
    ]
}

#[test]
fn every_command_is_read_back_from_its_bytes() {
    for command in every_command() {
        let order = OrderEvent { command };
        let bytes = encode_order(&order).expect("postcard writes every packet");
        assert!(!bytes.is_empty());
        assert_eq!(decode_order(&bytes), Some(order));
    }
}

#[test]
fn every_command_is_read_back_from_its_packet() {
    for (tag, command) in every_command().into_iter().enumerate() {
        let order = OrderEvent { command };
        let packet = NetworkPacket::from_order(&order);
        assert_eq!(packet.tag as usize, tag);
        assert_eq!(packet.to_order(), Some(order));
    }
}

#[test]
fn different_commands_have_different_bytes() {
    let all: Vec<Vec<u8>> = every_command()
        .into_iter()
        .map(|command| encode_order(&OrderEvent { command }).unwrap())
        .collect();
    for i in 0..all.len() {
        for k in 0..i {
            assert_ne!(all[i], all[k]);
        }
    }
}

#[test]
fn the_packet_of_a_data_request_holds_its_numbers_in_order() {
    let order = OrderEvent {
        command: Command::RequestData(RequestDataCommand { peer_id: PeerId(1), section: section() }),
    };
    assert_eq!(
        NetworkPacket::from_order(&order),
        NetworkPacket { tag: TAG_REQUEST_DATA, words: vec![1, 3, 49152, 65536, 77], payload: vec![] }
    );
    let unlock = OrderEvent { command: Command::UnlockUpload(UnlockUploadCommand) };
    assert_eq!(
        NetworkPacket::from_order(&unlock),
        NetworkPacket { tag: TAG_UNLOCK_UPLOAD, words: vec![], payload: vec![] }
    );
}

#[test]
fn the_bytes_of_an_unlock_are_those_that_postcard_writes() {
    // Tag 8, no numbers, no bytes: three one-byte integers.
    let unlock = OrderEvent { command: Command::UnlockUpload(UnlockUploadCommand) };
    assert_eq!(encode_order(&unlock), Some(vec![8, 0, 0]));
    let free = OrderEvent {
        command: Command::UploadAvailable(UploadAvailableCommand { peer_id: PeerId(300) }),
    };
    // 300 as a variable-length integer is 0xAC 0x02.
    assert_eq!(encode_order(&free), Some(vec![9, 1, 0xAC, 0x02, 0]));
    let direct: Vec<u8> = postcard::to_stdvec(&(9u32, vec![300u128], Vec::<u8>::new())).unwrap();
    assert_eq!(encode_order(&free), Some(direct));
}

#[test]
fn packets_that_stand_for_no_command_are_refused() {
    let refused = [
        NetworkPacket { tag: 10, words: vec![], payload: vec![] },
        NetworkPacket { tag: u32::MAX, words: vec![1], payload: vec![] },
        NetworkPacket { tag: TAG_MOVE, words: vec![1, 2], payload: vec![] },
        NetworkPacket { tag: TAG_MOVE, words: vec![1, 2, 3, 4], payload: vec![] },
        NetworkPacket { tag: TAG_MOVE, words: vec![1 << 32, 2, 3], payload: vec![] },
        NetworkPacket { tag: TAG_MOVE, words: vec![1, 1 << 32, 3], payload: vec![] },
        NetworkPacket { tag: TAG_MOVE, words: vec![1, 2, 3], payload: vec![0] },
        NetworkPacket { tag: TAG_UNLOCK_UPLOAD, words: vec![0], payload: vec![] },
        NetworkPacket { tag: TAG_UNLOCK_UPLOAD, words: vec![], payload: vec![1] },
        NetworkPacket { tag: TAG_UPLOAD_AVAILABLE, words: vec![], payload: vec![] },
        NetworkPacket { tag: TAG_REQUEST_DATA, words: vec![1, 1 << 64, 0, 0, 1], payload: vec![] },
        NetworkPacket { tag: TAG_REQUEST_DATA, words: vec![1, 0, 0, 1 << 64, 1], payload: vec![] },
        NetworkPacket { tag: TAG_RECIEVE_DATA, words: vec![1, 0, 0, 1], payload: vec![1, 2] },
        // A description whose hash does not fit 64 bits.
        NetworkPacket { tag: 3, words: vec![1, 2, 1 << 64], payload: vec![] },
    ];
    for packet in refused {
        assert_eq!(packet.to_order(), None);
    }
}

#[test]
fn bytes_that_carry_no_order_are_refused() {
    assert_eq!(decode_order(&Vec::new()), None);
    assert_eq!(decode_order(&vec![8]), None);
    assert_eq!(decode_order(&vec![8, 0]), None);
    assert_eq!(decode_order(&vec![200, 0, 0]), None);
    assert_eq!(decode_order(&vec![8, 1, 0, 0]), None);
    assert_eq!(decode_order(&vec![0xFF; 40]), None);
    // A packet that postcard reads but that stands for no command.
    let stray = postcard::to_stdvec(&(10u32, Vec::<u128>::new(), Vec::<u8>::new())).unwrap();
    assert_eq!(decode_order(&stray), None);
}

fn networked(
    command: Command,
    reliability: NetworkReliability,
    peer_id: RecepientPeer,
) -> NetworkedCommandEvent {
    NetworkedCommandEvent { order: OrderEvent { command }, reliability, peer_id }
}

#[test]
fn an_order_is_framed_for_each_connected_peer_it_is_addressed_to() {
    let connected = vec![PeerId(1), PeerId(2), PeerId(3)];
    let unlock = Command::UnlockUpload(UnlockUploadCommand);
    let free = Command::UploadAvailable(UploadAvailableCommand { peer_id: PeerId(9) });
    let events = vec![
        networked(unlock.clone(), NetworkReliability::Reliable, RecepientPeer::Peer(PeerId(2))),
        networked(free.clone(), NetworkReliability::Unreliable, RecepientPeer::All),
        networked(unlock.clone(), NetworkReliability::Reliable, RecepientPeer::Peer(PeerId(7))),
    ];
    let unlock_bytes = encode_order(&OrderEvent { command: unlock }).unwrap();
    let free_bytes = encode_order(&OrderEvent { command: free }).unwrap();
    let frames = send_networked_events(&events, &connected);
    assert_eq!(
        frames,
        vec![
            OutgoingPacket { peer_id: PeerId(2), channel: 0, bytes: unlock_bytes },
            OutgoingPacket { peer_id: PeerId(1), channel: 1, bytes: free_bytes.clone() },
            OutgoingPacket { peer_id: PeerId(2), channel: 1, bytes: free_bytes.clone() },
            OutgoingPacket { peer_id: PeerId(3), channel: 1, bytes: free_bytes },
        ]
    );
    assert!(send_networked_events(&events, &Vec::new()).is_empty());
    assert!(send_networked_events(&Vec::new(), &connected).is_empty());
}

#[test]
fn a_recipient_is_valid_for_itself_or_for_all() {
    assert!(RecepientPeer::All.valid_for_peer(&PeerId(1)));
    assert!(RecepientPeer::Peer(PeerId(1)).valid_for_peer(&PeerId(1)));
    assert!(!RecepientPeer::Peer(PeerId(1)).valid_for_peer(&PeerId(2)));
}

fn packet(from: u128, command: Command) -> IncomingPacket {
    IncomingPacket {
        peer_id: PeerId(from),
        bytes: encode_order(&OrderEvent { command }).unwrap(),
    }
}

#[test]
fn reliable_orders_are_read_before_unreliable_ones() {
    let a = Command::SuccessfulUploadLock(SuccessfulUploadLockedCommand { peer_id: PeerId(1) });
    let b = Command::UnlockUpload(UnlockUploadCommand);
    let c = Command::UploadAvailable(UploadAvailableCommand { peer_id: PeerId(3) });
    let reliable = vec![
        packet(1, a.clone()),
        IncomingPacket { peer_id: PeerId(1), bytes: vec![1, 2, 3] },
        packet(2, b.clone()),
    ];
    let unreliable = vec![IncomingPacket { peer_id: PeerId(5), bytes: vec![] }, packet(3, c.clone())];
    let orders = recieve_networked_events(&reliable, &unreliable);
    assert_eq!(
        orders,
        vec![OrderEvent { command: a }, OrderEvent { command: b }, OrderEvent { command: c }]
    );
    assert!(recieve_networked_events(&Vec::new(), &Vec::new()).is_empty());
}

#[test]
fn orders_are_dispatched_by_kind_in_the_order_they_came() {
    let orders: Vec<OrderEvent> = every_command()
        .into_iter()
        .chain(every_command())
        .map(|command| OrderEvent { command })
        .collect();
    let sorted = recieve_orders(&orders);
    let all = every_command();
    assert_eq!(sorted.moves.len(), 2);
    assert_eq!(Command::Move(sorted.moves[0]), all[0]);
    assert_eq!(Command::CreateToken(sorted.create_tokens[1]), all[1]);
    assert_eq!(Command::CreateMap(sorted.create_maps[0]), all[2]);
    assert_eq!(Command::LoadEncounter(sorted.load_encounters[1]), all[3]);
    assert_eq!(Command::RequestData(sorted.data_requests[0]), all[4]);
    assert_eq!(Command::RequestUploadLock(sorted.upload_lock_requests[1]), all[5]);
    assert_eq!(Command::SuccessfulUploadLock(sorted.successful_upload_locks[0]), all[6]);
    assert_eq!(Command::RecieveData(sorted.recieved_data[1].clone()), all[7]);
    assert_eq!(Command::UnlockUpload(sorted.unlock_uploads[0]), all[8]);
    assert_eq!(Command::UploadAvailable(sorted.upload_availables[1]), all[9]);
    let total = sorted.moves.len()
        + sorted.create_tokens.len()
        + sorted.create_maps.len()
        + sorted.load_encounters.len()
        + sorted.data_requests.len()
        + sorted.upload_lock_requests.len()
        + sorted.successful_upload_locks.len()
        + sorted.recieved_data.len()
        + sorted.unlock_uploads.len()
        + sorted.upload_availables.len();
    assert_eq!(total, 20);
}

#[test]
fn dispatch_keeps_the_order_within_a_kind() {
    let lock = |peer: u128| OrderEvent {
        command: Command::SuccessfulUploadLock(SuccessfulUploadLockedCommand {
            peer_id: PeerId(peer),
        }),
    };
    let unlock = OrderEvent { command: Command::UnlockUpload(UnlockUploadCommand) };
    let sorted = recieve_orders(&vec![lock(3), unlock.clone(), lock(1), unlock, lock(2)]);
    assert_eq!(
        sorted.successful_upload_locks,
        vec![
            SuccessfulUploadLockedCommand { peer_id: PeerId(3) },
            SuccessfulUploadLockedCommand { peer_id: PeerId(1) },
            SuccessfulUploadLockedCommand { peer_id: PeerId(2) },
        ]
    );
    assert_eq!(sorted.unlock_uploads.len(), 2);
    assert!(sorted.moves.is_empty());
}

#[test]
fn an_order_from_the_wire_is_dispatched_as_the_same_order_issued_here() {
    for command in every_command() {
        let issued = vec![ClientCommandEvent {
            order: OrderEvent { command },
            reliability: NetworkReliability::Reliable,
        }];
        let split = split_client_events(&issued);
        // The copy for this process.
        let here = recieve_orders(&split.local);
        // The copy for the peers, through the wire.
        let frames = send_networked_events(&split.networked, &vec![PeerId(2)]);
        assert_eq!(frames.len(), 1);
        let arrived = vec![IncomingPacket { peer_id: PeerId(1), bytes: frames[0].bytes.clone() }];
        let there = recieve_orders(&recieve_networked_events(&arrived, &Vec::new()));
        assert_eq!(here, there);
    }
}

#[test]
fn client_orders_go_to_all_peers_and_to_this_process() {
    let commands = every_command();
    let issued: Vec<ClientCommandEvent> = commands
        .iter()
        .enumerate()
        .map(|(i, command)| ClientCommandEvent {
            order: OrderEvent { command: command.clone() },
            reliability: if i % 2 == 0 {
                NetworkReliability::Reliable
            } else {
                NetworkReliability::Unreliable
            },
        })
        .collect();
    let split = split_client_events(&issued);
    assert_eq!(split.local.len(), 10);
    assert_eq!(split.networked.len(), 10);
    for i in 0..10 {
        assert_eq!(split.local[i].command, commands[i]);
        assert_eq!(split.networked[i].order.command, commands[i]);
        assert_eq!(split.networked[i].peer_id, RecepientPeer::All);
        assert_eq!(split.networked[i].reliability, issued[i].reliability);
    }
}

#[test]
fn commands_are_passed_on_as_the_events_of_the_transfer_manager() {
    assert_eq!(
        recieve_upload_request(&vec![RequestUploadLockCommand {
            load_id: described(),
            peer_id: PeerId(2)
        }]),
        vec![UploadRequest { load_id: described(), peer_id: PeerId(2) }]
    );
    assert_eq!(
        recieve_successful_upload_lock(&vec![SuccessfulUploadLockedCommand { peer_id: PeerId(3) }]),
        vec![SuccessfulUploadLock { peer_id: PeerId(3) }]
    );
    assert_eq!(
        recieve_data_request(&vec![RequestDataCommand { peer_id: PeerId(1), section: section() }]),
        vec![DataRequest { peer_id: PeerId(1), section: section() }]
    );
    assert_eq!(
        recieve_unlock_upload(&vec![UnlockUploadCommand, UnlockUploadCommand]),
        vec![UnlockUpload, UnlockUpload]
    );
    let data = DownloadedSection { data: vec![1, 2, 3], id: section() };
    assert_eq!(
        recieve_recieve_data(&vec![RecieveDataCommand { peer_id: PeerId(4), data: data.clone() }]),
        vec![IncomingDownload { downloaded_section: data, peer_id: PeerId(4) }]
    );
}

#[test]
fn placing_a_map_or_loading_an_encounter_asks_for_its_content() {
    let placed = CreateMapCommand { x: 0, y: 0, map_id: MapId(9), data_id: described() };
    assert_eq!(
        recieve_create_map(&vec![placed]),
        vec![LoadRequest { id: described(), endpoint: FileEndpoint::MapFile(MapId(9)) }]
    );
    assert_eq!(
        recieve_load_encounter(&vec![LoadEncounterCommand { load_identifier: described() }]),
        vec![LoadRequest { id: described(), endpoint: FileEndpoint::Encounter }]
    );
}

#[test]
fn connections_are_sorted_and_the_local_identity_is_taken_once() {
    let updates = vec![
        PeerUpdate { peer_id: PeerId(1), state: PeerState::Connected },
        PeerUpdate { peer_id: PeerId(2), state: PeerState::Disconnected },
        PeerUpdate { peer_id: PeerId(3), state: PeerState::Connected },
    ];
    let changes = deal_with_connections(None, Some(PeerId(7)), &updates);
    assert_eq!(changes.local_peer_id, Some(LocalPeerId { id: PeerId(7) }));
    assert_eq!(changes.connected, vec![PeerConnected(PeerId(1)), PeerConnected(PeerId(3))]);
    assert_eq!(changes.disconnected, vec![PeerDisconnected(PeerId(2))]);
    let known = Some(LocalPeerId { id: PeerId(5) });
    let kept = deal_with_connections(known, Some(PeerId(7)), &Vec::new());
    assert_eq!(kept.local_peer_id, known);
    assert!(kept.connected.is_empty() && kept.disconnected.is_empty());
    assert_eq!(deal_with_connections(None, None, &Vec::new()).local_peer_id, None);
    assert_eq!(deal_with_connections(known, None, &Vec::new()).local_peer_id, known);
}
