use adaman_vtt::bank::{Bank, DataId};
use adaman_vtt::fileload::{recieve_request, FileEndpoint, LoadIdentifier, LoadRequest};
use adaman_vtt::filetransfer::{
    acknowledge_upload_available, complete_download, download_file, handle_load_queue,
    lock_upload, recieve_data, recieve_data_request, recieve_successful_lock,
    send_available_on_connect, send_upload_available, send_upload_requests, unlock_upload,
    DataRequest, DataSectionIdentifier, DownloadPhase, DownloadState, DownloadedSection,
    FileDownload,
    IncomingDownload, LoadQueue, SendUploadAvailable, SendUploadRequest, SuccessfulUploadLock,
    UnlockUpload, UploadAvailable, UploadRequest, UploadState, UploadingPeer, REQUEST_BYTES,
};
use adaman_vtt::maps::MapId;
use adaman_vtt::networking::{
    recieve_networked_events, send_networked_events, IncomingPacket, LocalPeerId,
    NetworkReliability, NetworkedCommandEvent, PeerConnected, PeerId, RecepientPeer,
};
use adaman_vtt::orders::{
    recieve_orders, recieve_recieve_data, recieve_successful_upload_lock, recieve_unlock_upload,
    recieve_upload_available, recieve_upload_request, Command, DispatchedOrders, OrderEvent,
    RecieveDataCommand, RequestDataCommand, RequestUploadLockCommand,
    SuccessfulUploadLockedCommand, UnlockUploadCommand, UploadAvailableCommand,
};

const REQUESTER: PeerId = PeerId(0xA);
const SERVER: PeerId = PeerId(0xB);

fn local(id: PeerId) -> Option<LocalPeerId> {
    Some(LocalPeerId { id })
}

fn source(len: usize) -> Vec<u8> {
    (0..len).map(|i| (i * 7 + i / 251) as u8).collect()
}

fn request(id: LoadIdentifier) -> LoadRequest {
    LoadRequest { id, endpoint: FileEndpoint::MapFile(MapId(1)) }
}

fn order(peer_id: RecepientPeer, command: Command) -> NetworkedCommandEvent {
    NetworkedCommandEvent {
        order: OrderEvent { command },
        reliability: NetworkReliability::Reliable,
        peer_id,
    }
}

/// Carries `events` over the wire from `from` and dispatches what reaches `to`.
fn deliver(events: &Vec<NetworkedCommandEvent>, from: PeerId, to: PeerId) -> DispatchedOrders {
    let frames = send_networked_events(events, &vec![to, PeerId(0xFFFF)]);
    let mut reliable = Vec::new();
    let mut unreliable = Vec::new();
    for frame in frames {
        if frame.peer_id != to {
            continue;
        }
        let packet = IncomingPacket { peer_id: from, bytes: frame.bytes };
        if frame.channel == 0 {
            reliable.push(packet);
        } else {
            unreliable.push(packet);
        }
    }
    recieve_orders(&recieve_networked_events(&reliable, &unreliable))
}

struct Node {
    id: PeerId,
    bank: Bank,
    queue: LoadQueue,
    download: DownloadState,
    upload: UploadState,
}

fn node(id: PeerId) -> Node {
    Node {
        id,
        bank: Bank::new(),
        queue: LoadQueue::new(),
        download: DownloadState::new(),
        upload: UploadState::new(),
    }
}

/// What a serving node does with the orders that reached it.
fn serve(server: &mut Node, orders: &DispatchedOrders) -> Vec<NetworkedCommandEvent> {
    let mut out = lock_upload(
        &recieve_upload_request(&orders.upload_lock_requests),
        &mut server.upload,
        &server.bank,
        local(server.id),
    );
    out.extend(recieve_data_request(
        &server.upload,
        &adaman_vtt::orders::recieve_data_request(&orders.data_requests),
        local(server.id),
    ));
    let announce = unlock_upload(&recieve_unlock_upload(&orders.unlock_uploads), &mut server.upload);
    let announce: Vec<SendUploadAvailable> = announce.into_iter().collect();
    out.extend(send_upload_available(&server.upload, &announce, local(server.id)));
    out
}

/// Runs the download of `content` from a server to a requester with sections
/// of `chunk` bytes; returns the number of ticks in which data travelled.
fn transfer(content: Vec<u8>, chunk: Option<usize>) -> (Node, Node, usize, LoadIdentifier) {
    let mut server = node(SERVER);
    let mut requester = node(REQUESTER);
    let described = server.bank.store(content.clone());
    let wanted = request(described);

    let loaded = recieve_request(&vec![wanted], &mut requester.queue, &requester.bank);
    assert!(loaded.is_empty());
    assert_eq!(requester.queue.len(), 1);

    let asked = match chunk {
        None => handle_load_queue(&mut requester.queue, &mut requester.download).unwrap(),
        Some(chunk) => {
            requester.download.state = Some(FileDownload::with_chunk_size(wanted, chunk));
            SendUploadRequest { recipient: RecepientPeer::All, load_id: described }
        }
    };
    assert_eq!(asked, SendUploadRequest { recipient: RecepientPeer::All, load_id: described });
    let lock_requests = send_upload_requests(&vec![asked], local(REQUESTER));
    assert_eq!(
        lock_requests,
        vec![order(
            RecepientPeer::All,
            Command::RequestUploadLock(RequestUploadLockCommand {
                load_id: described,
                peer_id: REQUESTER
            })
        )]
    );

    let replies = serve(&mut server, &deliver(&lock_requests, REQUESTER, SERVER));
    assert_eq!(
        replies,
        vec![order(
            RecepientPeer::Peer(REQUESTER),
            Command::SuccessfulUploadLock(SuccessfulUploadLockedCommand { peer_id: SERVER })
        )]
    );
    assert_eq!(server.upload.state().unwrap().target_peer_id(), REQUESTER);
    assert_eq!(server.upload.state().unwrap().file(), &content);

    let granted = deliver(&replies, SERVER, REQUESTER);
    recieve_successful_lock(
        &recieve_successful_upload_lock(&granted.successful_upload_locks),
        &mut requester.download,
    );
    assert_eq!(
        requester.download.state.as_ref().unwrap().peers(),
        &vec![UploadingPeer { id: SERVER, current_request: None }]
    );

    let mut ticks = 0;
    loop {
        let completed = complete_download(&mut requester.download, &mut requester.bank);
        if let Some(completed) = completed {
            assert_eq!(completed.request, wanted);
            assert_eq!(
                completed.unlocks,
                vec![order(
                    RecepientPeer::Peer(SERVER),
                    Command::UnlockUpload(UnlockUploadCommand)
                )]
            );
            let announced = serve(&mut server, &deliver(&completed.unlocks, REQUESTER, SERVER));
            assert_eq!(
                announced,
                vec![order(
                    RecepientPeer::All,
                    Command::UploadAvailable(UploadAvailableCommand { peer_id: SERVER })
                )]
            );
            let own = send_upload_available(
                &requester.upload,
                &vec![completed.available],
                local(REQUESTER),
            );
            assert_eq!(
                own,
                vec![order(
                    RecepientPeer::All,
                    Command::UploadAvailable(UploadAvailableCommand { peer_id: REQUESTER })
                )]
            );
            break;
        }
        let requests = download_file(&mut requester.download, local(REQUESTER));
        assert_eq!(requests.len(), 1);
        let data = serve(&mut server, &deliver(&requests, REQUESTER, SERVER));
        assert_eq!(data.len(), 1);
        let arrived = deliver(&data, SERVER, REQUESTER);
        recieve_data(&mut requester.download, &recieve_recieve_data(&arrived.recieved_data));
        ticks += 1;
        assert!(ticks <= 1000);
    }
    (requester, server, ticks, described)
}

#[test]
fn a_single_peer_transfers_five_sections_in_five_ticks() {
    let content = source(4200);
    let (requester, server, ticks, described) = transfer(content.clone(), Some(1024));
    assert_eq!(ticks, 5);
    assert_eq!(described.size, 4200);
    assert!(requester.download.state.is_none());
    assert_eq!(requester.bank.request_data(&described.data_id), Some(&content));
    assert!(server.upload.state().is_none());
    assert_eq!(server.bank.request_data(&described.data_id), Some(&content));
}

#[test]
fn a_download_with_the_default_chunk_reassembles_the_source() {
    let content = source(40000);
    let (requester, server, ticks, described) = transfer(content.clone(), None);
    assert_eq!(ticks, 3);
    assert_eq!(40000 / REQUEST_BYTES, 2);
    assert!(requester.download.state.is_none());
    assert_eq!(requester.bank.request_data(&described.data_id), Some(&content));
    assert!(server.upload.state().is_none());
}

#[test]
fn the_store_answers_the_request_after_the_download_commits() {
    let content = source(3000);
    let mut server = node(SERVER);
    let mut requester = node(REQUESTER);
    let described = server.bank.store(content.clone());
    let wanted = request(described);
    requester.download.state = Some(FileDownload::with_chunk_size(wanted, 1000));
    recieve_successful_lock(&vec![SuccessfulUploadLock { peer_id: SERVER }], &mut requester.download);
    lock_upload(
        &vec![UploadRequest { load_id: described, peer_id: REQUESTER }],
        &mut server.upload,
        &server.bank,
        local(SERVER),
    );
    for _ in 0..3 {
        let requests = download_file(&mut requester.download, local(REQUESTER));
        let data = serve(&mut server, &deliver(&requests, REQUESTER, SERVER));
        let arrived = deliver(&data, SERVER, REQUESTER);
        recieve_data(&mut requester.download, &recieve_recieve_data(&arrived.recieved_data));
    }
    let completed = complete_download(&mut requester.download, &mut requester.bank).unwrap();
    assert_eq!(completed.available, SendUploadAvailable);
    assert_eq!(requester.bank.request_data(&described.data_id), Some(&content));
    let loaded = recieve_request(&vec![completed.request], &mut requester.queue, &requester.bank);
    assert_eq!(loaded.len(), 1);
    assert_eq!(loaded[0].data(), &content);
    assert_eq!(loaded[0].request(), wanted);
    assert_eq!(requester.queue.len(), 0);
}

#[test]
fn sections_are_handed_out_from_the_last_to_the_first() {
    let wanted = request(LoadIdentifier { data_id: DataId(1), size: 2500, hash: 0 });
    let mut slot = DownloadState { state: Some(FileDownload::with_chunk_size(wanted, 1000)) };
    recieve_successful_lock(
        &vec![
            SuccessfulUploadLock { peer_id: PeerId(1) },
            SuccessfulUploadLock { peer_id: PeerId(2) },
        ],
        &mut slot,
    );
    let orders = download_file(&mut slot, local(REQUESTER));
    let section = |index: usize, start: usize, end: usize| DataSectionIdentifier {
        index,
        start,
        end,
        data_id: DataId(1),
    };
    assert_eq!(
        orders,
        vec![
            order(
                RecepientPeer::Peer(PeerId(1)),
                Command::RequestData(RequestDataCommand {
                    peer_id: REQUESTER,
                    section: section(2, 2000, 2500)
                })
            ),
            order(
                RecepientPeer::Peer(PeerId(2)),
                Command::RequestData(RequestDataCommand {
                    peer_id: REQUESTER,
                    section: section(1, 1000, 2000)
                })
            ),
        ]
    );
    let session = slot.state.as_ref().unwrap();
    assert_eq!(session.sections(), &vec![section(0, 0, 1000)]);
    assert_eq!(
        session.peers(),
        &vec![
            UploadingPeer { id: PeerId(1), current_request: Some(section(2, 2000, 2500)) },
            UploadingPeer { id: PeerId(2), current_request: Some(section(1, 1000, 2000)) },
        ]
    );
    assert!(!session.is_done());
    // Nobody is idle, so a second pass asks for nothing.
    assert!(download_file(&mut slot, local(REQUESTER)).is_empty());
    assert_eq!(slot.state.as_ref().unwrap().sections().len(), 1);
}

#[test]
fn without_a_local_identity_nothing_is_scheduled_or_sent() {
    let wanted = request(LoadIdentifier { data_id: DataId(1), size: 2500, hash: 0 });
    let mut slot = DownloadState { state: Some(FileDownload::with_chunk_size(wanted, 1000)) };
    recieve_successful_lock(&vec![SuccessfulUploadLock { peer_id: PeerId(1) }], &mut slot);
    assert!(download_file(&mut slot, None).is_empty());
    assert_eq!(slot.state.as_ref().unwrap().sections().len(), 3);
    let ask = SendUploadRequest { recipient: RecepientPeer::All, load_id: wanted.id };
    assert!(send_upload_requests(&vec![ask], None).is_empty());
    let upload = UploadState::new();
    assert!(send_upload_available(&upload, &vec![SendUploadAvailable], None).is_empty());
    let mut bank = Bank::new();
    bank.insert_data(&DataId(1), vec![1]);
    let mut upload = UploadState::new();
    let lock = UploadRequest { load_id: wanted.id, peer_id: PeerId(1) };
    assert!(lock_upload(&vec![lock], &mut upload, &bank, None).is_empty());
    assert!(upload.state().is_none());
}

#[test]
fn is_done_needs_no_section_left_and_no_section_awaited() {
    let wanted = request(LoadIdentifier { data_id: DataId(1), size: 10, hash: 0 });
    let mut slot = DownloadState { state: Some(FileDownload::with_chunk_size(wanted, 10)) };
    // One section left, no peer: not done.
    assert!(!slot.state.as_ref().unwrap().is_done());
    recieve_successful_lock(&vec![SuccessfulUploadLock { peer_id: SERVER }], &mut slot);
    assert!(!slot.state.as_ref().unwrap().is_done());
    // No section left, one awaited: not done.
    download_file(&mut slot, local(REQUESTER));
    assert!(slot.state.as_ref().unwrap().sections().is_empty());
    assert!(!slot.state.as_ref().unwrap().is_done());
    let mut bank = Bank::new();
    assert!(complete_download(&mut slot, &mut bank).is_none());
    assert!(slot.state.is_some());
    assert!(!bank.contains_data(&DataId(1)));
    // No section left, none awaited: done.
    let arrival = IncomingDownload {
        downloaded_section: DownloadedSection {
            data: vec![3; 10],
            id: DataSectionIdentifier { index: 0, start: 0, end: 10, data_id: DataId(1) },
        },
        peer_id: SERVER,
    };
    recieve_data(&mut slot, &vec![arrival]);
    assert!(slot.state.as_ref().unwrap().is_done());
    assert!(complete_download(&mut slot, &mut bank).is_some());
    assert_eq!(bank.request_data(&DataId(1)), Some(&vec![3u8; 10]));
    assert!(complete_download(&mut slot, &mut bank).is_none());
}

#[test]
fn the_second_download_begins_only_after_the_first_commits() {
    let first = request(LoadIdentifier { data_id: DataId(1), size: 4, hash: 0 });
    let second = request(LoadIdentifier { data_id: DataId(2), size: 6, hash: 0 });
    let mut queue = LoadQueue::new();
    let mut slot = DownloadState::new();
    let mut bank = Bank::new();
    recieve_request(&vec![first, second], &mut queue, &bank);
    assert_eq!(queue.len(), 2);

    assert_eq!(slot.phase(), DownloadPhase::Idle);
    let asked = handle_load_queue(&mut queue, &mut slot);
    assert_eq!(
        asked,
        Some(SendUploadRequest { recipient: RecepientPeer::All, load_id: first.id })
    );
    assert_eq!(slot.phase(), DownloadPhase::Requesting);
    assert_eq!(slot.state.as_ref().unwrap().request(), first);
    assert_eq!(queue.len(), 1);

    // While the first is in progress the queue is not touched.
    for _ in 0..3 {
        assert_eq!(handle_load_queue(&mut queue, &mut slot), None);
        assert_eq!(slot.state.as_ref().unwrap().request(), first);
        assert_eq!(queue.len(), 1);
    }

    recieve_successful_lock(&vec![SuccessfulUploadLock { peer_id: SERVER }], &mut slot);
    assert_eq!(slot.phase(), DownloadPhase::Downloading);
    let asked_for = download_file(&mut slot, local(REQUESTER));
    assert_eq!(asked_for.len(), 1);
    assert_eq!(handle_load_queue(&mut queue, &mut slot), None);
    let arrival = IncomingDownload {
        downloaded_section: DownloadedSection {
            data: vec![1, 2, 3, 4],
            id: DataSectionIdentifier { index: 0, start: 0, end: 4, data_id: DataId(1) },
        },
        peer_id: SERVER,
    };
    recieve_data(&mut slot, &vec![arrival]);
    assert_eq!(handle_load_queue(&mut queue, &mut slot), None);
    assert!(complete_download(&mut slot, &mut bank).is_some());
    assert!(slot.state.is_none());
    assert_eq!(slot.phase(), DownloadPhase::Idle);
    assert_eq!(bank.request_data(&DataId(1)), Some(&vec![1u8, 2, 3, 4]));

    let asked = handle_load_queue(&mut queue, &mut slot);
    assert_eq!(
        asked,
        Some(SendUploadRequest { recipient: RecepientPeer::All, load_id: second.id })
    );
    assert_eq!(slot.state.as_ref().unwrap().request(), second);
    assert_eq!(slot.state.as_ref().unwrap().data(), &vec![0u8; 6]);
    assert_eq!(queue.len(), 0);
    assert_eq!(handle_load_queue(&mut queue, &mut slot), None);
}

#[test]
fn with_no_peer_holding_the_content_the_download_stays_in_requesting() {
    let wanted = request(LoadIdentifier { data_id: DataId(9), size: 5000, hash: 0 });
    let mut queue = LoadQueue::new();
    let mut slot = DownloadState::new();
    let mut bank = Bank::new();
    queue.add(wanted);
    let asked = handle_load_queue(&mut queue, &mut slot).unwrap();
    let lock_requests = send_upload_requests(&vec![asked], local(REQUESTER));

    // A peer that does not hold the content gives no answer.
    let mut other = node(SERVER);
    other.bank.insert_data(&DataId(1234), vec![1, 2, 3]);
    let replies = serve(&mut other, &deliver(&lock_requests, REQUESTER, SERVER));
    assert!(replies.is_empty());
    assert!(other.upload.state().is_none());

    for _ in 0..10 {
        recieve_successful_lock(&Vec::new(), &mut slot);
        assert!(download_file(&mut slot, local(REQUESTER)).is_empty());
        recieve_data(&mut slot, &Vec::new());
        assert!(complete_download(&mut slot, &mut bank).is_none());
        assert!(handle_load_queue(&mut queue, &mut slot).is_none());
        let session = slot.state.as_ref().unwrap();
        assert!(session.peers().is_empty());
        assert_eq!(session.sections().len(), 1);
        assert!(!session.is_done());
        assert_eq!(slot.phase(), DownloadPhase::Requesting);
    }
    assert!(!bank.contains_data(&DataId(9)));
}

#[test]
fn a_busy_upload_slot_answers_no_further_lock_request() {
    let mut server = node(SERVER);
    let a = server.bank.store(vec![1; 10]);
    let b = server.bank.store(vec![2; 20]);
    let missing = LoadIdentifier { data_id: DataId(5), size: 1, hash: 0 };
    let requests = vec![
        UploadRequest { load_id: missing, peer_id: PeerId(1) },
        UploadRequest { load_id: b, peer_id: PeerId(2) },
        UploadRequest { load_id: a, peer_id: PeerId(3) },
    ];
    let replies = lock_upload(&requests, &mut server.upload, &server.bank, local(SERVER));
    assert_eq!(
        replies,
        vec![order(
            RecepientPeer::Peer(PeerId(2)),
            Command::SuccessfulUploadLock(SuccessfulUploadLockedCommand { peer_id: SERVER })
        )]
    );
    assert_eq!(server.upload.state().unwrap().target_peer_id(), PeerId(2));
    assert_eq!(server.upload.state().unwrap().file(), &vec![2u8; 20]);
    let later = vec![UploadRequest { load_id: a, peer_id: PeerId(3) }];
    assert!(lock_upload(&later, &mut server.upload, &server.bank, local(SERVER)).is_empty());
    assert_eq!(server.upload.state().unwrap().target_peer_id(), PeerId(2));
    // A busy peer does not announce itself as free.
    assert!(send_upload_available(&server.upload, &vec![SendUploadAvailable], local(SERVER))
        .is_empty());
}

fn data_request(peer: u128, start: usize, end: usize) -> DataRequest {
    DataRequest {
        peer_id: PeerId(peer),
        section: DataSectionIdentifier { index: 7, start, end, data_id: DataId(1) },
    }
}

#[test]
fn a_request_outside_the_file_is_dropped_and_the_upload_goes_on() {
    let mut server = node(SERVER);
    let content = source(100);
    let described = server.bank.store(content.clone());
    lock_upload(
        &vec![UploadRequest { load_id: described, peer_id: REQUESTER }],
        &mut server.upload,
        &server.bank,
        local(SERVER),
    );
    let requests = vec![
        data_request(0xA, 90, 101),
        data_request(0xA, 10, 20),
        data_request(0xA, 30, 20),
        // From a peer that does not hold the lock: served all the same.
        data_request(0xC, 95, 100),
        data_request(0xA, 100, 100),
        data_request(0xA, usize::MAX, usize::MAX),
    ];
    let replies = recieve_data_request(&server.upload, &requests, local(SERVER));
    let reply = |to: u128, start: usize, end: usize| {
        order(
            RecepientPeer::Peer(PeerId(to)),
            Command::RecieveData(RecieveDataCommand {
                peer_id: SERVER,
                data: DownloadedSection {
                    data: content[start..end].to_vec(),
                    id: DataSectionIdentifier { index: 7, start, end, data_id: DataId(1) },
                },
            }),
        )
    };
    assert_eq!(replies, vec![reply(0xA, 10, 20), reply(0xC, 95, 100), reply(0xA, 100, 100)]);
    assert_eq!(server.upload.state().unwrap().target_peer_id(), REQUESTER);
    // Without an upload nothing is served.
    let idle = UploadState::new();
    assert!(recieve_data_request(&idle, &requests, local(SERVER)).is_empty());
    assert!(recieve_data_request(&server.upload, &requests, None).is_empty());
}

fn arrival(peer: PeerId, start: usize, end: usize, data: Vec<u8>) -> IncomingDownload {
    IncomingDownload {
        downloaded_section: DownloadedSection {
            data,
            id: DataSectionIdentifier { index: 0, start, end, data_id: DataId(1) },
        },
        peer_id: peer,
    }
}

fn busy_download() -> DownloadState {
    let wanted = request(LoadIdentifier { data_id: DataId(1), size: 10, hash: 0 });
    let mut slot = DownloadState { state: Some(FileDownload::with_chunk_size(wanted, 4)) };
    recieve_successful_lock(
        &vec![
            SuccessfulUploadLock { peer_id: PeerId(1) },
            SuccessfulUploadLock { peer_id: PeerId(2) },
        ],
        &mut slot,
    );
    download_file(&mut slot, local(REQUESTER));
    slot
}

#[test]
fn arrived_bytes_are_copied_into_their_range() {
    let mut slot = busy_download();
    recieve_data(&mut slot, &vec![arrival(PeerId(1), 8, 10, vec![8, 9])]);
    let session = slot.state.as_ref().unwrap();
    assert_eq!(session.data(), &vec![0, 0, 0, 0, 0, 0, 0, 0, 8, 9]);
    assert_eq!(session.peers()[0].current_request, None);
    assert!(session.peers()[1].current_request.is_some());
    // More bytes than the range: the first ones are taken.
    recieve_data(&mut slot, &vec![arrival(PeerId(2), 4, 8, vec![4, 5, 6, 7, 99, 99])]);
    let session = slot.state.as_ref().unwrap();
    assert_eq!(session.data(), &vec![0, 0, 0, 0, 4, 5, 6, 7, 8, 9]);
    assert_eq!(session.peers()[1].current_request, None);
}

#[test]
fn a_section_that_does_not_fit_the_buffer_is_dropped() {
    for bad in [
        arrival(PeerId(1), 8, 11, vec![1, 2, 3]),
        arrival(PeerId(1), 8, 10, vec![1]),
        arrival(PeerId(1), 20, 30, vec![1; 10]),
        arrival(PeerId(1), 0, usize::MAX, vec![1; 10]),
    ] {
        let mut slot = busy_download();
        recieve_data(&mut slot, &vec![bad]);
        let session = slot.state.as_ref().unwrap();
        assert_eq!(session.data(), &vec![0u8; 10]);
        assert!(session.peers()[0].current_request.is_some());
        assert!(session.peers()[1].current_request.is_some());
    }
}

#[test]
fn an_empty_range_copies_nothing_and_releases_the_peer() {
    for empty in [
        arrival(PeerId(2), 5, 5, vec![1, 2, 3]),
        arrival(PeerId(2), 9, 3, Vec::new()),
        arrival(PeerId(2), 50, 50, Vec::new()),
    ] {
        let mut slot = busy_download();
        recieve_data(&mut slot, &vec![empty]);
        let session = slot.state.as_ref().unwrap();
        assert_eq!(session.data(), &vec![0u8; 10]);
        assert!(session.peers()[0].current_request.is_some());
        assert_eq!(session.peers()[1].current_request, None);
    }
}

#[test]
fn data_and_locks_without_a_download_change_nothing() {
    let mut slot = DownloadState::new();
    recieve_data(&mut slot, &vec![arrival(PeerId(1), 0, 2, vec![1, 2])]);
    assert!(slot.state.is_none());
    recieve_successful_lock(&vec![SuccessfulUploadLock { peer_id: PeerId(1) }], &mut slot);
    assert!(slot.state.is_none());
    assert!(download_file(&mut slot, local(REQUESTER)).is_empty());
    let mut bank = Bank::new();
    assert!(complete_download(&mut slot, &mut bank).is_none());
    assert!(acknowledge_upload_available(&vec![UploadAvailable { peer_id: SERVER }], &slot)
        .is_empty());
}

#[test]
fn a_free_peer_is_asked_to_lock_while_a_download_is_in_progress() {
    let wanted = request(LoadIdentifier { data_id: DataId(9), size: 5000, hash: 3 });
    let slot = DownloadState { state: Some(FileDownload::new(wanted)) };
    let asked = acknowledge_upload_available(
        &vec![UploadAvailable { peer_id: PeerId(4) }, UploadAvailable { peer_id: PeerId(5) }],
        &slot,
    );
    assert_eq!(
        asked,
        vec![
            SendUploadRequest { recipient: RecepientPeer::Peer(PeerId(4)), load_id: wanted.id },
            SendUploadRequest { recipient: RecepientPeer::Peer(PeerId(5)), load_id: wanted.id },
        ]
    );
    let orders = send_upload_requests(&asked, local(REQUESTER));
    assert_eq!(
        orders[1],
        order(
            RecepientPeer::Peer(PeerId(5)),
            Command::RequestUploadLock(RequestUploadLockCommand {
                load_id: wanted.id,
                peer_id: REQUESTER
            })
        )
    );
    let passed = recieve_upload_available(&vec![UploadAvailableCommand { peer_id: PeerId(4) }]);
    assert_eq!(passed, vec![UploadAvailable { peer_id: PeerId(4) }]);
}

#[test]
fn an_unlock_frees_the_upload_slot_once() {
    let mut server = node(SERVER);
    let described = server.bank.store(vec![1; 10]);
    assert_eq!(unlock_upload(&vec![UnlockUpload], &mut server.upload), None);
    lock_upload(
        &vec![UploadRequest { load_id: described, peer_id: REQUESTER }],
        &mut server.upload,
        &server.bank,
        local(SERVER),
    );
    assert_eq!(unlock_upload(&Vec::new(), &mut server.upload), None);
    assert!(server.upload.state().is_some());
    assert_eq!(
        unlock_upload(&vec![UnlockUpload, UnlockUpload], &mut server.upload),
        Some(SendUploadAvailable)
    );
    assert!(server.upload.state().is_none());
    assert_eq!(unlock_upload(&vec![UnlockUpload], &mut server.upload), None);
}

#[test]
fn each_connecting_peer_gets_an_announcement() {
    let announce =
        send_available_on_connect(&vec![PeerConnected(PeerId(1)), PeerConnected(PeerId(2))]);
    assert_eq!(announce, vec![SendUploadAvailable, SendUploadAvailable]);
    let upload = UploadState::new();
    let orders = send_upload_available(&upload, &announce, local(SERVER));
    let expected = order(
        RecepientPeer::All,
        Command::UploadAvailable(UploadAvailableCommand { peer_id: SERVER }),
    );
    assert_eq!(orders.len(), 2);
    assert_eq!(orders[0], expected);
    assert_eq!(orders[1], expected);
    assert!(send_available_on_connect(&Vec::new()).is_empty());
}

#[test]
fn two_peers_serve_a_download_in_half_the_rounds() {
    let content = source(10_000);
    let mut first = node(PeerId(0xB1));
    let mut second = node(PeerId(0xB2));
    let mut requester = node(REQUESTER);
    let described = first.bank.store(content.clone());
    second.bank.insert_data(&described.data_id, content.clone());
    let wanted = request(described);
    requester.download.state = Some(FileDownload::with_chunk_size(wanted, 1000));

    let ask = vec![UploadRequest { load_id: described, peer_id: REQUESTER }];
    for server in [&mut first, &mut second] {
        let granted = lock_upload(&ask, &mut server.upload, &server.bank, local(server.id));
        let arrived = deliver(&granted, server.id, REQUESTER);
        recieve_successful_lock(
            &recieve_successful_upload_lock(&arrived.successful_upload_locks),
            &mut requester.download,
        );
    }
    assert_eq!(requester.download.phase(), DownloadPhase::Downloading);
    assert_eq!(requester.download.state.as_ref().unwrap().peers().len(), 2);

    let mut rounds = 0;
    while complete_download(&mut requester.download, &mut requester.bank).is_none() {
        let requests = download_file(&mut requester.download, local(REQUESTER));
        assert_eq!(requests.len(), 2);
        let mut arrived = Vec::new();
        for server in [&mut first, &mut second] {
            let replies = serve(server, &deliver(&requests, REQUESTER, server.id));
            assert_eq!(replies.len(), 1);
            arrived.extend(recieve_recieve_data(
                &deliver(&replies, server.id, REQUESTER).recieved_data,
            ));
        }
        recieve_data(&mut requester.download, &arrived);
        rounds += 1;
        assert!(rounds <= 5);
    }
    assert_eq!(rounds, 5);
    assert_eq!(requester.bank.request_data(&described.data_id), Some(&content));
}

#[test]
fn sections_may_arrive_in_any_order_and_more_than_once() {
    let content = source(2500);
    let wanted = request(LoadIdentifier { data_id: DataId(1), size: 2500, hash: 0 });
    let mut slot = DownloadState { state: Some(FileDownload::with_chunk_size(wanted, 1000)) };
    recieve_successful_lock(&vec![SuccessfulUploadLock { peer_id: SERVER }], &mut slot);
    let piece = |start: usize, end: usize| IncomingDownload {
        downloaded_section: DownloadedSection {
            data: content[start..end].to_vec(),
            id: DataSectionIdentifier { index: start / 1000, start, end, data_id: DataId(1) },
        },
        peer_id: SERVER,
    };
    recieve_data(
        &mut slot,
        &vec![piece(1000, 2000), piece(2000, 2500), piece(0, 1000), piece(1000, 2000)],
    );
    assert_eq!(slot.state.as_ref().unwrap().data(), &content);
}
