//! The transfer manager: one download and one upload at a time, content cut
//! into sections that contributing peers serve one by one.

use crate::bank::{Bank, DataId};
use crate::fileload::{LoadIdentifier, LoadRequest};
use crate::networking::{
    LocalPeerId, NetworkReliability, NetworkedCommandEvent, NetworkedCommandEventView,
    PeerConnected, PeerId, RecepientPeer,
};
use crate::orders::{
    Command, CommandView, OrderEvent, OrderEventView, RecieveDataCommand, RecieveDataCommandView,
    RequestDataCommand, RequestUploadLockCommand, SuccessfulUploadLockedCommand,
    UnlockUploadCommand, UploadAvailableCommand,
};
use crate::sequences::{lemma_views_push, views};
use std::collections::VecDeque;
use vstd::arithmetic::div_mod::{lemma_fundamental_div_mod, lemma_fundamental_div_mod_converse};
use vstd::prelude::*;

verus! {

/// One section of a blob: the bytes from `start` up to, not including, `end`.
#[derive(Clone, Copy, Debug, PartialEq, Eq, Structural)]
pub struct DataSectionIdentifier {
    pub index: usize,
    pub start: usize,
    pub end: usize,
    pub data_id: DataId,
}

/// The bytes of one section, as a serving peer sent them.
#[derive(Debug, PartialEq, Eq)]
pub struct DownloadedSection {
    pub data: Vec<u8>,
    pub id: DataSectionIdentifier,
}

/// The value of a `DownloadedSection`, as contracts speak of it.
pub struct DownloadedSectionView {
    pub data: Seq<u8>,
    pub id: DataSectionIdentifier,
}

impl View for DownloadedSection {
    type V = DownloadedSectionView;

    open spec fn view(&self) -> DownloadedSectionView {
        DownloadedSectionView { data: self.data@, id: self.id }
    }
}

impl Clone for DownloadedSection {
    fn clone(&self) -> (copy: Self)
        ensures
            copy@ == self@,
    {
        DownloadedSection { data: self.data.clone(), id: self.id }
    }
}

/// Asks that a lock request for `load_id` be sent to `recipient`.
#[derive(Clone, Copy, Debug, PartialEq, Eq, Structural)]
pub struct SendUploadRequest {
    pub recipient: RecepientPeer,
    pub load_id: LoadIdentifier,
}

/// A peer has locked its upload to this process.
#[derive(Clone, Copy, Debug, PartialEq, Eq, Structural)]
pub struct SuccessfulUploadLock {
    pub peer_id: PeerId,
}

/// A peer asks this process to serve `load_id` to it alone.
#[derive(Clone, Copy, Debug, PartialEq, Eq, Structural)]
pub struct UploadRequest {
    pub load_id: LoadIdentifier,
    pub peer_id: PeerId,
}

/// A peer asks for the bytes of one section.
#[derive(Clone, Copy, Debug, PartialEq, Eq, Structural)]
pub struct DataRequest {
    pub peer_id: PeerId,
    pub section: DataSectionIdentifier,
}

/// The bytes of one section have arrived from `peer_id`.
#[derive(Clone, Debug, PartialEq, Eq)]
pub struct IncomingDownload {
    pub downloaded_section: DownloadedSection,
    pub peer_id: PeerId,
}

/// The value of a `IncomingDownload`, as contracts speak of it.
pub struct IncomingDownloadView {
    pub downloaded_section: DownloadedSectionView,
    pub peer_id: PeerId,
}

impl View for IncomingDownload {
    type V = IncomingDownloadView;

    open spec fn view(&self) -> IncomingDownloadView {
        IncomingDownloadView {
            downloaded_section: self.downloaded_section@,
            peer_id: self.peer_id,
        }
    }
}

/// The requester is done with this process's upload.
#[derive(Clone, Copy, Debug, PartialEq, Eq, Structural)]
pub struct UnlockUpload;

/// Asks that this process announce itself as free to serve.
#[derive(Clone, Copy, Debug, PartialEq, Eq, Structural)]
pub struct SendUploadAvailable;

/// A peer has announced itself as free to serve.
#[derive(Clone, Copy, Debug, PartialEq, Eq, Structural)]
pub struct UploadAvailable {
    pub peer_id: PeerId,
}

/// An order for `recipient` on the reliable channel, which carries all
/// transfer traffic.
pub open spec fn reliable_order(
    recipient: RecepientPeer,
    command: CommandView,
) -> NetworkedCommandEventView {
    NetworkedCommandEventView {
        order: OrderEventView { command },
        reliability: NetworkReliability::Reliable,
        peer_id: recipient,
    }
}

fn make_reliable_order(recipient: RecepientPeer, command: Command) -> (event: NetworkedCommandEvent)
    ensures
        event@ == reliable_order(recipient, command@),
{
    NetworkedCommandEvent {
        order: OrderEvent { command },
        reliability: NetworkReliability::Reliable,
        peer_id: recipient,
    }
}

/// The requests that wait for the download slot, oldest first.
pub struct LoadQueue {
    queue: VecDeque<LoadRequest>,
}

impl View for LoadQueue {
    type V = Seq<LoadRequest>;

    closed spec fn view(&self) -> Seq<LoadRequest> {
        self.queue@
    }
}

impl LoadQueue {
    /// A queue in which nothing waits.
    pub fn new() -> (queue: LoadQueue)
        ensures
            queue@ == Seq::<LoadRequest>::empty(),
    {
        LoadQueue { queue: VecDeque::new() }
    }

    /// How many requests wait.
    pub fn len(&self) -> (len: usize)
        ensures
            len == self@.len(),
    {
        self.queue.len()
    }

    /// Puts `request` behind the requests that wait already.
    pub fn add(&mut self, request: LoadRequest)
        ensures
            final(self)@ == old(self)@.push(request),
    {
        self.queue.push_back(request);
    }
}

/// The length of a section, in bytes, where the content is long enough.
pub const REQUEST_BYTES: usize = 16 * 1024;

/// How many sections of at most `chunk` bytes cover `size` bytes: `size / chunk`,
/// rounded up.
pub open spec fn section_count(size: nat, chunk: nat) -> nat
    recommends
        chunk > 0,
{
    if size % chunk == 0 {
        size / chunk
    } else {
        size / chunk + 1
    }
}

/// Section number `i` of a blob of `size` bytes cut every `chunk` bytes.
pub open spec fn section_at(
    size: nat,
    chunk: nat,
    data_id: DataId,
    i: int,
) -> DataSectionIdentifier {
    DataSectionIdentifier {
        index: i as usize,
        start: (i * chunk) as usize,
        end: (if (i + 1) * chunk <= size {
            (i + 1) * chunk
        } else {
            size as int
        }) as usize,
        data_id,
    }
}

/// The sections of a blob of `size` bytes cut every `chunk` bytes, in the
/// order of their offsets.
pub open spec fn partition(size: nat, chunk: nat, data_id: DataId) -> Seq<DataSectionIdentifier> {
    Seq::new(section_count(size, chunk), |i: int| section_at(size, chunk, data_id, i))
}

/// Where section `i` of a partition lies.
pub proof fn lemma_section_bounds(size: nat, chunk: nat, i: int)
    requires
        chunk > 0,
        0 <= i < section_count(size, chunk),
    ensures
        0 <= i * chunk < size,
        i <= size / chunk,
        (i + 1) * chunk <= size <==> i + 1 <= size / chunk,
        (i + 1) * chunk < size <==> i + 1 < section_count(size, chunk),
        (i + 1) * chunk == i * chunk + chunk,
{
    let q = size as int / chunk as int;
    let r = size as int % chunk as int;
    lemma_fundamental_div_mod(size as int, chunk as int);
    let c = chunk as int;
    let n = size as int;
    assert(0 <= i * c < n && ((i + 1) * c <= n <==> i + 1 <= q) && ((i + 1) * c < n <==> (i + 1 < q
        || (i + 1 == q && r > 0))) && (i + 1) * c == i * c + c) by (nonlinear_arith)
        requires
            c > 0,
            0 <= i,
            n == c * q + r,
            0 <= r < c,
            r == 0 ==> i < q,
            r > 0 ==> i <= q,
    ;
}

/// Cutting `size` bytes every `chunk` bytes gives `size / chunk` sections,
/// rounded up; they follow one another from offset 0 to offset `size` with
/// neither gap nor overlap, none is empty, none is longer than `chunk`, and
/// each byte offset below `size` lies in exactly one of them.
pub proof fn lemma_partition_covers(size: nat, chunk: nat, data_id: DataId)
    requires
        chunk > 0,
        size <= usize::MAX,
    ensures
        ({
            let sections = partition(size, chunk, data_id);
            &&& sections.len() == section_count(size, chunk)
            &&& (sections.len() as int - 1) * chunk < size <= sections.len() * chunk
            &&& size == 0 <==> sections.len() == 0
            &&& sections.len() > 0 ==> sections[0].start == 0 && sections.last().end == size
            &&& forall|i: int|
                0 <= i < sections.len() ==> {
                    &&& (#[trigger] sections[i]).index == i
                    &&& sections[i].data_id == data_id
                    &&& sections[i].start < sections[i].end <= size
                    &&& sections[i].end - sections[i].start <= chunk
                }
            &&& forall|i: int|
                0 <= i < sections.len() - 1 ==> (#[trigger] sections[i]).end == sections[i
                    + 1].start
            &&& forall|b: int, i: int|
                0 <= b < size && 0 <= i < sections.len() ==> ((#[trigger] sections[i]).start <= b
                    < sections[i].end <==> i == #[trigger] (b / chunk as int))
        }),
{
    let sections = partition(size, chunk, data_id);
    let count = section_count(size, chunk) as int;
    let c = chunk as int;
    let n = size as int;
    lemma_fundamental_div_mod(n, c);
    assert((count - 1) * c < n <= count * c && (n == 0 <==> count == 0)) by (nonlinear_arith)
        requires
            c > 0,
            n >= 0,
            n == c * (n / c) + (n % c),
            0 <= n % c < c,
            count == (if n % c == 0 {
                n / c
            } else {
                n / c + 1
            }),
    ;
    assert forall|i: int| 0 <= i < sections.len() implies {
        &&& (#[trigger] sections[i]).index == i
        &&& sections[i].data_id == data_id
        &&& sections[i].start == i * c
        &&& sections[i].start < sections[i].end <= size
        &&& sections[i].end - sections[i].start <= chunk
        &&& sections[i].end == (if i + 1 < count {
            (i + 1) * c
        } else {
            n
        })
    } by {
        lemma_section_bounds(size, chunk, i);
    }
    assert forall|b: int, i: int| 0 <= b < size && 0 <= i < sections.len() implies ((
    #[trigger] sections[i]).start <= b < sections[i].end <==> i == #[trigger] (b / c)) by {
        lemma_section_bounds(size, chunk, i);
        lemma_fundamental_div_mod(b, c);
        if i * c <= b < (i + 1) * c {
            lemma_fundamental_div_mod_converse(b, c, i, b - i * c);
        }
        assert(i == b / c ==> i * c <= b < (i + 1) * c) by (nonlinear_arith)
            requires
                c > 0,
                b == c * (b / c) + (b % c),
                0 <= b % c < c,
        ;
    }
}

/// Cuts `size` bytes into sections of `chunk` bytes, the last one shorter
/// where `chunk` does not divide `size`.
pub fn partition_sections(
    size: usize,
    chunk: usize,
    data_id: DataId,
) -> (sections: Vec<DataSectionIdentifier>)
    requires
        chunk > 0,
    ensures
        sections@ == partition(size as nat, chunk as nat, data_id),
{
    let whole: usize = size / chunk;
    proof {
        lemma_fundamental_div_mod(size as int, chunk as int);
        assert(whole + (size % chunk) <= size) by (nonlinear_arith)
            requires
                chunk > 0,
                whole >= 0,
                size == chunk * whole + (size % chunk),
        ;
    }
    let count: usize = if size % chunk == 0 {
        whole
    } else {
        whole + 1
    };
    let mut sections: Vec<DataSectionIdentifier> = Vec::new();
    let mut index: usize = 0;
    let mut start: usize = 0;
    while index < count
        invariant
            chunk > 0,
            count == section_count(size as nat, chunk as nat),
            index <= count,
            index < count ==> start == index * chunk,
            sections@ == Seq::new(
                index as nat,
                |i: int| section_at(size as nat, chunk as nat, data_id, i),
            ),
        decreases count - index,
    {
        proof {
            lemma_section_bounds(size as nat, chunk as nat, index as int);
        }
        let end: usize = if size - start < chunk {
            size
        } else {
            start + chunk
        };
        sections.push(DataSectionIdentifier { index, start, end, data_id });
        index = index + 1;
        start = end;
    }
    sections
}

/// A peer that has locked its upload to this download, with the section it
/// has been asked for and has not yet sent.
#[derive(Clone, Copy, Debug, PartialEq, Eq, Structural)]
pub struct UploadingPeer {
    pub id: PeerId,
    pub current_request: Option<DataSectionIdentifier>,
}

/// The download in progress: what is asked for, who serves it, which
/// sections nobody has been asked for yet, and the bytes received so far.
pub struct FileDownload {
    request: LoadRequest,
    chunk: usize,
    peers: Vec<UploadingPeer>,
    sections: Vec<DataSectionIdentifier>,
    data: Vec<u8>,
}

/// The value of a `FileDownload`, as contracts speak of it.
pub struct FileDownloadView {
    pub request: LoadRequest,
    pub chunk: usize,
    pub peers: Seq<UploadingPeer>,
    pub sections: Seq<DataSectionIdentifier>,
    pub data: Seq<u8>,
}

impl View for FileDownload {
    type V = FileDownloadView;

    closed spec fn view(&self) -> FileDownloadView {
        FileDownloadView {
            request: self.request,
            chunk: self.chunk,
            peers: self.peers@,
            sections: self.sections@,
            data: self.data@,
        }
    }
}

impl FileDownloadView {
    /// The sections that the content was cut into when the download began.
    pub open spec fn all_sections(self) -> Seq<DataSectionIdentifier> {
        partition(self.request.id.size as nat, self.chunk as nat, self.request.id.data_id)
    }

    /// What holds of every download: the buffer has the advertised length;
    /// the sections not yet asked for are the first ones of the partition;
    /// a section that a peer has been asked for is a later one of the
    /// partition, and no two peers have been asked for the same one.
    pub open spec fn valid(self) -> bool {
        &&& self.chunk > 0
        &&& self.data.len() == self.request.id.size
        &&& self.sections.len() <= self.all_sections().len()
        &&& self.sections == self.all_sections().take(self.sections.len() as int)
        &&& forall|i: int|
            0 <= i < self.peers.len() ==> ((#[trigger] self.peers[i]).current_request matches Some(
                section,
            ) ==> self.sections.len() <= section.index < self.all_sections().len()
                && section == self.all_sections()[section.index as int])
        &&& forall|i: int, j: int|
            0 <= i < j < self.peers.len() ==> ((
            #[trigger] self.peers[i]).current_request matches Some(first) ==> ((#[trigger] self.peers[j]).current_request matches Some(second)
                ==> first.index != second.index))
    }

    /// The download is complete: every section has been asked for, and none
    /// is still awaited.
    pub open spec fn done(self) -> bool {
        &&& self.sections.len() == 0
        &&& forall|i: int|
            0 <= i < self.peers.len() ==> (#[trigger] self.peers[i]).current_request is None
    }
}

/// Every section of a valid download lies within the content: those that
/// nobody has been asked for, and those that are awaited.
pub proof fn lemma_sections_within(download: FileDownloadView)
    requires
        download.valid(),
    ensures
        forall|i: int|
            0 <= i < download.sections.len() ==> (#[trigger] download.sections[i]).start
                < download.sections[i].end <= download.request.id.size,
        forall|i: int|
            0 <= i < download.peers.len() ==> ((
            #[trigger] download.peers[i]).current_request matches Some(section) ==> section.start < section.end <= download.request.id.size),
{
    lemma_partition_covers(
        download.request.id.size as nat,
        download.chunk as nat,
        download.request.id.data_id,
    );
    assert forall|i: int| 0 <= i < download.sections.len() implies (
    #[trigger] download.sections[i]).start < download.sections[i].end
        <= download.request.id.size by {
    }
}

/// The download that `request` begins with sections of `chunk` bytes: no
/// peer yet, every section still to be asked for, a buffer of zeros.
pub open spec fn new_download(request: LoadRequest, chunk: usize) -> FileDownloadView {
    FileDownloadView {
        request,
        chunk,
        peers: Seq::empty(),
        sections: partition(request.id.size as nat, chunk as nat, request.id.data_id),
        data: Seq::new(request.id.size as nat, |i: int| 0u8),
    }
}

impl FileDownload {
    #[verifier::type_invariant]
    spec fn well_formed(&self) -> bool {
        self@.valid()
    }

    /// Begins the download of `value` with sections of `REQUEST_BYTES` bytes.
    pub fn new(value: LoadRequest) -> (download: FileDownload)
        ensures
            download@ == new_download(value, REQUEST_BYTES),
            download@.valid(),
    {
        FileDownload::with_chunk_size(value, REQUEST_BYTES)
    }

    /// Begins the download of `value` with sections of `chunk` bytes.
    pub fn with_chunk_size(value: LoadRequest, chunk: usize) -> (download: FileDownload)
        requires
            chunk > 0,
        ensures
            download@ == new_download(value, chunk),
            download@.valid(),
    {
        let sections = partition_sections(value.id.size, chunk, value.id.data_id);
        let mut data: Vec<u8> = Vec::new();
        let mut filled: usize = 0;
        while filled < value.id.size
            invariant
                filled <= value.id.size,
                data@ == Seq::new(filled as nat, |i: int| 0u8),
            decreases value.id.size - filled,
        {
            data.push(0);
            filled = filled + 1;
        }
        assert(sections@.take(sections@.len() as int) =~= sections@);
        FileDownload { request: value, chunk, peers: Vec::new(), sections, data }
    }

    /// What is being downloaded.
    pub fn request(&self) -> (request: LoadRequest)
        ensures
            request == self@.request,
            self@.valid(),
    {
        proof {
            use_type_invariant(self);
        }
        self.request
    }

    /// The peers that serve this download.
    pub fn peers(&self) -> (peers: &Vec<UploadingPeer>)
        ensures
            peers@ == self@.peers,
    {
        &self.peers
    }

    /// The sections that nobody has been asked for yet.
    pub fn sections(&self) -> (sections: &Vec<DataSectionIdentifier>)
        ensures
            sections@ == self@.sections,
    {
        &self.sections
    }

    /// The bytes received so far, zero where none has arrived.
    pub fn data(&self) -> (data: &Vec<u8>)
        ensures
            data@ == self@.data,
            data@.len() == self@.request.id.size,
    {
        proof {
            use_type_invariant(self);
        }
        &self.data
    }

    /// Whether the download is complete.
    pub fn is_done(&self) -> (done: bool)
        ensures
            done == self@.done(),
    {
        if self.sections.len() != 0 {
            return false;
        }
        let mut i: usize = 0;
        while i < self.peers.len()
            invariant
                i <= self.peers.len(),
                forall|k: int| 0 <= k < i ==> (#[trigger] self.peers@[k]).current_request is None,
            decreases self.peers.len() - i,
        {
            if self.peers[i].current_request.is_some() {
                return false;
            }
            i = i + 1;
        }
        true
    }
}

/// The download slot: at most one download at a time.
pub struct DownloadState {
    pub state: Option<FileDownload>,
}

impl View for DownloadState {
    type V = Option<FileDownloadView>;

    open spec fn view(&self) -> Option<FileDownloadView> {
        match self.state {
            Some(download) => Some(download@),
            None => None,
        }
    }
}

/// Where the download side stands.
#[derive(Clone, Copy, Debug, PartialEq, Eq, Structural)]
pub enum DownloadPhase {
    /// No download.
    Idle,
    /// A download that no peer serves yet.
    Requesting,
    /// A download that at least one peer serves.
    Downloading,
}

/// The phase that a download slot is in.
pub open spec fn download_phase(slot: Option<FileDownloadView>) -> DownloadPhase {
    match slot {
        None => DownloadPhase::Idle,
        Some(download) => if download.peers.len() == 0 {
            DownloadPhase::Requesting
        } else {
            DownloadPhase::Downloading
        },
    }
}

impl DownloadState {
    /// A free download slot.
    pub fn new() -> (slot: DownloadState)
        ensures
            slot@ is None,
    {
        DownloadState { state: None }
    }

    /// Where the download side stands.
    pub fn phase(&self) -> (phase: DownloadPhase)
        ensures
            phase == download_phase(self@),
    {
        match &self.state {
            None => DownloadPhase::Idle,
            Some(session) => if session.peers.len() == 0 {
                DownloadPhase::Requesting
            } else {
                DownloadPhase::Downloading
            },
        }
    }

    /// Recalls what holds of every download.
    fn session_is_valid(&self)
        ensures
            self@ matches Some(session) ==> session.valid(),
    {
        match &self.state {
            Some(session) => {
                proof {
                    use_type_invariant(session);
                }
            },
            None => {},
        }
    }
}

/// The download slot after it has been offered what waits in the queue: a
/// free slot takes the oldest request, an occupied one stays as it is.
pub open spec fn admitted(
    queue: Seq<LoadRequest>,
    slot: Option<FileDownloadView>,
) -> Option<FileDownloadView> {
    if slot is None && queue.len() > 0 {
        Some(new_download(queue[0], REQUEST_BYTES))
    } else {
        slot
    }
}

/// Takes the oldest waiting request into the download slot, if the slot is
/// free, and asks every peer for a lock on its content. An occupied slot is
/// left as it is, and so is the queue.
pub fn handle_load_queue(
    queue: &mut LoadQueue,
    download: &mut DownloadState,
) -> (asked: Option<SendUploadRequest>)
    ensures
        final(download)@ == admitted(old(queue)@, old(download)@),
        old(download)@ is Some || old(queue)@.len() == 0 ==> {
            &&& final(download)@ == old(download)@
            &&& final(queue)@ == old(queue)@
            &&& asked is None
        },
        old(download)@ is None && old(queue)@.len() > 0 ==> {
            &&& final(download)@ == Some(new_download(old(queue)@[0], REQUEST_BYTES))
            &&& final(queue)@ == old(queue)@.drop_first()
            &&& asked == Some(
                SendUploadRequest {
                    recipient: RecepientPeer::All,
                    load_id: old(queue)@[0].id,
                },
            )
            &&& download_phase(final(download)@) == DownloadPhase::Requesting
        },
        final(download)@ matches Some(after) ==> after.valid(),
{
    if download.state.is_some() {
        download.session_is_valid();
        return None;
    }
    match queue.queue.pop_front() {
        Some(new_download) => {
            let asked = SendUploadRequest {
                recipient: RecepientPeer::All,
                load_id: new_download.id,
            };
            download.state = Some(FileDownload::new(new_download));
            Some(asked)
        },
        None => None,
    }
}

/// The order that asks `recipient` to lock its upload of `load_id` to the
/// peer `local`.
pub open spec fn upload_lock_request(
    recipient: RecepientPeer,
    load_id: LoadIdentifier,
    local: PeerId,
) -> NetworkedCommandEventView {
    reliable_order(
        recipient,
        CommandView::RequestUploadLock(RequestUploadLockCommand { load_id, peer_id: local }),
    )
}

/// One lock request for each item of `events`, in order.
pub open spec fn upload_lock_requests(
    events: Seq<SendUploadRequest>,
    local: PeerId,
) -> Seq<NetworkedCommandEventView> {
    events.map_values(
        |event: SendUploadRequest| upload_lock_request(event.recipient, event.load_id, local),
    )
}

/// Turns each request to ask for a lock into the order that asks for it, in
/// the name of this process. Without a local identity nothing is sent.
pub fn send_upload_requests(
    events: &Vec<SendUploadRequest>,
    local_peer_id: Option<LocalPeerId>,
) -> (orders: Vec<NetworkedCommandEvent>)
    ensures
        views(orders@) == match local_peer_id {
            Some(local) => upload_lock_requests(events@, local.id),
            None => Seq::empty(),
        },
{
    let mut orders: Vec<NetworkedCommandEvent> = Vec::new();
    let local = match local_peer_id {
        Some(local) => local,
        None => {
            return orders;
        },
    };
    let mut i: usize = 0;
    while i < events.len()
        invariant
            i <= events.len(),
            views(orders@) == upload_lock_requests(events@.take(i as int), local.id),
        decreases events.len() - i,
    {
        let event = events[i];
        let ghost sent = orders@;
        orders.push(
            make_reliable_order(
                event.recipient,
                Command::RequestUploadLock(
                    RequestUploadLockCommand { load_id: event.load_id, peer_id: local.id },
                ),
            ),
        );
        i = i + 1;
        proof {
            lemma_views_push(sent, orders@.last());
        }
    }
    orders
}

/// The peers that `events` announce, none of them asked for anything yet.
pub open spec fn joined_peers(events: Seq<SuccessfulUploadLock>) -> Seq<UploadingPeer> {
    events.map_values(
        |event: SuccessfulUploadLock| UploadingPeer { id: event.peer_id, current_request: None },
    )
}

/// Adds each peer that has locked its upload to the download in progress.
/// Without a download the locks are ignored.
pub fn recieve_successful_lock(events: &Vec<SuccessfulUploadLock>, download: &mut DownloadState)
    ensures
        final(download)@ == match old(download)@ {
            Some(before) => Some(
                FileDownloadView { peers: before.peers + joined_peers(events@), ..before },
            ),
            None => None,
        },
        final(download)@ matches Some(after) ==> after.valid(),
        old(download)@ is Some && events@.len() > 0 ==> download_phase(final(download)@)
            == DownloadPhase::Downloading,
{
    let session = match download.state.take() {
        Some(session) => session,
        None => {
            return ;
        },
    };
    proof {
        use_type_invariant(&session);
    }
    let ghost before = session@;
    let FileDownload { request, chunk, peers, sections, data } = session;
    let mut peers = peers;
    let mut i: usize = 0;
    while i < events.len()
        invariant
            i <= events.len(),
            peers@ == before.peers + joined_peers(events@.take(i as int)),
        decreases events.len() - i,
    {
        peers.push(UploadingPeer { id: events[i].peer_id, current_request: None });
        i = i + 1;
    }
    assert(events@.take(i as int) =~= events@);
    download.state = Some(FileDownload { request, chunk, peers, sections, data });
}

/// One lock request, addressed to the announcing peer, for each item of
/// `events`.
pub open spec fn renewed_requests(
    events: Seq<UploadAvailable>,
    load_id: LoadIdentifier,
) -> Seq<SendUploadRequest> {
    events.map_values(
        |event: UploadAvailable|
            SendUploadRequest { recipient: RecepientPeer::Peer(event.peer_id), load_id },
    )
}

/// Answers each peer that announces itself as free: while a download is in
/// progress, the peer is asked to lock its upload to it.
pub fn acknowledge_upload_available(
    events: &Vec<UploadAvailable>,
    download: &DownloadState,
) -> (asked: Vec<SendUploadRequest>)
    ensures
        asked@ == match download@ {
            Some(session) => renewed_requests(events@, session.request.id),
            None => Seq::empty(),
        },
{
    let mut asked: Vec<SendUploadRequest> = Vec::new();
    match &download.state {
        Some(session) => {
            let mut i: usize = 0;
            while i < events.len()
                invariant
                    i <= events.len(),
                    asked@ == renewed_requests(events@.take(i as int), session@.request.id),
                decreases events.len() - i,
            {
                asked.push(
                    SendUploadRequest {
                        recipient: RecepientPeer::Peer(events[i].peer_id),
                        load_id: session.request.id,
                    },
                );
                i = i + 1;
            }
        },
        None => {},
    }
    asked
}

/// What one scheduling pass leaves: the peers, the sections that nobody has
/// been asked for, and who was asked for what, in the order of asking.
pub struct PassOutcome {
    pub peers: Seq<UploadingPeer>,
    pub sections: Seq<DataSectionIdentifier>,
    pub asked: Seq<(PeerId, DataSectionIdentifier)>,
}

/// One scheduling pass: the peers take their turn in order, and each one
/// that awaits nothing is asked for the last section that is left, if any.
pub open spec fn schedule_pass(
    peers: Seq<UploadingPeer>,
    sections: Seq<DataSectionIdentifier>,
) -> PassOutcome
    decreases peers.len(),
{
    if peers.len() == 0 {
        PassOutcome { peers: Seq::empty(), sections, asked: Seq::empty() }
    } else {
        let before = schedule_pass(peers.drop_last(), sections);
        let peer = peers.last();
        if peer.current_request is None && before.sections.len() > 0 {
            let section = before.sections.last();
            PassOutcome {
                peers: before.peers.push(
                    UploadingPeer { id: peer.id, current_request: Some(section) },
                ),
                sections: before.sections.drop_last(),
                asked: before.asked.push((peer.id, section)),
            }
        } else {
            PassOutcome { peers: before.peers.push(peer), ..before }
        }
    }
}

/// A download that no peer serves stands still: a scheduling pass asks for
/// nothing and leaves every section where it was, so while a section is
/// left the download is not complete.
pub proof fn lemma_stalled_without_peers(download: FileDownloadView)
    requires
        download.peers.len() == 0,
    ensures
        schedule_pass(download.peers, download.sections).sections == download.sections,
        schedule_pass(download.peers, download.sections).peers == download.peers,
        schedule_pass(download.peers, download.sections).asked.len() == 0,
        download.sections.len() > 0 ==> !download.done(),
        download_phase(Some(download)) == DownloadPhase::Requesting,
{
}

/// The order that asks `peer` for `section`, in the name of `local`.
pub open spec fn data_request(
    peer: PeerId,
    section: DataSectionIdentifier,
    local: PeerId,
) -> NetworkedCommandEventView {
    reliable_order(
        RecepientPeer::Peer(peer),
        CommandView::RequestData(RequestDataCommand { section, peer_id: local }),
    )
}

/// The orders that carry out what a scheduling pass decided.
pub open spec fn data_requests(
    asked: Seq<(PeerId, DataSectionIdentifier)>,
    local: PeerId,
) -> Seq<NetworkedCommandEventView> {
    asked.map_values(|ask: (PeerId, DataSectionIdentifier)| data_request(ask.0, ask.1, local))
}

/// A scheduling pass neither loses a section nor hands one out twice: the
/// peers keep their number, their identities and what they awaited; the
/// sections that are left are the first ones of those that were; those that
/// were handed out are the rest, last one first; and afterwards either no
/// section is left or no peer is idle.
pub proof fn lemma_schedule_pass(peers: Seq<UploadingPeer>, sections: Seq<DataSectionIdentifier>)
    ensures
        ({
            let pass = schedule_pass(peers, sections);
            &&& pass.peers.len() == peers.len()
            &&& pass.sections.len() + pass.asked.len() == sections.len()
            &&& pass.sections == sections.take(pass.sections.len() as int)
            &&& forall|k: int|
                0 <= k < pass.asked.len() ==> (#[trigger] pass.asked[k]).1 == sections[sections.len()
                    - 1 - k]
            &&& forall|i: int|
                0 <= i < peers.len() ==> {
                    &&& (#[trigger] pass.peers[i]).id == peers[i].id
                    &&& peers[i].current_request is Some ==> pass.peers[i] == peers[i]
                    &&& peers[i].current_request is None ==> (pass.peers[i].current_request is None
                        || pass.peers[i].current_request == Some(
                        sections[sections.len() - 1 - schedule_pass(
                            peers.take(i),
                            sections,
                        ).asked.len()],
                    ) && schedule_pass(peers.take(i), sections).asked.len() < sections.len())
                }
            &&& pass.sections.len() == 0 || forall|i: int|
                0 <= i < peers.len() ==> (#[trigger] pass.peers[i]).current_request is Some
        }),
    decreases peers.len(),
{
    let pass = schedule_pass(peers, sections);
    if !(peers.len() == 0) {
        let shorter = peers.drop_last();
        lemma_schedule_pass(shorter, sections);
        assert forall|i: int| 0 <= i < peers.len() implies {
            &&& (#[trigger] pass.peers[i]).id == peers[i].id
            &&& peers[i].current_request is Some ==> pass.peers[i] == peers[i]
            &&& peers[i].current_request is None ==> (pass.peers[i].current_request is None
                || pass.peers[i].current_request == Some(
                sections[sections.len() - 1 - schedule_pass(peers.take(i), sections).asked.len()],
            ) && schedule_pass(peers.take(i), sections).asked.len() < sections.len())
        } by {
            if i < shorter.len() {
                assert(peers.take(i) =~= shorter.take(i));
            }
        }
        if pass.sections.len() != 0 {
            assert forall|i: int| 0 <= i < peers.len() implies (
            #[trigger] pass.peers[i]).current_request is Some by {
            }
        }
    }
}

/// One scheduling pass over the download in progress: each peer that awaits
/// nothing is asked for one section that nobody has been asked for. Without
/// a download, or without a local identity, nothing happens.
pub fn download_file(
    download: &mut DownloadState,
    local_peer_id: Option<LocalPeerId>,
) -> (orders: Vec<NetworkedCommandEvent>)
    ensures
        match (old(download)@, local_peer_id) {
            (Some(before), Some(local)) => {
                let pass = schedule_pass(before.peers, before.sections);
                &&& final(download)@ == Some(
                    FileDownloadView { peers: pass.peers, sections: pass.sections, ..before },
                )
                &&& views(orders@) == data_requests(pass.asked, local.id)
            },
            _ => final(download)@ == old(download)@ && orders@.len() == 0,
        },
        final(download)@ matches Some(after) ==> after.valid(),
{
    let mut orders: Vec<NetworkedCommandEvent> = Vec::new();
    let local = match local_peer_id {
        Some(local) => local,
        None => {
            download.session_is_valid();
            return orders;
        },
    };
    let session = match download.state.take() {
        Some(session) => session,
        None => {
            return orders;
        },
    };
    proof {
        use_type_invariant(&session);
    }
    let ghost before = session@;
    let FileDownload { request, chunk, peers, sections, data } = session;
    let mut peers = peers;
    let mut sections = sections;
    let mut i: usize = 0;
    while i < peers.len()
        invariant
            i <= peers.len(),
            peers.len() == before.peers.len(),
            before.valid(),
            request == before.request,
            chunk == before.chunk,
            data@ == before.data,
            peers@ == schedule_pass(before.peers.take(i as int), before.sections).peers
                + before.peers.skip(i as int),
            sections@ == schedule_pass(before.peers.take(i as int), before.sections).sections,
            views(orders@) == data_requests(
                schedule_pass(before.peers.take(i as int), before.sections).asked,
                local.id,
            ),
            (FileDownloadView { peers: peers@, sections: sections@, ..before }).valid(),
        decreases peers.len() - i,
    {
        let ghost sent = orders@;
        proof {
            assert(before.peers.take(i + 1).drop_last() =~= before.peers.take(i as int));
        }
        let peer = peers[i];
        if peer.current_request.is_none() && sections.len() > 0 {
            match sections.pop() {
                Some(section) => {
                    peers.set(i, UploadingPeer { id: peer.id, current_request: Some(section) });
                    orders.push(
                        make_reliable_order(
                            RecepientPeer::Peer(peer.id),
                            Command::RequestData(
                                RequestDataCommand { section, peer_id: local.id },
                            ),
                        ),
                    );
                    proof {
                        lemma_views_push(sent, orders@.last());
                        assert(sections@ =~= before.all_sections().take(sections@.len() as int));
                        assert(section.index == sections@.len());
                    }
                },
                None => {},
            }
        }
        i = i + 1;
    }
    proof {
        assert(before.peers.take(i as int) =~= before.peers);
    }
    download.state = Some(FileDownload { request, chunk, peers, sections, data });
    orders
}

/// Whether the bytes of `section` can be copied into a buffer of
/// `buffer_len` bytes: its range is empty, or it lies within the buffer and
/// the bytes that came are enough to fill it.
pub open spec fn section_fits(buffer_len: nat, section: DownloadedSectionView) -> bool {
    section.id.start >= section.id.end || (section.id.end <= buffer_len && section.id.end
        - section.id.start <= section.data.len())
}

/// `buffer` with the bytes of `section` copied over its range.
pub open spec fn written(buffer: Seq<u8>, section: DownloadedSectionView) -> Seq<u8> {
    if section.id.start < section.id.end {
        buffer.take(section.id.start as int) + section.data.take(
            section.id.end - section.id.start,
        ) + buffer.skip(section.id.end as int)
    } else {
        buffer
    }
}

/// `peers`, where `peer` awaits nothing any more.
pub open spec fn released(peers: Seq<UploadingPeer>, peer: PeerId) -> Seq<UploadingPeer> {
    peers.map_values(
        |entry: UploadingPeer|
            if entry.id == peer {
                UploadingPeer { id: entry.id, current_request: None }
            } else {
                entry
            },
    )
}

/// The download after one section has arrived: its bytes stand in the
/// buffer, and the peer that sent it awaits nothing. A section that does not
/// fit the buffer is dropped, and the download is as it was.
pub open spec fn receive_section(
    download: FileDownloadView,
    event: IncomingDownloadView,
) -> FileDownloadView {
    if section_fits(download.data.len(), event.downloaded_section) {
        FileDownloadView {
            data: written(download.data, event.downloaded_section),
            peers: released(download.peers, event.peer_id),
            ..download
        }
    } else {
        download
    }
}

/// The download after the sections of `events` have arrived, in order.
pub open spec fn receive_sections(
    download: FileDownloadView,
    events: Seq<IncomingDownloadView>,
) -> FileDownloadView
    decreases events.len(),
{
    if events.len() == 0 {
        download
    } else {
        receive_section(receive_sections(download, events.drop_last()), events.last())
    }
}

/// Receiving a section keeps a download valid, changes neither what is asked
/// for nor the sections still to be asked for, and leaves the buffer at its
/// length.
pub proof fn lemma_receive_section(download: FileDownloadView, event: IncomingDownloadView)
    requires
        download.valid(),
    ensures
        receive_section(download, event).valid(),
        receive_section(download, event).request == download.request,
        receive_section(download, event).sections == download.sections,
        receive_section(download, event).data.len() == download.data.len(),
        receive_section(download, event).peers.len() == download.peers.len(),
{
}

/// Receiving sections keeps a download valid, changes neither what is asked
/// for nor the sections still to be asked for, and leaves the buffer at its
/// length.
pub proof fn lemma_receive_sections(download: FileDownloadView, events: Seq<IncomingDownloadView>)
    requires
        download.valid(),
    ensures
        receive_sections(download, events).valid(),
        receive_sections(download, events).request == download.request,
        receive_sections(download, events).sections == download.sections,
        receive_sections(download, events).data.len() == download.data.len(),
        receive_sections(download, events).peers.len() == download.peers.len(),
    decreases events.len(),
{
    if events.len() > 0 {
        lemma_receive_sections(download, events.drop_last());
    }
}

/// Whether `section` holds the bytes that `source` has in its range.
pub open spec fn carries(source: Seq<u8>, section: DownloadedSectionView) -> bool {
    &&& section.id.start <= section.id.end <= source.len()
    &&& section.data == source.subrange(section.id.start as int, section.id.end as int)
}

/// Whether the range of one of `events` holds the offset `at`.
pub open spec fn covered(events: Seq<IncomingDownloadView>, at: int) -> bool {
    exists|i: int|
        0 <= i < events.len() && (#[trigger] events[i]).downloaded_section.id.start <= at
            < events[i].downloaded_section.id.end
}

/// Reassembly: where each section that arrives holds the bytes of the source
/// in its range, the buffer agrees with the source at every offset that the
/// section of some arrival holds, in whatever order the sections arrive and
/// however often. So once the arrivals hold every offset, the buffer is the
/// source.
pub proof fn lemma_reassembly(
    download: FileDownloadView,
    source: Seq<u8>,
    events: Seq<IncomingDownloadView>,
)
    requires
        download.valid(),
        source.len() == download.data.len(),
        forall|i: int|
            0 <= i < events.len() ==> carries(source, (#[trigger] events[i]).downloaded_section),
    ensures
        receive_sections(download, events).data.len() == source.len(),
        forall|at: int|
            0 <= at < source.len() && covered(events, at) ==> receive_sections(
                download,
                events,
            ).data[at] == source[at],
        (forall|at: int| 0 <= at < source.len() ==> covered(events, at)) ==> receive_sections(
            download,
            events,
        ).data == source,
    decreases events.len(),
{
    let after = receive_sections(download, events);
    if events.len() > 0 {
        let earlier = events.drop_last();
        let last = events.last().downloaded_section;
        assert forall|i: int| 0 <= i < earlier.len() implies carries(
            source,
            (#[trigger] earlier[i]).downloaded_section,
        ) by {
        }
        lemma_reassembly(download, source, earlier);
        assert forall|at: int| 0 <= at < source.len() && covered(events, at) implies after.data[at]
            == source[at] by {
            let i = choose|i: int|
                0 <= i < events.len() && (#[trigger] events[i]).downloaded_section.id.start <= at
                    < events[i].downloaded_section.id.end;
            if !(last.id.start <= at < last.id.end) {
                assert(earlier[i] == events[i]);
            }
        }
    }
    if forall|at: int| 0 <= at < source.len() ==> covered(events, at) {
        assert forall|at: int| 0 <= at < source.len() implies after.data[at] == source[at] by {
            assert(covered(events, at));
        }
    }
}

/// The arrivals that hold every section of a partition hold every offset of
/// the content.
pub proof fn lemma_sections_cover(
    size: nat,
    chunk: nat,
    data_id: DataId,
    events: Seq<IncomingDownloadView>,
)
    requires
        chunk > 0,
        size <= usize::MAX,
        forall|k: int|
            0 <= k < section_count(size, chunk) ==> exists|i: int|
                0 <= i < events.len() && (#[trigger] events[i]).downloaded_section.id
                    == #[trigger] section_at(size, chunk, data_id, k),
    ensures
        forall|at: int| 0 <= at < size ==> covered(events, at),
{
    lemma_partition_covers(size, chunk, data_id);
    let sections = partition(size, chunk, data_id);
    assert forall|at: int| 0 <= at < size implies covered(events, at) by {
        let c = chunk as int;
        let n = sections.len() as int;
        let k = at / c;
        let r = at % c;
        lemma_fundamental_div_mod(at, c);
        assert(0 <= k < n) by (nonlinear_arith)
            requires
                c > 0,
                0 <= at < size,
                at == c * k + r,
                0 <= r < c,
                size <= n * c,
        ;
        let i = choose|i: int|
            0 <= i < events.len() && (#[trigger] events[i]).downloaded_section.id
                == #[trigger] section_at(size, chunk, data_id, k);
        assert(events[i].downloaded_section.id == sections[k]);
    }
}

/// Copies into the buffer of the download in progress the bytes of each
/// section that has arrived, and notes that the peer that sent it awaits
/// nothing. Without a download the sections are ignored.
pub fn recieve_data(download: &mut DownloadState, events: &Vec<IncomingDownload>)
    ensures
        final(download)@ == match old(download)@ {
            Some(before) => Some(receive_sections(before, views(events@))),
            None => None,
        },
        final(download)@ matches Some(after) ==> after.valid(),
{
    let session = match download.state.take() {
        Some(session) => session,
        None => {
            return ;
        },
    };
    proof {
        use_type_invariant(&session);
    }
    let ghost before = session@;
    let FileDownload { request, chunk, peers, sections, data } = session;
    let mut peers = peers;
    let mut data = data;
    let mut i: usize = 0;
    while i < events.len()
        invariant
            i <= events.len(),
            before.valid(),
            (FileDownloadView { request, chunk, peers: peers@, sections: sections@, data: data@ })
                == receive_sections(before, views(events@).take(i as int)),
            (FileDownloadView {
                request,
                chunk,
                peers: peers@,
                sections: sections@,
                data: data@,
            }).valid(),
        decreases events.len() - i,
    {
        let ghost current = FileDownloadView {
            request,
            chunk,
            peers: peers@,
            sections: sections@,
            data: data@,
        };
        let event = &events[i];
        proof {
            assert(views(events@).take(i + 1).drop_last() =~= views(events@).take(i as int));
        }
        let start: usize = event.downloaded_section.id.start;
        let end: usize = event.downloaded_section.id.end;
        let empty: bool = start >= end;
        if empty || (end <= data.len() && end - start <= event.downloaded_section.data.len()) {
            if !empty {
                let mut at: usize = start;
                while at < end
                    invariant
                        start <= at <= end <= data.len(),
                        end - start <= event.downloaded_section.data.len(),
                        data.len() == current.data.len(),
                        data@ == current.data.take(start as int)
                            + event.downloaded_section.data@.subrange(0, at - start)
                            + current.data.skip(at as int),
                    decreases end - at,
                {
                    data.set(at, event.downloaded_section.data[at - start]);
                    at = at + 1;
                }
            }
            let mut k: usize = 0;
            while k < peers.len()
                invariant
                    k <= peers.len(),
                    peers.len() == current.peers.len(),
                    peers@ == released(current.peers.take(k as int), event.peer_id)
                        + current.peers.skip(k as int),
                decreases peers.len() - k,
            {
                let entry = peers[k];
                if entry.id == event.peer_id {
                    peers.set(k, UploadingPeer { id: entry.id, current_request: None });
                }
                k = k + 1;
            }
            assert(peers@ =~= released(current.peers, event.peer_id));
        }
        i = i + 1;
    }
    assert(views(events@).take(i as int) =~= views(events@));
    download.state = Some(FileDownload { request, chunk, peers, sections, data });
}

/// The order that releases the upload of `peer`.
pub open spec fn unlock_order(peer: PeerId) -> NetworkedCommandEventView {
    reliable_order(RecepientPeer::Peer(peer), CommandView::UnlockUpload(UnlockUploadCommand))
}

/// One release for each peer that served a download.
pub open spec fn unlock_orders(peers: Seq<UploadingPeer>) -> Seq<NetworkedCommandEventView> {
    peers.map_values(|peer: UploadingPeer| unlock_order(peer.id))
}

/// What the end of a download asks of the rest of the program: the request
/// is to be raised again, now that the store can answer it; the peers that
/// served are to be released; and this process is to announce itself as free.
#[derive(Clone, Debug, PartialEq, Eq)]
pub struct CompletedDownload {
    pub request: LoadRequest,
    pub unlocks: Vec<NetworkedCommandEvent>,
    pub available: SendUploadAvailable,
}

/// The value of a `CompletedDownload`, as contracts speak of it.
pub struct CompletedDownloadView {
    pub request: LoadRequest,
    pub unlocks: Seq<NetworkedCommandEventView>,
    pub available: SendUploadAvailable,
}

impl View for CompletedDownload {
    type V = CompletedDownloadView;

    open spec fn view(&self) -> CompletedDownloadView {
        CompletedDownloadView {
            request: self.request,
            unlocks: views(self.unlocks@),
            available: self.available,
        }
    }
}

/// Ends the download in progress once it is complete: its buffer goes into
/// the store under the identifier of the content, the slot becomes free, and
/// what is to follow is returned. A download that is not complete, and an
/// empty slot, are left as they are, and so is the store.
pub fn complete_download(
    download: &mut DownloadState,
    bank: &mut Bank,
) -> (completed: Option<CompletedDownload>)
    ensures
        match old(download)@ {
            Some(session) if session.done() => {
                &&& download_phase(final(download)@) == DownloadPhase::Idle
                &&& final(bank)@ == old(bank)@.insert(session.request.id.data_id, session.data)
                &&& completed matches Some(outcome)
                &&& outcome@ == (CompletedDownloadView {
                    request: session.request,
                    unlocks: unlock_orders(session.peers),
                    available: SendUploadAvailable,
                })
            },
            _ => {
                &&& final(download)@ == old(download)@
                &&& final(bank)@ == old(bank)@
                &&& completed is None
            },
        },
        final(download)@ matches Some(after) ==> after.valid(),
{
    let done = match &download.state {
        Some(session) => session.is_done(),
        None => false,
    };
    if !done {
        download.session_is_valid();
        return None;
    }
    let session = match download.state.take() {
        Some(session) => session,
        None => {
            return None;
        },
    };
    let FileDownload { request, chunk, peers, sections, data } = session;
    bank.insert_data(&request.id.data_id, data);
    let mut unlocks: Vec<NetworkedCommandEvent> = Vec::new();
    let mut i: usize = 0;
    while i < peers.len()
        invariant
            i <= peers.len(),
            views(unlocks@) == unlock_orders(peers@.take(i as int)),
        decreases peers.len() - i,
    {
        let ghost sent = unlocks@;
        unlocks.push(
            make_reliable_order(
                RecepientPeer::Peer(peers[i].id),
                Command::UnlockUpload(UnlockUploadCommand),
            ),
        );
        i = i + 1;
        proof {
            lemma_views_push(sent, unlocks@.last());
        }
    }
    assert(peers@.take(i as int) =~= peers@);
    Some(CompletedDownload { request, unlocks, available: SendUploadAvailable })
}

/// The upload in progress: the peer it is locked to, and the bytes it serves.
pub struct FileUpload {
    target_peer_id: PeerId,
    file: Vec<u8>,
}

/// The value of a `FileUpload`, as contracts speak of it.
pub struct FileUploadView {
    pub target_peer_id: PeerId,
    pub file: Seq<u8>,
}

impl View for FileUpload {
    type V = FileUploadView;

    closed spec fn view(&self) -> FileUploadView {
        FileUploadView { target_peer_id: self.target_peer_id, file: self.file@ }
    }
}

/// The upload slot: at most one upload at a time.
pub struct UploadState {
    state: Option<FileUpload>,
}

impl View for UploadState {
    type V = Option<FileUploadView>;

    closed spec fn view(&self) -> Option<FileUploadView> {
        match self.state {
            Some(upload) => Some(upload@),
            None => None,
        }
    }
}

impl FileUpload {
    /// The peer that this upload is locked to.
    pub fn target_peer_id(&self) -> (peer: PeerId)
        ensures
            peer == self@.target_peer_id,
    {
        self.target_peer_id
    }

    /// The bytes that this upload serves.
    pub fn file(&self) -> (file: &Vec<u8>)
        ensures
            file@ == self@.file,
    {
        &self.file
    }
}

impl UploadState {
    /// A free upload slot.
    pub fn new() -> (slot: UploadState)
        ensures
            slot@ is None,
    {
        UploadState { state: None }
    }

    /// The upload in progress, if there is one.
    pub fn state(&self) -> (upload: Option<&FileUpload>)
        ensures
            match upload {
                Some(upload) => self@ == Some(upload@),
                None => self@ is None,
            },
    {
        self.state.as_ref()
    }
}

/// The upload slot after one request for a lock: a free slot is locked to
/// the requester if the store holds the content; an occupied slot stays as
/// it is.
pub open spec fn lock_step(
    slot: Option<FileUploadView>,
    bank: Map<DataId, Seq<u8>>,
    event: UploadRequest,
) -> Option<FileUploadView> {
    if slot is None && bank.contains_key(event.load_id.data_id) {
        Some(FileUploadView { target_peer_id: event.peer_id, file: bank[event.load_id.data_id] })
    } else {
        slot
    }
}

/// The upload slot after the requests of `events`, in order.
pub open spec fn lock_steps(
    slot: Option<FileUploadView>,
    bank: Map<DataId, Seq<u8>>,
    events: Seq<UploadRequest>,
) -> Option<FileUploadView>
    decreases events.len(),
{
    if events.len() == 0 {
        slot
    } else {
        lock_step(lock_steps(slot, bank, events.drop_last()), bank, events.last())
    }
}

/// The order that tells `requester` that the peer `local` now serves it.
pub open spec fn lock_granted(requester: PeerId, local: PeerId) -> NetworkedCommandEventView {
    reliable_order(
        RecepientPeer::Peer(requester),
        CommandView::SuccessfulUploadLock(SuccessfulUploadLockedCommand { peer_id: local }),
    )
}

/// The upload slot admits one upload: an occupied slot is never taken over,
/// and of the requests that reach a free slot the first whose content the
/// store holds wins it; if the store holds the content of none, the slot
/// stays free.
pub proof fn lemma_lock_steps(
    slot: Option<FileUploadView>,
    bank: Map<DataId, Seq<u8>>,
    events: Seq<UploadRequest>,
)
    ensures
        slot is Some ==> lock_steps(slot, bank, events) == slot,
        slot is None ==> match lock_steps(slot, bank, events) {
            Some(upload) => exists|i: int|
                {
                    &&& 0 <= i < events.len()
                    &&& bank.contains_key((#[trigger] events[i]).load_id.data_id)
                    &&& upload == (FileUploadView {
                        target_peer_id: events[i].peer_id,
                        file: bank[events[i].load_id.data_id],
                    })
                    &&& forall|k: int|
                        0 <= k < i ==> !bank.contains_key((#[trigger] events[k]).load_id.data_id)
                },
            None => forall|k: int|
                0 <= k < events.len() ==> !bank.contains_key(
                    (#[trigger] events[k]).load_id.data_id,
                ),
        },
    decreases events.len(),
{
    if events.len() > 0 {
        let shorter = events.drop_last();
        lemma_lock_steps(slot, bank, shorter);
        if slot is None {
            match lock_steps(slot, bank, shorter) {
                Some(upload) => {
                    let i = choose|i: int|
                        {
                            &&& 0 <= i < shorter.len()
                            &&& bank.contains_key((#[trigger] shorter[i]).load_id.data_id)
                            &&& upload == (FileUploadView {
                                target_peer_id: shorter[i].peer_id,
                                file: bank[shorter[i].load_id.data_id],
                            })
                            &&& forall|k: int|
                                0 <= k < i ==> !bank.contains_key(
                                    (#[trigger] shorter[k]).load_id.data_id,
                                )
                        };
                    assert forall|k: int| 0 <= k < i implies !bank.contains_key(
                        (#[trigger] events[k]).load_id.data_id,
                    ) by {
                        assert(events[k] == shorter[k]);
                    }
                },
                None => {
                    assert forall|k: int| 0 <= k < shorter.len() implies !bank.contains_key(
                        (#[trigger] events[k]).load_id.data_id,
                    ) by {
                        assert(events[k] == shorter[k]);
                    }
                },
            }
        }
    }
}

/// Single admission: a slot holds at most one transfer, and a transfer that
/// holds a slot keeps it. Neither the requests that wait for the download
/// slot nor the requests of peers for the upload slot change a slot that is
/// occupied.
pub proof fn lemma_single_admission(
    queue: Seq<LoadRequest>,
    download: FileDownloadView,
    upload: FileUploadView,
    bank: Map<DataId, Seq<u8>>,
    requests: Seq<UploadRequest>,
)
    ensures
        admitted(queue, Some(download)) == Some(download),
        lock_steps(Some(upload), bank, requests) == Some(upload),
{
    lemma_lock_steps(Some(upload), bank, requests);
}

/// Answers requests for a lock on this process's upload. A free slot is
/// locked to the first requester whose content the store holds, and that
/// requester is told so; every other request gets no answer. Without a local
/// identity nothing happens.
pub fn lock_upload(
    events: &Vec<UploadRequest>,
    upload_state: &mut UploadState,
    bank: &Bank,
    local_peer_id: Option<LocalPeerId>,
) -> (orders: Vec<NetworkedCommandEvent>)
    ensures
        match local_peer_id {
            Some(local) => {
                &&& final(upload_state)@ == lock_steps(old(upload_state)@, bank@, events@)
                &&& views(orders@) == match (old(upload_state)@, final(upload_state)@) {
                    (None, Some(upload)) => seq![lock_granted(upload.target_peer_id, local.id)],
                    _ => Seq::empty(),
                }
            },
            None => final(upload_state)@ == old(upload_state)@ && orders@.len() == 0,
        },
        old(upload_state)@ is Some ==> final(upload_state)@ == old(upload_state)@ && orders@.len()
            == 0,
{
    let mut orders: Vec<NetworkedCommandEvent> = Vec::new();
    proof {
        lemma_lock_steps(old(upload_state)@, bank@, events@);
    }
    let local = match local_peer_id {
        Some(local) => local,
        None => {
            return orders;
        },
    };
    let mut i: usize = 0;
    while i < events.len()
        invariant
            i <= events.len(),
            upload_state@ == lock_steps(old(upload_state)@, bank@, events@.take(i as int)),
            views(orders@) == match (old(upload_state)@, upload_state@) {
                (None, Some(upload)) => seq![lock_granted(upload.target_peer_id, local.id)],
                _ => Seq::<NetworkedCommandEventView>::empty(),
            },
        decreases events.len() - i,
    {
        proof {
            assert(events@.take(i + 1).drop_last() =~= events@.take(i as int));
            lemma_lock_steps(old(upload_state)@, bank@, events@.take(i as int));
        }
        let event = events[i];
        if upload_state.state.is_none() {
            match bank.request_data(&event.load_id.data_id) {
                Some(file_data) => {
                    upload_state.state = Some(
                        FileUpload { target_peer_id: event.peer_id, file: file_data.clone() },
                    );
                    orders.push(
                        make_reliable_order(
                            RecepientPeer::Peer(event.peer_id),
                            Command::SuccessfulUploadLock(
                                SuccessfulUploadLockedCommand { peer_id: local.id },
                            ),
                        ),
                    );
                },
                None => {},
            }
        }
        i = i + 1;
    }
    assert(events@.take(i as int) =~= events@);
    orders
}

/// The order that carries to `requester` the bytes of `section`, sent by the
/// peer `local`.
pub open spec fn data_reply(
    requester: PeerId,
    local: PeerId,
    data: Seq<u8>,
    section: DataSectionIdentifier,
) -> NetworkedCommandEventView {
    reliable_order(
        RecepientPeer::Peer(requester),
        CommandView::RecieveData(
            RecieveDataCommandView {
                peer_id: local,
                data: DownloadedSectionView { data, id: section },
            },
        ),
    )
}

/// The answer to one request for data: the bytes of its range, if the range
/// lies within the file; none if it does not. Which peer asks makes no
/// difference.
pub open spec fn served(
    file: Seq<u8>,
    event: DataRequest,
    local: PeerId,
) -> Option<NetworkedCommandEventView> {
    if event.section.start <= event.section.end <= file.len() {
        Some(
            data_reply(
                event.peer_id,
                local,
                file.subrange(event.section.start as int, event.section.end as int),
                event.section,
            ),
        )
    } else {
        None
    }
}

/// The answers to the requests of `events` that can be answered, in order.
pub open spec fn served_all(
    file: Seq<u8>,
    events: Seq<DataRequest>,
    local: PeerId,
) -> Seq<NetworkedCommandEventView> {
    events.filter_map(|event: DataRequest| served(file, event, local))
}

/// The bytes of `file` from `start` up to, not including, `end`.
fn copy_range(file: &Vec<u8>, start: usize, end: usize) -> (bytes: Vec<u8>)
    requires
        start <= end <= file.len(),
    ensures
        bytes@ == file@.subrange(start as int, end as int),
{
    let mut bytes: Vec<u8> = Vec::new();
    let mut at: usize = start;
    while at < end
        invariant
            start <= at <= end <= file.len(),
            bytes@ == file@.subrange(start as int, at as int),
        decreases end - at,
    {
        bytes.push(file[at]);
        at = at + 1;
    }
    bytes
}

/// Answers requests for the bytes of sections from the upload in progress.
/// A request whose range lies outside the file gets no answer; the upload
/// goes on. Without an upload, or without a local identity, nothing is
/// answered.
pub fn recieve_data_request(
    upload_state: &UploadState,
    events: &Vec<DataRequest>,
    local_peer_id: Option<LocalPeerId>,
) -> (orders: Vec<NetworkedCommandEvent>)
    ensures
        views(orders@) == match (upload_state@, local_peer_id) {
            (Some(upload), Some(local)) => served_all(upload.file, events@, local.id),
            _ => Seq::empty(),
        },
{
    let mut orders: Vec<NetworkedCommandEvent> = Vec::new();
    let upload = match &upload_state.state {
        Some(upload) => upload,
        None => {
            return orders;
        },
    };
    let local = match local_peer_id {
        Some(local) => local,
        None => {
            return orders;
        },
    };
    let mut i: usize = 0;
    while i < events.len()
        invariant
            i <= events.len(),
            views(orders@) == served_all(upload@.file, events@.take(i as int), local.id),
        decreases events.len() - i,
    {
        let event = events[i];
        proof {
            events@.lemma_filter_map_take_succ(
                |event: DataRequest| served(upload@.file, event, local.id),
                i as int,
            );
        }
        if event.section.start <= event.section.end && event.section.end <= upload.file.len() {
            let data = copy_range(&upload.file, event.section.start, event.section.end);
            orders.push(
                make_reliable_order(
                    RecepientPeer::Peer(event.peer_id),
                    Command::RecieveData(
                        RecieveDataCommand {
                            peer_id: local.id,
                            data: DownloadedSection { data, id: event.section },
                        },
                    ),
                ),
            );
        }
        i = i + 1;
    }
    assert(events@.take(i as int) =~= events@);
    orders
}

/// Ends the upload in progress when the requester releases it, and asks that
/// this process announce itself as free. Releases that reach a free slot
/// change nothing.
pub fn unlock_upload(
    events: &Vec<UnlockUpload>,
    upload: &mut UploadState,
) -> (announce: Option<SendUploadAvailable>)
    ensures
        old(upload)@ is Some && events@.len() > 0 ==> final(upload)@ is None && announce == Some(
            SendUploadAvailable,
        ),
        old(upload)@ is None || events@.len() == 0 ==> final(upload)@ == old(upload)@ && announce
            is None,
{
    if events.len() > 0 && upload.state.is_some() {
        upload.state = None;
        Some(SendUploadAvailable)
    } else {
        None
    }
}

/// Asks that this process announce itself as free once for each peer that
/// has connected.
pub fn send_available_on_connect(
    events: &Vec<PeerConnected>,
) -> (announce: Vec<SendUploadAvailable>)
    ensures
        announce@ == Seq::new(events@.len(), |i: int| SendUploadAvailable),
{
    let mut announce: Vec<SendUploadAvailable> = Vec::new();
    let mut i: usize = 0;
    while i < events.len()
        invariant
            i <= events.len(),
            announce@ == Seq::new(i as nat, |i: int| SendUploadAvailable),
        decreases events.len() - i,
    {
        announce.push(SendUploadAvailable);
        i = i + 1;
    }
    announce
}

/// The order that tells every peer that the peer `local` is free to serve.
pub open spec fn available_order(local: PeerId) -> NetworkedCommandEventView {
    reliable_order(
        RecepientPeer::All,
        CommandView::UploadAvailable(UploadAvailableCommand { peer_id: local }),
    )
}

/// Announces this process as free to serve, once for each request to do so,
/// unless an upload is in progress. Without a local identity nothing is
/// announced.
pub fn send_upload_available(
    upload_state: &UploadState,
    events: &Vec<SendUploadAvailable>,
    local_peer_id: Option<LocalPeerId>,
) -> (orders: Vec<NetworkedCommandEvent>)
    ensures
        views(orders@) == match (upload_state@, local_peer_id) {
            (None, Some(local)) => Seq::new(events@.len(), |i: int| available_order(local.id)),
            _ => Seq::empty(),
        },
{
    let mut orders: Vec<NetworkedCommandEvent> = Vec::new();
    let local = match local_peer_id {
        Some(local) => local,
        None => {
            return orders;
        },
    };
    if upload_state.state.is_some() {
        return orders;
    }
    let mut i: usize = 0;
    while i < events.len()
        invariant
            i <= events.len(),
            views(orders@) == Seq::new(i as nat, |i: int| available_order(local.id)),
        decreases events.len() - i,
    {
        let ghost sent = orders@;
        orders.push(
            make_reliable_order(
                RecepientPeer::All,
                Command::UploadAvailable(UploadAvailableCommand { peer_id: local.id }),
            ),
        );
        i = i + 1;
        proof {
            lemma_views_push(sent, orders@.last());
        }
    }
    orders
}

} // verus!
