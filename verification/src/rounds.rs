//! Rounds of a download: that a transfer whose peers answer with the bytes
//! of the source ends, and ends with the source in the buffer.

use crate::bank::DataId;
use crate::filetransfer::{
    carries, covered, data_reply, lemma_partition_covers, lemma_schedule_pass, partition,
    receive_section, receive_sections, released, schedule_pass, section_count, section_fits,
    served, DataRequest, DataSectionIdentifier, DownloadedSectionView, FileDownloadView,
    IncomingDownloadView, UploadingPeer,
};
use crate::networking::PeerId;
use crate::orders::{arrival_of, RecieveDataCommandView};
use vstd::arithmetic::div_mod::lemma_fundamental_div_mod;
use vstd::prelude::*;

verus! {

/// Whether none of `peers` awaits a section.
pub open spec fn all_idle(peers: Seq<UploadingPeer>) -> bool {
    forall|i: int| 0 <= i < peers.len() ==> (#[trigger] peers[i]).current_request is None
}

/// What a peer that holds `source` sends when it is asked for a section: the
/// bytes of the source in the range of the section.
pub open spec fn answer(
    source: Seq<u8>,
    ask: (PeerId, DataSectionIdentifier),
) -> IncomingDownloadView {
    IncomingDownloadView {
        downloaded_section: DownloadedSectionView {
            data: source.subrange(ask.1.start as int, ask.1.end as int),
            id: ask.1,
        },
        peer_id: ask.0,
    }
}

/// The answer of a peer is what the serving side sends for a request within
/// its file, as the relay hands it to the download.
pub proof fn lemma_answer_is_served(
    source: Seq<u8>,
    requester: PeerId,
    server: PeerId,
    section: DataSectionIdentifier,
)
    requires
        section.start <= section.end <= source.len(),
    ensures
        served(source, DataRequest { peer_id: requester, section }, server) == Some(
            data_reply(
                requester,
                server,
                source.subrange(section.start as int, section.end as int),
                section,
            ),
        ),
        arrival_of(
            RecieveDataCommandView {
                peer_id: server,
                data: DownloadedSectionView {
                    data: source.subrange(section.start as int, section.end as int),
                    id: section,
                },
            },
        ) == answer(source, (server, section)),
{
}

/// The answers to what a scheduling pass asked for, in the order of asking.
pub open spec fn answers(
    source: Seq<u8>,
    asked: Seq<(PeerId, DataSectionIdentifier)>,
) -> Seq<IncomingDownloadView> {
    asked.map_values(|ask: (PeerId, DataSectionIdentifier)| answer(source, ask))
}

/// One round of a download: a scheduling pass, and the arrival of what the
/// peers answered.
pub open spec fn round(download: FileDownloadView, source: Seq<u8>) -> FileDownloadView {
    let pass = schedule_pass(download.peers, download.sections);
    receive_sections(
        FileDownloadView { peers: pass.peers, sections: pass.sections, ..download },
        answers(source, pass.asked),
    )
}

/// The download after `n` rounds.
pub open spec fn rounds(download: FileDownloadView, source: Seq<u8>, n: nat) -> FileDownloadView
    decreases n,
{
    if n == 0 {
        download
    } else {
        rounds(round(download, source), source, (n - 1) as nat)
    }
}

/// The offset up to which bytes are still to be asked for.
pub open spec fn remaining_end(download: FileDownloadView) -> int {
    if download.sections.len() == 0 {
        0
    } else {
        download.sections.last().end as int
    }
}

/// Whether the buffer holds the bytes of the source wherever no section is
/// still to be asked for.
pub open spec fn settled(download: FileDownloadView, source: Seq<u8>) -> bool {
    forall|at: int|
        remaining_end(download) <= at < source.len() ==> download.data[at] == source[at]
}

/// What the arrival of sections does, where each holds bytes of the source:
/// the buffer takes the bytes of the source at the offsets that the sections
/// hold and keeps its own elsewhere; the peers that sent a section await
/// nothing, and no peer comes to await anything.
pub proof fn lemma_arrivals(
    download: FileDownloadView,
    source: Seq<u8>,
    events: Seq<IncomingDownloadView>,
)
    requires
        source.len() == download.data.len(),
        forall|k: int|
            0 <= k < events.len() ==> carries(source, (#[trigger] events[k]).downloaded_section),
    ensures
        ({
            let after = receive_sections(download, events);
            &&& after.request == download.request
            &&& after.chunk == download.chunk
            &&& after.sections == download.sections
            &&& after.data.len() == download.data.len()
            &&& after.peers.len() == download.peers.len()
            &&& forall|at: int|
                0 <= at < source.len() ==> #[trigger] after.data[at] == (if covered(events, at) {
                    source[at]
                } else {
                    download.data[at]
                })
            &&& forall|i: int|
                0 <= i < download.peers.len() ==> {
                    &&& (#[trigger] after.peers[i]).id == download.peers[i].id
                    &&& download.peers[i].current_request is None
                        ==> after.peers[i].current_request is None
                    &&& (exists|k: int|
                        0 <= k < events.len() && (#[trigger] events[k]).peer_id
                            == download.peers[i].id) ==> after.peers[i].current_request is None
                }
        }),
    decreases events.len(),
{
    let after = receive_sections(download, events);
    if events.len() > 0 {
        let earlier = events.drop_last();
        let last = events.last();
        assert forall|k: int| 0 <= k < earlier.len() implies carries(
            source,
            (#[trigger] earlier[k]).downloaded_section,
        ) by {
        }
        lemma_arrivals(download, source, earlier);
        assert forall|at: int| 0 <= at < source.len() implies #[trigger] after.data[at] == (
        if covered(events, at) {
            source[at]
        } else {
            download.data[at]
        }) by {
            let section = last.downloaded_section;
            if !(section.id.start <= at < section.id.end) {
                if !covered(earlier, at) && covered(events, at) {
                    let k = choose|k: int|
                        0 <= k < events.len() && (#[trigger] events[k]).downloaded_section.id.start
                            <= at < events[k].downloaded_section.id.end;
                    assert(earlier[k] == events[k]);
                }
            }
        }
        assert forall|i: int| 0 <= i < download.peers.len() implies {
            &&& (#[trigger] after.peers[i]).id == download.peers[i].id
            &&& download.peers[i].current_request is None
                ==> after.peers[i].current_request is None
            &&& (exists|k: int|
                0 <= k < events.len() && (#[trigger] events[k]).peer_id == download.peers[i].id)
                ==> after.peers[i].current_request is None
        } by {
            if exists|k: int|
                0 <= k < events.len() && (#[trigger] events[k]).peer_id == download.peers[i].id {
                let k = choose|k: int|
                    0 <= k < events.len() && (#[trigger] events[k]).peer_id
                        == download.peers[i].id;
                if k < earlier.len() {
                    assert(earlier[k] == events[k]);
                }
            }
        }
    }
}

/// Whom a scheduling pass asks: each peer that comes out of the pass with a
/// section that it did not await before stands in what was asked, with that
/// section.
pub proof fn lemma_pass_asks(peers: Seq<UploadingPeer>, sections: Seq<DataSectionIdentifier>)
    ensures
        ({
            let pass = schedule_pass(peers, sections);
            &&& forall|i: int|
                0 <= i < peers.len() && peers[i].current_request is None && (
                #[trigger] pass.peers[i]).current_request is Some ==> exists|k: int|
                    0 <= k < pass.asked.len() && #[trigger] pass.asked[k] == (
                        peers[i].id,
                        pass.peers[i].current_request->Some_0,
                    )
            &&& forall|k: int|
                0 <= k < pass.asked.len() ==> exists|i: int|
                    0 <= i < peers.len() && (#[trigger] peers[i]).id == (#[trigger] pass.asked[k]).0
            &&& pass.asked.len() > 0 || sections.len() == 0 || forall|i: int|
                0 <= i < peers.len() ==> (#[trigger] peers[i]).current_request is Some
        }),
    decreases peers.len(),
{
    let pass = schedule_pass(peers, sections);
    if peers.len() > 0 {
        let shorter = peers.drop_last();
        let before = schedule_pass(shorter, sections);
        lemma_pass_asks(shorter, sections);
        lemma_schedule_pass(shorter, sections);
        assert forall|i: int|
            0 <= i < peers.len() && peers[i].current_request is None && (
            #[trigger] pass.peers[i]).current_request is Some implies exists|k: int|
            0 <= k < pass.asked.len() && #[trigger] pass.asked[k] == (
                peers[i].id,
                pass.peers[i].current_request->Some_0,
            ) by {
            if i < shorter.len() {
                let k = choose|k: int|
                    0 <= k < before.asked.len() && #[trigger] before.asked[k] == (
                        shorter[i].id,
                        before.peers[i].current_request->Some_0,
                    );
                assert(pass.asked[k] == before.asked[k]);
            } else {
                let k = pass.asked.len() - 1;
                assert(pass.asked[k] == (peers[i].id, pass.peers[i].current_request->Some_0));
            }
        }
        assert forall|k: int| 0 <= k < pass.asked.len() implies exists|i: int|
            0 <= i < peers.len() && (#[trigger] peers[i]).id == (#[trigger] pass.asked[k]).0 by {
        }
        if !(pass.asked.len() > 0 || sections.len() == 0) {
            assert forall|i: int| 0 <= i < peers.len() implies (
            #[trigger] peers[i]).current_request is Some by {
                if i < shorter.len() {
                    assert(peers[i] == shorter[i]);
                }
            }
        }
    }
}

/// What a scheduling pass asks of a valid download: the last of the sections
/// that are left, from the last one backwards, each of them a section of the
/// partition that lies within the content.
pub proof fn lemma_pass_of_valid(download: FileDownloadView)
    requires
        download.valid(),
    ensures
        ({
            let pass = schedule_pass(download.peers, download.sections);
            let all = download.all_sections();
            let were = download.sections.len() as int;
            &&& pass.peers.len() == download.peers.len()
            &&& pass.sections.len() + pass.asked.len() == were
            &&& pass.sections == all.take(pass.sections.len() as int)
            &&& forall|k: int|
                0 <= k < pass.asked.len() ==> {
                    &&& (#[trigger] pass.asked[k]).1 == all[were - 1 - k]
                    &&& pass.asked[k].1.start < pass.asked[k].1.end <= download.request.id.size
                }
        }),
{
    let pass = schedule_pass(download.peers, download.sections);
    let all = download.all_sections();
    let were = download.sections.len() as int;
    lemma_schedule_pass(download.peers, download.sections);
    lemma_partition_covers(
        download.request.id.size as nat,
        download.chunk as nat,
        download.request.id.data_id,
    );
    assert forall|k: int| 0 <= k < pass.asked.len() implies {
        &&& (#[trigger] pass.asked[k]).1 == all[were - 1 - k]
        &&& pass.asked[k].1.start < pass.asked[k].1.end <= download.request.id.size
    } by {
    }
}

/// The offsets between the end of the sections that a round leaves and the
/// end of those that it found lie in the sections that the round asked for.
proof fn lemma_asked_cover(download: FileDownloadView, source: Seq<u8>, at: int)
    requires
        download.valid(),
        source.len() == download.data.len(),
        ({
            let pass = schedule_pass(download.peers, download.sections);
            let left = FileDownloadView { sections: pass.sections, ..download };
            remaining_end(left) <= at < remaining_end(download)
        }),
    ensures
        covered(
            answers(source, schedule_pass(download.peers, download.sections).asked),
            at,
        ),
{
    let pass = schedule_pass(download.peers, download.sections);
    let events = answers(source, pass.asked);
    let all = download.all_sections();
    let size = download.request.id.size as nat;
    let chunk = download.chunk as nat;
    let data_id = download.request.id.data_id;
    let left = pass.sections.len() as int;
    let were = download.sections.len() as int;
    lemma_pass_of_valid(download);
    let j = at / chunk as int;
    assert(0 <= j < all.len() && all[j].start <= at < all[j].end && all[were - 1].end <= size) by {
        lemma_partition_covers(size, chunk, data_id);
        lemma_asked_cover_index(size, chunk, at);
    }
    if left > 0 {
        if j < left - 1 {
            lemma_sections_ordered(size, chunk, data_id, j, left - 1);
            assert(all[left - 1].start < all[left - 1].end) by {
                lemma_partition_covers(size, chunk, data_id);
            }
        }
    }
    if j > were - 1 {
        lemma_sections_ordered(size, chunk, data_id, were - 1, j);
    }
    let k = were - 1 - j;
    assert(events[k] == answer(source, pass.asked[k]));
}

/// The section that holds an offset of the content is one of the partition.
proof fn lemma_asked_cover_index(size: nat, chunk: nat, at: int)
    requires
        chunk > 0,
        0 <= at < size,
    ensures
        0 <= at / (chunk as int),
        at / (chunk as int) < section_count(size, chunk),
{
    let c = chunk as int;
    let n = size as int;
    let k = at / c;
    let r = at % c;
    let count = section_count(size, chunk) as int;
    lemma_fundamental_div_mod(n, c);
    assert(0 <= k < count) by (nonlinear_arith)
        requires
            c > 0,
            0 <= at < n,
            at == c * k + r,
            0 <= r < c,
            n == c * (n / c) + (n % c),
            0 <= n % c < c,
            count == (if n % c == 0 {
                n / c
            } else {
                n / c + 1
            }),
    ;
}

/// One round of a valid download whose peers await nothing: afterwards the
/// download is valid again and its peers await nothing again; the sections
/// that were asked for are no longer to be asked for, and their bytes stand
/// in the buffer; and unless no section was left, fewer are left now.
pub proof fn lemma_round(download: FileDownloadView, source: Seq<u8>)
    requires
        download.valid(),
        source.len() == download.data.len(),
        download.peers.len() > 0,
        all_idle(download.peers),
        settled(download, source),
    ensures
        ({
            let after = round(download, source);
            &&& after.valid()
            &&& after.request == download.request
            &&& after.chunk == download.chunk
            &&& after.peers.len() == download.peers.len()
            &&& all_idle(after.peers)
            &&& settled(after, source)
            &&& after.sections.len() <= download.sections.len()
            &&& download.sections.len() > 0 ==> after.sections.len() < download.sections.len()
        }),
{
    let pass = schedule_pass(download.peers, download.sections);
    let asked = FileDownloadView { peers: pass.peers, sections: pass.sections, ..download };
    let events = answers(source, pass.asked);
    let after = round(download, source);
    lemma_pass_of_valid(download);
    assert forall|k: int| 0 <= k < events.len() implies carries(
        source,
        (#[trigger] events[k]).downloaded_section,
    ) by {
    }
    lemma_arrivals(asked, source, events);
    assert(all_idle(after.peers)) by {
        lemma_pass_asks(download.peers, download.sections);
        lemma_schedule_pass(download.peers, download.sections);
        assert forall|i: int| 0 <= i < after.peers.len() implies (
        #[trigger] after.peers[i]).current_request is None by {
            if pass.peers[i].current_request is Some {
                let k = choose|k: int|
                    0 <= k < pass.asked.len() && #[trigger] pass.asked[k] == (
                        download.peers[i].id,
                        pass.peers[i].current_request->Some_0,
                    );
                assert(events[k].peer_id == asked.peers[i].id);
            }
        }
    }
    assert(download.sections.len() > 0 ==> after.sections.len() < download.sections.len());
    assert(settled(after, source)) by {
        assert forall|at: int| remaining_end(after) <= at < source.len() implies after.data[at]
            == source[at] by {
            if at < remaining_end(download) {
                lemma_asked_cover(download, source, at);
            }
        }
    }
}

/// The sections of a partition lie in the order of their numbers: an earlier
/// one ends where a later one begins, or before.
pub proof fn lemma_sections_ordered(
    size: nat,
    chunk: nat,
    data_id: DataId,
    i: int,
    j: int,
)
    requires
        chunk > 0,
        size <= usize::MAX,
        0 <= i < j < section_count(size, chunk),
    ensures
        partition(size, chunk, data_id)[i].end <= partition(
            size,
            chunk,
            data_id,
        )[j].start,
    decreases j - i,
{
    lemma_partition_covers(size, chunk, data_id);
    if i + 1 < j {
        lemma_sections_ordered(size, chunk, data_id, i + 1, j);
    }
}

/// A transfer ends with the source: a valid download that at least one peer
/// serves, whose peers await nothing and whose buffer holds the source
/// wherever no section is left to ask for, is complete after as many rounds
/// as it has sections left, and earlier if several peers serve; and then its
/// buffer is the source.
pub proof fn lemma_transfer_completes(download: FileDownloadView, source: Seq<u8>, n: nat)
    requires
        download.valid(),
        source.len() == download.data.len(),
        download.peers.len() > 0,
        all_idle(download.peers),
        settled(download, source),
        n >= download.sections.len(),
    ensures
        rounds(download, source, n).done(),
        rounds(download, source, n).data == source,
        rounds(download, source, n).request == download.request,
    decreases n,
{
    if !(n == 0) {
        lemma_round(download, source);
        lemma_transfer_completes(round(download, source), source, (n - 1) as nat);
    }
}

} // verus!
