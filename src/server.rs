use crate::addr::PeerAddr;
use crate::bytes::{append_bytes, copy_range, utf8_text, text_from_utf8};
use crate::connection::{addr_index, counted, joined, name_used, sessions_wf, smallest_free_number, Connections, Entries};
use crate::datahelpers::{create_player_created_response, create_player_enter_push, created_response_bytes, record_bytes};
use crate::jobtype::{get_job_single_byte, header_of, kind_byte, parse_header, ClientJob, JobType, ServerJob};
use crate::protocol::Protocol;
use vstd::prelude::*;

verus! {

/// Datagrams to send, each with its destination.
pub type Datagrams = Seq<(PeerAddr, Seq<u8>)>;

/// What the server does with one datagram: the datagrams it sends, and
/// whether the datagram counts as a failed one.
pub struct ServerReply {
    pub datagrams: Vec<(PeerAddr, Vec<u8>)>,
    pub failed: bool,
}

pub open spec fn datagrams_view(v: Seq<(PeerAddr, Vec<u8>)>) -> Datagrams {
    Seq::new(v.len(), |i: int| (v[i].0, v[i].1@))
}

/// `msg` to every session among the first `n` whose address is not `src`, in session order.
pub open spec fn fanout(entries: Entries, n: int, src: PeerAddr, msg: Seq<u8>) -> Datagrams
    decreases n,
{
    if n <= 0 || n > entries.len() {
        seq![]
    } else {
        fanout(entries, n - 1, src, msg) + if entries[n - 1].0 == src {
            Seq::<(PeerAddr, Seq<u8>)>::empty()
        } else {
            seq![(entries[n - 1].0, msg)]
        }
    }
}

pub open spec fn to_all_but(entries: Entries, src: PeerAddr, msg: Seq<u8>) -> Datagrams {
    fanout(entries, entries.len() as int, src, msg)
}

/// A two-byte reply header.
pub open spec fn header(handle: u8, server: ServerJob, client: ClientJob) -> Seq<u8> {
    seq![handle, kind_byte((server, client))]
}

/// A PlayerCreatedResponse that only carries a status.
pub open spec fn status_reply(handle: u8, status: u8) -> Seq<u8> {
    header(handle, ServerJob::PlayerCreatedResponse, ClientJob::PlayerEnterRequest) + seq![status]
}

/// The player number of the session at `addr`, 0 when there is none.
pub open spec fn number_at(entries: Entries, addr: PeerAddr) -> u8 {
    match addr_index(entries, addr) {
        Some(k) => entries[k].1.player_number,
        None => 0,
    }
}

/// The reply to a PlayerEnterRequest, given the sessions before and after it.
/// Status 100 for an empty name, 101 for a name in use, 102 when every player
/// number is taken; otherwise the created response to the sender and a
/// PlayerEnterPush to every other session.
pub open spec fn enter_reply(old_e: Entries, new_e: Entries, src: PeerAddr, handle: u8, payload: Seq<u8>) -> (Datagrams, bool) {
    let name = utf8_text(payload);
    if payload.len() == 0 {
        (seq![(src, status_reply(handle, 100))], true)
    } else if name_used(old_e, name) {
        (seq![(src, status_reply(handle, 101))], true)
    } else {
        match smallest_free_number(old_e) {
            None => (seq![(src, status_reply(handle, 102))], false),
            Some(n) => (
                seq![(src, header(handle, ServerJob::PlayerCreatedResponse, ClientJob::PlayerEnterRequest)
                    + created_response_bytes(1, name, n, new_e))]
                    + to_all_but(new_e, src, header(handle, ServerJob::PlayerEnterPush, ClientJob::PlayerEnterRequest)
                    + record_bytes(n, name, src)),
                false,
            ),
        }
    }
}

/// The reply to a DataPushRequest: nothing from an unknown sender, else the
/// data with the sender's number to every other session and a done response
/// to the sender.
pub open spec fn push_reply(entries: Entries, src: PeerAddr, handle: u8, payload: Seq<u8>) -> Datagrams {
    let n = number_at(entries, src);
    if n == 0 {
        seq![]
    } else {
        to_all_but(entries, src, header(handle, ServerJob::DataPush, ClientJob::DataPushRequest) + seq![n] + payload)
            + seq![(src, header(handle, ServerJob::DataPushDoneResponse, ClientJob::DataPushRequest))]
    }
}

/// What the server sends for a request of kind `client` from `src`.
pub open spec fn request_reply(old_e: Entries, new_e: Entries, src: PeerAddr, handle: u8, client: ClientJob, payload: Seq<u8>) -> (Datagrams, bool) {
    match client {
        ClientJob::PlayerEnterRequest => enter_reply(old_e, new_e, src, handle, payload),
        ClientJob::DataPushRequest => (push_reply(old_e, src, handle, payload), false),
        ClientJob::PingRequest => (seq![(src, header(handle, ServerJob::PongResponse, ClientJob::PingRequest))], false),
        _ => (seq![], false),
    }
}

/// Whether a request of kind `client` leaves the sessions as they were.
pub open spec fn keeps_sessions(old_e: Entries, client: ClientJob, payload: Seq<u8>) -> bool {
    client != ClientJob::PlayerEnterRequest || payload.len() == 0 || name_used(old_e, utf8_text(payload))
        || smallest_free_number(old_e) is None
}

/// Builds `header ++ body` as a fresh vector.
fn framed(handle: u8, job: JobType, body: &[u8]) -> (r: Vec<u8>)
    ensures
        r@ == seq![handle, kind_byte(job)] + body@,
{
    let mut v = vec![handle, get_job_single_byte(&job)];
    append_bytes(&mut v, body);
    v
}

fn status_datagram(handle: u8, status: u8) -> (r: Vec<u8>)
    ensures
        r@ == status_reply(handle, status),
{
    let v = vec![handle, get_job_single_byte(&(ServerJob::PlayerCreatedResponse, ClientJob::PlayerEnterRequest)), status];
    assert(v@ =~= status_reply(handle, status));
    v
}

/// Adds `msg` for every session whose address is not `src`.
fn push_to_all_but(out: &mut Vec<(PeerAddr, Vec<u8>)>, connections: &Connections, src: PeerAddr, msg: &Vec<u8>)
    ensures
        datagrams_view(final(out)@) == datagrams_view(old(out)@) + to_all_but(connections.spec_entries(), src, msg@),
{
    let entries = connections.entries();
    let mut i: usize = 0;
    while i < entries.len()
        invariant
            entries@ == connections.spec_entries(),
            i <= entries@.len(),
            datagrams_view(out@) == datagrams_view(old(out)@) + fanout(entries@, i as int, src, msg@),
        decreases entries@.len() - i,
    {
        let ghost before = datagrams_view(out@);
        if entries[i].0 != src {
            let copy = copy_range(msg.as_slice(), 0, msg.len());
            assert(msg@.subrange(0, msg@.len() as int) =~= msg@);
            out.push((entries[i].0, copy));
            assert(datagrams_view(out@) =~= before + seq![(entries@[i as int].0, msg@)]);
        } else {
            assert(datagrams_view(out@) =~= before + Seq::<(PeerAddr, Seq<u8>)>::empty());
        }
        i = i + 1;
        assert(datagrams_view(out@) =~= datagrams_view(old(out)@) + fanout(entries@, i as int, src, msg@));
    }
}

/// The server's answer to one request of kind `job`, with handle `job_index`,
/// from `src_addr`; `raw_data` is the whole datagram.
pub fn handle_data(
    connections: &mut Connections,
    protocols: &Protocol,
    src_addr: PeerAddr,
    job_index: u8,
    job: JobType,
    raw_data: &[u8],
) -> (r: ServerReply)
    requires
        old(connections).wf(),
        protocols.wf(),
        protocols.is_default(),
        raw_data@.len() >= 2,
    ensures
        final(connections).wf(),
        (datagrams_view(r.datagrams@), r.failed) == request_reply(
            old(connections).spec_entries(),
            final(connections).spec_entries(),
            src_addr,
            job_index,
            job.1,
            raw_data@.subrange(2, raw_data@.len() as int),
        ),
        keeps_sessions(old(connections).spec_entries(), job.1, raw_data@.subrange(2, raw_data@.len() as int))
            ==> final(connections).spec_entries() == old(connections).spec_entries(),
        !keeps_sessions(old(connections).spec_entries(), job.1, raw_data@.subrange(2, raw_data@.len() as int))
            ==> joined(
            old(connections).spec_entries(),
            final(connections).spec_entries(),
            src_addr,
            smallest_free_number(old(connections).spec_entries())->0,
            utf8_text(raw_data@.subrange(2, raw_data@.len() as int)),
        ),
{
    let ghost payload = raw_data@.subrange(2, raw_data@.len() as int);
    let mut out: Vec<(PeerAddr, Vec<u8>)> = Vec::new();
    match job.1 {
        ClientJob::DataPushRequest => {
            let number = match connections.find(&src_addr) {
                Some(k) => connections.entries()[k].1.player_number,
                None => 0,
            };
            if number == 0 {
                assert(datagrams_view(out@) =~= seq![]);
                return ServerReply { datagrams: out, failed: false };
            }
            let body = copy_range(raw_data, 2, raw_data.len());
            let mut msg = vec![job_index, get_job_single_byte(&(ServerJob::DataPush, ClientJob::DataPushRequest)), number];
            append_bytes(&mut msg, body.as_slice());
            assert(msg@ =~= header(job_index, ServerJob::DataPush, ClientJob::DataPushRequest) + seq![number] + payload);
            assert(datagrams_view(out@) =~= seq![]);
            push_to_all_but(&mut out, connections, src_addr, &msg);
            let done = vec![job_index, get_job_single_byte(&(ServerJob::DataPushDoneResponse, ClientJob::DataPushRequest))];
            let ghost before = datagrams_view(out@);
            out.push((src_addr, done));
            assert(datagrams_view(out@) =~= before + seq![(src_addr, done@)]);
            assert(done@ =~= header(job_index, ServerJob::DataPushDoneResponse, ClientJob::DataPushRequest));
            ServerReply { datagrams: out, failed: false }
        },
        ClientJob::PlayerEnterRequest => {
            if raw_data.len() <= 2 {
                out.push((src_addr, status_datagram(job_index, 100)));
                assert(datagrams_view(out@) =~= seq![(src_addr, status_reply(job_index, 100))]);
                return ServerReply { datagrams: out, failed: true };
            }
            let name_bytes = copy_range(raw_data, 2, raw_data.len());
            let player_name = text_from_utf8(name_bytes.as_slice());
            if connections.is_name_taken(player_name.clone()) {
                out.push((src_addr, status_datagram(job_index, 101)));
                assert(datagrams_view(out@) =~= seq![(src_addr, status_reply(job_index, 101))]);
                return ServerReply { datagrams: out, failed: true };
            }
            let number = connections.create_new_connection(src_addr, player_name.clone());
            let number = match number {
                None => {
                    out.push((src_addr, status_datagram(job_index, 102)));
                    assert(datagrams_view(out@) =~= seq![(src_addr, status_reply(job_index, 102))]);
                    return ServerReply { datagrams: out, failed: false };
                },
                Some(n) => n,
            };
            let body = create_player_created_response(protocols, 1, player_name.clone(), number, connections);
            let body = match body {
                Ok(b) => b,
                Err(_) => {
                    return ServerReply { datagrams: out, failed: true };
                },
            };
            let created = framed(job_index, (ServerJob::PlayerCreatedResponse, ClientJob::PlayerEnterRequest), body.as_slice());
            out.push((src_addr, created));
            assert(datagrams_view(out@) =~= seq![(src_addr, created@)]);
            let push_body = create_player_enter_push(protocols, player_name, number, src_addr);
            let push_body = match push_body {
                Ok(b) => b,
                Err(_) => {
                    return ServerReply { datagrams: out, failed: true };
                },
            };
            let push = framed(job_index, (ServerJob::PlayerEnterPush, ClientJob::PlayerEnterRequest), push_body.as_slice());
            push_to_all_but(&mut out, connections, src_addr, &push);
            ServerReply { datagrams: out, failed: false }
        },
        ClientJob::PingRequest => {
            let pong = vec![job_index, get_job_single_byte(&(ServerJob::PongResponse, ClientJob::PingRequest))];
            out.push((src_addr, pong));
            assert(datagrams_view(out@) =~= seq![(src_addr, header(job_index, ServerJob::PongResponse, ClientJob::PingRequest))]);
            ServerReply { datagrams: out, failed: false }
        },
        _ => {
            assert(datagrams_view(out@) =~= seq![]);
            ServerReply { datagrams: out, failed: false }
        },
    }
}

/// The server's handling of one received datagram: the sender's session
/// counts it, a datagram without a valid header is a failed one, any other is
/// answered as `handle_data` says.
pub fn handle_datagram(connections: &mut Connections, protocols: &Protocol, src_addr: PeerAddr, raw_data: &[u8]) -> (r: ServerReply)
    requires
        old(connections).wf(),
        protocols.wf(),
        protocols.is_default(),
    ensures
        final(connections).wf(),
        header_of(raw_data@) is None ==> r.failed && r.datagrams@.len() == 0
            && final(connections).spec_entries() == counted(old(connections).spec_entries(), src_addr, raw_data@.len() as i128),
        header_of(raw_data@) matches Some((handle, kind)) ==> (datagrams_view(r.datagrams@), r.failed) == request_reply(
            counted(old(connections).spec_entries(), src_addr, raw_data@.len() as i128),
            final(connections).spec_entries(),
            src_addr,
            handle,
            kind.1,
            raw_data@.subrange(2, raw_data@.len() as int),
        ),
        header_of(raw_data@) matches Some((handle, kind)) ==> {
            let counted_e = counted(old(connections).spec_entries(), src_addr, raw_data@.len() as i128);
            let payload = raw_data@.subrange(2, raw_data@.len() as int);
            if keeps_sessions(counted_e, kind.1, payload) {
                final(connections).spec_entries() == counted_e
            } else {
                joined(counted_e, final(connections).spec_entries(), src_addr, smallest_free_number(counted_e)->0, utf8_text(payload))
            }
        },
{
    let n = raw_data.len() as i128;
    connections.set_connection_stats(src_addr, n);
    match parse_header(raw_data) {
        None => ServerReply { datagrams: Vec::new(), failed: true },
        Some((job_index, job)) => handle_data(connections, protocols, src_addr, job_index, job, raw_data),
    }
}

/// The number of datagrams addressed to `to`.
pub open spec fn count_to(d: Datagrams, to: PeerAddr) -> nat
    decreases d.len(),
{
    if d.len() == 0 {
        0
    } else {
        count_to(d.drop_last(), to) + if d.last().0 == to {
            1nat
        } else {
            0nat
        }
    }
}

proof fn lemma_count_concat(a: Datagrams, b: Datagrams, to: PeerAddr)
    ensures
        count_to(a + b, to) == count_to(a, to) + count_to(b, to),
    decreases b.len(),
{
    if b.len() > 0 {
        assert((a + b).drop_last() =~= a + b.drop_last());
        lemma_count_concat(a, b.drop_last(), to);
    } else {
        assert(a + b =~= a);
    }
}

/// Fan-out reaches each session other than the sender exactly once, with
/// `msg`, and nothing else.
pub proof fn lemma_fanout_once(entries: Entries, n: int, src: PeerAddr, msg: Seq<u8>, to: PeerAddr)
    requires
        sessions_wf(entries),
        0 <= n <= entries.len(),
    ensures
        count_to(fanout(entries, n, src, msg), to) == if to != src && exists|i: int| 0 <= i < n && entries[i].0 == to {
            1nat
        } else {
            0nat
        },
        forall|k: int| 0 <= k < fanout(entries, n, src, msg).len() ==> (#[trigger] fanout(entries, n, src, msg)[k]).1 == msg,
    decreases n,
{
    if n > 0 {
        lemma_fanout_once(entries, n - 1, src, msg, to);
        let prev = fanout(entries, n - 1, src, msg);
        let last: Datagrams = if entries[n - 1].0 == src {
            Seq::<(PeerAddr, Seq<u8>)>::empty()
        } else {
            seq![(entries[n - 1].0, msg)]
        };
        lemma_count_concat(prev, last, to);
        let hit: nat = if entries[n - 1].0 != src && entries[n - 1].0 == to { 1 } else { 0 };
        assert(count_to(last, to) == hit) by {
            reveal_with_fuel(count_to, 2);
            if entries[n - 1].0 != src {
                assert(last.drop_last() =~= Seq::<(PeerAddr, Seq<u8>)>::empty());
            }
        }
        let before = exists|i: int| 0 <= i < n - 1 && entries[i].0 == to;
        let now = exists|i: int| 0 <= i < n && entries[i].0 == to;
        if entries[n - 1].0 == to {
            assert(now);
            assert(!before) by {
                assert forall|i: int| 0 <= i < n - 1 implies entries[i].0 != to by {
                    assert(entries[i].0 != entries[n - 1].0);
                }
            }
        } else {
            if now {
                let i = choose|i: int| 0 <= i < n && entries[i].0 == to;
                assert(i < n - 1);
                assert(before);
            }
            if before {
                let i = choose|i: int| 0 <= i < n - 1 && entries[i].0 == to;
                assert(now);
            }
        }
        let all = fanout(entries, n, src, msg);
        assert(all == prev + last);
        assert forall|k: int| 0 <= k < all.len() implies (#[trigger] all[k]).1 == msg by {
            if k < prev.len() {
                assert(all[k] == prev[k]);
            }
        }
    } else {
        assert(fanout(entries, n, src, msg).len() == 0);
    }
}

/// When a player joins, every other session gets exactly one datagram, the
/// PlayerEnterPush that carries the new player's name, number and address.
pub proof fn lemma_join_fanout(old_e: Entries, new_e: Entries, src: PeerAddr, handle: u8, payload: Seq<u8>, to: PeerAddr)
    requires
        sessions_wf(new_e),
        payload.len() > 0,
        !name_used(old_e, utf8_text(payload)),
        smallest_free_number(old_e) is Some,
        to != src,
        exists|i: int| 0 <= i < new_e.len() && new_e[i].0 == to,
    ensures
        ({
            let n = smallest_free_number(old_e)->0;
            let sent = enter_reply(old_e, new_e, src, handle, payload).0;
            let push = header(handle, ServerJob::PlayerEnterPush, ClientJob::PlayerEnterRequest) + record_bytes(n, utf8_text(payload), src);
            &&& count_to(sent, to) == 1
            &&& forall|k: int| 1 <= k < sent.len() ==> (#[trigger] sent[k]).1 == push
        }),
{
    let n = smallest_free_number(old_e)->0;
    let name = utf8_text(payload);
    let push = header(handle, ServerJob::PlayerEnterPush, ClientJob::PlayerEnterRequest) + record_bytes(n, name, src);
    let first: Datagrams = seq![(src, header(handle, ServerJob::PlayerCreatedResponse, ClientJob::PlayerEnterRequest)
        + created_response_bytes(1, name, n, new_e))];
    let rest = to_all_but(new_e, src, push);
    lemma_fanout_once(new_e, new_e.len() as int, src, push, to);
    lemma_count_concat(first, rest, to);
    assert(count_to(first, to) == 0) by {
        reveal_with_fuel(count_to, 2);
        assert(first.drop_last() =~= Seq::<(PeerAddr, Seq<u8>)>::empty());
    }
    let sent = enter_reply(old_e, new_e, src, handle, payload).0;
    assert(sent == first + rest);
    assert forall|k: int| 1 <= k < sent.len() implies (#[trigger] sent[k]).1 == push by {
        assert(sent[k] == rest[k - 1]);
    }
}

/// Whether some session has address `a`.
pub open spec fn has_session(e: Entries, a: PeerAddr) -> bool {
    exists|i: int| 0 <= i < e.len() && e[i].0 == a
}

/// A join from another address keeps every session at `to`.
pub proof fn lemma_join_keeps(old_e: Entries, new_e: Entries, src: PeerAddr, n: u8, name: Seq<char>, to: PeerAddr)
    requires
        joined(old_e, new_e, src, n, name),
        src != to,
        has_session(old_e, to),
    ensures
        has_session(new_e, to),
{
    let i = choose|i: int| 0 <= i < old_e.len() && old_e[i].0 == to;
    match addr_index(old_e, src) {
        Some(k) => {
            let c = choose|c: int| 0 <= c < old_e.len() && old_e[c].0 == src;
            assert(i != k);
            assert(new_e[i] == old_e[i]);
        },
        None => {
            assert(new_e.subrange(0, old_e.len() as int)[i] == new_e[i]);
        },
    }
}

/// Over successive joins from other addresses, a player present at the
/// start is still present after each of them.
pub proof fn lemma_listener_stays(states: Seq<Entries>, srcs: Seq<PeerAddr>, payloads: Seq<Seq<u8>>, to: PeerAddr, m: int)
    requires
        0 <= m,
        states.len() == m + 1,
        srcs.len() == m,
        payloads.len() == m,
        forall|k: int| 0 <= k < m ==> join_succeeds(states[k], #[trigger] states[k + 1], srcs[k], payloads[k]),
        forall|k: int| 0 <= k < m ==> #[trigger] srcs[k] != to,
        has_session(states[0], to),
    ensures
        forall|k: int| 0 <= k <= m ==> has_session(#[trigger] states[k], to),
    decreases m,
{
    if m > 0 {
        lemma_listener_stays(states.subrange(0, m), srcs.subrange(0, m - 1), payloads.subrange(0, m - 1), to, m - 1);
        assert forall|k: int| 0 <= k <= m implies has_session(#[trigger] states[k], to) by {
            if k < m {
                assert(states.subrange(0, m)[k] == states[k]);
            } else {
                assert(states.subrange(0, m)[m - 1] == states[m - 1]);
                assert(join_succeeds(states[m - 1], states[m], srcs[m - 1], payloads[m - 1]));
                lemma_join_keeps(states[m - 1], states[m], srcs[m - 1], smallest_free_number(states[m - 1])->0, utf8_text(payloads[m - 1]), to);
            }
        }
    }
}

/// Whether a PlayerEnterRequest with `payload` from `src` succeeds on
/// sessions `old_e`, leaving valid sessions `new_e`.
pub open spec fn join_succeeds(old_e: Entries, new_e: Entries, src: PeerAddr, payload: Seq<u8>) -> bool {
    &&& sessions_wf(new_e)
    &&& smallest_free_number(old_e) is Some
    &&& joined(old_e, new_e, src, smallest_free_number(old_e)->0, utf8_text(payload))
    &&& payload.len() > 0
    &&& !name_used(old_e, utf8_text(payload))
    &&& smallest_free_number(old_e) is Some
}

/// The datagrams addressed to `to` over the first `m` of successive joins,
/// join `k` taking the sessions from `states[k]` to `states[k + 1]`.
pub open spec fn pushes_to(
    states: Seq<Entries>,
    srcs: Seq<PeerAddr>,
    handles: Seq<u8>,
    payloads: Seq<Seq<u8>>,
    to: PeerAddr,
    m: int,
) -> nat
    decreases m,
{
    if m <= 0 {
        0
    } else {
        pushes_to(states, srcs, handles, payloads, to, m - 1) + count_to(
            enter_reply(states[m - 1], states[m - 1 + 1], srcs[m - 1], handles[m - 1], payloads[m - 1]).0,
            to,
        )
    }
}

/// A player who stays in the session hears of each of the `m` players who
/// join after it exactly once: `m` datagrams in all.
pub proof fn lemma_each_join_heard_once(
    states: Seq<Entries>,
    srcs: Seq<PeerAddr>,
    handles: Seq<u8>,
    payloads: Seq<Seq<u8>>,
    to: PeerAddr,
    m: int,
)
    requires
        0 <= m,
        states.len() == m + 1,
        srcs.len() == m,
        handles.len() == m,
        payloads.len() == m,
        forall|k: int| 0 <= k < m ==> join_succeeds(states[k], #[trigger] states[k + 1], srcs[k], payloads[k]),
        forall|k: int| 0 <= k < m ==> #[trigger] srcs[k] != to,
        has_session(states[0], to),
    ensures
        pushes_to(states, srcs, handles, payloads, to, m) == m,
    decreases m,
{
    if m > 0 {
        lemma_listener_stays(states, srcs, payloads, to, m);
        lemma_each_join_heard_once(states.subrange(0, m), srcs.subrange(0, m - 1), handles.subrange(0, m - 1), payloads.subrange(0, m - 1), to, m - 1);
        assert(pushes_to(states.subrange(0, m), srcs.subrange(0, m - 1), handles.subrange(0, m - 1), payloads.subrange(0, m - 1), to, m - 1)
            == pushes_to(states, srcs, handles, payloads, to, m - 1)) by {
            lemma_pushes_prefix(states, srcs, handles, payloads, to, m - 1);
        }
        let k = m - 1;
        assert(join_succeeds(states[k], states[k + 1], srcs[k], payloads[k]));
        assert(srcs[k] != to);
        assert(has_session(states[k + 1], to));
        lemma_join_fanout(states[k], states[k + 1], srcs[k], handles[k], payloads[k], to);
    }
}

proof fn lemma_pushes_prefix(
    states: Seq<Entries>,
    srcs: Seq<PeerAddr>,
    handles: Seq<u8>,
    payloads: Seq<Seq<u8>>,
    to: PeerAddr,
    m: int,
)
    requires
        0 <= m,
        states.len() >= m + 2,
        srcs.len() >= m + 1,
        handles.len() >= m + 1,
        payloads.len() >= m + 1,
    ensures
        pushes_to(states.subrange(0, m + 1), srcs.subrange(0, m), handles.subrange(0, m), payloads.subrange(0, m), to, m)
            == pushes_to(states, srcs, handles, payloads, to, m),
    decreases m,
{
    if m > 0 {
        lemma_pushes_prefix(states, srcs, handles, payloads, to, m - 1);
        assert(pushes_to(states.subrange(0, m + 1), srcs.subrange(0, m), handles.subrange(0, m), payloads.subrange(0, m), to, m - 1)
            == pushes_to(states.subrange(0, m), srcs.subrange(0, m - 1), handles.subrange(0, m - 1), payloads.subrange(0, m - 1), to, m - 1)) by {
            lemma_pushes_same(states.subrange(0, m + 1), srcs.subrange(0, m), handles.subrange(0, m), payloads.subrange(0, m),
                states.subrange(0, m), srcs.subrange(0, m - 1), handles.subrange(0, m - 1), payloads.subrange(0, m - 1), to, m - 1);
        }
    }
}

/// Counts over the first `m` joins depend on those joins alone.
proof fn lemma_pushes_same(
    s1: Seq<Entries>,
    r1: Seq<PeerAddr>,
    h1: Seq<u8>,
    p1: Seq<Seq<u8>>,
    s2: Seq<Entries>,
    r2: Seq<PeerAddr>,
    h2: Seq<u8>,
    p2: Seq<Seq<u8>>,
    to: PeerAddr,
    m: int,
)
    requires
        0 <= m,
        s1.len() >= m + 1 && s2.len() >= m + 1,
        r1.len() >= m && r2.len() >= m && h1.len() >= m && h2.len() >= m && p1.len() >= m && p2.len() >= m,
        forall|k: int| 0 <= k <= m ==> s1[k] == s2[k],
        forall|k: int| 0 <= k < m ==> r1[k] == r2[k] && h1[k] == h2[k] && p1[k] == p2[k],
    ensures
        pushes_to(s1, r1, h1, p1, to, m) == pushes_to(s2, r2, h2, p2, to, m),
    decreases m,
{
    if m > 0 {
        lemma_pushes_same(s1, r1, h1, p1, s2, r2, h2, p2, to, m - 1);
        assert(s1[m - 1] == s2[m - 1] && s1[m] == s2[m]);
    }
}

} // verus!
