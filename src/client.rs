use crate::bytes::copy_range;
use crate::job::{duration_at, find_handle, recents_after, saturating_inc, Jobs};
use crate::jobtype::{header_of, parse_header, ServerJob};
use crate::player::{record_view, PlayerCreatedResponseData, PlayerCreatedServerError, PlayerData};
use crate::playercreatedresponse::{created_matches, created_view};
use crate::protocol::Protocol;
use vstd::prelude::*;

verus! {

/// What the application is told about a received datagram.
#[derive(Debug)]
pub enum ClientEvent {
    /// Nothing to report.
    Nothing,
    /// The server has passed on our data.
    DataPushAction(Vec<u8>),
    /// Data from another player.
    DataPushReceived(u8, Vec<u8>),
    /// A response to a data request.
    DataRequest(Vec<u8>),
    /// The outcome of our enter request.
    PlayerCreated(Result<PlayerCreatedResponseData, PlayerCreatedServerError>),
    /// Another player has entered.
    PlayerEnterPush(PlayerData),
    /// A response to our leave request.
    PlayerLeave(Vec<u8>),
    /// A pong, with the round trip time in microseconds.
    Pong(u64),
    /// A datagram that could not be read or matched to a request.
    Error,
}

/// Whether a server message is pushed by the server rather than answering a request.
pub open spec fn is_push(t: ServerJob) -> bool {
    t == ServerJob::DataPush || t == ServerJob::PlayerEnterPush || t == ServerJob::PlayerLeavePush
}

/// The event that a message of kind `t` with body `raw` gives, `duration`
/// being the round trip of the request it answers.
pub open spec fn event_for(r: ClientEvent, t: ServerJob, raw: Seq<u8>, duration: u64) -> bool {
    match t {
        ServerJob::NoServerAction => r is Nothing,
        ServerJob::DataPushDoneResponse => r matches ClientEvent::DataPushAction(v) && v@ == raw,
        ServerJob::DataPush => if raw.len() == 0 {
            r is Error
        } else {
            r matches ClientEvent::DataPushReceived(n, v) && n == raw[0] && v@ == raw.subrange(1, raw.len() as int)
        },
        ServerJob::DataResponse => r matches ClientEvent::DataRequest(v) && v@ == raw,
        ServerJob::PlayerCreatedResponse => match created_view(raw) {
            Err(_) => r is Error,
            Ok(x) => r matches ClientEvent::PlayerCreated(res) && created_matches(Ok(res), Ok(x)),
        },
        ServerJob::PlayerEnterPush => if raw.len() != 22 {
            r is Error
        } else {
            r matches ClientEvent::PlayerEnterPush(p) && p@ == record_view(raw)
        },
        ServerJob::PlayerLeavePush => r is Nothing,
        ServerJob::PlayerLeaveResponse => r matches ClientEvent::PlayerLeave(v) && v@ == raw,
        ServerJob::PongResponse => r == ClientEvent::Pong(duration),
    }
}

/// What handling a message of kind `t` with handle `job_index` and body
/// `raw` does: a pushed message leaves the jobs alone (an empty DataPush
/// counts as failed); a response without a job is an error and counts as
/// failed; a response with a job removes it, records its duration and counts
/// as handled. The event is as `event_for` says.
pub open spec fn request_event_done(old_j: Jobs, new_j: Jobs, r: ClientEvent, job_index: u8, t: ServerJob, raw: Seq<u8>, now_us: u64) -> bool {
    if is_push(t) {
        &&& new_j.spec_jobs() == old_j.spec_jobs()
        &&& new_j.spec_times() == old_j.spec_times()
        &&& new_j.spec_handled() == old_j.spec_handled()
        &&& new_j.spec_failed() == if t == ServerJob::DataPush && raw.len() == 0 {
            saturating_inc(old_j.spec_failed())
        } else {
            old_j.spec_failed()
        }
        &&& event_for(r, t, raw, 0)
    } else {
        match find_handle(old_j.spec_jobs(), job_index) {
            None => {
                &&& r is Error
                &&& new_j.spec_jobs() == old_j.spec_jobs()
                &&& new_j.spec_times() == old_j.spec_times()
                &&& new_j.spec_handled() == old_j.spec_handled()
                &&& new_j.spec_failed() == saturating_inc(old_j.spec_failed())
            },
            Some(k) => {
                let d = duration_at(old_j.spec_jobs()[k].1, now_us);
                &&& new_j.spec_jobs() == old_j.spec_jobs().remove(k)
                &&& new_j.spec_times() == recents_after(old_j.spec_times(), d)
                &&& new_j.spec_handled() == saturating_inc(old_j.spec_handled())
                &&& new_j.spec_failed() == old_j.spec_failed()
                &&& event_for(r, t, raw, d)
            },
        }
    }
}

/// Turns a received message of kind `server_response_type`, with handle
/// `job_index` and body `raw_data`, into an event. A response completes the
/// job of its handle; a response without a job is an error.
pub fn create_request_event(
    jobs: &mut Jobs,
    protocols: &Protocol,
    job_index: u8,
    server_response_type: ServerJob,
    raw_data: Vec<u8>,
    now_us: u64,
) -> (r: ClientEvent)
    requires
        old(jobs).wf(),
        protocols.wf(),
        protocols.is_default(),
    ensures
        final(jobs).wf(),
        request_event_done(*old(jobs), *final(jobs), r, job_index, server_response_type, raw_data@, now_us),
{
    let mut job_duration: u64 = 0;
    match server_response_type {
        ServerJob::DataPush => {},
        ServerJob::PlayerEnterPush => {},
        ServerJob::PlayerLeavePush => {},
        _ => {
            match jobs.complete_job(job_index, now_us) {
                None => {
                    return ClientEvent::Error;
                },
                Some(d) => {
                    job_duration = d;
                },
            }
        },
    }
    match server_response_type {
        ServerJob::NoServerAction => ClientEvent::Nothing,
        ServerJob::DataPushDoneResponse => ClientEvent::DataPushAction(raw_data),
        ServerJob::DataPush => {
            if raw_data.len() == 0 {
                jobs.add_packages_failed();
                return ClientEvent::Error;
            }
            let player = raw_data[0];
            let data = copy_range(raw_data.as_slice(), 1, raw_data.len());
            ClientEvent::DataPushReceived(player, data)
        },
        ServerJob::DataResponse => ClientEvent::DataRequest(raw_data),
        ServerJob::PlayerCreatedResponse => {
            match crate::playercreatedresponse::structurize_raw_data(protocols, raw_data.as_slice()) {
                Err(_) => ClientEvent::Error,
                Ok(response) => ClientEvent::PlayerCreated(response),
            }
        },
        ServerJob::PlayerEnterPush => {
            match crate::playerenterpush::structurize_raw_data(protocols, raw_data.as_slice()) {
                Err(_) => ClientEvent::Error,
                Ok(player) => ClientEvent::PlayerEnterPush(player),
            }
        },
        ServerJob::PlayerLeavePush => ClientEvent::Nothing,
        ServerJob::PlayerLeaveResponse => ClientEvent::PlayerLeave(raw_data),
        ServerJob::PongResponse => ClientEvent::Pong(job_duration),
    }
}

/// The client's handling of one received datagram: one without a valid
/// header counts as failed and gives no event; any other is turned into an
/// event by `create_request_event`.
pub fn handle_received_data(jobs: &mut Jobs, protocols: &Protocol, raw_data: &[u8], now_us: u64) -> (r: ClientEvent)
    requires
        old(jobs).wf(),
        protocols.wf(),
        protocols.is_default(),
    ensures
        final(jobs).wf(),
        header_of(raw_data@) is None ==> r is Nothing && final(jobs).spec_jobs() == old(jobs).spec_jobs()
            && final(jobs).spec_times() == old(jobs).spec_times()
            && final(jobs).spec_handled() == old(jobs).spec_handled()
            && final(jobs).spec_failed() == saturating_inc(old(jobs).spec_failed()),
        header_of(raw_data@) matches Some((h, t)) ==> request_event_done(
            *old(jobs),
            *final(jobs),
            r,
            h,
            t.0,
            raw_data@.subrange(2, raw_data@.len() as int),
            now_us,
        ),
{
    match parse_header(raw_data) {
        None => {
            jobs.add_packages_failed();
            ClientEvent::Nothing
        },
        Some((job_index, job_type)) => {
            let body = copy_range(raw_data, 2, raw_data.len());
            create_request_event(jobs, protocols, job_index, job_type.0, body, now_us)
        },
    }
}

} // verus!
