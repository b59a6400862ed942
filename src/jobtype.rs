use crate::bits::{bit_window, get_u8_from_bit_slice};
use vstd::prelude::*;

verus! {

/// What a client asks for; its code is the low nibble of the kind byte.
#[derive(Clone, Copy, Debug, PartialEq, Eq, Structural)]
pub enum ClientJob {
    NoClientAction,
    DataPushRequest,
    DataRequest,
    PlayerEnterRequest,
    PlayerLeaveRequest,
    PingRequest,
}

/// What a server answers or pushes; its code is the high nibble of the kind byte.
#[derive(Clone, Copy, Debug, PartialEq, Eq, Structural)]
pub enum ServerJob {
    NoServerAction,
    DataPush,
    DataPushDoneResponse,
    DataResponse,
    PlayerCreatedResponse,
    PlayerEnterPush,
    PlayerLeaveResponse,
    PlayerLeavePush,
    PongResponse,
}

/// The kind of a message: the server side and the client side.
pub type JobType = (ServerJob, ClientJob);

pub open spec fn server_code(s: ServerJob) -> u8 {
    match s {
        ServerJob::NoServerAction => 0,
        ServerJob::DataPush => 1,
        ServerJob::DataPushDoneResponse => 2,
        ServerJob::DataResponse => 3,
        ServerJob::PlayerCreatedResponse => 4,
        ServerJob::PlayerEnterPush => 5,
        ServerJob::PlayerLeaveResponse => 6,
        ServerJob::PlayerLeavePush => 7,
        ServerJob::PongResponse => 8,
    }
}

pub open spec fn client_code(c: ClientJob) -> u8 {
    match c {
        ClientJob::NoClientAction => 0,
        ClientJob::DataPushRequest => 1,
        ClientJob::DataRequest => 2,
        ClientJob::PlayerEnterRequest => 3,
        ClientJob::PlayerLeaveRequest => 4,
        ClientJob::PingRequest => 5,
    }
}

/// The kind byte of a message kind: server code in the high nibble, client
/// code in the low one.
pub open spec fn kind_byte(job_type: JobType) -> u8 {
    (server_code(job_type.0) * 16 + client_code(job_type.1)) as u8
}

pub open spec fn server_job_of(code: u8) -> Option<ServerJob> {
    if code == 0 {
        Some(ServerJob::NoServerAction)
    } else if code == 1 {
        Some(ServerJob::DataPush)
    } else if code == 2 {
        Some(ServerJob::DataPushDoneResponse)
    } else if code == 3 {
        Some(ServerJob::DataResponse)
    } else if code == 4 {
        Some(ServerJob::PlayerCreatedResponse)
    } else if code == 5 {
        Some(ServerJob::PlayerEnterPush)
    } else if code == 6 {
        Some(ServerJob::PlayerLeaveResponse)
    } else if code == 7 {
        Some(ServerJob::PlayerLeavePush)
    } else if code == 8 {
        Some(ServerJob::PongResponse)
    } else {
        None
    }
}

pub open spec fn client_job_of(code: u8) -> Option<ClientJob> {
    if code == 0 {
        Some(ClientJob::NoClientAction)
    } else if code == 1 {
        Some(ClientJob::DataPushRequest)
    } else if code == 2 {
        Some(ClientJob::DataRequest)
    } else if code == 3 {
        Some(ClientJob::PlayerEnterRequest)
    } else if code == 4 {
        Some(ClientJob::PlayerLeaveRequest)
    } else if code == 5 {
        Some(ClientJob::PingRequest)
    } else {
        None
    }
}

/// The message kind that a pair of codes names, if both codes are known.
pub open spec fn job_type_of(server: u8, client: u8) -> Option<JobType> {
    match (server_job_of(server), client_job_of(client)) {
        (Some(s), Some(c)) => Some((s, c)),
        _ => None,
    }
}

/// The kind that a kind byte names, if both of its nibbles are known codes.
pub open spec fn job_type_of_byte(b: u8) -> Option<JobType> {
    job_type_of((b / 16) as u8, (b % 16) as u8)
}

/// The handle and kind of a datagram, read from its two-byte header.
pub open spec fn header_of(raw: Seq<u8>) -> Option<(u8, JobType)> {
    if raw.len() < 2 {
        None
    } else {
        match job_type_of_byte(raw[1]) {
            Some(t) => Some((raw[0], t)),
            None => None,
        }
    }
}

impl ClientJob {
    /// The names of the client actions, in code order.
    pub fn as_string() -> (r: Vec<&'static str>)
        ensures
            r@.len() == 6,
            r@[0]@ == "NoClientAction"@,
            r@[1]@ == "DataPushRequest"@,
            r@[2]@ == "DataRequest"@,
            r@[3]@ == "PlayerEnterRequest"@,
            r@[4]@ == "PlayerLeaveRequest"@,
            r@[5]@ == "PingRequest"@,
    {
        vec![
            "NoClientAction",
            "DataPushRequest",
            "DataRequest",
            "PlayerEnterRequest",
            "PlayerLeaveRequest",
            "PingRequest",
        ]
    }
}

impl ServerJob {
    /// The names of the server actions, in code order.
    pub fn as_string() -> (r: Vec<&'static str>)
        ensures
            r@.len() == 9,
            r@[0]@ == "NoServerAction"@,
            r@[1]@ == "DataPush"@,
            r@[2]@ == "DataPushDoneResponse"@,
            r@[3]@ == "DataResponse"@,
            r@[4]@ == "PlayerCreatedResponse"@,
            r@[5]@ == "PlayerEnterPush"@,
            r@[6]@ == "PlayerLeaveResponse"@,
            r@[7]@ == "PlayerLeavePush"@,
            r@[8]@ == "PongResponse"@,
    {
        vec![
            "NoServerAction",
            "DataPush",
            "DataPushDoneResponse",
            "DataResponse",
            "PlayerCreatedResponse",
            "PlayerEnterPush",
            "PlayerLeaveResponse",
            "PlayerLeavePush",
            "PongResponse",
        ]
    }
}

/// The server code and the client code of a message kind.
pub fn get_job_bytes(job_type: &JobType) -> (r: (u8, u8))
    ensures
        r.0 == server_code(job_type.0),
        r.1 == client_code(job_type.1),
{
    (
        match job_type.0 {
            ServerJob::NoServerAction => 0,
            ServerJob::DataPush => 1,
            ServerJob::DataPushDoneResponse => 2,
            ServerJob::DataResponse => 3,
            ServerJob::PlayerCreatedResponse => 4,
            ServerJob::PlayerEnterPush => 5,
            ServerJob::PlayerLeaveResponse => 6,
            ServerJob::PlayerLeavePush => 7,
            ServerJob::PongResponse => 8,
        },
        match job_type.1 {
            ClientJob::NoClientAction => 0,
            ClientJob::DataPushRequest => 1,
            ClientJob::DataRequest => 2,
            ClientJob::PlayerEnterRequest => 3,
            ClientJob::PlayerLeaveRequest => 4,
            ClientJob::PingRequest => 5,
        },
    )
}

/// The kind byte of a message kind.
pub fn get_job_single_byte(job_type: &JobType) -> (r: u8)
    ensures
        r == kind_byte(*job_type),
{
    let job_bytes = get_job_bytes(job_type);
    create_job_type_byte(&job_bytes)
}

/// Packs a server code (high nibble) and a client code (low nibble) into one byte.
pub fn create_job_type_byte(server_client: &(u8, u8)) -> (r: u8)
    requires
        server_client.0 < 16,
        server_client.1 < 16,
    ensures
        r == server_client.0 * 16 + server_client.1,
{
    let (server, client) = *server_client;
    server * 16 + client
}

/// The message kind that a server code and a client code name, if both are known.
pub fn get_job_type(server_client: &(u8, u8)) -> (r: Option<JobType>)
    ensures
        r == job_type_of(server_client.0, server_client.1),
{
    let (server, client) = *server_client;
    let server_job = match server {
        0 => Some(ServerJob::NoServerAction),
        1 => Some(ServerJob::DataPush),
        2 => Some(ServerJob::DataPushDoneResponse),
        3 => Some(ServerJob::DataResponse),
        4 => Some(ServerJob::PlayerCreatedResponse),
        5 => Some(ServerJob::PlayerEnterPush),
        6 => Some(ServerJob::PlayerLeaveResponse),
        7 => Some(ServerJob::PlayerLeavePush),
        8 => Some(ServerJob::PongResponse),
        _ => None,
    };
    let client_job = match client {
        0 => Some(ClientJob::NoClientAction),
        1 => Some(ClientJob::DataPushRequest),
        2 => Some(ClientJob::DataRequest),
        3 => Some(ClientJob::PlayerEnterRequest),
        4 => Some(ClientJob::PlayerLeaveRequest),
        5 => Some(ClientJob::PingRequest),
        _ => None,
    };
    match (server_job, client_job) {
        (Some(s), Some(c)) => Some((s, c)),
        _ => None,
    }
}

/// Reads the handle and the message kind from the header of a datagram;
/// `None` when the datagram is shorter than the header or names an unknown kind.
pub fn parse_header(raw_data: &[u8]) -> (r: Option<(u8, JobType)>)
    ensures
        r == header_of(raw_data@),
{
    if raw_data.len() < 2 {
        return None;
    }
    let index = raw_data[0];
    let kind = raw_data[1];
    let server = get_u8_from_bit_slice(kind, 0, 4);
    let client = get_u8_from_bit_slice(kind, 4, 4);
    proof {
        vstd::arithmetic::power2::lemma2_to64();
        assert(bit_window(kind, 0, 4) == kind as nat / 16 % 16);
        assert(kind as nat / 1 == kind as nat);
        assert(bit_window(kind, 4, 4) == kind as nat % 16);
    }
    match get_job_type(&(server, client)) {
        Some(t) => Some((index, t)),
        None => None,
    }
}

/// Decoding the kind byte of a message kind gives that kind back.
pub proof fn lemma_kind_byte_round_trip(job_type: JobType)
    ensures
        job_type_of_byte(kind_byte(job_type)) == Some(job_type),
{
}

} // verus!
