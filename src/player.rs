use crate::addr::{addr_from_wire, PeerAddr};
use crate::bits::be_u16;
use crate::bytes::{utf8_text, text_from_utf8, strip_trailing_zeros, trim_zeros};
use crate::layout::{get_protocol_total_length, Layout, ProtocolError};
use vstd::prelude::*;

verus! {

/// A player as a client learns of it.
#[derive(Debug)]
pub struct PlayerData {
    pub player_name: String,
    pub player_number: u8,
    pub addr: Option<PeerAddr>,
}

pub ghost struct PlayerView {
    pub name: Seq<char>,
    pub number: u8,
    pub addr: Option<PeerAddr>,
}

impl View for PlayerData {
    type V = PlayerView;

    open spec fn view(&self) -> PlayerView {
        PlayerView { name: self.player_name@, number: self.player_number, addr: self.addr }
    }
}

/// The player that a client was created as, and the players already there.
#[derive(Debug)]
pub struct PlayerCreatedResponseData {
    pub player: PlayerData,
    pub others_players: Vec<PlayerData>,
}

pub ghost struct CreatedView {
    pub player: PlayerView,
    pub others: Seq<PlayerView>,
}

pub open spec fn players_view(v: Seq<PlayerData>) -> Seq<PlayerView> {
    Seq::new(v.len(), |i: int| v[i]@)
}

impl View for PlayerCreatedResponseData {
    type V = CreatedView;

    open spec fn view(&self) -> CreatedView {
        CreatedView { player: self.player@, others: players_view(self.others_players@) }
    }
}

impl PlayerCreatedResponseData {
    pub fn new(player: PlayerData) -> (r: PlayerCreatedResponseData)
        ensures
            r@ == (CreatedView { player: player@, others: Seq::empty() }),
    {
        let r = PlayerCreatedResponseData { player, others_players: vec![] };
        assert(players_view(r.others_players@) =~= Seq::<PlayerView>::empty());
        r
    }

    pub fn add_other_player(&mut self, player: PlayerData)
        ensures
            final(self)@ == (CreatedView { player: old(self)@.player, others: old(self)@.others.push(player@) }),
    {
        self.others_players.push(player);
        assert(players_view(self.others_players@) =~= players_view(old(self).others_players@).push(player@));
    }
}

/// Why the server did not create a player.
#[derive(Clone, Copy, Debug, PartialEq, Eq, Structural)]
pub enum PlayerCreatedServerError {
    InvalidRequest,
    NameIsTaken,
    TooManyPlayers,
    InvalidServerStatusCode,
}

impl PlayerCreatedServerError {
    /// A sentence that describes the error.
    pub fn message(&self) -> &'static str {
        match self {
            PlayerCreatedServerError::InvalidRequest => "Player created response: invalid request.",
            PlayerCreatedServerError::NameIsTaken => "Player created response: name is taken.",
            PlayerCreatedServerError::TooManyPlayers => "Player created response: too many players.",
            PlayerCreatedServerError::InvalidServerStatusCode => "Player created response: invalid status code.",
        }
    }
}

/// The error that a status byte other than 1 reports.
pub open spec fn status_error(status: u8) -> PlayerCreatedServerError {
    if status == 100 {
        PlayerCreatedServerError::InvalidRequest
    } else if status == 101 {
        PlayerCreatedServerError::NameIsTaken
    } else if status == 102 {
        PlayerCreatedServerError::TooManyPlayers
    } else {
        PlayerCreatedServerError::InvalidServerStatusCode
    }
}

/// A name read from a fixed-width field: its padding dropped, decoded as UTF-8.
pub open spec fn name_of_field(bytes: Seq<u8>) -> Seq<char> {
    utf8_text(trim_zeros(bytes))
}

/// The player that a 22-byte record describes.
pub open spec fn record_view(b: Seq<u8>) -> PlayerView {
    PlayerView {
        name: name_of_field(b.subrange(1, 16)),
        number: b[0],
        addr: addr_from_wire(b.subrange(16, 20), be_u16(b[20], b[21]) as u16),
    }
}

/// Reads a name from a fixed-width field.
pub fn name_from_field(bytes: &[u8]) -> (r: String)
    ensures
        r@ == name_of_field(bytes@),
{
    let trimmed = strip_trailing_zeros(bytes);
    text_from_utf8(trimmed.as_slice())
}

/// Fails with `LengthMismatch` unless the data is exactly as long as the layout.
pub fn check_raw_data_length_integrity(structures: &Layout, raw_data: &[u8]) -> (r: Result<(), ProtocolError>)
    requires
        structures.wf(),
    ensures
        r is Ok <==> raw_data@.len() == structures.spec_total_length(),
        r is Err ==> r == Err::<(), ProtocolError>(ProtocolError::LengthMismatch),
{
    let protocol_total_length = get_protocol_total_length(structures);
    if protocol_total_length != raw_data.len() {
        return Err(ProtocolError::LengthMismatch);
    }
    Ok(())
}

} // verus!
