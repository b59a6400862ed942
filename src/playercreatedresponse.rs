use crate::addr::create_addr_from_ip_and_port;
use crate::datastructure::{element, element_count, StructuredData};
use crate::layout::ProtocolError;
use crate::player::{name_from_field, name_of_field, record_view, status_error, CreatedView, PlayerCreatedResponseData, PlayerCreatedServerError, PlayerData, PlayerView};
use crate::protocol::{lemma_record_lookups, lemma_response_lookups, player_created_response_fields, Protocol};
use vstd::prelude::*;

verus! {

/// What the body of a PlayerCreatedResponse says: a layout error when it is
/// too short, the server's error when the status is not 1, else the created
/// player and one player per whole 22-byte record after byte 17.
pub open spec fn created_view(raw: Seq<u8>) -> Result<Result<CreatedView, PlayerCreatedServerError>, ProtocolError> {
    if raw.len() < 1 {
        Err(ProtocolError::InvalidRawData)
    } else if raw[0] != 1 {
        Ok(Err(status_error(raw[0])))
    } else if raw.len() < 17 {
        Err(ProtocolError::InvalidRawData)
    } else {
        let body = raw.subrange(17, raw.len() as int);
        Ok(
            Ok(
                CreatedView {
                    player: PlayerView { name: name_of_field(raw.subrange(2, 17)), number: raw[1], addr: None },
                    others: Seq::new(element_count(body, 22), |k: int| record_view(element(body, 22, k as nat))),
                },
            ),
        )
    }
}

pub open spec fn created_matches(
    r: Result<Result<PlayerCreatedResponseData, PlayerCreatedServerError>, ProtocolError>,
    s: Result<Result<CreatedView, PlayerCreatedServerError>, ProtocolError>,
) -> bool {
    match r {
        Err(e) => s == Err::<Result<CreatedView, PlayerCreatedServerError>, ProtocolError>(e),
        Ok(Err(e)) => s == Ok::<Result<CreatedView, PlayerCreatedServerError>, ProtocolError>(Err(e)),
        Ok(Ok(d)) => s == Ok::<Result<CreatedView, PlayerCreatedServerError>, ProtocolError>(Ok(d@)),
    }
}

/// Reads the body of a PlayerCreatedResponse. The outer result carries
/// layout errors, the inner one the server's answer.
pub fn structurize_raw_data(protocols: &Protocol, raw_data: &[u8]) -> (r: Result<
    Result<PlayerCreatedResponseData, PlayerCreatedServerError>,
    ProtocolError,
>)
    requires
        protocols.wf(),
        protocols.is_default(),
    ensures
        created_matches(r, created_view(raw_data@)),
{
    let layout = protocols.get_protocol("PlayerCreatedResponse")?;
    proof {
        protocols.lemma_default_layout("PlayerCreatedResponse"@, *layout, |f| player_created_response_fields(f));
        lemma_response_lookups(*layout);
        crate::datastructure::lemma_element_layout_wf(layout, "OtherPlayers"@);
        lemma_record_lookups(layout.fields@[3].1.array_structure->0);
    }
    let structured_data = StructuredData::new(layout, crate::bytes::copy_range(raw_data, 0, raw_data.len()));
    assert(raw_data@.subrange(0, raw_data@.len() as int) =~= raw_data@);
    let status = structured_data.get_u8_data("Status")?;
    if status != 1 {
        let e = if status == 100 {
            PlayerCreatedServerError::InvalidRequest
        } else if status == 101 {
            PlayerCreatedServerError::NameIsTaken
        } else if status == 102 {
            PlayerCreatedServerError::TooManyPlayers
        } else {
            PlayerCreatedServerError::InvalidServerStatusCode
        };
        return Ok(Err(e));
    }
    let player_number = structured_data.get_u8_data("PlayerNumber")?;
    let name_bytes = structured_data.get_vec_data("PlayerName")?;
    let player_name = name_from_field(name_bytes.as_slice());
    let mut response = PlayerCreatedResponseData::new(PlayerData { player_name, player_number, addr: None });
    let mut array = structured_data.get_iterable_array("OtherPlayers")?;
    let ghost body = raw_data@.subrange(17, raw_data@.len() as int);
    loop
        invariant
            array.wf(),
            array.spec_data() == body,
            array.spec_item_size() == 22,
            array.spec_protocol() == *layout,
            array.spec_name() == "OtherPlayers"@,
            layout.wf(),
            crate::layout::lookup(layout.fields@, "OtherPlayers"@) == Some(layout.fields@[3].1),
            player_created_response_fields(layout.fields@),
            array.spec_index() == response@.others.len(),
            array.spec_index() <= element_count(body, 22),
            response@.player == (PlayerView { name: name_of_field(raw_data@.subrange(2, 17)), number: raw_data@[1], addr: None }),
            forall|k: int| 0 <= k < response@.others.len() ==> response@.others[k] == record_view(element(body, 22, k as nat)),
        ensures
            response@.others.len() == element_count(body, 22),
            response@.player == (PlayerView { name: name_of_field(raw_data@.subrange(2, 17)), number: raw_data@[1], addr: None }),
            forall|k: int| 0 <= k < response@.others.len() ==> response@.others[k] == record_view(element(body, 22, k as nat)),
        decreases element_count(body, 22) - array.spec_index(),
    {
        let item = match array.next() {
            None => {
                break;
            },
            Some(item) => item,
        };
        let ghost k = response@.others.len();
        proof {
            assert(element(body, 22, k).len() == 22) by (nonlinear_arith)
                requires k < element_count(body, 22), body.len() / 22 == element_count(body, 22),
                    element(body, 22, k) == body.subrange((k * 22) as int, ((k + 1) * 22) as int);
        }
        let name_bytes = item.get_vec_data("PlayerName")?;
        let player_name = name_from_field(name_bytes.as_slice());
        let player_number = item.get_u8_data("PlayerNumber")?;
        let player_ip = item.get_vec_data("PlayerIP")?;
        let player_port = item.get_u16_data("PlayerPort")?;
        let addr = create_addr_from_ip_and_port(player_ip, player_port);
        response.add_other_player(PlayerData { player_name, player_number, addr });
    }
    proof {
        assert(response@.others =~= Seq::new(element_count(body, 22), |k: int| record_view(element(body, 22, k as nat))));
    }
    Ok(Ok(response))
}

} // verus!
