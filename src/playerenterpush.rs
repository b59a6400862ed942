use crate::addr::create_addr_from_ip_and_port;
use crate::datastructure::StructuredData;
use crate::layout::ProtocolError;
use crate::player::{check_raw_data_length_integrity, name_from_field, record_view, PlayerData};
use crate::protocol::{lemma_record_lookups, player_record_fields, Protocol};
use vstd::prelude::*;

verus! {

/// Reads the body of a PlayerEnterPush: one 22-byte player record.
pub fn structurize_raw_data(protocols: &Protocol, raw_data: &[u8]) -> (r: Result<PlayerData, ProtocolError>)
    requires
        protocols.wf(),
        protocols.is_default(),
    ensures
        raw_data@.len() != 22 ==> r == Err::<PlayerData, ProtocolError>(ProtocolError::LengthMismatch),
        raw_data@.len() == 22 ==> (r matches Ok(p) && p@ == record_view(raw_data@)),
{
    let layout = protocols.get_protocol("PlayerEnterPush")?;
    proof {
        protocols.lemma_default_layout("PlayerEnterPush"@, *layout, |f| player_record_fields(f));
        lemma_record_lookups(*layout);
        reveal_with_fuel(crate::layout::prefix_length, 5);
    }
    check_raw_data_length_integrity(layout, raw_data)?;
    let structured_data = StructuredData::new(layout, crate::bytes::copy_range(raw_data, 0, raw_data.len()));
    assert(raw_data@.subrange(0, raw_data@.len() as int) =~= raw_data@);
    let name_bytes = structured_data.get_vec_data("PlayerName")?;
    let player_name = name_from_field(name_bytes.as_slice());
    let player_number = structured_data.get_u8_data("PlayerNumber")?;
    let player_ip = structured_data.get_vec_data("PlayerIP")?;
    let player_port = structured_data.get_u16_data("PlayerPort")?;
    let addr = create_addr_from_ip_and_port(player_ip, player_port);
    Ok(PlayerData { player_name, player_number, addr })
}

} // verus!
