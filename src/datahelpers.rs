use crate::addr::{wire_ip, wire_ip_and_port, wire_port, PeerAddr};
use crate::builders::RawDataBuilder;
use crate::bytes::fixed_width;
use crate::connection::{Connections, Entries};
use crate::layout::{Layout, ProtocolError};
use crate::protocol::{lemma_record_lookups, lemma_response_lookups, player_created_response_fields, player_enter_request_fields, player_record_fields, Protocol};
use vstd::prelude::*;
use vstd::utf8::encode_utf8;

verus! {

/// The bytes of a player record: number, name in 15 bytes, IPv4 address, port.
pub open spec fn record_bytes(number: u8, name: Seq<char>, addr: PeerAddr) -> Seq<u8> {
    seq![number] + fixed_width(encode_utf8(name), 15) + wire_ip(addr) + seq![
        (wire_port(addr) / 256) as u8,
        (wire_port(addr) % 256) as u8,
    ]
}

/// The records of the first `n` sessions, leaving out player number `skip`.
pub open spec fn others_bytes(entries: Entries, n: int, skip: u8) -> Seq<u8>
    decreases n,
{
    if n <= 0 || n > entries.len() {
        seq![]
    } else {
        others_bytes(entries, n - 1, skip) + if entries[n - 1].1.player_number == skip {
            seq![]
        } else {
            record_bytes(entries[n - 1].1.player_number, entries[n - 1].1.player_name@, entries[n - 1].0)
        }
    }
}

/// The body of a PlayerCreatedResponse.
pub open spec fn created_response_bytes(status: u8, name: Seq<char>, number: u8, entries: Entries) -> Seq<u8> {
    seq![status, number] + fixed_width(encode_utf8(name), 15) + others_bytes(entries, entries.len() as int, number)
}

pub proof fn lemma_fixed_width_len(b: Seq<u8>, n: nat)
    ensures
        fixed_width(b, n).len() == n,
{
}

pub proof fn lemma_others_len(entries: Entries, n: int, skip: u8)
    ensures
        others_bytes(entries, n, skip).len() % 22 == 0,
    decreases n,
{
    if n > 0 && n <= entries.len() {
        lemma_others_len(entries, n - 1, skip);
        let e = entries[n - 1];
        lemma_fixed_width_len(encode_utf8(e.1.player_name@), 15);
    }
}

/// The body of a PlayerEnterRequest: the UTF-8 bytes of the name.
pub fn create_player_request(protocols: &Protocol, player_name: String) -> (r: Result<Vec<u8>, ProtocolError>)
    requires
        protocols.wf(),
        protocols.is_default(),
    ensures
        r matches Ok(v) && v@ == encode_utf8(player_name@),
{
    let layout = protocols.get_protocol("PlayerEnterRequest")?;
    proof {
        protocols.lemma_default_layout("PlayerEnterRequest"@, *layout, |f| player_enter_request_fields(f));
        crate::layout::lemma_lookup_at(layout.fields@, "PlayerName"@, 0);
    }
    let mut builder = RawDataBuilder::new(false).add_string_data("PlayerName", layout, player_name)?;
    let raw = builder.get_raw_data();
    assert(raw@ =~= encode_utf8(player_name@));
    Ok(raw)
}

/// Encodes one player record with a layout of that shape; `is_array` selects
/// array element mode.
fn encode_record(layout: &Layout, is_array: bool, player_name: String, player_number: u8, player_addr: PeerAddr) -> (r: Result<Vec<u8>, ProtocolError>)
    requires
        layout.wf(),
        player_record_fields(layout.fields@),
    ensures
        r matches Ok(v) && v@ == record_bytes(player_number, player_name@, player_addr),
{
    proof {
        lemma_record_lookups(*layout);
        lemma_fixed_width_len(encode_utf8(player_name@), 15);
    }
    let (player_ip, player_port) = wire_ip_and_port(player_addr);
    let number = vec![player_number];
    assert(number@ =~= seq![player_number]);
    let b = RawDataBuilder::new(is_array).add_vec_data("PlayerNumber", layout, number)?;
    let b = b.add_string_data("PlayerName", layout, player_name)?;
    let b = b.add_vec_data("PlayerIP", layout, player_ip)?;
    let mut b = b.add_u16_data("PlayerPort", layout, player_port)?;
    let raw = b.get_raw_data();
    assert(raw@ =~= record_bytes(player_number, player_name@, player_addr));
    Ok(raw)
}

/// The body of a PlayerEnterPush: a player record. An address that is not
/// IPv4 goes out as 0.0.0.0:0.
pub fn create_player_enter_push(protocols: &Protocol, player_name: String, player_number: u8, player_addr: PeerAddr) -> (r: Result<Vec<u8>, ProtocolError>)
    requires
        protocols.wf(),
        protocols.is_default(),
    ensures
        r matches Ok(v) && v@ == record_bytes(player_number, player_name@, player_addr),
{
    let layout = protocols.get_protocol("PlayerEnterPush")?;
    proof {
        protocols.lemma_default_layout("PlayerEnterPush"@, *layout, |f| player_record_fields(f));
    }
    encode_record(layout, false, player_name, player_number, player_addr)
}

/// The body of a PlayerCreatedResponse: status, the new player's number and
/// name, then one record for every other session, in session order.
pub fn create_player_created_response(
    protocols: &Protocol,
    status: u8,
    player_name: String,
    player_number: u8,
    connections: &Connections,
) -> (r: Result<Vec<u8>, ProtocolError>)
    requires
        protocols.wf(),
        protocols.is_default(),
    ensures
        r matches Ok(v) && v@ == created_response_bytes(status, player_name@, player_number, connections.spec_entries()),
{
    let layout = protocols.get_protocol("PlayerCreatedResponse")?;
    let array_structure = protocols.get_array_structure_as_ref("PlayerCreatedResponse", "OtherPlayers")?;
    proof {
        protocols.lemma_default_layout("PlayerCreatedResponse"@, *layout, |f| player_created_response_fields(f));
        lemma_response_lookups(*layout);
        lemma_fixed_width_len(encode_utf8(player_name@), 15);
    }
    let ghost name = player_name@;
    let b = RawDataBuilder::new(false).add_u8_data("Status", layout, status)?;
    let b = b.add_u8_data("PlayerNumber", layout, player_number)?;
    let mut response_builder = b.add_string_data("PlayerName", layout, player_name)?;
    let entries = connections.entries();
    let ghost head = seq![status, player_number] + fixed_width(encode_utf8(name), 15);
    assert(response_builder@.raw =~= head);
    let mut i: usize = 0;
    while i < entries.len()
        invariant
            entries@ == connections.spec_entries(),
            layout.wf(),
            player_created_response_fields(layout.fields@),
            crate::layout::lookup(layout.fields@, "OtherPlayers"@) == Some(layout.fields@[3].1),
            *array_structure == layout.fields@[3].1.array_structure->0,
            array_structure.wf(),
            head.len() == 17,
            i <= entries@.len(),
            response_builder@.raw == head + others_bytes(entries@, i as int, player_number),
            response_builder@.array_start == 0,
            !response_builder@.is_array,
        decreases entries@.len() - i,
    {
        let (addr, conn) = (&entries[i].0, &entries[i].1);
        if conn.player_number != player_number {
            let element = encode_record(array_structure, true, conn.player_name.clone(), conn.player_number, *addr);
            let element = match element {
                Ok(e) => e,
                Err(e) => {
                    return Err(e);
                },
            };
            proof {
                lemma_others_len(entries@, i as int, player_number);
                lemma_fixed_width_len(encode_utf8(conn.player_name@), 15);
            }
            response_builder = response_builder.add_array_data("OtherPlayers", layout, element)?;
        }
        proof {
            assert(response_builder@.raw =~= head + others_bytes(entries@, i + 1, player_number));
        }
        i = i + 1;
    }
    let raw = response_builder.get_raw_data();
    Ok(raw)
}

} // verus!
