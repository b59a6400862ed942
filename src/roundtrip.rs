use crate::addr::{wire_ip, wire_port, Octets, PeerAddr};
use crate::bits::be_u16;
use crate::bytes::{fixed_width, utf8_text, trim_zeros};
use crate::connection::Entries;
use crate::datahelpers::{created_response_bytes, lemma_fixed_width_len, others_bytes, record_bytes};
use crate::datastructure::{element, element_count};
use crate::player::{record_view, status_error, CreatedView, PlayerView};
use crate::playercreatedresponse::created_view;
use vstd::prelude::*;
use vstd::utf8::{encode_utf8, encode_utf8_decode_utf8, encode_utf8_valid_utf8};

verus! {

/// A name that a 15-byte field carries unchanged: at most 15 bytes of UTF-8,
/// not ending in a zero byte.
pub open spec fn fits_name_field(name: Seq<char>) -> bool {
    let b = encode_utf8(name);
    b.len() <= 15 && (b.len() == 0 || b.last() != 0)
}

/// The address that a receiver reads back for `addr`: itself for an IPv4
/// address other than 0.0.0.0:0, absent otherwise.
pub open spec fn address_read_back(addr: PeerAddr) -> Option<PeerAddr> {
    match addr {
        PeerAddr::V4 { ip, port } => if ip == (Octets { a: 0, b: 0, c: 0, d: 0 }) && port == 0 {
            None
        } else {
            Some(addr)
        },
        PeerAddr::V6 { .. } => None,
    }
}

/// The player that a record read back describes: the same name and number,
/// and the address read back.
pub open spec fn player_read_back(number: u8, name: Seq<char>, addr: PeerAddr) -> PlayerView {
    PlayerView { name, number, addr: address_read_back(addr) }
}

/// Dropping the zero padding of a padded byte string gives the string back.
pub proof fn lemma_trim_padding(b: Seq<u8>, k: nat)
    requires
        b.len() == 0 || b.last() != 0,
    ensures
        trim_zeros(b + Seq::new(k, |i: int| 0u8)) == b,
    decreases k,
{
    let padded = b + Seq::new(k, |i: int| 0u8);
    if k == 0 {
        assert(padded =~= b);
    } else {
        assert(padded.last() == 0);
        assert(padded.drop_last() =~= b + Seq::new((k - 1) as nat, |i: int| 0u8));
        lemma_trim_padding(b, (k - 1) as nat);
    }
}

pub proof fn lemma_fits_name(name: Seq<char>)
    requires
        fits_name_field(name),
    ensures
        trim_zeros(fixed_width(encode_utf8(name), 15)) == encode_utf8(name),
        utf8_text(encode_utf8(name)) == name,
{
    encode_utf8_valid_utf8(name);
    encode_utf8_decode_utf8(name);
    let b = encode_utf8(name);
    lemma_trim_padding(b, (15 - b.len()) as nat);
    if b.len() == 15 {
        assert(b.subrange(0, 15) =~= b);
        assert(b + Seq::new(0, |i: int| 0u8) =~= b);
    }
}

/// Reading back a player record gives the player that was written, for a
/// name that fits its field.
pub proof fn lemma_record_round_trip(number: u8, name: Seq<char>, addr: PeerAddr)
    requires
        fits_name_field(name),
    ensures
        record_view(record_bytes(number, name, addr)) == player_read_back(number, name, addr),
{
    let bytes = record_bytes(number, name, addr);
    let fw = fixed_width(encode_utf8(name), 15);
    lemma_fixed_width_len(encode_utf8(name), 15);
    lemma_fits_name(name);
    assert(bytes.subrange(1, 16) =~= fw);
    assert(bytes.subrange(16, 20) =~= wire_ip(addr));
    assert(be_u16(bytes[20], bytes[21]) == wire_port(addr) as nat);
    match addr {
        PeerAddr::V4 { ip, port } => {
            if ip == (Octets { a: 0, b: 0, c: 0, d: 0 }) && port == 0 {
                assert(wire_ip(addr) =~= seq![0u8, 0u8, 0u8, 0u8]);
            } else {
                if wire_ip(addr) == seq![0u8, 0u8, 0u8, 0u8] {
                    assert(ip.a == wire_ip(addr)[0] && ip.b == wire_ip(addr)[1]);
                    assert(ip.c == wire_ip(addr)[2] && ip.d == wire_ip(addr)[3]);
                }
            }
        },
        PeerAddr::V6 { .. } => {},
    }
}

/// The records of the first `n` sessions other than player `skip`.
pub open spec fn others_records(entries: Entries, n: int, skip: u8) -> Seq<Seq<u8>>
    decreases n,
{
    if n <= 0 || n > entries.len() {
        seq![]
    } else {
        others_records(entries, n - 1, skip) + if entries[n - 1].1.player_number == skip {
            Seq::<Seq<u8>>::empty()
        } else {
            seq![record_bytes(entries[n - 1].1.player_number, entries[n - 1].1.player_name@, entries[n - 1].0)]
        }
    }
}

/// The concatenated records are cut back into the same records.
pub proof fn lemma_others_elements(entries: Entries, n: int, skip: u8)
    ensures
        others_bytes(entries, n, skip).len() == 22 * others_records(entries, n, skip).len(),
        element_count(others_bytes(entries, n, skip), 22) == others_records(entries, n, skip).len(),
        forall|k: int| 0 <= k < others_records(entries, n, skip).len() ==>
            element(others_bytes(entries, n, skip), 22, k as nat) == #[trigger] others_records(entries, n, skip)[k],
    decreases n,
{
    if n > 0 && n <= entries.len() {
        lemma_others_elements(entries, n - 1, skip);
        let prev_b = others_bytes(entries, n - 1, skip);
        let prev_r = others_records(entries, n - 1, skip);
        let cur_b = others_bytes(entries, n, skip);
        let cur_r = others_records(entries, n, skip);
        let e = entries[n - 1];
        if e.1.player_number != skip {
            let rec = record_bytes(e.1.player_number, e.1.player_name@, e.0);
            lemma_fixed_width_len(encode_utf8(e.1.player_name@), 15);
            assert(rec.len() == 22);
            assert(cur_b == prev_b + rec);
            assert(cur_r == prev_r.push(rec));
            assert forall|k: int| 0 <= k < cur_r.len() implies element(cur_b, 22, k as nat) == #[trigger] cur_r[k] by {
                assert((k + 1) * 22 == k * 22 + 22) by (nonlinear_arith);
                if k < prev_r.len() {
                    assert((k + 1) * 22 <= prev_b.len()) by (nonlinear_arith)
                        requires k + 1 <= prev_r.len(), prev_b.len() == 22 * prev_r.len();
                    assert(element(cur_b, 22, k as nat) =~= element(prev_b, 22, k as nat));
                } else {
                    assert(k * 22 == prev_b.len()) by (nonlinear_arith)
                        requires k == prev_r.len(), prev_b.len() == 22 * prev_r.len();
                    assert(element(cur_b, 22, k as nat) =~= rec);
                }
            }
            assert(cur_b.len() / 22 == cur_r.len()) by (nonlinear_arith)
                requires cur_b.len() == 22 * cur_r.len();
        } else {
            assert(cur_b =~= prev_b);
            assert(cur_r =~= prev_r);
        }
    } else {
        assert(others_bytes(entries, n, skip).len() == 0);
    }
}

/// The players of the first `n` sessions other than player `skip`, as a
/// receiver reads them back.
pub open spec fn others_read_back(entries: Entries, n: int, skip: u8) -> Seq<PlayerView>
    decreases n,
{
    if n <= 0 || n > entries.len() {
        seq![]
    } else {
        others_read_back(entries, n - 1, skip) + if entries[n - 1].1.player_number == skip {
            Seq::<PlayerView>::empty()
        } else {
            seq![player_read_back(entries[n - 1].1.player_number, entries[n - 1].1.player_name@, entries[n - 1].0)]
        }
    }
}

/// When every session's name fits its field, the records read back are
/// the sessions themselves.
pub proof fn lemma_others_read_back(entries: Entries, n: int, skip: u8)
    requires
        forall|i: int| 0 <= i < entries.len() ==> fits_name_field(#[trigger] entries[i].1.player_name@),
    ensures
        others_records(entries, n, skip).map_values(|r: Seq<u8>| record_view(r)) == others_read_back(entries, n, skip),
    decreases n,
{
    if n > 0 && n <= entries.len() {
        lemma_others_read_back(entries, n - 1, skip);
        let e = entries[n - 1];
        if e.1.player_number != skip {
            lemma_record_round_trip(e.1.player_number, e.1.player_name@, e.0);
        }
        assert(others_records(entries, n, skip).map_values(|r: Seq<u8>| record_view(r)) =~= others_read_back(entries, n, skip));
    } else {
        assert(others_records(entries, n, skip).map_values(|r: Seq<u8>| record_view(r)) =~= Seq::<PlayerView>::empty());
    }
}

/// Reading back a PlayerCreatedResponse with status 1 gives the player it
/// names and one player per other session, in session order.
pub proof fn lemma_created_round_trip(name: Seq<char>, number: u8, entries: Entries)
    requires
        fits_name_field(name),
    ensures
        created_view(created_response_bytes(1, name, number, entries)) == Ok::<
            Result<CreatedView, crate::player::PlayerCreatedServerError>,
            crate::layout::ProtocolError,
        >(Ok(CreatedView {
            player: PlayerView { name, number, addr: None },
            others: others_records(entries, entries.len() as int, number).map_values(|r: Seq<u8>| record_view(r)),
        })),
        (forall|i: int| 0 <= i < entries.len() ==> fits_name_field(#[trigger] entries[i].1.player_name@))
            ==> others_records(entries, entries.len() as int, number).map_values(|r: Seq<u8>| record_view(r))
            == others_read_back(entries, entries.len() as int, number),
{
    if forall|i: int| 0 <= i < entries.len() ==> fits_name_field(#[trigger] entries[i].1.player_name@) {
        lemma_others_read_back(entries, entries.len() as int, number);
    }
    let raw = created_response_bytes(1, name, number, entries);
    let fw = fixed_width(encode_utf8(name), 15);
    lemma_fixed_width_len(encode_utf8(name), 15);
    lemma_fits_name(name);
    let body = others_bytes(entries, entries.len() as int, number);
    lemma_others_elements(entries, entries.len() as int, number);
    assert(raw.subrange(2, 17) =~= fw);
    assert(raw.subrange(17, raw.len() as int) =~= body);
    let recs = others_records(entries, entries.len() as int, number);
    assert(Seq::new(element_count(body, 22), |k: int| record_view(element(body, 22, k as nat))) =~= recs.map_values(
        |r: Seq<u8>| record_view(r),
    ));
}

/// A response with any status other than 1 reads back as the server error
/// that the status names.
pub proof fn lemma_created_status_round_trip(status: u8, name: Seq<char>, number: u8, entries: Entries)
    requires
        status != 1,
    ensures
        created_view(created_response_bytes(status, name, number, entries)) == Ok::<
            Result<CreatedView, crate::player::PlayerCreatedServerError>,
            crate::layout::ProtocolError,
        >(Err(status_error(status))),
{
}

} // verus!
