use udp_session::addr::{create_addr_from_ip_and_port, get_ip_and_port_from_socket_addr, Octets, PeerAddr};
use udp_session::client::{create_request_event, handle_received_data, ClientEvent};
use udp_session::connection::Connections;
use udp_session::datahelpers::{create_player_created_response, create_player_enter_push, create_player_request};
use udp_session::job::{Job, JobAction, Jobs};
use udp_session::jobtype::{ClientJob, ServerJob};
use udp_session::layout::ProtocolError;
use udp_session::params::Params;
use udp_session::player::{PlayerCreatedServerError, PlayerData};
use udp_session::protocol::Protocol;
use udp_session::runtime::{ConnectionState, Lifecycle};
use udp_session::server::handle_datagram;
use udp_session::{playercreatedresponse, playerenterpush};

fn v4(a: u8, b: u8, c: u8, d: u8, port: u16) -> PeerAddr {
    PeerAddr::V4 { ip: Octets { a, b, c, d }, port }
}

fn enter_datagram(handle: u8, name: &str) -> Vec<u8> {
    let mut raw = vec![handle, 0x03];
    raw.extend_from_slice(name.as_bytes());
    raw
}

fn padded(name: &str) -> Vec<u8> {
    let mut v = name.as_bytes().to_vec();
    v.resize(15, 0);
    v
}

#[test]
fn close_global_test_server() {
    let mut server = Lifecycle::new();
    server.mark_started();
    assert!(server.is_running());
    assert!(server.begin_shutdown(true));
    assert!(server.should_exit());
    let _is_running = server.finish_shutdown(true);
    let mut is_closed = false;
    for _i in 1..100 {
        if !server.is_running() {
            is_closed = true;
            break;
        }
    }
    assert_eq!(true, is_closed);
}

#[test]
fn stop_without_endpoint_reports_failure() {
    let mut client = Lifecycle::new();
    client.mark_started();
    assert!(!client.begin_shutdown(false));
    assert!(!client.finish_shutdown(false));
    assert!(!client.is_running());
}

#[test]
fn test_create_player_request_with_name() {
    let protocols = Protocol::new();
    let mut sessions = Connections::new();
    let mut jobs = Jobs::new(0);
    let mut payload = create_player_request(&protocols, "Testing name".to_string()).unwrap();
    let job = jobs.create_job(ClientJob::PlayerEnterRequest, &mut payload, 0);
    let datagram = job.get_raw_data();
    jobs.apply_action(JobAction::Add, job.get_handle(), Some(job), 0);
    let reply = handle_datagram(&mut sessions, &protocols, v4(127, 0, 0, 1, 50000), &datagram);
    assert_eq!(reply.datagrams.len(), 1);
    let event = handle_received_data(&mut jobs, &protocols, &reply.datagrams[0].1, 1000);
    let server_request_name = match event {
        ClientEvent::PlayerCreated(Ok(data)) => data.player.player_name,
        other => panic!("unexpected event {:?}", other),
    };
    assert_eq!(server_request_name, "Testing name".to_string());
}

#[test]
fn first_player_is_created() {
    let protocols = Protocol::new();
    let mut sessions = Connections::new();
    let reply = handle_datagram(&mut sessions, &protocols, v4(10, 0, 0, 1, 4000), &enter_datagram(7, "Ann"));
    assert!(!reply.failed);
    assert_eq!(reply.datagrams.len(), 1);
    let mut expected = vec![7, 0x43, 1, 1];
    expected.extend_from_slice(&padded("Ann"));
    assert_eq!(reply.datagrams[0].0, v4(10, 0, 0, 1, 4000));
    assert_eq!(reply.datagrams[0].1, expected);
}

#[test]
fn second_player_sees_first() {
    let protocols = Protocol::new();
    let mut sessions = Connections::new();
    let a = v4(10, 0, 0, 1, 4000);
    let b = v4(10, 0, 0, 2, 4001);
    handle_datagram(&mut sessions, &protocols, a, &enter_datagram(1, "A"));
    let reply = handle_datagram(&mut sessions, &protocols, b, &enter_datagram(2, "B"));
    assert_eq!(reply.datagrams.len(), 2);
    let to_b = &reply.datagrams[0];
    assert_eq!(to_b.0, b);
    let mut expected = vec![2, 0x43, 1, 2];
    expected.extend_from_slice(&padded("B"));
    expected.push(1);
    expected.extend_from_slice(&padded("A"));
    expected.extend_from_slice(&[10, 0, 0, 1, 0x0F, 0xA0]);
    assert_eq!(to_b.1, expected);
    let to_a = &reply.datagrams[1];
    assert_eq!(to_a.0, a);
    let mut push = vec![2, 0x53, 2];
    push.extend_from_slice(&padded("B"));
    push.extend_from_slice(&[10, 0, 0, 2, 0x0F, 0xA1]);
    assert_eq!(to_a.1, push);
    let player = playerenterpush::structurize_raw_data(&protocols, &to_a.1[2..]).unwrap();
    assert_eq!(player.player_name, "B");
    assert_eq!(player.player_number, 2);
    assert_eq!(player.addr, Some(b));
}

#[test]
fn taken_name_is_refused() {
    let protocols = Protocol::new();
    let mut sessions = Connections::new();
    handle_datagram(&mut sessions, &protocols, v4(10, 0, 0, 1, 4000), &enter_datagram(1, "A"));
    handle_datagram(&mut sessions, &protocols, v4(10, 0, 0, 2, 4001), &enter_datagram(2, "B"));
    let reply = handle_datagram(&mut sessions, &protocols, v4(10, 0, 0, 3, 4002), &enter_datagram(3, "A"));
    assert!(reply.failed);
    assert_eq!(reply.datagrams.len(), 1);
    assert_eq!(reply.datagrams[0].1, vec![3, 0x43, 101]);
    assert_eq!(sessions.entries().len(), 2);
    let status = playercreatedresponse::structurize_raw_data(&protocols, &reply.datagrams[0].1[2..]).unwrap();
    assert_eq!(status.err(), Some(PlayerCreatedServerError::NameIsTaken));
}

#[test]
fn empty_name_is_an_invalid_request() {
    let protocols = Protocol::new();
    let mut sessions = Connections::new();
    let reply = handle_datagram(&mut sessions, &protocols, v4(10, 0, 0, 1, 4000), &[5, 0x03]);
    assert_eq!(reply.datagrams[0].1, vec![5, 0x43, 100]);
    assert!(reply.failed);
    assert_eq!(sessions.entries().len(), 0);
}

#[test]
fn ping_gets_pong() {
    let protocols = Protocol::new();
    let mut sessions = Connections::new();
    let reply = handle_datagram(&mut sessions, &protocols, v4(10, 0, 0, 1, 4000), &[0x10, 0x05]);
    assert_eq!(reply.datagrams.len(), 1);
    assert_eq!(reply.datagrams[0].1, vec![0x10, 0x85]);
    let mut jobs = Jobs::new(0);
    for _ in 0..0x10 {
        jobs.get_next_job_handle();
    }
    let job = jobs.create_job(ClientJob::PingRequest, &mut vec![], 1_000);
    assert_eq!(job.get_raw_data(), vec![0x10, 0x05]);
    jobs.insert_job(0x10, job);
    let event = handle_received_data(&mut jobs, &protocols, &reply.datagrams[0].1, 4_500);
    assert!(matches!(event, ClientEvent::Pong(3_500)));
    assert_eq!(jobs.len(), 0);
    assert_eq!(jobs.get_packages_handled(), 1);
}

#[test]
fn response_without_job_is_an_error() {
    let protocols = Protocol::new();
    let mut jobs = Jobs::new(0);
    let event = handle_received_data(&mut jobs, &protocols, &[9, 0x85], 10);
    assert!(matches!(event, ClientEvent::Error));
    assert_eq!(jobs.get_packages_failed(), 1);
    let event = handle_received_data(&mut jobs, &protocols, &[9], 10);
    assert!(matches!(event, ClientEvent::Nothing));
    assert_eq!(jobs.get_packages_failed(), 2);
}

#[test]
fn unanswered_request_is_dropped_after_ten_resends() {
    let mut jobs = Jobs::new(0);
    let job = jobs.create_job(ClientJob::PingRequest, &mut vec![], 0);
    let deadline_us: u64 = 2_500_000 + 1_000;
    jobs.insert_job(job.get_handle(), job);
    let mut now: u64 = 0;
    let mut resent = 0;
    for _ in 0..10 {
        now += deadline_us;
        let again = jobs.resend_late_jobs(now);
        assert_eq!(again, vec![vec![0, 0x05]]);
        resent += again.len();
    }
    assert_eq!(jobs.len(), 1);
    now += deadline_us;
    assert!(jobs.resend_late_jobs(now).is_empty());
    assert_eq!(resent, 10);
    assert_eq!(jobs.len(), 0);
    assert_eq!(jobs.get_packages_failed(), 0);
}

#[test]
fn jobs_before_deadline_stay() {
    let mut jobs = Jobs::new(0);
    let job = jobs.create_job(ClientJob::DataRequest, &mut vec![1, 2], 0);
    jobs.insert_job(job.get_handle(), job);
    assert!(jobs.resend_late_jobs(1_000).is_empty());
    assert_eq!(jobs.len(), 1);
}

#[test]
fn handles_count_up_then_restart() {
    let mut jobs = Jobs::new(0);
    let mut seen = Vec::new();
    for _ in 0..257 {
        seen.push(jobs.get_next_job_handle());
    }
    for i in 0..256 {
        assert_eq!(seen[i], i as u8);
    }
    assert_eq!(seen[256], 0);
}

#[test]
fn ping_follows_recent_mean() {
    let mut jobs = Jobs::new(0);
    assert_eq!(jobs.get_ping(), 500_000);
    for _ in 0..4 {
        jobs.add_finish_time(20_000, 0);
    }
    jobs.add_finish_time(20_000, 10_000_001);
    assert_eq!(jobs.get_ping(), 20_000);
    let mut fast = Jobs::new(0);
    for _ in 0..5 {
        fast.add_finish_time(500, 0);
    }
    fast.add_finish_time(500, 10_000_000);
    assert_eq!(fast.get_ping(), 10_000);
    let mut slow = Jobs::new(0);
    for _ in 0..5 {
        slow.add_finish_time(900_000, 0);
    }
    slow.add_finish_time(900_000, 10_000_000);
    assert_eq!(slow.get_ping(), 500_000);
    let mut few = Jobs::new(0);
    few.add_finish_time(20_000, 0);
    few.add_finish_time(20_000, 10_000_000);
    assert_eq!(few.get_ping(), 500_000);
}

#[test]
fn removing_a_job_records_its_duration() {
    let mut jobs = Jobs::new(0);
    let job = Job::new(3, (ServerJob::NoServerAction, ClientJob::DataRequest), &mut vec![], 100, 50);
    jobs.apply_action(JobAction::Add, 3, Some(job), 50);
    jobs.apply_action(JobAction::Remove, 3, None, 150);
    assert_eq!(jobs.len(), 0);
    jobs.apply_action(JobAction::Remove, 3, None, 150);
    assert_eq!(jobs.get_packages_failed(), 1);
    jobs.apply_action(JobAction::IncHandled, 0, None, 150);
    assert_eq!(jobs.get_packages_handled(), 1);
}

#[test]
fn identical_names_never_share_a_session() {
    let protocols = Protocol::new();
    let mut sessions = Connections::new();
    for i in 0..5u8 {
        handle_datagram(&mut sessions, &protocols, v4(10, 0, 0, i, 4000), &enter_datagram(i, "Same"));
    }
    assert_eq!(sessions.entries().len(), 1);
}

#[test]
fn player_numbers_are_unique_and_reused() {
    let mut sessions = Connections::new();
    for i in 0..255u8 {
        let n = sessions.create_new_connection(v4(10, 0, 0, i, 1), format!("p{}", i));
        assert_eq!(n, Some(i + 1));
    }
    assert_eq!(sessions.create_new_connection(v4(10, 0, 1, 0, 1), "last".to_string()), None);
    let mut numbers: Vec<u8> = sessions.entries().iter().map(|e| e.1.player_number).collect();
    numbers.sort();
    numbers.dedup();
    assert_eq!(numbers.len(), 255);
    assert!(sessions.is_name_taken("p3".to_string()));
    assert!(sessions.is_ip_in_connections(v4(10, 0, 0, 3, 1)));
}

#[test]
fn every_joined_player_hears_of_later_ones() {
    let protocols = Protocol::new();
    let mut sessions = Connections::new();
    let names = ["n1", "n2", "n3", "n4"];
    let mut pushes_to_first = Vec::new();
    for (i, name) in names.iter().enumerate() {
        let reply = handle_datagram(&mut sessions, &protocols, v4(10, 0, 0, i as u8, 5000), &enter_datagram(i as u8, name));
        assert_eq!(reply.datagrams.len(), i + 1);
        for d in &reply.datagrams[1..] {
            assert_eq!(d.1[1], 0x53);
            if d.0 == v4(10, 0, 0, 0, 5000) {
                let p = playerenterpush::structurize_raw_data(&protocols, &d.1[2..]).unwrap();
                pushes_to_first.push(p.player_name);
            }
        }
    }
    assert_eq!(pushes_to_first, vec!["n2".to_string(), "n3".to_string(), "n4".to_string()]);
}

#[test]
fn data_push_goes_to_the_others() {
    let protocols = Protocol::new();
    let mut sessions = Connections::new();
    let a = v4(10, 0, 0, 1, 4000);
    let b = v4(10, 0, 0, 2, 4000);
    handle_datagram(&mut sessions, &protocols, a, &enter_datagram(1, "A"));
    handle_datagram(&mut sessions, &protocols, b, &enter_datagram(2, "B"));
    let reply = handle_datagram(&mut sessions, &protocols, a, &[9, 0x01, b'h', b'i']);
    assert_eq!(reply.datagrams.len(), 2);
    assert_eq!(reply.datagrams[0], (b, vec![9, 0x11, 1, b'h', b'i']));
    assert_eq!(reply.datagrams[1], (a, vec![9, 0x21]));
    let unknown = handle_datagram(&mut sessions, &protocols, v4(1, 1, 1, 1, 1), &[9, 0x01, 1]);
    assert!(unknown.datagrams.is_empty());
    let mut jobs = Jobs::new(0);
    let event = create_request_event(&mut jobs, &protocols, 9, ServerJob::DataPush, vec![1, b'h', b'i'], 0);
    match event {
        ClientEvent::DataPushReceived(player, data) => {
            assert_eq!(player, 1);
            assert_eq!(data, b"hi".to_vec());
        }
        other => panic!("unexpected event {:?}", other),
    }
}

#[test]
fn malformed_datagrams_fail() {
    let protocols = Protocol::new();
    let mut sessions = Connections::new();
    let reply = handle_datagram(&mut sessions, &protocols, v4(10, 0, 0, 1, 4000), &[1]);
    assert!(reply.failed);
    assert!(reply.datagrams.is_empty());
}

#[test]
fn enter_push_round_trip() {
    let protocols = Protocol::new();
    let addr = v4(192, 168, 1, 20, 27015);
    let raw = create_player_enter_push(&protocols, "Zoë".to_string(), 42, addr).unwrap();
    assert_eq!(raw.len(), 22);
    let p = playerenterpush::structurize_raw_data(&protocols, &raw).unwrap();
    assert_eq!(p.player_name, "Zoë");
    assert_eq!(p.player_number, 42);
    assert_eq!(p.addr, Some(addr));
    let v6 = PeerAddr::V6 { bits: 1, port: 9, flowinfo: 0, scope_id: 0 };
    let raw6 = create_player_enter_push(&protocols, "Six".to_string(), 1, v6).unwrap();
    assert_eq!(&raw6[16..], &[0, 0, 0, 0, 0, 0]);
    assert_eq!(playerenterpush::structurize_raw_data(&protocols, &raw6).unwrap().addr, None);
    assert_eq!(
        playerenterpush::structurize_raw_data(&protocols, &raw[..21]).err(),
        Some(ProtocolError::LengthMismatch)
    );
}

#[test]
fn created_response_round_trip() {
    let protocols = Protocol::new();
    let mut sessions = Connections::new();
    sessions.create_new_connection(v4(1, 2, 3, 4, 5), "First".to_string());
    sessions.create_new_connection(v4(1, 2, 3, 5, 6), "Second".to_string());
    let raw = create_player_created_response(&protocols, 1, "Second".to_string(), 2, &sessions).unwrap();
    assert_eq!(raw.len(), 17 + 22);
    let data = playercreatedresponse::structurize_raw_data(&protocols, &raw).unwrap().unwrap();
    assert_eq!(data.player.player_name, "Second");
    assert_eq!(data.player.player_number, 2);
    assert_eq!(data.others_players.len(), 1);
    assert_eq!(data.others_players[0].player_name, "First");
    assert_eq!(data.others_players[0].addr, Some(v4(1, 2, 3, 4, 5)));
    let refused = create_player_created_response(&protocols, 102, "X".to_string(), 0, &sessions).unwrap();
    let status = playercreatedresponse::structurize_raw_data(&protocols, &refused).unwrap();
    assert_eq!(status.err(), Some(PlayerCreatedServerError::TooManyPlayers));
    let odd = playercreatedresponse::structurize_raw_data(&protocols, &[7]).unwrap();
    assert_eq!(odd.err(), Some(PlayerCreatedServerError::InvalidServerStatusCode));
    let invalid = playercreatedresponse::structurize_raw_data(&protocols, &[100]).unwrap();
    assert_eq!(invalid.err(), Some(PlayerCreatedServerError::InvalidRequest));
    assert_eq!(
        playercreatedresponse::structurize_raw_data(&protocols, &[1, 2]).err(),
        Some(ProtocolError::InvalidRawData)
    );
}

#[test]
fn request_body_is_the_name() {
    let protocols = Protocol::new();
    assert_eq!(create_player_request(&protocols, "Ann".to_string()).unwrap(), b"Ann".to_vec());
}

#[test]
fn addresses() {
    assert_eq!(get_ip_and_port_from_socket_addr(v4(1, 2, 3, 4, 80)), Some((Octets { a: 1, b: 2, c: 3, d: 4 }, 80)));
    assert_eq!(create_addr_from_ip_and_port(vec![1, 2, 3], 80), None);
    assert_eq!(create_addr_from_ip_and_port(vec![0, 0, 0, 0], 0), None);
    assert_eq!(create_addr_from_ip_and_port(vec![1, 2, 3, 4], 80), Some(v4(1, 2, 3, 4, 80)));
}

#[test]
fn params_match_options() {
    let mut params = Params::new(vec!["prog".to_string(), "--server".to_string(), "-c".to_string()]);
    assert!(!params.has_valid_args());
    assert!(params.has_param("server".to_string()));
    assert!(params.has_valid_args());
    assert!(params.has_param("client".to_string()));
    assert!(!params.has_param("test".to_string()));
    assert!(!params.has_param("".to_string()));
}

#[test]
fn degraded_state_reports_changes_once() {
    let mut state = ConnectionState::new();
    assert_eq!(state.take_change(), None);
    state.set_outcome(false);
    assert!(state.is_degraded());
    assert_eq!(state.take_change(), Some(true));
    assert_eq!(state.take_change(), None);
    state.set_outcome(true);
    assert_eq!(state.take_change(), Some(false));
}

#[test]
fn player_data_is_plain() {
    let p = PlayerData { player_name: "x".to_string(), player_number: 1, addr: None };
    assert_eq!(p.player_number, 1);
}

#[test]
fn deadline_is_five_pings() {
    let mut jobs = Jobs::new(0);
    assert_eq!(jobs.deadline_for_new_job(), 2_500);
    for _ in 0..5 {
        jobs.add_finish_time(40_000, 0);
    }
    jobs.add_finish_time(40_000, 10_000_000);
    assert_eq!(jobs.deadline_for_new_job(), 200);
    let job = jobs.create_job(ClientJob::PingRequest, &mut vec![], 0);
    assert!(!job.is_pending_request_late(200_999));
    assert!(job.is_pending_request_late(201_000));
}

#[test]
fn test_create_player_request_other_player_names() {
    let protocols = Protocol::new();
    let mut sessions = Connections::new();
    let addrs = [v4(127, 0, 0, 1, 49152), v4(127, 0, 0, 1, 49153), v4(127, 0, 0, 1, 49154)];
    let names = ["Tester 1", "Tester 2", "Tester 3"];
    let mut clients: Vec<Jobs> = (0..3).map(|_| Jobs::new(0)).collect();
    let mut known: Vec<Vec<String>> = vec![Vec::new(), Vec::new(), Vec::new()];
    let mut datagrams: Vec<(PeerAddr, Vec<u8>)> = Vec::new();
    for i in 0..3 {
        let mut payload = create_player_request(&protocols, names[i].to_string()).unwrap();
        let job = clients[i].create_job(ClientJob::PlayerEnterRequest, &mut payload, 0);
        let datagram = job.get_raw_data();
        clients[i].insert_job(job.get_handle(), job);
        let reply = handle_datagram(&mut sessions, &protocols, addrs[i], &datagram);
        datagrams.extend(reply.datagrams);
    }
    for (to, data) in datagrams {
        let i = addrs.iter().position(|a| *a == to).unwrap();
        match handle_received_data(&mut clients[i], &protocols, &data, 10) {
            ClientEvent::PlayerCreated(Ok(created)) => {
                known[i].push(created.player.player_name);
                for other in created.others_players {
                    known[i].push(other.player_name);
                }
            }
            ClientEvent::PlayerEnterPush(player) => known[i].push(player.player_name),
            other => panic!("unexpected event {:?}", other),
        }
    }
    let check_names = |names_known: &Vec<String>| {
        names.iter().all(|n| names_known.iter().filter(|k| k.as_str() == *n).count() == 1)
    };
    assert_eq!(true, check_names(&known[0]) && check_names(&known[1]) && check_names(&known[2]));
}

#[test]
fn bytes_sent_are_counted_per_session() {
    let mut sessions = Connections::new();
    let a = v4(1, 1, 1, 1, 1);
    sessions.create_new_connection(a, "A".to_string());
    let fresh = &sessions.entries()[0].1;
    assert_eq!((fresh.bytes_send, fresh.bytes_received, fresh.connections_count), (0, 0, 0));
    sessions.add_bytes_sent(a, 19);
    sessions.add_bytes_sent(v4(2, 2, 2, 2, 2), 5);
    sessions.set_connection_stats(a, 3);
    let c = &sessions.entries()[0].1;
    assert_eq!((c.bytes_send, c.bytes_received, c.connections_count), (19, 3, 1));
}

#[test]
fn pong_records_its_duration() {
    let protocols = Protocol::new();
    let mut jobs = Jobs::new(0);
    let job = jobs.create_job(ClientJob::PingRequest, &mut vec![], 100);
    jobs.insert_job(job.get_handle(), job);
    let event = handle_received_data(&mut jobs, &protocols, &[0, 0x85], 10_000_100);
    assert!(matches!(event, ClientEvent::Pong(10_000_000)));
    assert_eq!(jobs.get_packages_handled(), 1);
    assert_eq!(jobs.get_packages_failed(), 0);
    assert_eq!(jobs.get_ping(), 500_000);
    let empty_push = handle_received_data(&mut jobs, &protocols, &[0, 0x11], 0);
    assert!(matches!(empty_push, ClientEvent::Error));
    assert_eq!(jobs.get_packages_failed(), 1);
}
