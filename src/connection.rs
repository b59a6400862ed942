use crate::addr::PeerAddr;
use crate::bytes::str_eq;
use vstd::prelude::*;

verus! {

/// A player's session on the server.
#[derive(Debug)]
pub struct Connection {
    pub connections_count: i32,
    pub bytes_received: i128,
    pub bytes_send: i128,
    pub ping: u16,
    pub player_number: u8,
    pub player_name: String,
}

impl Connection {
    pub fn new(player_number: u8, player_name: String) -> (r: Connection)
        ensures
            r.player_number == player_number,
            r.player_name@ == player_name@,
            r.connections_count == 0,
            r.bytes_received == 0,
            r.bytes_send == 0,
            r.ping == 0,
    {
        Connection {
            connections_count: 0,
            bytes_received: 0,
            bytes_send: 0,
            ping: 0,
            player_name,
            player_number,
        }
    }
}

pub type Entries = Seq<(PeerAddr, Connection)>;

/// Whether some session has player number `n`.
pub open spec fn number_used(entries: Entries, n: int) -> bool {
    exists|i: int| 0 <= i < entries.len() && entries[i].1.player_number == n
}

/// Whether some session has a player of this name.
pub open spec fn name_used(entries: Entries, name: Seq<char>) -> bool {
    exists|i: int| 0 <= i < entries.len() && entries[i].1.player_name@ == name
}

/// The position of the session of an address.
pub open spec fn addr_index(entries: Entries, addr: PeerAddr) -> Option<int> {
    if exists|i: int| 0 <= i < entries.len() && entries[i].0 == addr {
        Some(choose|i: int| 0 <= i < entries.len() && entries[i].0 == addr)
    } else {
        None
    }
}

/// The smallest player number in 1..=255 that no session has, if any.
pub open spec fn smallest_free_number(entries: Entries) -> Option<u8> {
    if exists|n: int| 1 <= n <= 255 && !number_used(entries, n) {
        Some((choose|n: int| 1 <= n <= 255 && !number_used(entries, n) && forall|m: int| 1 <= m < n ==> number_used(entries, m)) as u8)
    } else {
        None
    }
}

/// The sessions once a datagram of `n` bytes from `addr` is counted: its
/// session, if any, has one more request and `n` more bytes received (each
/// counter stops at its maximum).
pub open spec fn counted(entries: Entries, addr: PeerAddr, n: i128) -> Entries {
    match addr_index(entries, addr) {
        None => entries,
        Some(k) => {
            let c = entries[k].1;
            entries.update(
                k,
                (
                    entries[k].0,
                    Connection {
                        connections_count: if c.connections_count < i32::MAX {
                            (c.connections_count + 1) as i32
                        } else {
                            c.connections_count
                        },
                        bytes_received: if c.bytes_received <= i128::MAX - n {
                            (c.bytes_received + n) as i128
                        } else {
                            c.bytes_received
                        },
                        ..c
                    },
                ),
            )
        },
    }
}

/// A fresh session of player `n` called `name`: all counters at zero.
pub open spec fn is_new_session(c: Connection, n: u8, name: Seq<char>) -> bool {
    &&& c.player_number == n
    &&& c.player_name@ == name
    &&& c.connections_count == 0
    &&& c.bytes_received == 0
    &&& c.bytes_send == 0
    &&& c.ping == 0
}

/// `new_e` is `old_e` with a fresh session of player `n` called `name` at
/// `addr`, which replaces the session already at `addr`, if any, and is
/// added last otherwise.
pub open spec fn joined(old_e: Entries, new_e: Entries, addr: PeerAddr, n: u8, name: Seq<char>) -> bool {
    match addr_index(old_e, addr) {
        Some(k) => new_e.len() == old_e.len() && new_e[k].0 == addr && is_new_session(new_e[k].1, n, name)
            && forall|j: int| 0 <= j < old_e.len() && j != k ==> new_e[j] == old_e[j],
        None => new_e.len() == old_e.len() + 1 && new_e.last().0 == addr && is_new_session(new_e.last().1, n, name)
            && new_e.subrange(0, old_e.len() as int) == old_e,
    }
}

/// The sessions once `n` bytes sent to `addr` are counted: its session, if
/// any, has `n` more bytes sent (the counter stops at its maximum).
pub open spec fn sent_counted(entries: Entries, addr: PeerAddr, n: i128) -> Entries {
    match addr_index(entries, addr) {
        None => entries,
        Some(k) => {
            let c = entries[k].1;
            entries.update(
                k,
                (
                    entries[k].0,
                    Connection {
                        bytes_send: if c.bytes_send <= i128::MAX - n {
                            (c.bytes_send + n) as i128
                        } else {
                            c.bytes_send
                        },
                        ..c
                    },
                ),
            )
        },
    }
}

/// Addresses, player numbers and player names are each unique, and every
/// player number lies in 1..=255.
pub open spec fn sessions_wf(entries: Entries) -> bool {
    &&& forall|i: int, j: int| 0 <= i < j < entries.len() ==> entries[i].0 != entries[j].0
    &&& forall|i: int, j: int| 0 <= i < j < entries.len() ==> entries[i].1.player_number != entries[j].1.player_number
    &&& forall|i: int, j: int| 0 <= i < j < entries.len() ==> entries[i].1.player_name@ != entries[j].1.player_name@
    &&& forall|i: int| 0 <= i < entries.len() ==> 1 <= #[trigger] entries[i].1.player_number <= 255
}

/// The sessions of the server, by remote address.
pub struct Connections {
    connections: Vec<(PeerAddr, Connection)>,
}

impl Connections {
    pub closed spec fn spec_entries(&self) -> Entries {
        self.connections@
    }

    pub open spec fn wf(&self) -> bool {
        sessions_wf(self.spec_entries())
    }

    pub fn new() -> (r: Connections)
        ensures
            r.wf(),
            r.spec_entries() == Seq::<(PeerAddr, Connection)>::empty(),
    {
        Connections { connections: Vec::new() }
    }

    /// The sessions, in the order they were created.
    pub fn entries(&self) -> (r: &Vec<(PeerAddr, Connection)>)
        ensures
            r@ == self.spec_entries(),
    {
        &self.connections
    }

    /// The position of the session of an address.
    pub fn find(&self, addr: &PeerAddr) -> (r: Option<usize>)
        requires
            self.wf(),
        ensures
            match r {
                Some(i) => addr_index(self.spec_entries(), *addr) == Some(i as int) && i < self.spec_entries().len(),
                None => addr_index(self.spec_entries(), *addr) is None,
            },
    {
        let mut i: usize = 0;
        while i < self.connections.len()
            invariant
                self.wf(),
                i <= self.connections@.len(),
                forall|j: int| 0 <= j < i ==> self.connections@[j].0 != *addr,
            decreases self.connections@.len() - i,
        {
            if self.connections[i].0 == *addr {
                proof {
                    let e = self.connections@;
                    let c = choose|c: int| 0 <= c < e.len() && e[c].0 == *addr;
                    if c < i {
                    } else if c > i {
                        assert(e[i as int].0 != e[c].0);
                    }
                }
                return Some(i);
            }
            i = i + 1;
        }
        None
    }

    pub fn is_ip_in_connections(&self, ip: PeerAddr) -> (r: bool)
        requires
            self.wf(),
        ensures
            r == (addr_index(self.spec_entries(), ip) is Some),
    {
        self.find(&ip).is_some()
    }

    /// Whether a player of this name has a session.
    pub fn is_name_taken(&self, name: String) -> (r: bool)
        ensures
            r == name_used(self.spec_entries(), name@),
    {
        let mut i: usize = 0;
        while i < self.connections.len()
            invariant
                i <= self.connections@.len(),
                forall|j: int| 0 <= j < i ==> self.connections@[j].1.player_name@ != name@,
            decreases self.connections@.len() - i,
        {
            if str_eq(self.connections[i].1.player_name.as_str(), name.as_str()) {
                return true;
            }
            i = i + 1;
        }
        false
    }

    /// Whether some session has player number `n`.
    fn has_number(&self, n: u8) -> (r: bool)
        ensures
            r == number_used(self.spec_entries(), n as int),
    {
        let mut i: usize = 0;
        while i < self.connections.len()
            invariant
                i <= self.connections@.len(),
                forall|j: int| 0 <= j < i ==> self.connections@[j].1.player_number != n,
            decreases self.connections@.len() - i,
        {
            if self.connections[i].1.player_number == n {
                return true;
            }
            i = i + 1;
        }
        false
    }

    /// Gives the player at `ip` the smallest free player number in 1..=255
    /// and stores the session, replacing one at the same address; `None`
    /// when every number is in use.
    pub fn create_new_connection(&mut self, ip: PeerAddr, player_name: String) -> (r: Option<u8>)
        requires
            old(self).wf(),
            !name_used(old(self).spec_entries(), player_name@),
        ensures
            final(self).wf(),
            r == smallest_free_number(old(self).spec_entries()),
            r is None ==> final(self).spec_entries() == old(self).spec_entries(),
            r matches Some(n) ==> joined(old(self).spec_entries(), final(self).spec_entries(), ip, n, player_name@),
    {
        let ghost old_e = self.connections@;
        let mut index: u8 = 1;
        loop
            invariant
                1 <= index <= 255,
                self.connections@ == old_e,
                old_e == old(self).spec_entries(),
                sessions_wf(old_e),
                !name_used(old_e, player_name@),
                forall|m: int| 1 <= m < index ==> number_used(old_e, m),
            decreases 255 - index,
        {
            if !self.has_number(index) {
                proof {
                    assert(exists|n: int| 1 <= n <= 255 && !number_used(old_e, n)) by {
                        assert(!number_used(old_e, index as int));
                    }
                    assert(1 <= index <= 255 && !number_used(old_e, index as int) && forall|m: int| 1 <= m < index ==> number_used(old_e, m));
                    let c = choose|n: int| 1 <= n <= 255 && !number_used(old_e, n) && forall|m: int| 1 <= m < n ==> number_used(old_e, m);
                    assert(c == index) by {
                        if c < index {
                            assert(number_used(old_e, c));
                        } else if c > index {
                            assert(number_used(old_e, index as int));
                        }
                    }
                }
                let conn = Connection::new(index, player_name);
                match self.find(&ip) {
                    Some(k) => {
                        self.connections.set(k, (ip, conn));
                        proof {
                            let e = self.connections@;
                            assert forall|i: int, j: int| 0 <= i < j < e.len() implies e[i].1.player_number != e[j].1.player_number by {
                                if i == k {
                                    assert(!number_used(old_e, e[i].1.player_number as int) || e[j] == old_e[j]);
                                    assert(old_e[j].1.player_number != index);
                                } else if j == k {
                                    assert(old_e[i].1.player_number != index);
                                }
                            }
                            assert forall|i: int, j: int| 0 <= i < j < e.len() implies e[i].1.player_name@ != e[j].1.player_name@ by {
                                if i == k {
                                    assert(old_e[j].1.player_name@ != player_name@);
                                } else if j == k {
                                    assert(old_e[i].1.player_name@ != player_name@);
                                }
                            }
                            assert forall|i: int, j: int| 0 <= i < j < e.len() implies e[i].0 != e[j].0 by {
                                if i == k {
                                    assert(old_e[i].0 != old_e[j].0);
                                } else if j == k {
                                    assert(old_e[i].0 != old_e[j].0);
                                }
                            }
                        }
                    },
                    None => {
                        self.connections.push((ip, conn));
                        proof {
                            let e = self.connections@;
                            let n = old_e.len() as int;
                            assert forall|i: int, j: int| 0 <= i < j < e.len() implies e[i].1.player_number != e[j].1.player_number by {
                                if j == n {
                                    assert(old_e[i].1.player_number != index);
                                }
                            }
                            assert forall|i: int, j: int| 0 <= i < j < e.len() implies e[i].1.player_name@ != e[j].1.player_name@ by {
                                if j == n {
                                    assert(old_e[i].1.player_name@ != player_name@);
                                }
                            }
                            assert forall|i: int, j: int| 0 <= i < j < e.len() implies e[i].0 != e[j].0 by {
                                if j == n {
                                    assert(!(exists|x: int| 0 <= x < old_e.len() && old_e[x].0 == ip));
                                    assert(old_e[i].0 != ip);
                                }
                            }
                            assert(e.subrange(0, n) =~= old_e);
                        }
                    },
                }
                return Some(index);
            }
            if index == 255 {
                proof {
                    assert(!(exists|n: int| 1 <= n <= 255 && !number_used(old_e, n))) by {
                        assert(forall|m: int| 1 <= m <= 255 ==> number_used(old_e, m));
                    }
                }
                return None;
            }
            index = index + 1;
        }
    }

    /// Counts a datagram of `number_of_bytes` bytes received from `addr`, if
    /// it has a session.
    pub fn set_connection_stats(&mut self, addr: PeerAddr, number_of_bytes: i128)
        requires
            old(self).wf(),
            number_of_bytes >= 0,
        ensures
            final(self).wf(),
            final(self).spec_entries() == counted(old(self).spec_entries(), addr, number_of_bytes),
    {
        if let Some(k) = self.find(&addr) {
            let (a, mut c) = self.connections.remove(k);
            if c.connections_count < i32::MAX {
                c.connections_count = c.connections_count + 1;
            }
            if c.bytes_received <= i128::MAX - number_of_bytes {
                c.bytes_received = c.bytes_received + number_of_bytes;
            }
            self.connections.insert(k, (a, c));
            assert(self.connections@ =~= old(self).connections@.update(k as int, (a, c)));
        }
    }

    /// Counts `number_of_bytes` bytes sent to `addr`, if it has a session.
    pub fn add_bytes_sent(&mut self, addr: PeerAddr, number_of_bytes: i128)
        requires
            old(self).wf(),
            number_of_bytes >= 0,
        ensures
            final(self).wf(),
            final(self).spec_entries() == sent_counted(old(self).spec_entries(), addr, number_of_bytes),
    {
        if let Some(k) = self.find(&addr) {
            let (a, mut c) = self.connections.remove(k);
            if c.bytes_send <= i128::MAX - number_of_bytes {
                c.bytes_send = c.bytes_send + number_of_bytes;
            }
            self.connections.insert(k, (a, c));
            assert(self.connections@ =~= old(self).connections@.update(k as int, (a, c)));
        }
    }
}

} // verus!
