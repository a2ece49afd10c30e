//! The registry of live WebSocket connections: who is connected, under which
//! connection id, and how many connections each user may hold at once.
//!
//! The registry keeps plain records; the channels that carry messages to the
//! sockets are held beside it by the server, under the same connection ids.

use vstd::prelude::*;
use crate::assoc::{assoc_map, lemma_assoc_all, lemma_assoc_len, lemma_assoc_push, lemma_assoc_update, lemma_assoc_remove};

verus! {

/// The query of a WebSocket upgrade request.
#[derive(Debug)]
pub struct WsAuthQuery {
    /// The authentication token.
    pub token: String,
}

/// The user a token stands for: `user_` followed by the token, or nothing for
/// an empty token.
pub fn validate_token(token: &str) -> (r: Option<String>)
    ensures
        token@.len() == 0 ==> r is None,
        token@.len() > 0 ==> (r matches Some(u) && u@ == "user_"@ + token@),
{
    if token.is_empty() {
        None
    } else {
        Some(String::from_str("user_").concat(token))
    }
}

/// A registered connection.
#[derive(Debug)]
pub struct WsConnection {
    /// The connection id.
    pub id: u64,
    /// The connected user.
    pub user_id: String,
    /// When the connection was registered (microseconds since the epoch).
    pub connected_at: i64,
}

impl WsConnection {
    /// The user and the registration time.
    pub open spec fn record(&self) -> (Seq<char>, i64) {
        (self.user_id@, self.connected_at)
    }

    fn copy(&self) -> (r: Self)
        ensures
            r.id == self.id,
            r.record() == self.record(),
    {
        WsConnection { id: self.id, user_id: self.user_id.clone(), connected_at: self.connected_at }
    }
}

/// The connections of `m` that belong to user `u`.
pub open spec fn owned_by(m: Map<u64, (Seq<char>, i64)>, u: Seq<char>) -> Map<u64, (Seq<char>, i64)> {
    Map::new(|k: u64| m.dom().contains(k) && m[k].0 == u, |k: u64| m[k])
}

proof fn lemma_owned_insert(m: Map<u64, (Seq<char>, i64)>, k: u64, v: (Seq<char>, i64), u: Seq<char>)
    requires
        m.dom().finite(),
    ensures
        owned_by(m, u).dom().finite(),
        owned_by(m.insert(k, v), u).dom().finite(),
        !m.dom().contains(k) ==> owned_by(m.insert(k, v), u) == if v.0 == u {
            owned_by(m, u).insert(k, v)
        } else {
            owned_by(m, u)
        },
        owned_by(m.insert(k, v), u).len() <= owned_by(m, u).len() + if v.0 == u {
            1int
        } else {
            0int
        },
{
    let a = owned_by(m, u);
    let b = owned_by(m.insert(k, v), u);
    assert(a.dom().subset_of(m.dom()));
    vstd::set_lib::lemma_len_subset(a.dom(), m.dom());
    assert(b.dom().subset_of(m.insert(k, v).dom()));
    vstd::set_lib::lemma_len_subset(b.dom(), m.insert(k, v).dom());
    if !m.dom().contains(k) {
        if v.0 == u {
            assert(b =~= a.insert(k, v));
        } else {
            assert(b =~= a);
        }
    }
    if v.0 == u {
        assert(b.dom().subset_of(a.dom().insert(k)));
        vstd::set_lib::lemma_len_subset(b.dom(), a.dom().insert(k));
    } else {
        assert(b.dom().subset_of(a.dom()));
        vstd::set_lib::lemma_len_subset(b.dom(), a.dom());
    }
}

/// Tracks the live connections and gives out connection ids.
/// The manager `new` and the answer `r` after `old` registered a
/// connection of `user` at `now`: refused when the user holds the most
/// connections allowed; otherwise the connection takes the next id, which
/// moves on (wrapping at 2^64; a connection already holding the id is
/// replaced).
pub open spec fn register_next(
    old: WsConnectionManager,
    user: Seq<char>,
    now: i64,
    r: Option<WsConnection>,
    new: WsConnectionManager,
) -> bool {
    &&& new.max_per_user() == old.max_per_user()
    &&& r is None <==> owned_by(old.connections(), user).len() >= old.max_per_user()
    &&& r is None ==> new.connections() == old.connections() && new.next_id_spec() == old.next_id_spec()
    &&& r matches Some(c) ==> c.id == old.next_id_spec() && c.user_id@ == user && c.connected_at == now
    &&& r is Some ==> new.connections() == old.connections().insert(old.next_id_spec(), (user, now))
        && new.next_id_spec() == (if old.next_id_spec() == u64::MAX {
        0
    } else {
        (old.next_id_spec() + 1) as u64
    })
}

pub struct WsConnectionManager {
    conns: Vec<WsConnection>,
    next_id: u64,
    max_connections_per_user: usize,
}

impl WsConnectionManager {
    pub closed spec fn id_seq(&self) -> Seq<u64> {
        Seq::new(self.conns@.len(), |i: int| self.conns@[i].id)
    }

    pub closed spec fn record_seq(&self) -> Seq<(Seq<char>, i64)> {
        Seq::new(self.conns@.len(), |i: int| self.conns@[i].record())
    }

    /// The live connections: id ↦ (user, registration time).
    pub closed spec fn connections(&self) -> Map<u64, (Seq<char>, i64)> {
        assoc_map(self.id_seq(), self.record_seq())
    }

    /// The id the next registration receives.
    pub closed spec fn next_id_spec(&self) -> u64 {
        self.next_id
    }

    /// The most connections one user may hold.
    pub closed spec fn max_per_user(&self) -> nat {
        self.max_connections_per_user as nat
    }

    /// Distinct ids, and no user above the limit.
    /// Every registered id is below the next one (so the next is unused);
    /// this holds until the ids wrap around.
    pub open spec fn ids_below_next(&self) -> bool {
        forall|k: u64| #[trigger] self.connections().dom().contains(k) ==> k < self.next_id_spec()
    }

    pub closed spec fn wf(&self) -> bool {
        &&& self.id_seq().no_duplicates()
        &&& forall|u: Seq<char>| #[trigger] owned_by(self.connections(), u).len() <= self.max_connections_per_user
    }

    proof fn lemma_view(&self)
        requires
            self.id_seq().no_duplicates(),
        ensures
            self.connections().dom().finite(),
            self.connections().len() == self.conns@.len(),
            forall|i: int|
                0 <= i < self.conns@.len() ==> #[trigger] self.connections().dom().contains(
                    self.conns@[i].id,
                ) && self.connections()[self.conns@[i].id] == self.conns@[i].record(),
            forall|k: u64|
                #[trigger] self.connections().dom().contains(k) ==> exists|i: int|
                    0 <= i < self.conns@.len() && self.conns@[i].id == k,
    {
        lemma_assoc_len(self.id_seq(), self.record_seq());
        lemma_assoc_all(self.id_seq(), self.record_seq());
        assert forall|i: int| 0 <= i < self.conns@.len() implies #[trigger] self.connections().dom().contains(
            self.conns@[i].id,
        ) && self.connections()[self.conns@[i].id] == self.conns@[i].record() by {
            assert(self.id_seq()[i] == self.conns@[i].id);
        }
        assert forall|k: u64| #[trigger] self.connections().dom().contains(k) implies exists|i: int|
            0 <= i < self.conns@.len() && self.conns@[i].id == k by {
            let i = choose|i: int| 0 <= i < self.id_seq().len() && self.id_seq()[i] == k;
            assert(self.conns@[i].id == k);
        }
    }

    /// A registry with no connection, whose first id is 1.
    proof fn lemma_view_finite(&self)
        requires
            self.wf(),
        ensures
            self.connections().dom().finite(),
    {
        self.lemma_view();
    }

    pub fn new(max_connections_per_user: usize) -> (m: Self)
        ensures
            m.wf(),
            m.connections() == Map::<u64, (Seq<char>, i64)>::empty(),
            m.next_id_spec() == 1,
            m.max_per_user() == max_connections_per_user,
            m.ids_below_next(),
    {
        let m = WsConnectionManager { conns: Vec::new(), next_id: 1, max_connections_per_user };
        assert(m.connections() =~= Map::<u64, (Seq<char>, i64)>::empty());
        assert forall|u: Seq<char>| #[trigger] owned_by(m.connections(), u).len() <= max_connections_per_user by {
            assert(owned_by(m.connections(), u) =~= Map::<u64, (Seq<char>, i64)>::empty());
        }
        m
    }

    /// How many connections `user` holds.
    fn count_for(&self, user: &String) -> (n: usize)
        requires
            self.id_seq().no_duplicates(),
        ensures
            n == owned_by(self.connections(), user@).len(),
    {
        let ghost ks = self.id_seq();
        let ghost vs = self.record_seq();
        let mut n: usize = 0;
        let mut i: usize = 0;
        proof {
            assert(assoc_map(ks.take(0), vs.take(0)) =~= Map::<u64, (Seq<char>, i64)>::empty());
            assert(owned_by(Map::<u64, (Seq<char>, i64)>::empty(), user@) =~= Map::<u64, (Seq<char>, i64)>::empty());
        }
        while i < self.conns.len()
            invariant
                ks == self.id_seq(),
                vs == self.record_seq(),
                ks.no_duplicates(),
                i <= self.conns@.len(),
                n <= i,
                ks.take(i as int).no_duplicates(),
                assoc_map(ks.take(i as int), vs.take(i as int)).dom().finite(),
                n == owned_by(assoc_map(ks.take(i as int), vs.take(i as int)), user@).len(),
            decreases self.conns@.len() - i,
        {
            let ghost m = assoc_map(ks.take(i as int), vs.take(i as int));
            proof {
                assert(ks.take(i as int + 1) =~= ks.take(i as int).push(ks[i as int]));
                assert(vs.take(i as int + 1) =~= vs.take(i as int).push(vs[i as int]));
                assert(!ks.take(i as int).contains(ks[i as int])) by {
                    if ks.take(i as int).contains(ks[i as int]) {
                        let j = choose|j: int| 0 <= j < i && ks.take(i as int)[j] == ks[i as int];
                        assert(ks[j] == ks[i as int]);
                    }
                }
                lemma_assoc_push(ks.take(i as int), vs.take(i as int), ks[i as int], vs[i as int]);
                lemma_assoc_len(ks.take(i as int), vs.take(i as int));
                lemma_assoc_len(ks.take(i as int + 1), vs.take(i as int + 1));
                lemma_owned_insert(m, ks[i as int], vs[i as int], user@);
                vstd::set_lib::lemma_len_subset(owned_by(m, user@).dom(), m.dom());
                assert(owned_by(m, user@).dom().subset_of(m.dom()));
            }
            if self.conns[i].user_id == *user {
                n = n + 1;
            }
            i = i + 1;
        }
        proof {
            assert(ks.take(i as int) =~= ks);
            assert(vs.take(i as int) =~= vs);
        }
        n
    }

    /// The position of connection `id`, if it is registered.
    fn find(&self, id: u64) -> (r: Option<usize>)
        requires
            self.id_seq().no_duplicates(),
        ensures
            match r {
                Some(i) => i < self.conns@.len() && self.conns@[i as int].id == id,
                None => !self.connections().dom().contains(id),
            },
    {
        proof {
            self.lemma_view();
        }
        let mut i: usize = 0;
        while i < self.conns.len()
            invariant
                self.id_seq().no_duplicates(),
                i <= self.conns@.len(),
                forall|j: int| 0 <= j < i ==> self.conns@[j].id != id,
            decreases self.conns@.len() - i,
        {
            if self.conns[i].id == id {
                return Some(i);
            }
            i = i + 1;
        }
        None
    }

    /// Registers a connection of `user_id` at time `now`; refused (`None`)
    /// when the user already holds the most connections allowed. The new
    /// connection takes the next id, and the id counter moves on (wrapping at
    /// 2^64; a connection already holding the id is replaced).
    pub fn register(&mut self, user_id: String, now: i64) -> (r: Option<WsConnection>)
        requires
            old(self).wf(),
        ensures
            final(self).wf(),
            register_next(*old(self), user_id@, now, r, *final(self)),
    {
        let count = self.count_for(&user_id);
        if count >= self.max_connections_per_user {
            return None;
        }
        let id = self.next_id;
        self.next_id = id.wrapping_add(1);
        let conn = WsConnection { id, user_id, connected_at: now };
        let out = conn.copy();
        let ghost m0 = self.connections();
        let ghost ks = self.id_seq();
        let ghost vs = self.record_seq();
        let ghost rec = conn.record();
        proof {
            lemma_assoc_len(ks, vs);
        }
        match self.find(id) {
            Some(i) => {
                proof {
                    lemma_assoc_update(ks, vs, i as int, rec);
                }
                self.conns.set(i, conn);
                assert(self.id_seq() =~= ks);
                assert(self.record_seq() =~= vs.update(i as int, rec));
            },
            None => {
                assert(!ks.contains(id));
                proof {
                    lemma_assoc_push(ks, vs, id, rec);
                }
                self.conns.push(conn);
                assert(self.id_seq() =~= ks.push(id));
                assert(self.record_seq() =~= vs.push(rec));
            },
        }
        proof {
            assert(self.connections() == m0.insert(id, rec));
            assert forall|u: Seq<char>| #[trigger] owned_by(self.connections(), u).len()
                <= self.max_connections_per_user by {
                lemma_owned_insert(m0, id, rec, u);
                assert(owned_by(m0, u).len() <= self.max_connections_per_user);
            }
        }
        Some(out)
    }

    /// Drops connection `connection_id`, if it is registered.
    pub fn unregister(&mut self, connection_id: u64)
        requires
            old(self).wf(),
        ensures
            final(self).wf(),
            final(self).max_per_user() == old(self).max_per_user(),
            final(self).next_id_spec() == old(self).next_id_spec(),
            final(self).connections() == old(self).connections().remove(connection_id),
            old(self).ids_below_next() ==> final(self).ids_below_next(),
    {
        let ghost m0 = self.connections();
        match self.find(connection_id) {
            None => {
                assert(m0.remove(connection_id) =~= m0);
            },
            Some(i) => {
                let ghost ks = self.id_seq();
                let ghost vs = self.record_seq();
                proof {
                    lemma_assoc_remove(ks, vs, i as int);
                }
                self.conns.remove(i);
                assert(self.id_seq() =~= ks.remove(i as int));
                assert(self.record_seq() =~= vs.remove(i as int));
                proof {
                    self.lemma_view();
                    assert forall|u: Seq<char>| #[trigger] owned_by(self.connections(), u).len()
                        <= self.max_connections_per_user by {
                        let a = owned_by(self.connections(), u);
                        let b = owned_by(m0, u);
                        lemma_assoc_len(ks, vs);
                        assert(b.dom().subset_of(m0.dom()));
                        vstd::set_lib::lemma_len_subset(b.dom(), m0.dom());
                        assert(a.dom().subset_of(b.dom()));
                        vstd::set_lib::lemma_len_subset(a.dom(), b.dom());
                        assert(b.len() <= self.max_connections_per_user);
                    }
                }
            },
        }
    }

    /// The number of live connections.
    pub fn connection_count(&self) -> (n: usize)
        requires
            self.wf(),
        ensures
            n == self.connections().len(),
    {
        proof {
            self.lemma_view();
        }
        self.conns.len()
    }

    /// The connections of `user_id` (in no particular order).
    pub fn user_connections(&self, user_id: &str) -> (out: Vec<WsConnection>)
        requires
            self.wf(),
        ensures
            Seq::new(out@.len(), |i: int| out@[i].id).no_duplicates(),
            assoc_map(
                Seq::new(out@.len(), |i: int| out@[i].id),
                Seq::new(out@.len(), |i: int| out@[i].record()),
            ) == owned_by(self.connections(), user_id@),
    {
        let user = user_id.to_owned();
        let ghost ks = self.id_seq();
        let ghost vs = self.record_seq();
        let mut out: Vec<WsConnection> = Vec::new();
        let mut i: usize = 0;
        proof {
            assert(assoc_map(ks.take(0), vs.take(0)) =~= Map::<u64, (Seq<char>, i64)>::empty());
            assert(owned_by(Map::<u64, (Seq<char>, i64)>::empty(), user@) =~= Map::<u64, (Seq<char>, i64)>::empty());
            assert(assoc_map(Seq::<u64>::empty(), Seq::<(Seq<char>, i64)>::empty()) =~= Map::<u64, (Seq<char>, i64)>::empty());
        }
        while i < self.conns.len()
            invariant
                self.wf(),
                ks == self.id_seq(),
                vs == self.record_seq(),
                user@ == user_id@,
                i <= self.conns@.len(),
                ks.take(i as int).no_duplicates(),
                Seq::new(out@.len(), |j: int| out@[j].id).no_duplicates(),
                assoc_map(
                    Seq::new(out@.len(), |j: int| out@[j].id),
                    Seq::new(out@.len(), |j: int| out@[j].record()),
                ) == owned_by(assoc_map(ks.take(i as int), vs.take(i as int)), user@),
            decreases self.conns@.len() - i,
        {
            let ghost m = assoc_map(ks.take(i as int), vs.take(i as int));
            let ghost oks = Seq::new(out@.len(), |j: int| out@[j].id);
            let ghost ovs = Seq::new(out@.len(), |j: int| out@[j].record());
            proof {
                assert(ks.take(i as int + 1) =~= ks.take(i as int).push(ks[i as int]));
                assert(vs.take(i as int + 1) =~= vs.take(i as int).push(vs[i as int]));
                assert(!ks.take(i as int).contains(ks[i as int])) by {
                    if ks.take(i as int).contains(ks[i as int]) {
                        let j = choose|j: int| 0 <= j < i && ks.take(i as int)[j] == ks[i as int];
                        assert(ks[j] == ks[i as int]);
                    }
                }
                lemma_assoc_push(ks.take(i as int), vs.take(i as int), ks[i as int], vs[i as int]);
                lemma_assoc_len(ks.take(i as int), vs.take(i as int));
                lemma_owned_insert(m, ks[i as int], vs[i as int], user@);
                lemma_assoc_len(oks, ovs);
                assert(!oks.contains(ks[i as int])) by {
                    if oks.contains(ks[i as int]) {
                        assert(assoc_map(oks, ovs).dom().contains(ks[i as int]));
                    }
                }
            }
            if self.conns[i].user_id == user {
                let c = self.conns[i].copy();
                out.push(c);
                proof {
                    lemma_assoc_push(oks, ovs, ks[i as int], vs[i as int]);
                    assert(Seq::new(out@.len(), |j: int| out@[j].id) =~= oks.push(ks[i as int]));
                    assert(Seq::new(out@.len(), |j: int| out@[j].record()) =~= ovs.push(vs[i as int]));
                }
            }
            i = i + 1;
        }
        proof {
            assert(ks.take(i as int) =~= ks);
            assert(vs.take(i as int) =~= vs);
        }
        out
    }
}

/// No user ever holds more connections than the registry allows.
pub proof fn law_user_limit(m: WsConnectionManager, u: Seq<char>)
    requires
        m.wf(),
    ensures
        owned_by(m.connections(), u).len() <= m.max_per_user(),
{
}

/// A frame received on a connection, as far as the handler looks at it.
#[derive(Clone, Copy, Debug, PartialEq, Eq, Structural)]
pub enum WsFrame {
    /// A text frame: whether it parsed as a message, and if so whether the
    /// message is a ping.
    Text { parsed: bool, is_ping: bool },
    Binary,
    Ping,
    Pong,
    Close,
}

/// What the handler does with a received frame.
#[derive(Debug, PartialEq, Eq, Structural)]
pub enum FrameAction {
    /// Nothing; wait for the next frame.
    Continue,
    /// Send a pong message to every connection of the user.
    PongToUser,
    /// Send the parse-error message (see `parse_error`) to every connection
    /// of the user.
    ParseErrorToUser,
    /// Send a pong message on this connection.
    PongToConnection,
    /// Stop receiving: the peer closed the connection.
    Stop,
}

/// The code and the text of the error sent for an unreadable message.
pub fn parse_error() -> (r: (&'static str, &'static str))
    ensures
        r.0@ == "PARSE_ERROR"@,
        r.1@ == "Invalid message format"@,
{
    ("PARSE_ERROR", "Invalid message format")
}

/// The action for a received frame: a ping message is answered with a pong
/// to the user, an unreadable text with a `PARSE_ERROR`, a ping frame with a
/// pong on the connection, a close frame ends the loop; anything else is
/// ignored.
pub fn frame_action(frame: WsFrame) -> (a: FrameAction)
    ensures
        a == match frame {
            WsFrame::Text { parsed, is_ping } => if !parsed {
                FrameAction::ParseErrorToUser
            } else if is_ping {
                FrameAction::PongToUser
            } else {
                FrameAction::Continue
            },
            WsFrame::Ping => FrameAction::PongToConnection,
            WsFrame::Close => FrameAction::Stop,
            _ => FrameAction::Continue,
        },
{
    match frame {
        WsFrame::Text { parsed, is_ping } => {
            if !parsed {
                FrameAction::ParseErrorToUser
            } else if is_ping {
                FrameAction::PongToUser
            } else {
                FrameAction::Continue
            }
        },
        WsFrame::Binary => FrameAction::Continue,
        WsFrame::Ping => FrameAction::PongToConnection,
        WsFrame::Pong => FrameAction::Continue,
        WsFrame::Close => FrameAction::Stop,
    }
}

/// Until the ids wrap around, a registration hands out an id no live
/// connection holds, the user then holds one more connection, and every
/// id stays below the next one.
pub proof fn law_register_fresh(
    old: WsConnectionManager,
    user: Seq<char>,
    now: i64,
    r: Option<WsConnection>,
    new: WsConnectionManager,
)
    requires
        old.wf(),
        old.ids_below_next(),
        old.next_id_spec() < u64::MAX,
        register_next(old, user, now, r, new),
    ensures
        new.ids_below_next(),
        r matches Some(c) ==> !old.connections().dom().contains(c.id),
        r is Some ==> owned_by(new.connections(), user).len() == owned_by(old.connections(), user).len() + 1,
{
    old.lemma_view_finite();
    let id = old.next_id_spec();
    assert(!old.connections().dom().contains(id));
    if r is Some {
        lemma_owned_insert(old.connections(), id, (user, now), user);
        assert(owned_by(old.connections(), user).dom().finite());
        assert(!owned_by(old.connections(), user).dom().contains(id));
    }
}

/// Of two registrations of a user who holds one connection fewer than
/// allowed, at most one succeeds, and the user never holds more than
/// allowed (until the ids wrap around).
pub proof fn law_one_of_two_registrations(
    m0: WsConnectionManager,
    user: Seq<char>,
    now1: i64,
    r1: Option<WsConnection>,
    m1: WsConnectionManager,
    now2: i64,
    r2: Option<WsConnection>,
    m2: WsConnectionManager,
)
    requires
        m0.wf(),
        m1.wf(),
        m0.ids_below_next(),
        m0.next_id_spec() < u64::MAX,
        owned_by(m0.connections(), user).len() + 1 == m0.max_per_user(),
        register_next(m0, user, now1, r1, m1),
        register_next(m1, user, now2, r2, m2),
    ensures
        !(r1 is Some && r2 is Some),
        owned_by(m2.connections(), user).len() <= m2.max_per_user(),
{
    law_register_fresh(m0, user, now1, r1, m1);
    if r1 is Some {
        assert(r2 is None);
    } else {
        assert(m1.connections() == m0.connections());
        if r2 is Some {
            m1.lemma_view_finite();
            lemma_owned_insert(m1.connections(), m1.next_id_spec(), (user, now2), user);
        }
    }
}

} // verus!
