//! Connections and the table that holds them.

use crate::hash::NodeId;
use crate::protocols::{is_listed, listed};
use crate::tokens::{
    connection_token, is_connection_token, ProtocolId, FIRST_CONNECTION, LAST_CONNECTION,
    MAX_CONNECTIONS,
};
use mio::util::Slab;
use mio::Token;
use vstd::prelude::*;

verus! {

/// What the host knows of a connection whose handshake is under way.
pub struct HandshakeInfo {
    /// The node at the other end.
    pub id: NodeId,
}

/// What a session reports of itself.
pub struct SessionInfo {
    /// The node at the other end.
    pub id: NodeId,
    /// How the peer identifies itself.
    pub client_version: String,
    /// The protocols that both ends speak.
    pub capabilities: Vec<ProtocolId>,
    /// Both ends have introduced themselves.
    pub ready: bool,
}

/// What the host knows of a connection with a session.
pub struct SessionEntry {
    /// What the session reported last.
    pub info: SessionInfo,
    /// The protocols that were disabled for this peer.
    pub disabled: Vec<ProtocolId>,
}

/// A connection.
pub enum ConnectionEntry {
    Handshake(HandshakeInfo),
    Session(SessionEntry),
}

impl SessionEntry {
    /// The protocol is among the capabilities and was not disabled.
    pub open spec fn capable(self, protocol: Seq<char>) -> bool {
        listed(self.info.capabilities@, protocol) && !listed(self.disabled@, protocol)
    }

    /// Some capability is not disabled.
    pub open spec fn has_any_capability(self) -> bool {
        exists|i: int|
            0 <= i < self.info.capabilities@.len() && self.capable(
                (#[trigger] self.info.capabilities@[i])@,
            )
    }

    /// Tells whether the peer can be talked to in a protocol.
    pub fn have_capability(&self, protocol: &str) -> (yes: bool)
        ensures
            yes == self.capable(protocol@),
    {
        is_listed(&self.info.capabilities, protocol) && !is_listed(&self.disabled, protocol)
    }

    /// Tells whether the peer can be talked to in any protocol.
    pub fn have_any_capability(&self) -> (yes: bool)
        ensures
            yes == self.has_any_capability(),
    {
        let mut i: usize = 0;
        while i < self.info.capabilities.len()
            invariant
                i <= self.info.capabilities.len(),
                forall|j: int|
                    0 <= j < i ==> !self.capable((#[trigger] self.info.capabilities@[j])@),
            decreases self.info.capabilities.len() - i,
        {
            if self.have_capability(self.info.capabilities[i]) {
                return true;
            }
            i += 1;
        }
        false
    }
}

/// The connections of the host by token.
///
/// The slab that holds them is bounded by a trait of its crate, so it stands behind a struct.
#[verifier::external_body]
pub struct ConnectionTable {
    slab: Slab<ConnectionEntry>,
}

/// The filled slots of the slab.
pub uninterp spec fn table_contents(table: ConnectionTable) -> Map<usize, ConnectionEntry>;

/// The empty slots of the slab, in the order in which it will fill them.
pub uninterp spec fn table_free(table: ConnectionTable) -> Seq<usize>;

impl View for ConnectionTable {
    type V = Map<usize, ConnectionEntry>;

    open spec fn view(&self) -> Map<usize, ConnectionEntry> {
        table_contents(*self)
    }
}

/// Every connection token has one slot, which is either filled or empty.
pub open spec fn slots_valid(contents: Map<usize, ConnectionEntry>, free: Seq<usize>) -> bool {
    &&& free.no_duplicates()
    &&& forall|token: usize|
        #![trigger contents.contains_key(token)]
        #![trigger free.contains(token)]
        if connection_token(token) {
            contents.contains_key(token) != free.contains(token)
        } else {
            !contents.contains_key(token) && !free.contains(token)
        }
}

/// Some connection is a session with the node.
pub open spec fn session_with(contents: Map<usize, ConnectionEntry>, id: NodeId) -> bool {
    exists|token: usize| #[trigger]
        contents.contains_key(token) && (contents[token] matches ConnectionEntry::Session(s)
            && s.info.id == id)
}

/// Some connection is a handshake with the node.
pub open spec fn handshake_with(contents: Map<usize, ConnectionEntry>, id: NodeId) -> bool {
    exists|token: usize| #[trigger]
        contents.contains_key(token) && (contents[token] matches ConnectionEntry::Handshake(h)
            && h.id == id)
}

impl ConnectionTable {
    /// The empty slots, in the order in which connections will get them.
    pub open spec fn free(&self) -> Seq<usize> {
        table_free(*self)
    }

    /// The table is valid.
    pub open spec fn wf(&self) -> bool {
        slots_valid(self@, self.free())
    }

    /// Calls `Slab::new_starting_at`. Claimed: the slab is empty, and its slots, which are
    /// numbered from `start`, will be filled in ascending order.
    #[verifier::external_body]
    fn new_starting_at(start: usize, capacity: usize) -> (table: ConnectionTable)
        requires
            start + capacity < usize::MAX,
        ensures
            table_contents(table).dom() == Set::<usize>::empty(),
            table_free(table) == Seq::new(capacity as nat, |i: int| (start + i) as usize),
    {
        ConnectionTable { slab: Slab::new_starting_at(Token(start), capacity) }
    }

    /// Calls `Slab::get`. Claimed: it hands out what is in a filled slot, and nothing for an
    /// empty one. Tokens that name no slot are left out: on those the slab looks at what its
    /// memory could hold.
    #[verifier::external_body]
    fn slot(&self, token: usize) -> (entry: Option<&ConnectionEntry>)
        requires
            table_contents(*self).contains_key(token) || table_free(*self).contains(token),
        ensures
            entry == (if table_contents(*self).contains_key(token) {
                Some(&table_contents(*self)[token])
            } else {
                None
            }),
    {
        self.slab.get(Token(token))
    }

    /// Calls `Slab::get_mut`. Claimed: it hands out what is in a filled slot for change, and
    /// nothing for an empty one. No other slot changes. Tokens that name no slot are left out.
    #[verifier::external_body]
    fn slot_mut(&mut self, token: usize) -> (entry: Option<&mut ConnectionEntry>)
        requires
            table_contents(*old(self)).contains_key(token) || table_free(*old(self)).contains(
                token,
            ),
        ensures
            entry is Some <==> table_contents(*old(self)).contains_key(token),
            entry matches Some(e) ==> *e == table_contents(*old(self))[token] && table_contents(
                *final(self),
            ) == table_contents(*old(self)).insert(token, *final(e)),
            entry is None ==> table_contents(*final(self)) == table_contents(*old(self)),
            table_free(*final(self)) == table_free(*old(self)),
    {
        self.slab.get_mut(Token(token))
    }

    /// Calls `Slab::insert`. Claimed: the entry goes into the first of the empty slots, or comes
    /// back if there is none.
    #[verifier::external_body]
    fn fill_slot(&mut self, entry: ConnectionEntry) -> (token: Result<usize, ConnectionEntry>)
        ensures
            match token {
                Ok(t) => {
                    &&& table_free(*old(self)).len() > 0
                    &&& t == table_free(*old(self))[0]
                    &&& table_contents(*final(self)) == table_contents(*old(self)).insert(t, entry)
                    &&& table_free(*final(self)) == table_free(*old(self)).drop_first()
                },
                Err(e) => {
                    &&& table_free(*old(self)).len() == 0
                    &&& e == entry
                    &&& table_contents(*final(self)) == table_contents(*old(self))
                    &&& table_free(*final(self)) == table_free(*old(self))
                },
            },
    {
        self.slab.insert(entry).map(|t| t.as_usize())
    }

    /// Calls `Slab::remove`. Claimed: the slot is emptied, what was in it comes back, and it will
    /// be the next slot to be filled. Empty slots are left out: the slab mixes up the order of
    /// its empty slots when one of them is removed again.
    #[verifier::external_body]
    fn empty_slot(&mut self, token: usize) -> (entry: Option<ConnectionEntry>)
        requires
            table_contents(*old(self)).contains_key(token),
        ensures
            entry == Some(table_contents(*old(self))[token]),
            table_contents(*final(self)) == table_contents(*old(self)).remove(token),
            table_free(*final(self)) == seq![token] + table_free(*old(self)),
    {
        self.slab.remove(Token(token))
    }

    /// A table without connections.
    pub fn new() -> (table: ConnectionTable)
        ensures
            table.wf(),
            table@ == Map::<usize, ConnectionEntry>::empty(),
            table.free() == Seq::new(
                MAX_CONNECTIONS as nat,
                |i: int| (FIRST_CONNECTION + i) as usize,
            ),
    {
        let table = ConnectionTable::new_starting_at(FIRST_CONNECTION, MAX_CONNECTIONS);
        proof {
            assert(table@ =~= Map::empty());
            let free = table.free();
            assert forall|token: usize| connection_token(token) implies free.contains(token) by {
                assert(free[token - FIRST_CONNECTION] == token);
            }
        }
        table
    }

    /// The connection with the token, if there is one.
    pub fn get(&self, token: usize) -> (entry: Option<&ConnectionEntry>)
        requires
            self.wf(),
        ensures
            entry == (if self@.contains_key(token) {
                Some(&self@[token])
            } else {
                None
            }),
    {
        if is_connection_token(token) {
            self.slot(token)
        } else {
            None
        }
    }

    /// The connection with the token for change, if there is one.
    pub fn get_mut(&mut self, token: usize) -> (entry: Option<&mut ConnectionEntry>)
        requires
            old(self).wf(),
        ensures
            final(self).wf(),
            final(self).free() == old(self).free(),
            entry is Some <==> old(self)@.contains_key(token),
            entry matches Some(e) ==> *e == old(self)@[token] && final(self)@ == old(
                self,
            )@.insert(token, *final(e)),
            entry is None ==> final(self)@ == old(self)@,
    {
        if is_connection_token(token) {
            self.slot_mut(token)
        } else {
            None
        }
    }

    /// Adds a connection. It gets the first of the empty slots, unless the table is full.
    pub fn insert(&mut self, entry: ConnectionEntry) -> (token: Result<usize, ConnectionEntry>)
        requires
            old(self).wf(),
        ensures
            final(self).wf(),
            match token {
                Ok(t) => {
                    &&& old(self).free().len() > 0
                    &&& t == old(self).free()[0]
                    &&& final(self)@ == old(self)@.insert(t, entry)
                    &&& final(self).free() == old(self).free().drop_first()
                },
                Err(e) => {
                    &&& old(self).free().len() == 0
                    &&& e == entry
                    &&& final(self)@ == old(self)@
                    &&& final(self).free() == old(self).free()
                },
            },
    {
        let ghost before = self.free();
        let token = self.fill_slot(entry);
        proof {
            if before.len() > 0 {
                lemma_slot_filled(before);
            }
        }
        token
    }

    /// Removes the connection with the token. Its slot is the next to be filled.
    ///
    /// There has to be such a connection: emptying an empty slot would tie the chain of empty
    /// slots into a loop, on which a later insertion panics.
    pub fn remove(&mut self, token: usize) -> (entry: Option<ConnectionEntry>)
        requires
            old(self).wf(),
            old(self)@.contains_key(token),
        ensures
            final(self).wf(),
            final(self)@ == old(self)@.remove(token),
            entry == Some(old(self)@[token]),
            final(self).free() == seq![token] + old(self).free(),
    {
        let ghost before = self.free();
        let entry = self.empty_slot(token);
        proof {
            lemma_slot_emptied(before, token);
        }
        entry
    }

    /// Tells whether there is a session with the node.
    pub fn have_session(&self, id: &NodeId) -> (yes: bool)
        requires
            self.wf(),
        ensures
            yes == session_with(self@, *id),
    {
        let mut token: usize = FIRST_CONNECTION;
        while token <= LAST_CONNECTION
            invariant
                self.wf(),
                FIRST_CONNECTION <= token <= LAST_CONNECTION + 1,
                forall|t: usize| #[trigger]
                    self@.contains_key(t) && t < token ==> !(self@[t] matches
                        ConnectionEntry::Session(s) && s.info.id == *id),
            decreases LAST_CONNECTION + 1 - token,
        {
            if let Some(ConnectionEntry::Session(s)) = self.get(token) {
                if s.info.id.same_as(id) {
                    return true;
                }
            }
            token += 1;
        }
        false
    }

    /// Tells whether there is a handshake with the node.
    pub fn connecting_to(&self, id: &NodeId) -> (yes: bool)
        requires
            self.wf(),
        ensures
            yes == handshake_with(self@, *id),
    {
        let mut token: usize = FIRST_CONNECTION;
        while token <= LAST_CONNECTION
            invariant
                self.wf(),
                FIRST_CONNECTION <= token <= LAST_CONNECTION + 1,
                forall|t: usize| #[trigger]
                    self@.contains_key(t) && t < token ==> !(self@[t] matches
                        ConnectionEntry::Handshake(h) && h.id == *id),
            decreases LAST_CONNECTION + 1 - token,
        {
            if let Some(ConnectionEntry::Handshake(h)) = self.get(token) {
                if h.id.same_as(id) {
                    return true;
                }
            }
            token += 1;
        }
        false
    }
}

/// Taking the first slot away leaves the others.
proof fn lemma_slot_filled(free: Seq<usize>)
    requires
        free.no_duplicates(),
        free.len() > 0,
    ensures
        free.drop_first().no_duplicates(),
        free.contains(free[0]),
        forall|token: usize| #[trigger]
            free.drop_first().contains(token) <==> free.contains(token) && token != free[0],
{
    let rest = free.drop_first();
    assert forall|token: usize| free.contains(token) && token != free[0] implies #[trigger]
        rest.contains(token) by {
        let i = choose|i: int| 0 <= i < free.len() && free[i] == token;
        assert(rest[i - 1] == token);
    }
    assert forall|token: usize| #[trigger] rest.contains(token) implies free.contains(token)
        && token != free[0] by {
        let i = choose|i: int| 0 <= i < rest.len() && rest[i] == token;
        assert(free[i + 1] == token);
    }
}

/// Putting a new slot in front keeps the others.
pub proof fn lemma_slot_emptied(free: Seq<usize>, slot: usize)
    requires
        free.no_duplicates(),
        !free.contains(slot),
    ensures
        (seq![slot] + free).no_duplicates(),
        forall|token: usize| #[trigger]
            (seq![slot] + free).contains(token) <==> free.contains(token) || token == slot,
{
    let all = seq![slot] + free;
    assert forall|token: usize| free.contains(token) || token == slot implies #[trigger]
        all.contains(token) by {
        if token == slot {
            assert(all[0] == token);
        } else {
            let i = choose|i: int| 0 <= i < free.len() && free[i] == token;
            assert(all[i + 1] == token);
        }
    }
    assert forall|i: int, j: int| 0 <= i < all.len() && 0 <= j < all.len() && i != j implies all[i]
        != all[j] by {
        if i == 0 {
            assert(free[j - 1] == all[j]);
        } else if j == 0 {
            assert(free[i - 1] == all[i]);
        }
    }
}

} // verus!
