//! The repository contract and its verified in-memory implementations.
//!
//! Every operation is stated against the abstract state of the store: a
//! finite map from entity id to the entity's mathematical view, plus the
//! dependent member and channel records for the server family. Each
//! trait method admits an opaque `Backend` failure (leaving the state
//! unchanged) only for an implementation whose `backend_fallible` says
//! so, as an adapter over a fallible store would; the in-memory
//! implementations declare themselves infallible, so their contracts
//! force the exact outcome on every input.
use vstd::prelude::*;

use crate::error::RepoError;
use crate::message::{
    applied_message, apply_message, FieldsMessage, Message, MessageV, PartialMessage,
};
use crate::patch::str_eq;
use crate::store::{
    lemma_s2m_contains, lemma_s2m_index, lemma_s2m_push, lemma_s2m_remove, seq_to_map, unique_keys,
};
use crate::server::{
    applied_role, applied_server, apply_role, apply_server, channel_without_role,
    member_without_role, roles_view, server_roles_unique, Channel, ChannelV, FieldsRole,
    FieldsServer, Member, MemberV, PartialRole, PartialServer, Role, RoleEntry, RolePermission,
    RolePermissionV, Server, ServerV,
};
use crate::users::{applied_bot, apply_bot, Bot, BotV, FieldsBot, PartialBot};

verus! {

/// Key projection for stored messages.
pub open spec fn message_key() -> spec_fn(Message) -> Seq<char> {
    |m: Message| m.id@
}

/// Value projection for stored messages.
pub open spec fn message_val() -> spec_fn(Message) -> MessageV {
    |m: Message| m@
}

/// The abstract state a message list denotes.
pub open spec fn messages_map(s: Seq<Message>) -> Map<Seq<char>, MessageV> {
    seq_to_map(s, message_key(), message_val())
}

/// In-memory message repository: a vector of records with pairwise
/// distinct ids, read abstractly as a map from id to message view.
pub struct MemoryMessages {
    messages: Vec<Message>,
}

impl MemoryMessages {
    /// Abstract state: stored records keyed by id.
    pub closed spec fn contents(&self) -> Map<Seq<char>, MessageV> {
        messages_map(self.messages@)
    }

    /// Representation invariant: ids are pairwise distinct.
    pub closed spec fn inv(&self) -> bool {
        unique_keys(self.messages@, message_key())
    }

    /// An empty repository.
    pub fn new() -> (r: Self)
        ensures
            r.inv(),
            r.contents() == Map::<Seq<char>, MessageV>::empty(),
    {
        MemoryMessages { messages: Vec::new() }
    }

    /// Index of the record carrying the given id, if any.
    fn find(&self, id: &str) -> (r: Option<usize>)
        requires
            self.inv(),
        ensures
            match r {
                Some(i) => i < self.messages@.len() && self.messages@[i as int].id@ == id@
                    && self.contents().contains_key(id@) && self.contents()[id@]
                    == self.messages@[i as int]@,
                None => !self.contents().contains_key(id@),
            },
    {
        let mut i: usize = 0;
        while i < self.messages.len()
            invariant
                self.inv(),
                0 <= i <= self.messages@.len(),
                forall|j: int| 0 <= j < i ==> (#[trigger] self.messages@[j]).id@ != id@,
            decreases self.messages@.len() - i,
        {
            if str_eq(&self.messages[i].id, id) {
                proof {
                    lemma_s2m_index(self.messages@, message_key(), message_val(), i as int);
                }
                return Some(i);
            }
            i += 1;
        }
        proof {
            lemma_s2m_contains(self.messages@, message_key(), message_val(), id@);
        }
        None
    }

    /// Fetches a message by id; fails with `NotFound` exactly when the
    /// id is not stored.
    pub fn fetch_message(&self, id: &str) -> (r: Result<Message, RepoError>)
        requires
            self.inv(),
        ensures
            match r {
                Ok(m) => self.contents().contains_key(id@) && m@ == self.contents()[id@],
                Err(e) => e == RepoError::NotFound && !self.contents().contains_key(id@),
            },
    {
        match self.find(id) {
            Some(i) => Ok(self.messages[i].clone()),
            None => Err(RepoError::NotFound),
        }
    }

    /// Inserts a fully-formed message; fails with `Conflict` exactly
    /// when a message with the same id already exists, leaving the
    /// state unchanged.
    pub fn insert_message(&mut self, message: &Message) -> (r: Result<(), RepoError>)
        requires
            old(self).inv(),
        ensures
            final(self).inv(),
            match r {
                Ok(()) => !old(self).contents().contains_key(message.id@) && final(self).contents()
                    == old(self).contents().insert(message.id@, message@),
                Err(e) => e == RepoError::Conflict && old(self).contents().contains_key(message.id@)
                    && final(self).contents() == old(self).contents(),
            },
    {
        match self.find(message.id.as_str()) {
            Some(_) => Err(RepoError::Conflict),
            None => {
                let m2 = message.clone();
                proof {
                    lemma_s2m_contains(self.messages@, message_key(), message_val(), message.id@);
                    lemma_s2m_push(self.messages@, message_key(), message_val(), m2);
                }
                self.messages.push(m2);
                Ok(())
            },
        }
    }

    /// Applies the two-phase merge of a (patch, removal-list) pair to
    /// the stored message; fails with `NotFound` exactly when the id is
    /// not stored, leaving the state unchanged.
    pub fn update_message(
        &mut self,
        id: &str,
        patch: &PartialMessage,
        remove: &Vec<FieldsMessage>,
    ) -> (r: Result<(), RepoError>)
        requires
            old(self).inv(),
        ensures
            final(self).inv(),
            match r {
                Ok(()) => old(self).contents().contains_key(id@) && final(self).contents()
                    == old(self).contents().insert(
                    id@,
                    applied_message(old(self).contents()[id@], patch@, remove@),
                ),
                Err(e) => e == RepoError::NotFound && !old(self).contents().contains_key(id@)
                    && final(self).contents() == old(self).contents(),
            },
    {
        match self.find(id) {
            Some(i) => {
                proof {
                    lemma_s2m_remove(self.messages@, message_key(), message_val(), i as int);
                }
                let m = self.messages.remove(i);
                let m2 = apply_message(m, patch.clone(), remove);
                proof {
                    lemma_s2m_contains(self.messages@, message_key(), message_val(), id@);
                    lemma_s2m_push(self.messages@, message_key(), message_val(), m2);
                }
                self.messages.push(m2);
                proof {
                    assert(self.contents() =~= old(self).contents().insert(
                        id@,
                        applied_message(old(self).contents()[id@], patch@, remove@),
                    ));
                }
                Ok(())
            },
            None => Err(RepoError::NotFound),
        }
    }

    /// Deletes a message by id; fails with `NotFound` exactly when the
    /// id is not stored, leaving the state unchanged.
    pub fn delete_message(&mut self, id: &str) -> (r: Result<(), RepoError>)
        requires
            old(self).inv(),
        ensures
            final(self).inv(),
            match r {
                Ok(()) => old(self).contents().contains_key(id@) && final(self).contents()
                    == old(self).contents().remove(id@),
                Err(e) => e == RepoError::NotFound && !old(self).contents().contains_key(id@)
                    && final(self).contents() == old(self).contents(),
            },
    {
        match self.find(id) {
            Some(i) => {
                proof {
                    lemma_s2m_remove(self.messages@, message_key(), message_val(), i as int);
                }
                let _ = self.messages.remove(i);
                Ok(())
            },
            None => Err(RepoError::NotFound),
        }
    }
}

/// Key projection for stored bots.
pub open spec fn bot_key() -> spec_fn(Bot) -> Seq<char> {
    |b: Bot| b.id@
}

/// Value projection for stored bots.
pub open spec fn bot_val() -> spec_fn(Bot) -> BotV {
    |b: Bot| b@
}

/// The abstract state a bot list denotes.
pub open spec fn bots_map(s: Seq<Bot>) -> Map<Seq<char>, BotV> {
    seq_to_map(s, bot_key(), bot_val())
}

/// The ids of the stored bots a given user owns.
pub open spec fn owned_bots(m: Map<Seq<char>, BotV>, owner: Seq<char>) -> Set<Seq<char>> {
    m.dom().filter(|k: Seq<char>| m[k].owner == owner)
}

/// Repository contract for the bot entity family. The abstract state
/// is the map from bot id to bot view; implementations provide it
/// through [`AbstractBot::bots`] and keep [`AbstractBot::inv`] across
/// operations.
pub trait AbstractBot: Sized {
    /// Abstract state: stored bots keyed by id.
    spec fn bots(&self) -> Map<Seq<char>, BotV>;

    /// Representation invariant of the implementation.
    spec fn inv(&self) -> bool;

    /// Whether operations of this implementation may surface an opaque
    /// `Backend` failure. An adapter over a fallible store answers
    /// true; the in-memory implementation answers false, which rules
    /// the `Backend` outcome out of every contract below.
    spec fn backend_fallible(&self) -> bool;

    /// Fetch a bot by its id.
    fn fetch_bot(&self, id: &str) -> (r: Result<Bot, RepoError>)
        requires
            self.inv(),
        ensures
            match r {
                Ok(b) => self.bots().contains_key(id@) && b@ == self.bots()[id@],
                Err(e) => (e == RepoError::NotFound && !self.bots().contains_key(id@)) || (e
                    == RepoError::Backend && self.backend_fallible()),
            },
    ;

    /// Fetch a bot by its token.
    fn fetch_bot_by_token(&self, token: &str) -> (r: Result<Bot, RepoError>)
        requires
            self.inv(),
        ensures
            match r {
                Ok(b) => self.bots().contains_key(b@.id) && self.bots()[b@.id] == b@ && b@.token
                    == token@,
                Err(e) => (e == RepoError::NotFound && forall|k: Seq<char>|
                    #[trigger] self.bots().contains_key(k) ==> self.bots()[k].token != token@)
                    || (e == RepoError::Backend && self.backend_fallible()),
            },
    ;

    /// Insert a new bot.
    fn insert_bot(&mut self, bot: &Bot) -> (r: Result<(), RepoError>)
        requires
            old(self).inv(),
        ensures
            final(self).inv(),
            match r {
                Ok(()) => !old(self).bots().contains_key(bot.id@) && final(self).bots() == old(
                    self,
                ).bots().insert(bot.id@, bot@),
                Err(e) => final(self).bots() == old(self).bots() && ((e == RepoError::Conflict
                    && old(self).bots().contains_key(bot.id@)) || (e == RepoError::Backend && old(
                    self,
                ).backend_fallible())),
            },
    ;

    /// Update a bot with a (patch, removal-list) pair.
    fn update_bot(&mut self, id: &str, bot: &PartialBot, remove: Vec<FieldsBot>) -> (r: Result<
        (),
        RepoError,
    >)
        requires
            old(self).inv(),
        ensures
            final(self).inv(),
            match r {
                Ok(()) => old(self).bots().contains_key(id@) && final(self).bots() == old(
                    self,
                ).bots().insert(id@, applied_bot(old(self).bots()[id@], bot@, remove@)),
                Err(e) => final(self).bots() == old(self).bots() && ((e == RepoError::NotFound
                    && !old(self).bots().contains_key(id@)) || (e == RepoError::Backend && old(
                    self,
                ).backend_fallible())),
            },
    ;

    /// Delete a bot by its id.
    fn delete_bot(&mut self, id: &str) -> (r: Result<(), RepoError>)
        requires
            old(self).inv(),
        ensures
            final(self).inv(),
            match r {
                Ok(()) => old(self).bots().contains_key(id@) && final(self).bots() == old(
                    self,
                ).bots().remove(id@),
                Err(e) => final(self).bots() == old(self).bots() && ((e == RepoError::NotFound
                    && !old(self).bots().contains_key(id@)) || (e == RepoError::Backend && old(
                    self,
                ).backend_fallible())),
            },
    ;

    /// Fetch the bots a user owns: every returned record is stored and
    /// owned by the user, every stored bot of the user is returned, and
    /// no id repeats. No order is promised.
    fn fetch_bots_by_user(&self, user_id: &str) -> (r: Result<Vec<Bot>, RepoError>)
        requires
            self.inv(),
        ensures
            match r {
                Ok(v) => (forall|i: int| 0 <= i < v@.len() ==> self.bots().contains_key(
                    (#[trigger] v@[i])@.id,
                ) && self.bots()[v@[i]@.id] == v@[i]@ && v@[i]@.owner == user_id@) && (forall|
                    k: Seq<char>,
                |
                    #[trigger] self.bots().contains_key(k) && self.bots()[k].owner == user_id@
                        ==> exists|i: int| 0 <= i < v@.len() && (#[trigger] v@[i])@.id == k) && (
                forall|i: int, j: int| 0 <= i < j < v@.len() ==> (#[trigger] v@[i])@.id != (
                #[trigger] v@[j])@.id),
                Err(e) => e == RepoError::Backend && self.backend_fallible(),
            },
    ;

    /// The number of bots a user owns.
    fn get_number_of_bots_by_user(&self, user_id: &str) -> (r: Result<usize, RepoError>)
        requires
            self.inv(),
        ensures
            match r {
                Ok(n) => n == owned_bots(self.bots(), user_id@).len(),
                Err(e) => e == RepoError::Backend && self.backend_fallible(),
            },
    ;
}

/// In-memory bot repository: a vector of records with pairwise distinct
/// ids, read abstractly as a map from id to bot view.
pub struct MemoryBots {
    bots: Vec<Bot>,
}

impl MemoryBots {
    /// An empty repository.
    pub fn new() -> (r: Self)
        ensures
            r.inv(),
            r.bots() == Map::<Seq<char>, BotV>::empty(),
    {
        MemoryBots { bots: Vec::new() }
    }

    /// Index of the record carrying the given id, if any.
    fn find(&self, id: &str) -> (r: Option<usize>)
        requires
            self.inv(),
        ensures
            match r {
                Some(i) => i < self.bots@.len() && self.bots@[i as int].id@ == id@
                    && self.bots().contains_key(id@) && self.bots()[id@] == self.bots@[i as int]@,
                None => !self.bots().contains_key(id@),
            },
    {
        let mut i: usize = 0;
        while i < self.bots.len()
            invariant
                self.inv(),
                0 <= i <= self.bots@.len(),
                forall|j: int| 0 <= j < i ==> (#[trigger] self.bots@[j]).id@ != id@,
            decreases self.bots@.len() - i,
        {
            if str_eq(&self.bots[i].id, id) {
                proof {
                    lemma_s2m_index(self.bots@, bot_key(), bot_val(), i as int);
                }
                return Some(i);
            }
            i += 1;
        }
        proof {
            lemma_s2m_contains(self.bots@, bot_key(), bot_val(), id@);
        }
        None
    }
}

impl AbstractBot for MemoryBots {
    closed spec fn bots(&self) -> Map<Seq<char>, BotV> {
        bots_map(self.bots@)
    }

    closed spec fn inv(&self) -> bool {
        unique_keys(self.bots@, bot_key())
    }

    open spec fn backend_fallible(&self) -> bool {
        false
    }

    fn fetch_bot(&self, id: &str) -> (r: Result<Bot, RepoError>) {
        match self.find(id) {
            Some(i) => Ok(self.bots[i].clone()),
            None => Err(RepoError::NotFound),
        }
    }

    fn fetch_bot_by_token(&self, token: &str) -> (r: Result<Bot, RepoError>) {
        let mut i: usize = 0;
        while i < self.bots.len()
            invariant
                self.inv(),
                0 <= i <= self.bots@.len(),
                forall|j: int| 0 <= j < i ==> (#[trigger] self.bots@[j]).token@ != token@,
            decreases self.bots@.len() - i,
        {
            if str_eq(&self.bots[i].token, token) {
                proof {
                    lemma_s2m_index(self.bots@, bot_key(), bot_val(), i as int);
                }
                return Ok(self.bots[i].clone());
            }
            i += 1;
        }
        proof {
            assert forall|k: Seq<char>| #[trigger] self.bots().contains_key(k) implies (
            self.bots()[k].token != token@) by {
                lemma_s2m_contains(self.bots@, bot_key(), bot_val(), k);
                let j = choose|j: int| 0 <= j < self.bots@.len() && bot_key()(self.bots@[j]) == k;
                lemma_s2m_index(self.bots@, bot_key(), bot_val(), j);
            }
        }
        Err(RepoError::NotFound)
    }

    fn insert_bot(&mut self, bot: &Bot) -> (r: Result<(), RepoError>) {
        match self.find(bot.id.as_str()) {
            Some(_) => Err(RepoError::Conflict),
            None => {
                let b2 = bot.clone();
                proof {
                    lemma_s2m_contains(self.bots@, bot_key(), bot_val(), bot.id@);
                    lemma_s2m_push(self.bots@, bot_key(), bot_val(), b2);
                }
                self.bots.push(b2);
                Ok(())
            },
        }
    }

    fn update_bot(&mut self, id: &str, bot: &PartialBot, remove: Vec<FieldsBot>) -> (r: Result<
        (),
        RepoError,
    >) {
        match self.find(id) {
            Some(i) => {
                proof {
                    lemma_s2m_remove(self.bots@, bot_key(), bot_val(), i as int);
                }
                let b = self.bots.remove(i);
                let b2 = apply_bot(b, bot.clone(), &remove);
                proof {
                    lemma_s2m_contains(self.bots@, bot_key(), bot_val(), id@);
                    lemma_s2m_push(self.bots@, bot_key(), bot_val(), b2);
                }
                self.bots.push(b2);
                proof {
                    assert(self.bots() =~= old(self).bots().insert(
                        id@,
                        applied_bot(old(self).bots()[id@], bot@, remove@),
                    ));
                }
                Ok(())
            },
            None => Err(RepoError::NotFound),
        }
    }

    fn delete_bot(&mut self, id: &str) -> (r: Result<(), RepoError>) {
        match self.find(id) {
            Some(i) => {
                proof {
                    lemma_s2m_remove(self.bots@, bot_key(), bot_val(), i as int);
                }
                let _ = self.bots.remove(i);
                Ok(())
            },
            None => Err(RepoError::NotFound),
        }
    }

    #[verifier::rlimit(100)]
    fn fetch_bots_by_user(&self, user_id: &str) -> (r: Result<Vec<Bot>, RepoError>) {
        let mut out: Vec<Bot> = Vec::new();
        let mut i: usize = 0;
        while i < self.bots.len()
            invariant
                self.inv(),
                0 <= i <= self.bots@.len(),
                forall|a: int| 0 <= a < out@.len() ==> self.bots().contains_key(
                    (#[trigger] out@[a])@.id,
                ) && self.bots()[out@[a]@.id] == out@[a]@ && out@[a]@.owner == user_id@,
                forall|a: int| 0 <= a < out@.len() ==> exists|j: int| 0 <= j < i && (
                #[trigger] out@[a])@.id == self.bots@[j].id@,
                forall|j: int| 0 <= j < i && (#[trigger] self.bots@[j]).owner@ == user_id@
                    ==> exists|a: int| 0 <= a < out@.len() && (#[trigger] out@[a])@.id
                    == self.bots@[j].id@,
                forall|a: int, b: int| 0 <= a < b < out@.len() ==> (#[trigger] out@[a])@.id != (
                #[trigger] out@[b])@.id,
            decreases self.bots@.len() - i,
        {
            let ghost out_before = out@;
            if str_eq(&self.bots[i].owner, user_id) {
                let b = self.bots[i].clone();
                proof {
                    lemma_s2m_index(self.bots@, bot_key(), bot_val(), i as int);
                    assert forall|a: int| 0 <= a < out@.len() implies (#[trigger] out@[a])@.id
                        != b@.id by {
                        let j = choose|j: int|
                            0 <= j < i && (#[trigger] out@[a])@.id == self.bots@[j].id@;
                        assert(bot_key()(self.bots@[j]) != bot_key()(self.bots@[i as int]));
                    }
                }
                out.push(b);
            }
            proof {
                assert forall|j: int|
                    0 <= j < i + 1 && (#[trigger] self.bots@[j]).owner@
                        == user_id@ implies exists|a: int| 0 <= a < out@.len() && (
                #[trigger] out@[a])@.id == self.bots@[j].id@ by {
                    if j == i as int {
                        assert((out@[out@.len() - 1])@.id == self.bots@[j].id@);
                    } else {
                        let a = choose|a: int|
                            0 <= a < out_before.len() && (#[trigger] out_before[a])@.id
                                == self.bots@[j].id@;
                        assert((out@[a])@.id == self.bots@[j].id@);
                    }
                }
            }
            i += 1;
        }
        proof {
            assert forall|k: Seq<char>|
                #[trigger] self.bots().contains_key(k) && self.bots()[k].owner
                    == user_id@ implies exists|a: int| 0 <= a < out@.len() && (#[trigger] out@[a])@.id
                == k by {
                lemma_s2m_contains(self.bots@, bot_key(), bot_val(), k);
                let j = choose|j: int| 0 <= j < self.bots@.len() && bot_key()(self.bots@[j]) == k;
                lemma_s2m_index(self.bots@, bot_key(), bot_val(), j);
                assert(self.bots@[j].owner@ == user_id@);
            }
        }
        Ok(out)
    }

    fn get_number_of_bots_by_user(&self, user_id: &str) -> (r: Result<usize, RepoError>) {
        match self.fetch_bots_by_user(user_id) {
            Ok(v) => {
                proof {
                    let ids = v@.map_values(|b: Bot| b@.id);
                    assert(ids.no_duplicates());
                    assert(ids.to_set() =~= owned_bots(self.bots(), user_id@)) by {
                        assert forall|k: Seq<char>| #[trigger] ids.to_set().contains(k) implies
                            owned_bots(self.bots(), user_id@).contains(k) by {
                            let a = choose|a: int| 0 <= a < ids.len() && ids[a] == k;
                            assert(v@[a]@.id == k);
                        }
                        assert forall|k: Seq<char>|
                            #[trigger] owned_bots(self.bots(), user_id@).contains(
                                k,
                            ) implies ids.to_set().contains(k) by {
                            let a = choose|a: int| 0 <= a < v@.len() && v@[a]@.id == k;
                            assert(ids[a] == k);
                        }
                    }
                    ids.unique_seq_to_set();
                }
                Ok(v.len())
            },
            Err(e) => Err(e),
        }
    }
}

/// Key projection for stored servers.
pub open spec fn server_key() -> spec_fn(Server) -> Seq<char> {
    |s: Server| s.id@
}

/// Value projection for stored servers.
pub open spec fn server_val() -> spec_fn(Server) -> ServerV {
    |s: Server| s@
}

/// The abstract state a server list denotes.
pub open spec fn servers_map(s: Seq<Server>) -> Map<Seq<char>, ServerV> {
    seq_to_map(s, server_key(), server_val())
}

/// The views of a member list, in storage order.
pub open spec fn members_view(s: Seq<Member>) -> Seq<MemberV> {
    s.map_values(|m: Member| m@)
}

/// The views of a channel list, in storage order.
pub open spec fn channels_view(s: Seq<Channel>) -> Seq<ChannelV> {
    s.map_values(|c: Channel| c@)
}

/// Repository contract for the server entity family, including the
/// role sub-resource and the dependent member and channel records that
/// deletion cascades must correct. The abstract state is the map from
/// server id to server view together with the member and channel views.
pub trait AbstractServer: Sized {
    /// Abstract state: stored servers keyed by id.
    spec fn servers(&self) -> Map<Seq<char>, ServerV>;

    /// Abstract state: stored member records.
    spec fn members(&self) -> Seq<MemberV>;

    /// Abstract state: stored channel records.
    spec fn channels(&self) -> Seq<ChannelV>;

    /// Representation invariant of the implementation.
    spec fn inv(&self) -> bool;

    /// Whether operations of this implementation may surface an opaque
    /// `Backend` failure. An adapter over a fallible store answers
    /// true; the in-memory implementation answers false, which rules
    /// the `Backend` outcome out of every contract below.
    spec fn backend_fallible(&self) -> bool;

    /// Fetch a server by its id.
    fn fetch_server(&self, id: &str) -> (r: Result<Server, RepoError>)
        requires
            self.inv(),
        ensures
            match r {
                Ok(s) => self.servers().contains_key(id@) && s@ == self.servers()[id@],
                Err(e) => (e == RepoError::NotFound && !self.servers().contains_key(id@)) || (e
                    == RepoError::Backend && self.backend_fallible()),
            },
    ;

    /// Fetch servers by their ids: the subset that exists is returned,
    /// every requested stored id is covered, and nothing unrequested
    /// appears. The result order is not promised to match the input.
    fn fetch_servers(&self, ids: &[String]) -> (r: Result<Vec<Server>, RepoError>)
        requires
            self.inv(),
        ensures
            match r {
                Ok(v) => (forall|i: int| 0 <= i < v@.len() ==> self.servers().contains_key(
                    (#[trigger] v@[i])@.id,
                ) && self.servers()[v@[i]@.id] == v@[i]@ && exists|j: int|
                    0 <= j < ids@.len() && (#[trigger] ids@[j])@ == v@[i]@.id) && (forall|j: int|
                    0 <= j < ids@.len() && self.servers().contains_key((#[trigger] ids@[j])@)
                        ==> exists|i: int| 0 <= i < v@.len() && (#[trigger] v@[i])@.id == ids@[j]@),
                Err(e) => e == RepoError::Backend && self.backend_fallible(),
            },
    ;

    /// Insert a new server. The caller hands a fully-formed record
    /// whose role list is keyed by id (no two roles share one).
    fn insert_server(&mut self, server: &Server) -> (r: Result<(), RepoError>)
        requires
            old(self).inv(),
            server_roles_unique(*server),
        ensures
            final(self).inv(),
            final(self).members() == old(self).members(),
            final(self).channels() == old(self).channels(),
            match r {
                Ok(()) => !old(self).servers().contains_key(server.id@) && final(self).servers()
                    == old(self).servers().insert(server.id@, server@),
                Err(e) => final(self).servers() == old(self).servers() && ((e == RepoError::Conflict
                    && old(self).servers().contains_key(server.id@)) || (e == RepoError::Backend
                    && old(self).backend_fallible())),
            },
    ;

    /// Update a server with a (patch, removal-list) pair.
    fn update_server(
        &mut self,
        id: &str,
        server: &PartialServer,
        remove: Vec<FieldsServer>,
    ) -> (r: Result<(), RepoError>)
        requires
            old(self).inv(),
        ensures
            final(self).inv(),
            final(self).members() == old(self).members(),
            final(self).channels() == old(self).channels(),
            match r {
                Ok(()) => old(self).servers().contains_key(id@) && final(self).servers() == old(
                    self,
                ).servers().insert(id@, applied_server(old(self).servers()[id@], server@, remove@)),
                Err(e) => final(self).servers() == old(self).servers() && ((e == RepoError::NotFound
                    && !old(self).servers().contains_key(id@)) || (e == RepoError::Backend && old(
                    self,
                ).backend_fallible())),
            },
    ;

    /// Delete a server by its record. The deletion cascades: member
    /// and channel records of that server are removed with it.
    fn delete_server(&mut self, server: &Server) -> (r: Result<(), RepoError>)
        requires
            old(self).inv(),
        ensures
            final(self).inv(),
            match r {
                Ok(()) => old(self).servers().contains_key(server.id@) && final(self).servers()
                    == old(self).servers().remove(server.id@) && final(self).members() == old(
                    self,
                ).members().filter(|m: MemberV| m.server != server.id@) && final(self).channels()
                    == old(self).channels().filter(|c: ChannelV| c.server != server.id@),
                Err(e) => final(self).servers() == old(self).servers() && final(self).members()
                    == old(self).members() && final(self).channels() == old(self).channels() && ((e
                    == RepoError::NotFound && !old(self).servers().contains_key(server.id@)) || (e
                    == RepoError::Backend && old(self).backend_fallible())),
            },
    ;

    /// Insert a new role into a server.
    fn insert_role(&mut self, server_id: &str, role_id: &str, role: &Role) -> (r: Result<
        (),
        RepoError,
    >)
        requires
            old(self).inv(),
        ensures
            final(self).inv(),
            final(self).members() == old(self).members(),
            final(self).channels() == old(self).channels(),
            match r {
                Ok(()) => old(self).servers().contains_key(server_id@) && !old(
                    self,
                ).servers()[server_id@].roles.contains_key(role_id@) && final(self).servers()
                    == old(self).servers().insert(
                    server_id@,
                    ServerV {
                        roles: old(self).servers()[server_id@].roles.insert(role_id@, role@),
                        ..old(self).servers()[server_id@]
                    },
                ),
                Err(e) => final(self).servers() == old(self).servers() && ((e == RepoError::NotFound
                    && !old(self).servers().contains_key(server_id@)) || (e == RepoError::Conflict
                    && old(self).servers().contains_key(server_id@) && old(
                    self,
                ).servers()[server_id@].roles.contains_key(role_id@)) || (e == RepoError::Backend
                    && old(self).backend_fallible())),
            },
    ;

    /// Update an existing role on a server with a (patch, removal-list)
    /// pair.
    fn update_role(
        &mut self,
        server_id: &str,
        role_id: &str,
        role: &PartialRole,
        remove: Vec<FieldsRole>,
    ) -> (r: Result<(), RepoError>)
        requires
            old(self).inv(),
        ensures
            final(self).inv(),
            final(self).members() == old(self).members(),
            final(self).channels() == old(self).channels(),
            match r {
                Ok(()) => old(self).servers().contains_key(server_id@) && old(
                    self,
                ).servers()[server_id@].roles.contains_key(role_id@) && final(self).servers()
                    == old(self).servers().insert(
                    server_id@,
                    ServerV {
                        roles: old(self).servers()[server_id@].roles.insert(
                            role_id@,
                            applied_role(
                                old(self).servers()[server_id@].roles[role_id@],
                                role@,
                                remove@,
                            ),
                        ),
                        ..old(self).servers()[server_id@]
                    },
                ),
                Err(e) => final(self).servers() == old(self).servers() && ((e == RepoError::NotFound
                    && (!old(self).servers().contains_key(server_id@) || !old(
                    self,
                ).servers()[server_id@].roles.contains_key(role_id@))) || (e == RepoError::Backend
                    && old(self).backend_fallible())),
            },
    ;

    /// Delete a role from a server. The deletion cascades: members of
    /// the server lose the role from their assignments and channels of
    /// the server lose the role's permission override.
    fn delete_role(&mut self, server_id: &str, role_id: &str) -> (r: Result<(), RepoError>)
        requires
            old(self).inv(),
        ensures
            final(self).inv(),
            match r {
                Ok(()) => old(self).servers().contains_key(server_id@) && old(
                    self,
                ).servers()[server_id@].roles.contains_key(role_id@) && final(self).servers()
                    == old(self).servers().insert(
                    server_id@,
                    ServerV {
                        roles: old(self).servers()[server_id@].roles.remove(role_id@),
                        ..old(self).servers()[server_id@]
                    },
                ) && final(self).members() == old(self).members().map_values(
                    |m: MemberV| member_without_role(m, server_id@, role_id@),
                ) && final(self).channels() == old(self).channels().map_values(
                    |c: ChannelV| channel_without_role(c, server_id@, role_id@),
                ),
                Err(e) => final(self).servers() == old(self).servers() && final(self).members()
                    == old(self).members() && final(self).channels() == old(self).channels() && ((e
                    == RepoError::NotFound && (!old(self).servers().contains_key(server_id@)
                    || !old(self).servers()[server_id@].roles.contains_key(role_id@))) || (e
                    == RepoError::Backend && old(self).backend_fallible())),
            },
    ;
}

/// Index of the role entry carrying the given id, if any.
fn find_role(roles: &Vec<RoleEntry>, role_id: &str) -> (r: Option<usize>)
    requires
        unique_keys(roles@, |e: RoleEntry| e.id@),
    ensures
        match r {
            Some(i) => i < roles@.len() && roles@[i as int].id@ == role_id@ && roles_view(
                roles@,
            ).contains_key(role_id@) && roles_view(roles@)[role_id@] == roles@[i as int].role@,
            None => !roles_view(roles@).contains_key(role_id@),
        },
{
    let mut i: usize = 0;
    while i < roles.len()
        invariant
            unique_keys(roles@, |e: RoleEntry| e.id@),
            0 <= i <= roles@.len(),
            forall|j: int| 0 <= j < i ==> (#[trigger] roles@[j]).id@ != role_id@,
        decreases roles@.len() - i,
    {
        if str_eq(&roles[i].id, role_id) {
            proof {
                lemma_s2m_index(roles@, |e: RoleEntry| e.id@, |e: RoleEntry| e.role@, i as int);
            }
            return Some(i);
        }
        i += 1;
    }
    proof {
        lemma_s2m_contains(roles@, |e: RoleEntry| e.id@, |e: RoleEntry| e.role@, role_id@);
    }
    None
}

/// A member record with the given role erased when the member belongs
/// to the given server.
fn strip_member_role(m: &Member, server_id: &str, role_id: &str) -> (r: Member)
    ensures
        r@ == member_without_role(m@, server_id@, role_id@),
{
    if str_eq(&m.server, server_id) {
        let mut kept: Vec<String> = Vec::new();
        proof {
            reveal(Seq::filter);
        }
        let mut k: usize = 0;
        while k < m.roles.len()
            invariant
                0 <= k <= m.roles@.len(),
                kept.deep_view() == m.roles.deep_view().take(k as int).filter(
                    |x: Seq<char>| x != role_id@,
                ),
            decreases m.roles@.len() - k,
        {
            proof {
                let dv = m.roles.deep_view();
                assert(dv.take(k as int + 1).drop_last() =~= dv.take(k as int));
                assert(dv.take(k as int + 1) =~= dv.take(k as int).push(m.roles@[k as int]@));
                dv.take(k as int).lemma_filter_push(
                    m.roles@[k as int]@,
                    |x: Seq<char>| x != role_id@,
                );
            }
            let ghost kept_before = kept.deep_view();
            if !str_eq(&m.roles[k], role_id) {
                kept.push(m.roles[k].clone());
                proof {
                    assert(kept.deep_view() =~= kept_before.push(m.roles@[k as int]@));
                }
            }
            k += 1;
        }
        proof {
            assert(m.roles.deep_view().take(m.roles@.len() as int) =~= m.roles.deep_view());
        }
        let r = Member {
            server: m.server.clone(),
            user: m.user.clone(),
            nickname: crate::message::clone_opt_string(&m.nickname),
            roles: kept,
        };
        proof {
            assert(r@ =~= member_without_role(m@, server_id@, role_id@));
        }
        r
    } else {
        m.clone()
    }
}

/// A channel record with the given role's permission override erased
/// when the channel belongs to the given server.
fn strip_channel_role(c: &Channel, server_id: &str, role_id: &str) -> (r: Channel)
    ensures
        r@ == channel_without_role(c@, server_id@, role_id@),
{
    if str_eq(&c.server, server_id) {
        let mut kept: Vec<RolePermission> = Vec::new();
        proof {
            reveal(Seq::filter);
        }
        let mut k: usize = 0;
        while k < c.role_permissions.len()
            invariant
                0 <= k <= c.role_permissions@.len(),
                kept.deep_view() == c.role_permissions.deep_view().take(k as int).filter(
                    |p: RolePermissionV| p.role != role_id@,
                ),
            decreases c.role_permissions@.len() - k,
        {
            proof {
                let dv = c.role_permissions.deep_view();
                assert(dv.take(k as int + 1).drop_last() =~= dv.take(k as int));
                assert(dv.take(k as int + 1) =~= dv.take(k as int).push(
                    c.role_permissions@[k as int].deep_view(),
                ));
                dv.take(k as int).lemma_filter_push(
                    c.role_permissions@[k as int].deep_view(),
                    |p: RolePermissionV| p.role != role_id@,
                );
            }
            let ghost kept_before = kept.deep_view();
            if !str_eq(&c.role_permissions[k].role, role_id) {
                kept.push(c.role_permissions[k].clone());
                proof {
                    assert(kept.deep_view() =~= kept_before.push(
                        c.role_permissions@[k as int].deep_view(),
                    ));
                }
            }
            k += 1;
        }
        proof {
            assert(c.role_permissions.deep_view().take(c.role_permissions@.len() as int)
                =~= c.role_permissions.deep_view());
        }
        let r = Channel {
            id: c.id.clone(),
            server: c.server.clone(),
            name: c.name.clone(),
            role_permissions: kept,
        };
        proof {
            assert(r@ =~= channel_without_role(c@, server_id@, role_id@));
        }
        r
    } else {
        c.clone()
    }
}

/// Every member record after a role deletion cascades to it.
fn members_cascade_role(members: &Vec<Member>, server_id: &str, role_id: &str) -> (r: Vec<Member>)
    ensures
        members_view(r@) == members_view(members@).map_values(
            |m: MemberV| member_without_role(m, server_id@, role_id@),
        ),
{
    let mut out: Vec<Member> = Vec::new();
    let mut j: usize = 0;
    while j < members.len()
        invariant
            0 <= j <= members@.len(),
            members_view(out@) == members_view(members@.take(j as int)).map_values(
                |m: MemberV| member_without_role(m, server_id@, role_id@),
            ),
        decreases members@.len() - j,
    {
        let ghost out_before = out@;
        let next = strip_member_role(&members[j], server_id, role_id);
        out.push(next);
        proof {
            let f = |m: MemberV| member_without_role(m, server_id@, role_id@);
            let pre = members_view(members@.take(j as int));
            let post = members_view(members@.take(j as int + 1));
            assert(post =~= pre.push(members@[j as int]@));
            assert(post.map_values(f) =~= pre.map_values(f).push(f(members@[j as int]@)));
            assert(members_view(out@) =~= members_view(out_before).push(next@));
            assert(members_view(out@) =~= post.map_values(f));
        }
        j += 1;
    }
    proof {
        assert(members@.take(members@.len() as int) =~= members@);
    }
    out
}

/// Every channel record after a role deletion cascades to it.
fn channels_cascade_role(
    channels: &Vec<Channel>,
    server_id: &str,
    role_id: &str,
) -> (r: Vec<Channel>)
    ensures
        channels_view(r@) == channels_view(channels@).map_values(
            |c: ChannelV| channel_without_role(c, server_id@, role_id@),
        ),
{
    let mut out: Vec<Channel> = Vec::new();
    let mut j: usize = 0;
    while j < channels.len()
        invariant
            0 <= j <= channels@.len(),
            channels_view(out@) == channels_view(channels@.take(j as int)).map_values(
                |c: ChannelV| channel_without_role(c, server_id@, role_id@),
            ),
        decreases channels@.len() - j,
    {
        let ghost out_before = out@;
        let next = strip_channel_role(&channels[j], server_id, role_id);
        out.push(next);
        proof {
            let f = |c: ChannelV| channel_without_role(c, server_id@, role_id@);
            let pre = channels_view(channels@.take(j as int));
            let post = channels_view(channels@.take(j as int + 1));
            assert(post =~= pre.push(channels@[j as int]@));
            assert(post.map_values(f) =~= pre.map_values(f).push(f(channels@[j as int]@)));
            assert(channels_view(out@) =~= channels_view(out_before).push(next@));
            assert(channels_view(out@) =~= post.map_values(f));
        }
        j += 1;
    }
    proof {
        assert(channels@.take(channels@.len() as int) =~= channels@);
    }
    out
}

/// The member records that survive a server deletion.
fn members_without_server(members: &Vec<Member>, server_id: &str) -> (r: Vec<Member>)
    ensures
        members_view(r@) == members_view(members@).filter(|m: MemberV| m.server != server_id@),
{
    let mut out: Vec<Member> = Vec::new();
    proof {
        reveal(Seq::filter);
    }
    let mut j: usize = 0;
    while j < members.len()
        invariant
            0 <= j <= members@.len(),
            members_view(out@) == members_view(members@.take(j as int)).filter(
                |m: MemberV| m.server != server_id@,
            ),
        decreases members@.len() - j,
    {
        proof {
            let mv = members_view(members@);
            assert(members_view(members@.take(j as int + 1)).drop_last() =~= members_view(
                members@.take(j as int),
            ));
            assert(members_view(members@.take(j as int + 1)) =~= members_view(
                members@.take(j as int),
            ).push(members@[j as int]@));
            members_view(members@.take(j as int)).lemma_filter_push(
                members@[j as int]@,
                |m: MemberV| m.server != server_id@,
            );
        }
        let ghost out_before = out@;
        if !str_eq(&members[j].server, server_id) {
            let kept = members[j].clone();
            out.push(kept);
            proof {
                assert(members_view(out@) =~= members_view(out_before).push(members@[j as int]@));
            }
        }
        j += 1;
    }
    proof {
        assert(members@.take(members@.len() as int) =~= members@);
    }
    out
}

/// The channel records that survive a server deletion.
fn channels_without_server(channels: &Vec<Channel>, server_id: &str) -> (r: Vec<Channel>)
    ensures
        channels_view(r@) == channels_view(channels@).filter(|c: ChannelV| c.server != server_id@),
{
    let mut out: Vec<Channel> = Vec::new();
    proof {
        reveal(Seq::filter);
    }
    let mut j: usize = 0;
    while j < channels.len()
        invariant
            0 <= j <= channels@.len(),
            channels_view(out@) == channels_view(channels@.take(j as int)).filter(
                |c: ChannelV| c.server != server_id@,
            ),
        decreases channels@.len() - j,
    {
        proof {
            assert(channels_view(channels@.take(j as int + 1)).drop_last() =~= channels_view(
                channels@.take(j as int),
            ));
            assert(channels_view(channels@.take(j as int + 1)) =~= channels_view(
                channels@.take(j as int),
            ).push(channels@[j as int]@));
            channels_view(channels@.take(j as int)).lemma_filter_push(
                channels@[j as int]@,
                |c: ChannelV| c.server != server_id@,
            );
        }
        let ghost out_before = out@;
        if !str_eq(&channels[j].server, server_id) {
            let kept = channels[j].clone();
            out.push(kept);
            proof {
                assert(channels_view(out@) =~= channels_view(out_before).push(
                    channels@[j as int]@,
                ));
            }
        }
        j += 1;
    }
    proof {
        assert(channels@.take(channels@.len() as int) =~= channels@);
    }
    out
}

/// Replacing one stored server with one whose role keys are unique
/// keeps every stored server's role keys unique.
proof fn lemma_roles_unique_after_replace(pre: Seq<Server>, i: int, s: Server, post: Seq<Server>)
    requires
        0 <= i < pre.len(),
        forall|a: int| 0 <= a < pre.len() ==> unique_keys(
            (#[trigger] pre[a]).roles@,
            |e: RoleEntry| e.id@,
        ),
        unique_keys(s.roles@, |e: RoleEntry| e.id@),
        post == pre.remove(i).push(s),
    ensures
        forall|a: int| 0 <= a < post.len() ==> unique_keys(
            (#[trigger] post[a]).roles@,
            |e: RoleEntry| e.id@,
        ),
{
    pre.remove_ensures(i);
    assert forall|a: int| 0 <= a < post.len() implies unique_keys(
        (#[trigger] post[a]).roles@,
        |e: RoleEntry| e.id@,
    ) by {
        if a < post.len() - 1 {
            let a0: int = if a < i { a } else { a + 1 };
            assert(post[a] == pre[a0]);
        } else {
            assert(post[a] == s);
        }
    }
}

/// In-memory server repository: servers keyed by id, together with the
/// member and channel records that deletion cascades correct.
pub struct MemoryServers {
    servers: Vec<Server>,
    members: Vec<Member>,
    channels: Vec<Channel>,
}

impl MemoryServers {
    /// An empty repository.
    pub fn new() -> (r: Self)
        ensures
            r.inv(),
            r.servers() == Map::<Seq<char>, ServerV>::empty(),
            r.members() == Seq::<MemberV>::empty(),
            r.channels() == Seq::<ChannelV>::empty(),
    {
        let r = MemoryServers { servers: Vec::new(), members: Vec::new(), channels: Vec::new() };
        proof {
            assert(r.members() =~= Seq::<MemberV>::empty());
            assert(r.channels() =~= Seq::<ChannelV>::empty());
        }
        r
    }

    /// Index of the record carrying the given id, if any.
    fn find(&self, id: &str) -> (r: Option<usize>)
        requires
            self.inv(),
        ensures
            match r {
                Some(i) => i < self.servers@.len() && self.servers@[i as int].id@ == id@
                    && self.servers().contains_key(id@) && self.servers()[id@] == self.servers@[
                    i as int
                ]@,
                None => !self.servers().contains_key(id@),
            },
    {
        let mut i: usize = 0;
        while i < self.servers.len()
            invariant
                self.inv(),
                0 <= i <= self.servers@.len(),
                forall|j: int| 0 <= j < i ==> (#[trigger] self.servers@[j]).id@ != id@,
            decreases self.servers@.len() - i,
        {
            if str_eq(&self.servers[i].id, id) {
                proof {
                    lemma_s2m_index(self.servers@, server_key(), server_val(), i as int);
                }
                return Some(i);
            }
            i += 1;
        }
        proof {
            lemma_s2m_contains(self.servers@, server_key(), server_val(), id@);
        }
        None
    }

    /// Records a member on a server, for the cascades to correct.
    pub fn add_member(&mut self, member: &Member) -> (r: ())
        requires
            old(self).inv(),
        ensures
            final(self).inv(),
            final(self).servers() == old(self).servers(),
            final(self).channels() == old(self).channels(),
            final(self).members() == old(self).members().push(member@),
    {
        let m = member.clone();
        self.members.push(m);
        proof {
            assert(self.members() =~= old(self).members().push(member@));
        }
    }

    /// Records a channel of a server, for the cascades to correct.
    pub fn add_channel(&mut self, channel: &Channel) -> (r: ())
        requires
            old(self).inv(),
        ensures
            final(self).inv(),
            final(self).servers() == old(self).servers(),
            final(self).members() == old(self).members(),
            final(self).channels() == old(self).channels().push(channel@),
    {
        let c = channel.clone();
        self.channels.push(c);
        proof {
            assert(self.channels() =~= old(self).channels().push(channel@));
        }
    }

    /// The stored member records, in storage order.
    pub fn members_vec(&self) -> (r: &Vec<Member>)
        ensures
            members_view(r@) == self.members(),
    {
        &self.members
    }

    /// The stored channel records, in storage order.
    pub fn channels_vec(&self) -> (r: &Vec<Channel>)
        ensures
            channels_view(r@) == self.channels(),
    {
        &self.channels
    }

    /// Role-key uniqueness of every stored server.
    spec fn roles_wf(&self) -> bool {
        forall|i: int| 0 <= i < self.servers@.len() ==> unique_keys(
            (#[trigger] self.servers@[i]).roles@,
            |e: RoleEntry| e.id@,
        )
    }
}

impl AbstractServer for MemoryServers {
    closed spec fn servers(&self) -> Map<Seq<char>, ServerV> {
        servers_map(self.servers@)
    }

    closed spec fn members(&self) -> Seq<MemberV> {
        members_view(self.members@)
    }

    closed spec fn channels(&self) -> Seq<ChannelV> {
        channels_view(self.channels@)
    }

    closed spec fn inv(&self) -> bool {
        unique_keys(self.servers@, server_key()) && self.roles_wf()
    }

    open spec fn backend_fallible(&self) -> bool {
        false
    }

    fn fetch_server(&self, id: &str) -> (r: Result<Server, RepoError>) {
        match self.find(id) {
            Some(i) => Ok(self.servers[i].clone()),
            None => Err(RepoError::NotFound),
        }
    }

    #[verifier::rlimit(100)]
    fn fetch_servers(&self, ids: &[String]) -> (r: Result<Vec<Server>, RepoError>) {
        let mut out: Vec<Server> = Vec::new();
        let mut j: usize = 0;
        while j < ids.len()
            invariant
                self.inv(),
                0 <= j <= ids@.len(),
                forall|a: int| 0 <= a < out@.len() ==> self.servers().contains_key(
                    (#[trigger] out@[a])@.id,
                ) && self.servers()[out@[a]@.id] == out@[a]@ && exists|b: int|
                    0 <= b < ids@.len() && (#[trigger] ids@[b])@ == out@[a]@.id,
                forall|b: int|
                    0 <= b < j && self.servers().contains_key((#[trigger] ids@[b])@) ==> exists|
                        a: int,
                    | 0 <= a < out@.len() && (#[trigger] out@[a])@.id == ids@[b]@,
            decreases ids@.len() - j,
        {
            let ghost out_before = out@;
            match self.find(ids[j].as_str()) {
                Some(k) => {
                    let s = self.servers[k].clone();
                    proof {
                        assert(s@.id == ids@[j as int]@);
                    }
                    out.push(s);
                },
                None => {},
            }
            proof {
                assert forall|b: int|
                    0 <= b < j + 1 && self.servers().contains_key(
                        (#[trigger] ids@[b])@,
                    ) implies exists|a: int| 0 <= a < out@.len() && (#[trigger] out@[a])@.id
                    == ids@[b]@ by {
                    if b == j as int {
                        assert((out@[out@.len() - 1])@.id == ids@[b]@);
                    } else {
                        let a = choose|a: int|
                            0 <= a < out_before.len() && (#[trigger] out_before[a])@.id
                                == ids@[b]@;
                        assert((out@[a])@.id == ids@[b]@);
                    }
                }
            }
            j += 1;
        }
        Ok(out)
    }

    fn insert_server(&mut self, server: &Server) -> (r: Result<(), RepoError>) {
        match self.find(server.id.as_str()) {
            Some(_) => Err(RepoError::Conflict),
            None => {
                let s2 = server.clone();
                proof {
                    lemma_s2m_contains(self.servers@, server_key(), server_val(), server.id@);
                    lemma_s2m_push(self.servers@, server_key(), server_val(), s2);
                }
                self.servers.push(s2);
                proof {
                    assert forall|i: int| 0 <= i < self.servers@.len() implies unique_keys(
                        (#[trigger] self.servers@[i]).roles@,
                        |e: RoleEntry| e.id@,
                    ) by {
                        if i < self.servers@.len() - 1 {
                            assert(old(self).roles_wf());
                            assert(self.servers@[i] == old(self).servers@[i]);
                        }
                    }
                }
                Ok(())
            },
        }
    }

    fn update_server(
        &mut self,
        id: &str,
        server: &PartialServer,
        remove: Vec<FieldsServer>,
    ) -> (r: Result<(), RepoError>) {
        match self.find(id) {
            Some(i) => {
                proof {
                    lemma_s2m_remove(self.servers@, server_key(), server_val(), i as int);
                }
                let s = self.servers.remove(i);
                let s2 = apply_server(s, server.clone(), &remove);
                proof {
                    lemma_s2m_contains(self.servers@, server_key(), server_val(), id@);
                    lemma_s2m_push(self.servers@, server_key(), server_val(), s2);
                }
                self.servers.push(s2);
                proof {
                    assert(self.servers() =~= old(self).servers().insert(
                        id@,
                        applied_server(old(self).servers()[id@], server@, remove@),
                    ));
                    assert(old(self).roles_wf());
                    assert(s2.roles@ == old(self).servers@[i as int].roles@);
                    lemma_roles_unique_after_replace(
                        old(self).servers@,
                        i as int,
                        s2,
                        self.servers@,
                    );
                }
                Ok(())
            },
            None => Err(RepoError::NotFound),
        }
    }

    fn delete_server(&mut self, server: &Server) -> (r: Result<(), RepoError>) {
        match self.find(server.id.as_str()) {
            Some(i) => {
                proof {
                    lemma_s2m_remove(self.servers@, server_key(), server_val(), i as int);
                }
                let _ = self.servers.remove(i);
                let kept_members = members_without_server(&self.members, server.id.as_str());
                self.members = kept_members;
                let kept_channels = channels_without_server(&self.channels, server.id.as_str());
                self.channels = kept_channels;
                proof {
                    old(self).servers@.remove_ensures(i as int);
                    assert forall|a: int| 0 <= a < self.servers@.len() implies unique_keys(
                        (#[trigger] self.servers@[a]).roles@,
                        |e: RoleEntry| e.id@,
                    ) by {
                        assert(old(self).roles_wf());
                        let a0: int = if a < i as int { a } else { a + 1 };
                        assert(self.servers@[a] == old(self).servers@[a0]);
                    }
                }
                Ok(())
            },
            None => Err(RepoError::NotFound),
        }
    }

    #[verifier::rlimit(100)]
    fn insert_role(&mut self, server_id: &str, role_id: &str, role: &Role) -> (r: Result<
        (),
        RepoError,
    >) {
        match self.find(server_id) {
            None => Err(RepoError::NotFound),
            Some(i) => {
                proof {
                    assert(unique_keys(self.servers@[i as int].roles@, |e: RoleEntry| e.id@));
                }
                match find_role(&self.servers[i].roles, role_id) {
                    Some(_) => Err(RepoError::Conflict),
                    None => {
                        proof {
                            lemma_s2m_remove(self.servers@, server_key(), server_val(), i as int);
                        }
                        let mut s = self.servers.remove(i);
                        let entry = RoleEntry { id: String::from_str(role_id), role: role.clone() };
                        proof {
                            lemma_s2m_contains(
                                s.roles@,
                                |e: RoleEntry| e.id@,
                                |e: RoleEntry| e.role@,
                                role_id@,
                            );
                            lemma_s2m_push(
                                s.roles@,
                                |e: RoleEntry| e.id@,
                                |e: RoleEntry| e.role@,
                                entry,
                            );
                        }
                        let ghost s_before = s@;
                        s.roles.push(entry);
                        proof {
                            assert(s@ =~= ServerV {
                                roles: old(self).servers()[server_id@].roles.insert(
                                    role_id@,
                                    role@,
                                ),
                                ..old(self).servers()[server_id@]
                            });
                            lemma_s2m_contains(
                                self.servers@,
                                server_key(),
                                server_val(),
                                server_id@,
                            );
                            lemma_s2m_push(self.servers@, server_key(), server_val(), s);
                        }
                        let ghost pre_push = self.servers@;
                        self.servers.push(s);
                        proof {
                            assert(self.servers() =~= old(self).servers().insert(server_id@, s@));
                            assert(old(self).roles_wf());
                            assert(unique_keys(s.roles@, |e: RoleEntry| e.id@));
                            lemma_roles_unique_after_replace(
                                old(self).servers@,
                                i as int,
                                s,
                                self.servers@,
                            );
                        }
                        Ok(())
                    },
                }
            },
        }
    }

    #[verifier::rlimit(100)]
    fn update_role(
        &mut self,
        server_id: &str,
        role_id: &str,
        role: &PartialRole,
        remove: Vec<FieldsRole>,
    ) -> (r: Result<(), RepoError>) {
        match self.find(server_id) {
            None => Err(RepoError::NotFound),
            Some(i) => {
                proof {
                    assert(unique_keys(self.servers@[i as int].roles@, |e: RoleEntry| e.id@));
                }
                match find_role(&self.servers[i].roles, role_id) {
                    None => Err(RepoError::NotFound),
                    Some(j) => {
                        proof {
                            lemma_s2m_remove(self.servers@, server_key(), server_val(), i as int);
                        }
                        let mut s = self.servers.remove(i);
                        proof {
                            lemma_s2m_remove(
                                s.roles@,
                                |e: RoleEntry| e.id@,
                                |e: RoleEntry| e.role@,
                                j as int,
                            );
                        }
                        let e = s.roles.remove(j);
                        let new_role = apply_role(e.role, role.clone(), &remove);
                        let entry = RoleEntry { id: e.id, role: new_role };
                        proof {
                            lemma_s2m_contains(
                                s.roles@,
                                |e: RoleEntry| e.id@,
                                |e: RoleEntry| e.role@,
                                role_id@,
                            );
                            lemma_s2m_push(
                                s.roles@,
                                |e: RoleEntry| e.id@,
                                |e: RoleEntry| e.role@,
                                entry,
                            );
                        }
                        s.roles.push(entry);
                        proof {
                            assert(roles_view(s.roles@) =~= old(
                                self,
                            ).servers()[server_id@].roles.insert(
                                role_id@,
                                applied_role(
                                    old(self).servers()[server_id@].roles[role_id@],
                                    role@,
                                    remove@,
                                ),
                            ));
                            assert(s@ =~= ServerV {
                                roles: old(self).servers()[server_id@].roles.insert(
                                    role_id@,
                                    applied_role(
                                        old(self).servers()[server_id@].roles[role_id@],
                                        role@,
                                        remove@,
                                    ),
                                ),
                                ..old(self).servers()[server_id@]
                            });
                            lemma_s2m_contains(
                                self.servers@,
                                server_key(),
                                server_val(),
                                server_id@,
                            );
                            lemma_s2m_push(self.servers@, server_key(), server_val(), s);
                        }
                        self.servers.push(s);
                        proof {
                            assert(self.servers() =~= old(self).servers().insert(server_id@, s@));
                            assert(old(self).roles_wf());
                            assert(unique_keys(s.roles@, |e: RoleEntry| e.id@));
                            lemma_roles_unique_after_replace(
                                old(self).servers@,
                                i as int,
                                s,
                                self.servers@,
                            );
                        }
                        Ok(())
                    },
                }
            },
        }
    }

    #[verifier::rlimit(100)]
    fn delete_role(&mut self, server_id: &str, role_id: &str) -> (r: Result<(), RepoError>) {
        match self.find(server_id) {
            None => Err(RepoError::NotFound),
            Some(i) => {
                proof {
                    assert(unique_keys(self.servers@[i as int].roles@, |e: RoleEntry| e.id@));
                }
                match find_role(&self.servers[i].roles, role_id) {
                    None => Err(RepoError::NotFound),
                    Some(j) => {
                        proof {
                            lemma_s2m_remove(self.servers@, server_key(), server_val(), i as int);
                        }
                        let mut s = self.servers.remove(i);
                        proof {
                            lemma_s2m_remove(
                                s.roles@,
                                |e: RoleEntry| e.id@,
                                |e: RoleEntry| e.role@,
                                j as int,
                            );
                        }
                        let _ = s.roles.remove(j);
                        proof {
                            assert(s@ =~= ServerV {
                                roles: old(self).servers()[server_id@].roles.remove(role_id@),
                                ..old(self).servers()[server_id@]
                            });
                            lemma_s2m_contains(
                                self.servers@,
                                server_key(),
                                server_val(),
                                server_id@,
                            );
                            lemma_s2m_push(self.servers@, server_key(), server_val(), s);
                        }
                        self.servers.push(s);
                        let new_members = members_cascade_role(&self.members, server_id, role_id);
                        self.members = new_members;
                        let new_channels = channels_cascade_role(
                            &self.channels,
                            server_id,
                            role_id,
                        );
                        self.channels = new_channels;
                        proof {
                            assert(self.servers() =~= old(self).servers().insert(server_id@, s@));
                            assert(old(self).roles_wf());
                            assert(unique_keys(s.roles@, |e: RoleEntry| e.id@));
                            lemma_roles_unique_after_replace(
                                old(self).servers@,
                                i as int,
                                s,
                                self.servers@,
                            );
                        }
                        Ok(())
                    },
                }
            },
        }
    }
}


} // verus!
