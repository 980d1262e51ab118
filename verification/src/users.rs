//! The user-side entities: plain user references and the bot entity
//! family (full record, patch shape, removable-field enumeration, and
//! the two-phase merge for updates).
use vstd::prelude::*;

use crate::patch::{patch_opt, patch_req, unset_if};

verus! {

/// Reference record for a user, as bundled into bulk responses.
#[derive(Debug)]
pub struct User {
    /// Unique id
    pub id: String,
    /// Display name
    pub username: String,
}

impl Clone for User {
    fn clone(&self) -> (r: Self)
        ensures
            r == *self,
    {
        User { id: self.id.clone(), username: self.username.clone() }
    }
}

/// Canonical full record of a bot. The id is immutable after creation.
#[derive(Debug)]
pub struct Bot {
    /// Unique id (matches the bot's user id)
    pub id: String,
    /// Id of the user that owns this bot
    pub owner: String,
    /// Token used to authenticate requests as this bot
    pub token: String,
    /// Whether the bot is public and can be added by anyone
    pub public: bool,
    /// Whether to enable analytics
    pub analytics: bool,
    /// Whether this bot should be publicly discoverable
    pub discoverable: bool,
    /// URL for handling interactions
    pub interactions_url: Option<String>,
}

/// Mathematical shape of a [`Bot`].
#[verifier::ext_equal]
pub struct BotV {
    pub id: Seq<char>,
    pub owner: Seq<char>,
    pub token: Seq<char>,
    pub public: bool,
    pub analytics: bool,
    pub discoverable: bool,
    pub interactions_url: Option<Seq<char>>,
}

impl View for Bot {
    type V = BotV;

    open spec fn view(&self) -> BotV {
        BotV {
            id: self.id@,
            owner: self.owner@,
            token: self.token@,
            public: self.public,
            analytics: self.analytics,
            discoverable: self.discoverable,
            interactions_url: self.interactions_url.deep_view(),
        }
    }
}

impl Clone for Bot {
    fn clone(&self) -> (r: Self)
        ensures
            r == *self,
    {
        Bot {
            id: self.id.clone(),
            owner: self.owner.clone(),
            token: self.token.clone(),
            public: self.public,
            analytics: self.analytics,
            discoverable: self.discoverable,
            interactions_url: crate::message::clone_opt_string(&self.interactions_url),
        }
    }
}

/// Sparse patch shape for a bot: every field optional-present; no id.
#[derive(Debug)]
pub struct PartialBot {
    pub owner: Option<String>,
    pub token: Option<String>,
    pub public: Option<bool>,
    pub analytics: Option<bool>,
    pub discoverable: Option<bool>,
    pub interactions_url: Option<String>,
}

/// Mathematical shape of a [`PartialBot`].
#[verifier::ext_equal]
pub struct PartialBotV {
    pub owner: Option<Seq<char>>,
    pub token: Option<Seq<char>>,
    pub public: Option<bool>,
    pub analytics: Option<bool>,
    pub discoverable: Option<bool>,
    pub interactions_url: Option<Seq<char>>,
}

/// The patch that touches nothing.
pub open spec fn partial_bot_empty() -> PartialBotV {
    PartialBotV {
        owner: None,
        token: None,
        public: None,
        analytics: None,
        discoverable: None,
        interactions_url: None,
    }
}

impl View for PartialBot {
    type V = PartialBotV;

    open spec fn view(&self) -> PartialBotV {
        PartialBotV {
            owner: self.owner.deep_view(),
            token: self.token.deep_view(),
            public: self.public,
            analytics: self.analytics,
            discoverable: self.discoverable,
            interactions_url: self.interactions_url.deep_view(),
        }
    }
}

impl Clone for PartialBot {
    fn clone(&self) -> (r: Self)
        ensures
            r == *self,
    {
        PartialBot {
            owner: crate::message::clone_opt_string(&self.owner),
            token: crate::message::clone_opt_string(&self.token),
            public: self.public,
            analytics: self.analytics,
            discoverable: self.discoverable,
            interactions_url: crate::message::clone_opt_string(&self.interactions_url),
        }
    }
}

impl Default for PartialBot {
    /// The empty patch.
    fn default() -> (r: Self)
        ensures
            r@ == partial_bot_empty(),
    {
        let r = PartialBot {
            owner: None,
            token: None,
            public: None,
            analytics: None,
            discoverable: None,
            interactions_url: None,
        };
        proof {
            assert(r@ =~= partial_bot_empty());
        }
        r
    }
}

/// Fields of a bot that may be reset through the removal list. The
/// token resets to the empty string (its type-appropriate default);
/// the interactions URL resets to unset. The flags are not removable:
/// they always carry a meaningful value.
#[derive(Clone, Copy, Debug, PartialEq, Eq, Structural)]
pub enum FieldsBot {
    Token,
    InteractionsUrl,
}

/// The wire name of each removable bot field.
pub open spec fn fields_bot_name(f: FieldsBot) -> Seq<char> {
    match f {
        FieldsBot::Token => "token"@,
        FieldsBot::InteractionsUrl => "interactions_url"@,
    }
}

impl FieldsBot {
    /// Validates a removal-list entry received as text at the boundary
    /// of this layer: a name outside the closed enumeration is rejected
    /// with `InvalidRemoval` rather than silently ignored.
    pub fn parse(name: &str) -> (r: Result<FieldsBot, crate::error::RepoError>)
        ensures
            match r {
                Ok(f) => name@ == fields_bot_name(f),
                Err(e) => e == crate::error::RepoError::InvalidRemoval && forall|f: FieldsBot|
                    name@ != fields_bot_name(f),
            },
    {
        if crate::patch::str_eq_str(name, "token") {
            Ok(FieldsBot::Token)
        } else if crate::patch::str_eq_str(name, "interactions_url") {
            Ok(FieldsBot::InteractionsUrl)
        } else {
            Err(crate::error::RepoError::InvalidRemoval)
        }
    }
}

/// Whether a removal list names a given field.
pub fn fields_bot_contain(remove: &Vec<FieldsBot>, f: FieldsBot) -> (b: bool)
    ensures
        b == remove@.contains(f),
{
    let mut i: usize = 0;
    while i < remove.len()
        invariant
            0 <= i <= remove@.len(),
            forall|j: int| 0 <= j < i ==> remove@[j] != f,
        decreases remove@.len() - i,
    {
        if remove[i] == f {
            return true;
        }
        i += 1;
    }
    false
}

/// The record that results from the two-phase merge of an update onto a
/// stored bot: patch first, removals second (removal wins).
pub open spec fn applied_bot(b: BotV, p: PartialBotV, rm: Seq<FieldsBot>) -> BotV {
    let patched = BotV {
        id: b.id,
        owner: patch_req(b.owner, p.owner),
        token: patch_req(b.token, p.token),
        public: patch_req(b.public, p.public),
        analytics: patch_req(b.analytics, p.analytics),
        discoverable: patch_req(b.discoverable, p.discoverable),
        interactions_url: patch_opt(b.interactions_url, p.interactions_url),
    };
    BotV {
        token: if rm.contains(FieldsBot::Token) {
            Seq::empty()
        } else {
            patched.token
        },
        interactions_url: unset_if(
            rm.contains(FieldsBot::InteractionsUrl),
            patched.interactions_url,
        ),
        ..patched
    }
}

/// Applies the two-phase merge to a stored bot.
pub fn apply_bot(b: Bot, p: PartialBot, remove: &Vec<FieldsBot>) -> (r: Bot)
    ensures
        r@ == applied_bot(b@, p@, remove@),
{
    let PartialBot { owner, token, public, analytics, discoverable, interactions_url } = p;
    let mut r = b;
    if let Some(v) = owner {
        r.owner = v;
    }
    if let Some(v) = token {
        r.token = v;
    }
    if let Some(v) = public {
        r.public = v;
    }
    if let Some(v) = analytics {
        r.analytics = v;
    }
    if let Some(v) = discoverable {
        r.discoverable = v;
    }
    if let Some(v) = interactions_url {
        r.interactions_url = Some(v);
    }
    if fields_bot_contain(remove, FieldsBot::Token) {
        r.token = String::new();
    }
    if fields_bot_contain(remove, FieldsBot::InteractionsUrl) {
        r.interactions_url = None;
    }
    proof {
        assert(r@ =~= applied_bot(b@, p@, remove@));
    }
    r
}

} // verus!
