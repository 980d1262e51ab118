//! The message entity family: canonical record shape, sub-shapes, the
//! sparse patch shape, the closed enumeration of removable fields, and
//! the two-phase merge that an update applies.
use vstd::prelude::*;

use crate::patch::{
    patch_opt, patch_opt_exec, patch_req, patch_req_exec, unset_if, unset_if_exec,
};
use crate::server::Member;
use crate::store::{lemma_s2m_congruence, seq_to_map};
use crate::users::User;

verus! {

/// Returns true exactly when the given boolean is false.
///
/// Serialization skips a boolean field when this holds, so that
/// default-valued flags are omitted from the wire shape.
pub fn if_false(t: &bool) -> (r: bool)
    ensures
        r == !*t,
{
    !t
}

/// A point in time, milliseconds since the Unix epoch. Adapters that
/// speak a calendar format convert at the boundary.
#[derive(Clone, Copy, Debug, PartialEq, Eq, Structural)]
pub struct Timestamp {
    pub millis: u64,
}

/// Reference to an uploaded attachment.
#[derive(Debug)]
pub struct File {
    /// Attachment id
    pub id: String,
}

impl DeepView for File {
    type V = Seq<char>;

    open spec fn deep_view(&self) -> Seq<char> {
        self.id@
    }
}

impl Clone for File {
    fn clone(&self) -> (r: Self)
        ensures
            r == *self,
    {
        File { id: self.id.clone() }
    }
}

/// A rich embed attached to a stored message.
#[derive(Debug)]
pub struct Embed {
    pub url: Option<String>,
    pub title: Option<String>,
    pub description: Option<String>,
}

/// Mathematical shape of an [`Embed`].
#[verifier::ext_equal]
pub struct EmbedV {
    pub url: Option<Seq<char>>,
    pub title: Option<Seq<char>>,
    pub description: Option<Seq<char>>,
}

impl DeepView for Embed {
    type V = EmbedV;

    open spec fn deep_view(&self) -> EmbedV {
        EmbedV {
            url: self.url.deep_view(),
            title: self.title.deep_view(),
            description: self.description.deep_view(),
        }
    }
}

impl Clone for Embed {
    fn clone(&self) -> (r: Self)
        ensures
            r == *self,
    {
        Embed {
            url: clone_opt_string(&self.url),
            title: clone_opt_string(&self.title),
            description: clone_opt_string(&self.description),
        }
    }
}

/// Clones an optional string, keeping the exact value.
pub fn clone_opt_string(s: &Option<String>) -> (r: Option<String>)
    ensures
        r == *s,
{
    match s {
        Some(v) => Some(v.clone()),
        None => None,
    }
}

/// Representation of a message reply before it is sent.
#[derive(Clone, Debug)]
pub struct Reply {
    /// Message id replied to
    pub id: String,
    /// Whether this reply should mention the message's author
    pub mention: bool,
}

/// Representation of a text embed before it is sent.
#[derive(Clone, Debug)]
pub struct SendableEmbed {
    pub icon_url: Option<String>,
    pub url: Option<String>,
    pub title: Option<String>,
    pub description: Option<String>,
    pub media: Option<String>,
    pub colour: Option<String>,
}

/// Representation of a system event message: a closed tagged union with
/// one case per event kind, each carrying only the identifiers relevant
/// to that event. The wire discriminant is the stable string tag given
/// by [`SystemMessage::kind_tag`].
#[derive(Debug)]
pub enum SystemMessage {
    Text { content: String },
    UserAdded { id: String, by: String },
    UserRemove { id: String, by: String },
    UserJoined { id: String },
    UserLeft { id: String },
    UserKicked { id: String },
    UserBanned { id: String },
    ChannelRenamed { name: String, by: String },
    ChannelDescriptionChanged { by: String },
    ChannelIconChanged { by: String },
    ChannelOwnershipChanged { from: String, to: String },
}

/// Mathematical shape of a [`SystemMessage`].
#[verifier::ext_equal]
pub enum SystemMessageV {
    Text { content: Seq<char> },
    UserAdded { id: Seq<char>, by: Seq<char> },
    UserRemove { id: Seq<char>, by: Seq<char> },
    UserJoined { id: Seq<char> },
    UserLeft { id: Seq<char> },
    UserKicked { id: Seq<char> },
    UserBanned { id: Seq<char> },
    ChannelRenamed { name: Seq<char>, by: Seq<char> },
    ChannelDescriptionChanged { by: Seq<char> },
    ChannelIconChanged { by: Seq<char> },
    ChannelOwnershipChanged { from: Seq<char>, to: Seq<char> },
}

impl DeepView for SystemMessage {
    type V = SystemMessageV;

    open spec fn deep_view(&self) -> SystemMessageV {
        match self {
            SystemMessage::Text { content } => SystemMessageV::Text { content: content@ },
            SystemMessage::UserAdded { id, by } => SystemMessageV::UserAdded {
                id: id@,
                by: by@,
            },
            SystemMessage::UserRemove { id, by } => SystemMessageV::UserRemove {
                id: id@,
                by: by@,
            },
            SystemMessage::UserJoined { id } => SystemMessageV::UserJoined { id: id@ },
            SystemMessage::UserLeft { id } => SystemMessageV::UserLeft { id: id@ },
            SystemMessage::UserKicked { id } => SystemMessageV::UserKicked { id: id@ },
            SystemMessage::UserBanned { id } => SystemMessageV::UserBanned { id: id@ },
            SystemMessage::ChannelRenamed { name, by } => SystemMessageV::ChannelRenamed {
                name: name@,
                by: by@,
            },
            SystemMessage::ChannelDescriptionChanged { by } => {
                SystemMessageV::ChannelDescriptionChanged { by: by@ }
            },
            SystemMessage::ChannelIconChanged { by } => SystemMessageV::ChannelIconChanged {
                by: by@,
            },
            SystemMessage::ChannelOwnershipChanged { from, to } => {
                SystemMessageV::ChannelOwnershipChanged { from: from@, to: to@ }
            },
        }
    }
}

impl Clone for SystemMessage {
    fn clone(&self) -> (r: Self)
        ensures
            r == *self,
    {
        match self {
            SystemMessage::Text { content } => SystemMessage::Text { content: content.clone() },
            SystemMessage::UserAdded { id, by } => SystemMessage::UserAdded {
                id: id.clone(),
                by: by.clone(),
            },
            SystemMessage::UserRemove { id, by } => SystemMessage::UserRemove {
                id: id.clone(),
                by: by.clone(),
            },
            SystemMessage::UserJoined { id } => SystemMessage::UserJoined { id: id.clone() },
            SystemMessage::UserLeft { id } => SystemMessage::UserLeft { id: id.clone() },
            SystemMessage::UserKicked { id } => SystemMessage::UserKicked { id: id.clone() },
            SystemMessage::UserBanned { id } => SystemMessage::UserBanned { id: id.clone() },
            SystemMessage::ChannelRenamed { name, by } => SystemMessage::ChannelRenamed {
                name: name.clone(),
                by: by.clone(),
            },
            SystemMessage::ChannelDescriptionChanged { by } => {
                SystemMessage::ChannelDescriptionChanged { by: by.clone() }
            },
            SystemMessage::ChannelIconChanged { by } => SystemMessage::ChannelIconChanged {
                by: by.clone(),
            },
            SystemMessage::ChannelOwnershipChanged { from, to } => {
                SystemMessage::ChannelOwnershipChanged { from: from.clone(), to: to.clone() }
            },
        }
    }
}

impl SystemMessage {
    /// The stable string tag of this event kind, as it appears on the
    /// wire. It must round-trip exactly, so it is fixed here rather than
    /// derived from the variant name.
    pub fn kind_tag(&self) -> (r: String)
        ensures
            r@ == system_message_tag(self.deep_view()),
    {
        match self {
            SystemMessage::Text { .. } => String::from_str("text"),
            SystemMessage::UserAdded { .. } => String::from_str("user_added"),
            SystemMessage::UserRemove { .. } => String::from_str("user_remove"),
            SystemMessage::UserJoined { .. } => String::from_str("user_joined"),
            SystemMessage::UserLeft { .. } => String::from_str("user_left"),
            SystemMessage::UserKicked { .. } => String::from_str("user_kicked"),
            SystemMessage::UserBanned { .. } => String::from_str("user_banned"),
            SystemMessage::ChannelRenamed { .. } => String::from_str("channel_renamed"),
            SystemMessage::ChannelDescriptionChanged { .. } => String::from_str(
                "channel_description_changed",
            ),
            SystemMessage::ChannelIconChanged { .. } => String::from_str("channel_icon_changed"),
            SystemMessage::ChannelOwnershipChanged { .. } => String::from_str(
                "channel_ownership_changed",
            ),
        }
    }
}

/// The wire tag of each system event kind.
pub open spec fn system_message_tag(m: SystemMessageV) -> Seq<char> {
    match m {
        SystemMessageV::Text { .. } => "text"@,
        SystemMessageV::UserAdded { .. } => "user_added"@,
        SystemMessageV::UserRemove { .. } => "user_remove"@,
        SystemMessageV::UserJoined { .. } => "user_joined"@,
        SystemMessageV::UserLeft { .. } => "user_left"@,
        SystemMessageV::UserKicked { .. } => "user_kicked"@,
        SystemMessageV::UserBanned { .. } => "user_banned"@,
        SystemMessageV::ChannelRenamed { .. } => "channel_renamed"@,
        SystemMessageV::ChannelDescriptionChanged { .. } => "channel_description_changed"@,
        SystemMessageV::ChannelIconChanged { .. } => "channel_icon_changed"@,
        SystemMessageV::ChannelOwnershipChanged { .. } => "channel_ownership_changed"@,
    }
}

/// Name and / or avatar override information for a single message.
/// Absence of a field means "use the author's real identity" for that
/// attribute.
#[derive(Debug)]
pub struct Masquerade {
    /// Replace the display name shown on this message
    pub name: Option<String>,
    /// Replace the avatar shown on this message (URL to image file)
    pub avatar: Option<String>,
    /// Replace the display role colour shown on this message
    pub colour: Option<String>,
}

/// Mathematical shape of a [`Masquerade`].
#[verifier::ext_equal]
pub struct MasqueradeV {
    pub name: Option<Seq<char>>,
    pub avatar: Option<Seq<char>>,
    pub colour: Option<Seq<char>>,
}

impl DeepView for Masquerade {
    type V = MasqueradeV;

    open spec fn deep_view(&self) -> MasqueradeV {
        MasqueradeV {
            name: self.name.deep_view(),
            avatar: self.avatar.deep_view(),
            colour: self.colour.deep_view(),
        }
    }
}

impl Clone for Masquerade {
    fn clone(&self) -> (r: Self)
        ensures
            r == *self,
    {
        Masquerade {
            name: clone_opt_string(&self.name),
            avatar: clone_opt_string(&self.avatar),
            colour: clone_opt_string(&self.colour),
        }
    }
}

/// Information to guide interactions on a message. Omitted from the
/// wire shape when equal to its default.
#[derive(Debug)]
pub struct Interactions {
    /// Reactions which should always appear and be distinct
    pub reactions: Option<Vec<String>>,
    /// Whether reactions should be restricted to the given list
    pub restrict_reactions: bool,
}

/// Mathematical shape of [`Interactions`]: the always-shown reaction
/// keys form a set, so listing order and repetition carry no meaning.
#[verifier::ext_equal]
pub struct InteractionsV {
    pub reactions: Option<Set<Seq<char>>>,
    pub restrict_reactions: bool,
}

/// The default interaction policy: no pinned reactions, no restriction.
pub open spec fn interactions_default() -> InteractionsV {
    InteractionsV { reactions: None, restrict_reactions: false }
}

impl DeepView for Interactions {
    type V = InteractionsV;

    open spec fn deep_view(&self) -> InteractionsV {
        InteractionsV {
            reactions: match self.reactions {
                Some(v) => Some(v.deep_view().to_set()),
                None => None,
            },
            restrict_reactions: self.restrict_reactions,
        }
    }
}

impl Interactions {
    /// The default policy value.
    pub fn new_default() -> (r: Self)
        ensures
            r.deep_view() == interactions_default(),
    {
        Interactions { reactions: None, restrict_reactions: false }
    }

    /// Whether this policy equals its default, in which case it is
    /// omitted from the wire shape.
    pub fn is_default(&self) -> (r: bool)
        ensures
            r == (self.deep_view() == interactions_default()),
    {
        let r = self.reactions.is_none() && !self.restrict_reactions;
        proof {
            if r {
                assert(self.deep_view() =~= interactions_default());
            }
        }
        r
    }
}

impl Clone for Interactions {
    fn clone(&self) -> (r: Self)
        ensures
            r.deep_view() == self.deep_view(),
    {
        let r = Interactions {
            reactions: match &self.reactions {
                Some(v) => Some(v.clone()),
                None => None,
            },
            restrict_reactions: self.restrict_reactions,
        };
        proof {
            assert(r.deep_view() =~= self.deep_view());
        }
        r
    }
}

impl Default for Interactions {
    fn default() -> (r: Self)
        ensures
            r.deep_view() == interactions_default(),
    {
        Interactions::new_default()
    }
}

/// One reaction key together with the users who reacted with it.
#[derive(Debug)]
pub struct ReactionEntry {
    /// Reaction key (an emoji id)
    pub key: String,
    /// Users who reacted
    pub users: Vec<String>,
}

impl Clone for ReactionEntry {
    fn clone(&self) -> (r: Self)
        ensures
            r.key@ == self.key@,
            r.users.deep_view() == self.users.deep_view(),
    {
        ReactionEntry { key: self.key.clone(), users: self.users.clone() }
    }
}

/// The finite map a reaction list denotes: reaction key to the set of
/// users who reacted. Member order and repetition carry no meaning.
pub open spec fn reactions_view(rs: Seq<ReactionEntry>) -> Map<Seq<char>, Set<Seq<char>>> {
    seq_to_map(
        rs,
        |e: ReactionEntry| e.key@,
        |e: ReactionEntry| e.users.deep_view().to_set(),
    )
}

/// Canonical full record of a message.
///
/// The id is immutable after creation: the patch shape carries no id
/// and no removal resets it. `nonce` (a creation-time deduplication
/// token) and `system` (immutable event history) are optional but
/// deliberately not removable.
#[derive(Debug)]
pub struct Message {
    /// Unique id
    pub id: String,
    /// Unique value generated by the client sending this message
    pub nonce: Option<String>,
    /// Id of the channel this message was sent in
    pub channel: String,
    /// Id of the user that sent this message
    pub author: String,
    /// Message content
    pub content: Option<String>,
    /// System event carried by this message
    pub system: Option<SystemMessage>,
    /// Attached files
    pub attachments: Option<Vec<File>>,
    /// Time at which this message was last edited
    pub edited: Option<Timestamp>,
    /// Attached embeds
    pub embeds: Option<Vec<Embed>>,
    /// Ids of users mentioned in this message
    pub mentions: Option<Vec<String>>,
    /// Ids of messages this message replies to
    pub replies: Option<Vec<String>>,
    /// Reaction key to the users who reacted with it
    pub reactions: Vec<ReactionEntry>,
    /// How this message should be interacted with
    pub interactions: Interactions,
    /// Name and / or avatar overrides for this message
    pub masquerade: Option<Masquerade>,
}

/// Mathematical shape of a [`Message`].
#[verifier::ext_equal]
pub struct MessageV {
    pub id: Seq<char>,
    pub nonce: Option<Seq<char>>,
    pub channel: Seq<char>,
    pub author: Seq<char>,
    pub content: Option<Seq<char>>,
    pub system: Option<SystemMessageV>,
    pub attachments: Option<Seq<Seq<char>>>,
    pub edited: Option<Timestamp>,
    pub embeds: Option<Seq<EmbedV>>,
    pub mentions: Option<Seq<Seq<char>>>,
    pub replies: Option<Seq<Seq<char>>>,
    pub reactions: Map<Seq<char>, Set<Seq<char>>>,
    pub interactions: InteractionsV,
    pub masquerade: Option<MasqueradeV>,
}

impl View for Message {
    type V = MessageV;

    open spec fn view(&self) -> MessageV {
        MessageV {
            id: self.id@,
            nonce: self.nonce.deep_view(),
            channel: self.channel@,
            author: self.author@,
            content: self.content.deep_view(),
            system: self.system.deep_view(),
            attachments: self.attachments.deep_view(),
            edited: self.edited,
            embeds: self.embeds.deep_view(),
            mentions: self.mentions.deep_view(),
            replies: self.replies.deep_view(),
            reactions: reactions_view(self.reactions@),
            interactions: self.interactions.deep_view(),
            masquerade: self.masquerade.deep_view(),
        }
    }
}

impl Clone for Message {
    fn clone(&self) -> (r: Self)
        ensures
            r@ == self@,
    {
        let reactions = self.reactions.clone();
        proof {
            assert forall|i: int| 0 <= i < self.reactions@.len() implies (
                #[trigger] reactions@[i]).key@ == self.reactions@[i].key@ && reactions@[i]
                .users.deep_view() == self.reactions@[i].users.deep_view() by {
                assert(vstd::pervasive::cloned::<ReactionEntry>(
                    self.reactions@[i],
                    reactions@[i],
                ));
            }
            lemma_s2m_congruence(
                reactions@,
                self.reactions@,
                |e: ReactionEntry| e.key@,
                |e: ReactionEntry| e.users.deep_view().to_set(),
            );
        }
        let r = Message {
            id: self.id.clone(),
            nonce: clone_opt_string(&self.nonce),
            channel: self.channel.clone(),
            author: self.author.clone(),
            content: clone_opt_string(&self.content),
            system: match &self.system {
                Some(s) => Some(s.clone()),
                None => None,
            },
            attachments: match &self.attachments {
                Some(v) => Some(v.clone()),
                None => None,
            },
            edited: self.edited,
            embeds: match &self.embeds {
                Some(v) => Some(v.clone()),
                None => None,
            },
            mentions: match &self.mentions {
                Some(v) => Some(v.clone()),
                None => None,
            },
            replies: match &self.replies {
                Some(v) => Some(v.clone()),
                None => None,
            },
            reactions,
            interactions: self.interactions.clone(),
            masquerade: match &self.masquerade {
                Some(m) => Some(m.clone()),
                None => None,
            },
        };
        proof {
            assert(r@ =~= self@);
        }
        r
    }
}

/// Sparse patch shape for a message: every field is optional-present.
/// A field left unset must never be read as "clear this field"; clearing
/// goes through the removal list. The identity field has no counterpart
/// here, since the id is immutable after creation.
#[derive(Debug)]
pub struct PartialMessage {
    pub nonce: Option<String>,
    pub channel: Option<String>,
    pub author: Option<String>,
    pub content: Option<String>,
    pub system: Option<SystemMessage>,
    pub attachments: Option<Vec<File>>,
    pub edited: Option<Timestamp>,
    pub embeds: Option<Vec<Embed>>,
    pub mentions: Option<Vec<String>>,
    pub replies: Option<Vec<String>>,
    pub reactions: Option<Vec<ReactionEntry>>,
    pub interactions: Option<Interactions>,
    pub masquerade: Option<Masquerade>,
}

/// Mathematical shape of a [`PartialMessage`].
#[verifier::ext_equal]
pub struct PartialMessageV {
    pub nonce: Option<Seq<char>>,
    pub channel: Option<Seq<char>>,
    pub author: Option<Seq<char>>,
    pub content: Option<Seq<char>>,
    pub system: Option<SystemMessageV>,
    pub attachments: Option<Seq<Seq<char>>>,
    pub edited: Option<Timestamp>,
    pub embeds: Option<Seq<EmbedV>>,
    pub mentions: Option<Seq<Seq<char>>>,
    pub replies: Option<Seq<Seq<char>>>,
    pub reactions: Option<Map<Seq<char>, Set<Seq<char>>>>,
    pub interactions: Option<InteractionsV>,
    pub masquerade: Option<MasqueradeV>,
}

/// The patch that touches nothing.
pub open spec fn partial_message_empty() -> PartialMessageV {
    PartialMessageV {
        nonce: None,
        channel: None,
        author: None,
        content: None,
        system: None,
        attachments: None,
        edited: None,
        embeds: None,
        mentions: None,
        replies: None,
        reactions: None,
        interactions: None,
        masquerade: None,
    }
}

impl View for PartialMessage {
    type V = PartialMessageV;

    open spec fn view(&self) -> PartialMessageV {
        PartialMessageV {
            nonce: self.nonce.deep_view(),
            channel: self.channel.deep_view(),
            author: self.author.deep_view(),
            content: self.content.deep_view(),
            system: self.system.deep_view(),
            attachments: self.attachments.deep_view(),
            edited: self.edited,
            embeds: self.embeds.deep_view(),
            mentions: self.mentions.deep_view(),
            replies: self.replies.deep_view(),
            reactions: match self.reactions {
                Some(rs) => Some(reactions_view(rs@)),
                None => None,
            },
            interactions: match self.interactions {
                Some(i) => Some(i.deep_view()),
                None => None,
            },
            masquerade: self.masquerade.deep_view(),
        }
    }
}

impl Clone for PartialMessage {
    fn clone(&self) -> (r: Self)
        ensures
            r@ == self@,
    {
        let reactions = match &self.reactions {
            Some(rs) => {
                let c = rs.clone();
                proof {
                    assert forall|i: int| 0 <= i < rs@.len() implies (#[trigger] c@[i]).key@
                        == rs@[i].key@ && c@[i].users.deep_view() == rs@[i].users.deep_view() by {
                        assert(vstd::pervasive::cloned::<ReactionEntry>(rs@[i], c@[i]));
                    }
                    lemma_s2m_congruence(
                        c@,
                        rs@,
                        |e: ReactionEntry| e.key@,
                        |e: ReactionEntry| e.users.deep_view().to_set(),
                    );
                }
                Some(c)
            },
            None => None,
        };
        let r = PartialMessage {
            nonce: clone_opt_string(&self.nonce),
            channel: clone_opt_string(&self.channel),
            author: clone_opt_string(&self.author),
            content: clone_opt_string(&self.content),
            system: match &self.system {
                Some(s) => Some(s.clone()),
                None => None,
            },
            attachments: match &self.attachments {
                Some(v) => Some(v.clone()),
                None => None,
            },
            edited: self.edited,
            embeds: match &self.embeds {
                Some(v) => Some(v.clone()),
                None => None,
            },
            mentions: match &self.mentions {
                Some(v) => Some(v.clone()),
                None => None,
            },
            replies: match &self.replies {
                Some(v) => Some(v.clone()),
                None => None,
            },
            reactions,
            interactions: match &self.interactions {
                Some(i) => Some(i.clone()),
                None => None,
            },
            masquerade: match &self.masquerade {
                Some(m) => Some(m.clone()),
                None => None,
            },
        };
        proof {
            assert(r@ =~= self@);
        }
        r
    }
}

impl Default for PartialMessage {
    /// The empty patch.
    fn default() -> (r: Self)
        ensures
            r@ == partial_message_empty(),
    {
        let r = PartialMessage {
            nonce: None,
            channel: None,
            author: None,
            content: None,
            system: None,
            attachments: None,
            edited: None,
            embeds: None,
            mentions: None,
            replies: None,
            reactions: None,
            interactions: None,
            masquerade: None,
        };
        proof {
            assert(r@ =~= partial_message_empty());
        }
        r
    }
}

/// Fields of a message that may be reset to their unset value through
/// the removal list. Identity fields (`id`, `channel`, `author`) are not
/// here because a stored message always has them; `nonce` and `system`
/// are optional but not removable (creation-time data that an update
/// must not erase).
#[derive(Clone, Copy, Debug, PartialEq, Eq, Structural)]
pub enum FieldsMessage {
    Content,
    Attachments,
    Edited,
    Embeds,
    Mentions,
    Replies,
    Reactions,
    Interactions,
    Masquerade,
}

/// The wire name of each removable message field.
pub open spec fn fields_message_name(f: FieldsMessage) -> Seq<char> {
    match f {
        FieldsMessage::Content => "content"@,
        FieldsMessage::Attachments => "attachments"@,
        FieldsMessage::Edited => "edited"@,
        FieldsMessage::Embeds => "embeds"@,
        FieldsMessage::Mentions => "mentions"@,
        FieldsMessage::Replies => "replies"@,
        FieldsMessage::Reactions => "reactions"@,
        FieldsMessage::Interactions => "interactions"@,
        FieldsMessage::Masquerade => "masquerade"@,
    }
}

impl FieldsMessage {
    /// Validates a removal-list entry received as text at the boundary
    /// of this layer: a name outside the closed enumeration is rejected
    /// with `InvalidRemoval` rather than silently ignored.
    pub fn parse(name: &str) -> (r: Result<FieldsMessage, crate::error::RepoError>)
        ensures
            match r {
                Ok(f) => name@ == fields_message_name(f),
                Err(e) => e == crate::error::RepoError::InvalidRemoval && forall|f: FieldsMessage|
                    name@ != fields_message_name(f),
            },
    {
        if crate::patch::str_eq_str(name, "content") {
            Ok(FieldsMessage::Content)
        } else if crate::patch::str_eq_str(name, "attachments") {
            Ok(FieldsMessage::Attachments)
        } else if crate::patch::str_eq_str(name, "edited") {
            Ok(FieldsMessage::Edited)
        } else if crate::patch::str_eq_str(name, "embeds") {
            Ok(FieldsMessage::Embeds)
        } else if crate::patch::str_eq_str(name, "mentions") {
            Ok(FieldsMessage::Mentions)
        } else if crate::patch::str_eq_str(name, "replies") {
            Ok(FieldsMessage::Replies)
        } else if crate::patch::str_eq_str(name, "reactions") {
            Ok(FieldsMessage::Reactions)
        } else if crate::patch::str_eq_str(name, "interactions") {
            Ok(FieldsMessage::Interactions)
        } else if crate::patch::str_eq_str(name, "masquerade") {
            Ok(FieldsMessage::Masquerade)
        } else {
            Err(crate::error::RepoError::InvalidRemoval)
        }
    }
}

/// Whether a removal list names a given field.
pub fn fields_message_contain(remove: &Vec<FieldsMessage>, f: FieldsMessage) -> (b: bool)
    ensures
        b == remove@.contains(f),
{
    let mut i: usize = 0;
    while i < remove.len()
        invariant
            0 <= i <= remove@.len(),
            forall|j: int| 0 <= j < i ==> remove@[j] != f,
        decreases remove@.len() - i,
    {
        if remove[i] == f {
            return true;
        }
        i += 1;
    }
    false
}

/// Phase one of the merge: every field present in the patch overwrites
/// the stored field; fields absent from the patch are left untouched.
pub open spec fn patched_message(m: MessageV, p: PartialMessageV) -> MessageV {
    MessageV {
        id: m.id,
        nonce: patch_opt(m.nonce, p.nonce),
        channel: patch_req(m.channel, p.channel),
        author: patch_req(m.author, p.author),
        content: patch_opt(m.content, p.content),
        system: patch_opt(m.system, p.system),
        attachments: patch_opt(m.attachments, p.attachments),
        edited: patch_opt(m.edited, p.edited),
        embeds: patch_opt(m.embeds, p.embeds),
        mentions: patch_opt(m.mentions, p.mentions),
        replies: patch_opt(m.replies, p.replies),
        reactions: patch_req(m.reactions, p.reactions),
        interactions: patch_req(m.interactions, p.interactions),
        masquerade: patch_opt(m.masquerade, p.masquerade),
    }
}

/// Phase two of the merge: every field named in the removal list is
/// reset to its unset value (None, the empty map, or the default
/// policy), regardless of what phase one did to it.
pub open spec fn removed_message(m: MessageV, rm: Seq<FieldsMessage>) -> MessageV {
    MessageV {
        content: unset_if(rm.contains(FieldsMessage::Content), m.content),
        attachments: unset_if(rm.contains(FieldsMessage::Attachments), m.attachments),
        edited: unset_if(rm.contains(FieldsMessage::Edited), m.edited),
        embeds: unset_if(rm.contains(FieldsMessage::Embeds), m.embeds),
        mentions: unset_if(rm.contains(FieldsMessage::Mentions), m.mentions),
        replies: unset_if(rm.contains(FieldsMessage::Replies), m.replies),
        reactions: if rm.contains(FieldsMessage::Reactions) {
            Map::empty()
        } else {
            m.reactions
        },
        interactions: if rm.contains(FieldsMessage::Interactions) {
            interactions_default()
        } else {
            m.interactions
        },
        masquerade: unset_if(rm.contains(FieldsMessage::Masquerade), m.masquerade),
        ..m
    }
}

/// The record that results from the two-phase merge of an update onto a
/// stored message: first every field present in the patch overwrites the
/// stored field, then every field named in the removal list is reset to
/// its unset value. Removal is applied after the patch, so it wins over
/// a simultaneous patch of the same field.
pub open spec fn applied_message(
    m: MessageV,
    p: PartialMessageV,
    rm: Seq<FieldsMessage>,
) -> MessageV {
    removed_message(patched_message(m, p), rm)
}

/// Applies the two-phase merge of §[`applied_message`] to a stored
/// message, returning the merged record.
#[verifier::rlimit(100)]
pub fn apply_message(m: Message, p: PartialMessage, remove: &Vec<FieldsMessage>) -> (r: Message)
    ensures
        r@ == applied_message(m@, p@, remove@),
{
    let rm_content = fields_message_contain(remove, FieldsMessage::Content);
    let rm_attachments = fields_message_contain(remove, FieldsMessage::Attachments);
    let rm_edited = fields_message_contain(remove, FieldsMessage::Edited);
    let rm_embeds = fields_message_contain(remove, FieldsMessage::Embeds);
    let rm_mentions = fields_message_contain(remove, FieldsMessage::Mentions);
    let rm_replies = fields_message_contain(remove, FieldsMessage::Replies);
    let rm_reactions = fields_message_contain(remove, FieldsMessage::Reactions);
    let rm_interactions = fields_message_contain(remove, FieldsMessage::Interactions);
    let rm_masquerade = fields_message_contain(remove, FieldsMessage::Masquerade);
    let Message {
        id,
        nonce,
        channel,
        author,
        content,
        system,
        attachments,
        edited,
        embeds,
        mentions,
        replies,
        reactions,
        interactions,
        masquerade,
    } = m;
    let reactions = if rm_reactions {
        Vec::new()
    } else {
        patch_req_exec(reactions, p.reactions)
    };
    let interactions = if rm_interactions {
        Interactions::new_default()
    } else {
        patch_req_exec(interactions, p.interactions)
    };
    let r = Message {
        id,
        nonce: patch_opt_exec(nonce, p.nonce),
        channel: patch_req_exec(channel, p.channel),
        author: patch_req_exec(author, p.author),
        content: unset_if_exec(rm_content, patch_opt_exec(content, p.content)),
        system: patch_opt_exec(system, p.system),
        attachments: unset_if_exec(rm_attachments, patch_opt_exec(attachments, p.attachments)),
        edited: unset_if_exec(rm_edited, patch_opt_exec(edited, p.edited)),
        embeds: unset_if_exec(rm_embeds, patch_opt_exec(embeds, p.embeds)),
        mentions: unset_if_exec(rm_mentions, patch_opt_exec(mentions, p.mentions)),
        replies: unset_if_exec(rm_replies, patch_opt_exec(replies, p.replies)),
        reactions,
        interactions,
        masquerade: unset_if_exec(rm_masquerade, patch_opt_exec(masquerade, p.masquerade)),
    };
    proof {
        let goal = applied_message(m@, p@, remove@);
        assert(r@.nonce == goal.nonce);
        assert(r@.channel == goal.channel);
        assert(r@.author == goal.author);
        assert(r@.content == goal.content);
        assert(r@.system == goal.system);
        assert(r@.attachments == goal.attachments);
        assert(r@.edited == goal.edited);
        assert(r@.embeds == goal.embeds);
        assert(r@.mentions == goal.mentions);
        assert(r@.replies == goal.replies);
        assert(r@.reactions == goal.reactions);
        assert(r@.interactions == goal.interactions);
        assert(r@.masquerade == goal.masquerade);
        assert(r@ =~= goal);
    }
    r
}

/// Sort directive for retrieving messages.
#[derive(Clone, Copy, Debug, PartialEq, Eq, Structural)]
pub enum MessageSort {
    /// Sort by the most relevant messages
    Relevance,
    /// Sort by the newest messages first
    Latest,
    /// Sort by the oldest messages first
    Oldest,
}

impl Default for MessageSort {
    /// The default sort is by relevance.
    fn default() -> (r: MessageSort)
        ensures
            r == MessageSort::Relevance,
    {
        MessageSort::Relevance
    }
}

/// Response shape used when multiple messages are fetched: messages
/// alone, or messages bundled with the referenced users and optionally
/// member records.
#[derive(Debug)]
pub enum BulkMessageResponse {
    JustMessages(Vec<Message>),
    MessagesAndUsers { messages: Vec<Message>, users: Vec<User>, members: Option<Vec<Member>> },
}

/// Appended information for a message: additional embeds to include.
#[derive(Clone, Debug)]
pub struct AppendMessage {
    pub embeds: Option<Vec<Embed>>,
}

/// Names of the fields a serialized message may carry.
#[derive(Clone, Copy, Debug, PartialEq, Eq, Structural)]
pub enum WireField {
    Id,
    Nonce,
    Channel,
    Author,
    Content,
    System,
    Attachments,
    Edited,
    Embeds,
    Mentions,
    Replies,
    Reactions,
    Interactions,
    Masquerade,
}

/// The fields present when a message is serialized: identity fields are
/// always present; optional fields are present exactly when set; the
/// reaction map is present exactly when non-empty; the interaction
/// policy is present exactly when it differs from its default.
pub open spec fn wire_fields_spec(m: MessageV) -> Seq<WireField> {
    let s = seq![WireField::Id];
    let s = if m.nonce is Some {
        s.push(WireField::Nonce)
    } else {
        s
    };
    let s = s.push(WireField::Channel);
    let s = s.push(WireField::Author);
    let s = if m.content is Some {
        s.push(WireField::Content)
    } else {
        s
    };
    let s = if m.system is Some {
        s.push(WireField::System)
    } else {
        s
    };
    let s = if m.attachments is Some {
        s.push(WireField::Attachments)
    } else {
        s
    };
    let s = if m.edited is Some {
        s.push(WireField::Edited)
    } else {
        s
    };
    let s = if m.embeds is Some {
        s.push(WireField::Embeds)
    } else {
        s
    };
    let s = if m.mentions is Some {
        s.push(WireField::Mentions)
    } else {
        s
    };
    let s = if m.replies is Some {
        s.push(WireField::Replies)
    } else {
        s
    };
    let s = if m.reactions != Map::<Seq<char>, Set<Seq<char>>>::empty() {
        s.push(WireField::Reactions)
    } else {
        s
    };
    let s = if m.interactions != interactions_default() {
        s.push(WireField::Interactions)
    } else {
        s
    };
    let s = if m.masquerade is Some {
        s.push(WireField::Masquerade)
    } else {
        s
    };
    s
}

impl Message {
    /// The list of fields this message serializes with, in declaration
    /// order. Fields equal to their unset value are omitted from the
    /// wire shape.
    pub fn wire_fields(&self) -> (v: Vec<WireField>)
        ensures
            v@ == wire_fields_spec(self@),
    {
        let mut v: Vec<WireField> = Vec::new();
        v.push(WireField::Id);
        if self.nonce.is_some() {
            v.push(WireField::Nonce);
        }
        v.push(WireField::Channel);
        v.push(WireField::Author);
        if self.content.is_some() {
            v.push(WireField::Content);
        }
        if self.system.is_some() {
            v.push(WireField::System);
        }
        if self.attachments.is_some() {
            v.push(WireField::Attachments);
        }
        if self.edited.is_some() {
            v.push(WireField::Edited);
        }
        if self.embeds.is_some() {
            v.push(WireField::Embeds);
        }
        if self.mentions.is_some() {
            v.push(WireField::Mentions);
        }
        if self.replies.is_some() {
            v.push(WireField::Replies);
        }
        if self.reactions.len() > 0 {
            proof {
                crate::store::lemma_s2m_contains(
                    self.reactions@,
                    |e: ReactionEntry| e.key@,
                    |e: ReactionEntry| e.users.deep_view().to_set(),
                    self.reactions@[0].key@,
                );
                assert(self@.reactions.contains_key(self.reactions@[0].key@));
                assert(self@.reactions != Map::<Seq<char>, Set<Seq<char>>>::empty());
            }
            v.push(WireField::Reactions);
        } else {
            proof {
                assert(self.reactions@.len() == 0);
                assert(self@.reactions =~= Map::<Seq<char>, Set<Seq<char>>>::empty());
            }
        }
        if !self.interactions.is_default() {
            v.push(WireField::Interactions);
        }
        if self.masquerade.is_some() {
            v.push(WireField::Masquerade);
        }
        proof {
            assert(v@ =~= wire_fields_spec(self@));
        }
        v
    }
}

} // verus!
