//! The laws of the partial-update protocol and of the keyed stores,
//! stated over the mathematical views that the repository contracts
//! speak of and proved once for every input.
use vstd::prelude::*;

use crate::message::{
    applied_message, interactions_default, partial_message_empty, FieldsMessage, MessageV,
    PartialMessageV,
};
use crate::server::{
    applied_role, applied_server, partial_role_empty, partial_server_empty, FieldsRole,
    FieldsServer, PartialRoleV, PartialServerV, RoleV, ServerV,
};
use crate::users::{applied_bot, partial_bot_empty, BotV, FieldsBot, PartialBotV};

verus! {

/// Updating with a patch alone (no removals) replaces exactly the
/// fields present in the patch and leaves every other field, the
/// identity included, unchanged.
pub proof fn lemma_message_patch_only(m: MessageV, p: PartialMessageV)
    ensures
        ({
            let r = applied_message(m, p, Seq::<FieldsMessage>::empty());
            &&& r.id == m.id
            &&& r.nonce == (if p.nonce is Some { p.nonce } else { m.nonce })
            &&& r.channel == (if p.channel is Some { p.channel->0 } else { m.channel })
            &&& r.author == (if p.author is Some { p.author->0 } else { m.author })
            &&& r.content == (if p.content is Some { p.content } else { m.content })
            &&& r.system == (if p.system is Some { p.system } else { m.system })
            &&& r.attachments == (if p.attachments is Some { p.attachments } else { m.attachments })
            &&& r.edited == (if p.edited is Some { p.edited } else { m.edited })
            &&& r.embeds == (if p.embeds is Some { p.embeds } else { m.embeds })
            &&& r.mentions == (if p.mentions is Some { p.mentions } else { m.mentions })
            &&& r.replies == (if p.replies is Some { p.replies } else { m.replies })
            &&& r.reactions == (if p.reactions is Some { p.reactions->0 } else { m.reactions })
            &&& r.interactions == (if p.interactions is Some { p.interactions->0 } else {
                m.interactions
            })
            &&& r.masquerade == (if p.masquerade is Some { p.masquerade } else { m.masquerade })
        }),
{
}

/// Updating with an empty patch and a single removal resets exactly the
/// named field to its unset value and leaves every other field
/// unchanged.
pub proof fn lemma_message_remove_only(m: MessageV, f: FieldsMessage)
    ensures
        ({
            let r = applied_message(m, partial_message_empty(), seq![f]);
            match f {
                FieldsMessage::Content => r =~= MessageV { content: None, ..m },
                FieldsMessage::Attachments => r =~= MessageV { attachments: None, ..m },
                FieldsMessage::Edited => r =~= MessageV { edited: None, ..m },
                FieldsMessage::Embeds => r =~= MessageV { embeds: None, ..m },
                FieldsMessage::Mentions => r =~= MessageV { mentions: None, ..m },
                FieldsMessage::Replies => r =~= MessageV { replies: None, ..m },
                FieldsMessage::Reactions => r =~= MessageV { reactions: Map::empty(), ..m },
                FieldsMessage::Interactions => r =~= MessageV {
                    interactions: interactions_default(),
                    ..m
                },
                FieldsMessage::Masquerade => r =~= MessageV { masquerade: None, ..m },
            }
        }),
{
    assert(seq![f][0] == f);
    assert(seq![f].contains(f));
    assert forall|g: FieldsMessage| g != f implies !seq![f].contains(g) by {
        if seq![f].contains(g) {
            let i = choose|i: int| 0 <= i < seq![f].len() && seq![f][i] == g;
            assert(i == 0);
        }
    }
}

/// Removal wins over a simultaneous patch: whatever the patch holds,
/// a field named in the removal list ends unset.
pub proof fn lemma_message_removal_precedence(
    m: MessageV,
    p: PartialMessageV,
    rm: Seq<FieldsMessage>,
    f: FieldsMessage,
)
    requires
        rm.contains(f),
    ensures
        ({
            let r = applied_message(m, p, rm);
            match f {
                FieldsMessage::Content => r.content is None,
                FieldsMessage::Attachments => r.attachments is None,
                FieldsMessage::Edited => r.edited is None,
                FieldsMessage::Embeds => r.embeds is None,
                FieldsMessage::Mentions => r.mentions is None,
                FieldsMessage::Replies => r.replies is None,
                FieldsMessage::Reactions => r.reactions == Map::<Seq<char>, Set<Seq<char>>>::empty(),
                FieldsMessage::Interactions => r.interactions == interactions_default(),
                FieldsMessage::Masquerade => r.masquerade is None,
            }
        }),
{
}

/// Applying the same (patch, removal-list) pair twice yields the same
/// record as applying it once.
pub proof fn lemma_message_update_idempotent(
    m: MessageV,
    p: PartialMessageV,
    rm: Seq<FieldsMessage>,
)
    ensures
        applied_message(applied_message(m, p, rm), p, rm) == applied_message(m, p, rm),
{
    assert(applied_message(applied_message(m, p, rm), p, rm) =~= applied_message(m, p, rm));
}

/// Idempotence carried to the abstract store: running the same update
/// twice against a stored message leaves the same store as running it
/// once.
pub proof fn lemma_message_update_twice(
    contents: Map<Seq<char>, MessageV>,
    id: Seq<char>,
    p: PartialMessageV,
    rm: Seq<FieldsMessage>,
)
    requires
        contents.contains_key(id),
    ensures
        ({
            let once = contents.insert(id, applied_message(contents[id], p, rm));
            once.insert(id, applied_message(once[id], p, rm)) == once
        }),
{
    let once = contents.insert(id, applied_message(contents[id], p, rm));
    lemma_message_update_idempotent(contents[id], p, rm);
    assert(once.insert(id, applied_message(once[id], p, rm)) =~= once);
}

/// A record just inserted is exactly what a fetch by its id then
/// yields: inserting binds the id and a lookup returns the bound value.
pub proof fn lemma_insert_then_fetch<V>(contents: Map<Seq<char>, V>, id: Seq<char>, v: V)
    ensures
        contents.insert(id, v).contains_key(id),
        contents.insert(id, v)[id] == v,
{
}

/// Patch-only update law for servers: patched fields replaced, every
/// other field (identity, channels, roles included) unchanged.
pub proof fn lemma_server_patch_only(s: ServerV, p: PartialServerV)
    ensures
        ({
            let r = applied_server(s, p, Seq::<FieldsServer>::empty());
            &&& r.id == s.id
            &&& r.channels == s.channels
            &&& r.roles == s.roles
            &&& r.owner == (if p.owner is Some { p.owner->0 } else { s.owner })
            &&& r.name == (if p.name is Some { p.name->0 } else { s.name })
            &&& r.description == (if p.description is Some { p.description } else { s.description })
            &&& r.icon == (if p.icon is Some { p.icon } else { s.icon })
            &&& r.banner == (if p.banner is Some { p.banner } else { s.banner })
        }),
{
}

/// Removal-only update law for servers.
pub proof fn lemma_server_remove_only(s: ServerV, f: FieldsServer)
    ensures
        ({
            let r = applied_server(s, partial_server_empty(), seq![f]);
            match f {
                FieldsServer::Description => r =~= ServerV { description: None, ..s },
                FieldsServer::Icon => r =~= ServerV { icon: None, ..s },
                FieldsServer::Banner => r =~= ServerV { banner: None, ..s },
            }
        }),
{
    assert(seq![f][0] == f);
    assert(seq![f].contains(f));
    assert forall|g: FieldsServer| g != f implies !seq![f].contains(g) by {
        if seq![f].contains(g) {
            let i = choose|i: int| 0 <= i < seq![f].len() && seq![f][i] == g;
            assert(i == 0);
        }
    }
}

/// Removal precedence for servers.
pub proof fn lemma_server_removal_precedence(
    s: ServerV,
    p: PartialServerV,
    rm: Seq<FieldsServer>,
    f: FieldsServer,
)
    requires
        rm.contains(f),
    ensures
        ({
            let r = applied_server(s, p, rm);
            match f {
                FieldsServer::Description => r.description is None,
                FieldsServer::Icon => r.icon is None,
                FieldsServer::Banner => r.banner is None,
            }
        }),
{
}

/// Idempotence of the server update.
pub proof fn lemma_server_update_idempotent(s: ServerV, p: PartialServerV, rm: Seq<FieldsServer>)
    ensures
        applied_server(applied_server(s, p, rm), p, rm) == applied_server(s, p, rm),
{
    assert(applied_server(applied_server(s, p, rm), p, rm) =~= applied_server(s, p, rm));
}

/// Patch-only update law for roles.
pub proof fn lemma_role_patch_only(r0: RoleV, p: PartialRoleV)
    ensures
        ({
            let r = applied_role(r0, p, Seq::<FieldsRole>::empty());
            &&& r.name == (if p.name is Some { p.name->0 } else { r0.name })
            &&& r.permissions == (if p.permissions is Some { p.permissions->0 } else {
                r0.permissions
            })
            &&& r.colour == (if p.colour is Some { p.colour } else { r0.colour })
            &&& r.hoist == (if p.hoist is Some { p.hoist->0 } else { r0.hoist })
            &&& r.rank == (if p.rank is Some { p.rank->0 } else { r0.rank })
        }),
{
}

/// Removal-only update law for roles.
pub proof fn lemma_role_remove_only(r0: RoleV)
    ensures
        (applied_role(r0, partial_role_empty(), seq![FieldsRole::Colour]) =~= RoleV {
            colour: None,
            ..r0
        }),
{
    assert(seq![FieldsRole::Colour][0] == FieldsRole::Colour);
    assert(seq![FieldsRole::Colour].contains(FieldsRole::Colour));
}

/// Removal precedence for roles.
pub proof fn lemma_role_removal_precedence(r0: RoleV, p: PartialRoleV, rm: Seq<FieldsRole>)
    requires
        rm.contains(FieldsRole::Colour),
    ensures
        applied_role(r0, p, rm).colour is None,
{
}

/// Idempotence of the role update.
pub proof fn lemma_role_update_idempotent(r0: RoleV, p: PartialRoleV, rm: Seq<FieldsRole>)
    ensures
        applied_role(applied_role(r0, p, rm), p, rm) == applied_role(r0, p, rm),
{
    assert(applied_role(applied_role(r0, p, rm), p, rm) =~= applied_role(r0, p, rm));
}

/// Patch-only update law for bots.
pub proof fn lemma_bot_patch_only(b0: BotV, b: PartialBotV)
    ensures
        ({
            let r = applied_bot(b0, b, Seq::<FieldsBot>::empty());
            &&& r.id == b0.id
            &&& r.owner == (if b.owner is Some { b.owner->0 } else { b0.owner })
            &&& r.token == (if b.token is Some { b.token->0 } else { b0.token })
            &&& r.public == (if b.public is Some { b.public->0 } else { b0.public })
            &&& r.analytics == (if b.analytics is Some { b.analytics->0 } else { b0.analytics })
            &&& r.discoverable == (if b.discoverable is Some { b.discoverable->0 } else {
                b0.discoverable
            })
            &&& r.interactions_url == (if b.interactions_url is Some { b.interactions_url } else {
                b0.interactions_url
            })
        }),
{
}

/// Removal-only update law for bots: the token resets to the empty
/// string, the interactions URL to unset.
pub proof fn lemma_bot_remove_only(b0: BotV, f: FieldsBot)
    ensures
        ({
            let r = applied_bot(b0, partial_bot_empty(), seq![f]);
            match f {
                FieldsBot::Token => r =~= BotV { token: Seq::empty(), ..b0 },
                FieldsBot::InteractionsUrl => r =~= BotV {
                    interactions_url: None,
                    ..b0
                },
            }
        }),
{
    assert(seq![f][0] == f);
    assert(seq![f].contains(f));
    assert forall|g: FieldsBot| g != f implies !seq![f].contains(g) by {
        if seq![f].contains(g) {
            let i = choose|i: int| 0 <= i < seq![f].len() && seq![f][i] == g;
            assert(i == 0);
        }
    }
}

/// Removal precedence for bots.
pub proof fn lemma_bot_removal_precedence(
    b0: BotV,
    p: PartialBotV,
    rm: Seq<FieldsBot>,
    f: FieldsBot,
)
    requires
        rm.contains(f),
    ensures
        ({
            let r = applied_bot(b0, p, rm);
            match f {
                FieldsBot::Token => r.token == Seq::<char>::empty(),
                FieldsBot::InteractionsUrl => r.interactions_url is None,
            }
        }),
{
}

/// Idempotence of the bot update.
pub proof fn lemma_bot_update_idempotent(
    b0: BotV,
    p: PartialBotV,
    rm: Seq<FieldsBot>,
)
    ensures
        applied_bot(applied_bot(b0, p, rm), p, rm) == applied_bot(b0, p, rm),
{
    assert(applied_bot(applied_bot(b0, p, rm), p, rm) =~= applied_bot(b0, p, rm));
}

} // verus!
