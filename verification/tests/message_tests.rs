use quark::message::{
    FieldsMessage, Interactions, Masquerade, Message, MessageSort, PartialMessage, ReactionEntry,
    SystemMessage, Timestamp, WireField,
};
use quark::message::{apply_message, if_false};
use quark::error::RepoError;

fn msg(id: &str, channel: &str, author: &str) -> Message {
    Message {
        id: id.to_string(),
        nonce: None,
        channel: channel.to_string(),
        author: author.to_string(),
        content: None,
        system: None,
        attachments: None,
        edited: None,
        embeds: None,
        mentions: None,
        replies: None,
        reactions: Vec::new(),
        interactions: Interactions { reactions: None, restrict_reactions: false },
        masquerade: None,
    }
}

#[test]
fn if_false_flips() {
    assert!(if_false(&false));
    assert!(!if_false(&true));
}

#[test]
fn message_sort_default_is_relevance() {
    assert!(matches!(MessageSort::default(), MessageSort::Relevance));
}

#[test]
fn system_message_tags_round_trip_exactly() {
    let m = SystemMessage::Text { content: "hello".to_string() };
    assert_eq!(m.kind_tag(), "text");
    let m = SystemMessage::UserAdded { id: "u1".to_string(), by: "u2".to_string() };
    assert_eq!(m.kind_tag(), "user_added");
    let m = SystemMessage::ChannelOwnershipChanged { from: "a".to_string(), to: "b".to_string() };
    assert_eq!(m.kind_tag(), "channel_ownership_changed");
    let m = SystemMessage::ChannelDescriptionChanged { by: "u".to_string() };
    assert_eq!(m.kind_tag(), "channel_description_changed");
}

#[test]
fn interactions_default_detection() {
    let d = Interactions { reactions: None, restrict_reactions: false };
    assert!(d.is_default());
    let r = Interactions { reactions: None, restrict_reactions: true };
    assert!(!r.is_default());
    let s = Interactions { reactions: Some(vec!["star".to_string()]), restrict_reactions: false };
    assert!(!s.is_default());
}

#[test]
fn default_interactions_not_serialized() {
    let m = msg("m1", "c1", "u1");
    let fields = m.wire_fields();
    assert!(!fields.contains(&WireField::Interactions));
    assert!(fields.contains(&WireField::Id));
    assert!(fields.contains(&WireField::Channel));
    assert!(fields.contains(&WireField::Author));
}

#[test]
fn restricting_interactions_is_serialized() {
    let mut m = msg("m1", "c1", "u1");
    m.interactions = Interactions { reactions: None, restrict_reactions: true };
    let fields = m.wire_fields();
    assert!(fields.contains(&WireField::Interactions));
}

#[test]
fn unset_optional_fields_are_omitted_from_wire() {
    let m = msg("m1", "c1", "u1");
    let fields = m.wire_fields();
    assert_eq!(fields, vec![WireField::Id, WireField::Channel, WireField::Author]);
    let mut m2 = msg("m2", "c1", "u1");
    m2.content = Some("hi".to_string());
    m2.reactions.push(ReactionEntry { key: "star".to_string(), users: vec!["u1".to_string()] });
    let fields2 = m2.wire_fields();
    assert_eq!(
        fields2,
        vec![
            WireField::Id,
            WireField::Channel,
            WireField::Author,
            WireField::Content,
            WireField::Reactions,
        ]
    );
}

#[test]
fn patch_overwrites_only_present_fields() {
    let mut m = msg("m1", "c1", "u1");
    m.content = Some("before".to_string());
    m.mentions = Some(vec!["u9".to_string()]);
    let patch = PartialMessage {
        content: Some("patched".to_string()),
        edited: Some(Timestamp { millis: 1700 }),
        ..PartialMessage::default()
    };
    let r = apply_message(m, patch, &Vec::new());
    assert_eq!(r.id, "m1");
    assert_eq!(r.channel, "c1");
    assert_eq!(r.author, "u1");
    assert_eq!(r.content, Some("patched".to_string()));
    assert_eq!(r.edited, Some(Timestamp { millis: 1700 }));
    assert_eq!(r.mentions, Some(vec!["u9".to_string()]));
    assert!(r.nonce.is_none());
}

#[test]
fn removal_resets_only_named_field() {
    let mut m = msg("m1", "c1", "u1");
    m.content = Some("text".to_string());
    m.masquerade = Some(Masquerade {
        name: Some("ghost".to_string()),
        avatar: None,
        colour: None,
    });
    let r = apply_message(m, PartialMessage::default(), &vec![FieldsMessage::Content]);
    assert!(r.content.is_none());
    assert!(r.masquerade.is_some());
    assert_eq!(r.id, "m1");
}

#[test]
fn removal_overrides_simultaneous_patch() {
    let mut m = msg("m1", "c1", "u1");
    m.content = Some("old".to_string());
    let patch = PartialMessage {
        content: Some("new".to_string()),
        ..PartialMessage::default()
    };
    let r = apply_message(m, patch, &vec![FieldsMessage::Content]);
    assert!(r.content.is_none());
}

#[test]
fn applying_same_update_twice_is_idempotent() {
    let mut m = msg("m1", "c1", "u1");
    m.content = Some("old".to_string());
    m.replies = Some(vec!["m0".to_string()]);
    let patch = || PartialMessage {
        content: Some("new".to_string()),
        nonce: Some("n1".to_string()),
        ..PartialMessage::default()
    };
    let removals = vec![FieldsMessage::Replies, FieldsMessage::Masquerade];
    let once = apply_message(m, patch(), &removals);
    let twice = apply_message(once.clone(), patch(), &removals);
    assert_eq!(twice.id, once.id);
    assert_eq!(twice.content, once.content);
    assert_eq!(twice.nonce, once.nonce);
    assert_eq!(twice.replies, once.replies);
    assert_eq!(twice.mentions, once.mentions);
}

#[test]
fn reactions_removal_empties_map() {
    let mut m = msg("m1", "c1", "u1");
    m.reactions.push(ReactionEntry { key: "star".to_string(), users: vec!["u1".to_string()] });
    let r = apply_message(m, PartialMessage::default(), &vec![FieldsMessage::Reactions]);
    assert!(r.reactions.is_empty());
}

#[test]
fn interactions_removal_restores_default() {
    let mut m = msg("m1", "c1", "u1");
    m.interactions = Interactions {
        reactions: Some(vec!["star".to_string()]),
        restrict_reactions: true,
    };
    let r = apply_message(m, PartialMessage::default(), &vec![FieldsMessage::Interactions]);
    assert!(r.interactions.is_default());
}

#[test]
fn empty_patch_leaves_record_unchanged() {
    let mut m = msg("m1", "c1", "u1");
    m.content = Some("keep".to_string());
    m.nonce = Some("n".to_string());
    let r = apply_message(m, PartialMessage::default(), &Vec::new());
    assert_eq!(r.content, Some("keep".to_string()));
    assert_eq!(r.nonce, Some("n".to_string()));
    assert_eq!(r.channel, "c1");
}

#[test]
fn removal_names_parse_into_the_closed_enumeration() {
    assert_eq!(FieldsMessage::parse("content").unwrap(), FieldsMessage::Content);
    assert_eq!(FieldsMessage::parse("masquerade").unwrap(), FieldsMessage::Masquerade);
    assert_eq!(FieldsMessage::parse("reactions").unwrap(), FieldsMessage::Reactions);
    assert_eq!(FieldsMessage::parse("author").unwrap_err(), RepoError::InvalidRemoval);
    assert_eq!(FieldsMessage::parse("bogus").unwrap_err(), RepoError::InvalidRemoval);
}
