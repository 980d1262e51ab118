use quark::error::RepoError;
use quark::message::{FieldsMessage, Interactions, Message, PartialMessage};
use quark::repo::MemoryMessages;

fn msg(id: &str, channel: &str, author: &str, content: Option<&str>) -> Message {
    Message {
        id: id.to_string(),
        nonce: None,
        channel: channel.to_string(),
        author: author.to_string(),
        content: content.map(|c| c.to_string()),
        system: None,
        attachments: None,
        edited: None,
        embeds: None,
        mentions: None,
        replies: None,
        reactions: Vec::new(),
        interactions: Interactions { reactions: None, restrict_reactions: false },
        masquerade: None,
    }
}

#[test]
fn insert_then_fetch_round_trips() {
    let mut repo = MemoryMessages::new();
    let mut m = msg("m1", "c1", "u1", Some("hello"));
    m.nonce = Some("n1".to_string());
    m.mentions = Some(vec!["u2".to_string(), "u3".to_string()]);
    assert!(repo.insert_message(&m).is_ok());
    let got = repo.fetch_message("m1").unwrap();
    assert_eq!(got.id, "m1");
    assert_eq!(got.channel, "c1");
    assert_eq!(got.author, "u1");
    assert_eq!(got.content, Some("hello".to_string()));
    assert_eq!(got.nonce, Some("n1".to_string()));
    assert_eq!(got.mentions, Some(vec!["u2".to_string(), "u3".to_string()]));
    assert!(got.attachments.is_none());
    assert!(got.interactions.is_default());
}

#[test]
fn duplicate_insert_fails_with_conflict() {
    let mut repo = MemoryMessages::new();
    assert!(repo.insert_message(&msg("m1", "c1", "u1", None)).is_ok());
    let again = repo.insert_message(&msg("m1", "c9", "u9", None));
    assert_eq!(again.unwrap_err(), RepoError::Conflict);
    // the stored record is untouched
    assert_eq!(repo.fetch_message("m1").unwrap().channel, "c1");
}

#[test]
fn missing_ids_fail_with_not_found() {
    let mut repo = MemoryMessages::new();
    assert_eq!(repo.fetch_message("nope").unwrap_err(), RepoError::NotFound);
    assert_eq!(
        repo.update_message("nope", &PartialMessage::default(), &Vec::new()).unwrap_err(),
        RepoError::NotFound
    );
    assert_eq!(repo.delete_message("nope").unwrap_err(), RepoError::NotFound);
}

#[test]
fn update_content_then_fetch() {
    let mut repo = MemoryMessages::new();
    repo.insert_message(&msg("m1", "c1", "u1", Some("hi"))).unwrap();
    let patch = PartialMessage {
        content: Some("edited".to_string()),
        ..PartialMessage::default()
    };
    repo.update_message("m1", &patch, &Vec::new()).unwrap();
    let got = repo.fetch_message("m1").unwrap();
    assert_eq!(got.content, Some("edited".to_string()));
    assert_eq!(got.channel, "c1");
}

#[test]
fn update_with_removal_then_fetch() {
    let mut repo = MemoryMessages::new();
    repo.insert_message(&msg("m1", "c1", "u1", Some("hi"))).unwrap();
    repo.update_message("m1", &PartialMessage::default(), &vec![FieldsMessage::Content]).unwrap();
    let got = repo.fetch_message("m1").unwrap();
    assert!(got.content.is_none());
    assert_eq!(got.author, "u1");
}

#[test]
fn update_twice_matches_update_once() {
    let mut repo = MemoryMessages::new();
    repo.insert_message(&msg("m1", "c1", "u1", Some("hi"))).unwrap();
    let patch = || PartialMessage {
        content: Some("twice".to_string()),
        ..PartialMessage::default()
    };
    let removals = vec![FieldsMessage::Edited];
    repo.update_message("m1", &patch(), &removals).unwrap();
    let after_once = repo.fetch_message("m1").unwrap();
    repo.update_message("m1", &patch(), &removals).unwrap();
    let after_twice = repo.fetch_message("m1").unwrap();
    assert_eq!(after_twice.content, after_once.content);
    assert_eq!(after_twice.edited, after_once.edited);
    assert_eq!(after_twice.channel, after_once.channel);
}

#[test]
fn delete_removes_the_record() {
    let mut repo = MemoryMessages::new();
    repo.insert_message(&msg("m1", "c1", "u1", None)).unwrap();
    repo.insert_message(&msg("m2", "c1", "u1", None)).unwrap();
    repo.delete_message("m1").unwrap();
    assert_eq!(repo.fetch_message("m1").unwrap_err(), RepoError::NotFound);
    assert!(repo.fetch_message("m2").is_ok());
    assert_eq!(repo.delete_message("m1").unwrap_err(), RepoError::NotFound);
}

#[test]
fn error_descriptions_are_stable() {
    assert_eq!(RepoError::NotFound.describe(), "not found");
    assert_eq!(RepoError::Conflict.describe(), "conflict");
    assert_eq!(RepoError::InvalidRemoval.describe(), "invalid removal");
    assert_eq!(RepoError::Backend.describe(), "backend failure");
}
