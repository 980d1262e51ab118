use quark::error::RepoError;
use quark::repo::{AbstractBot, MemoryBots};
use quark::users::{Bot, FieldsBot, PartialBot};

fn bot(id: &str, owner: &str, token: &str) -> Bot {
    Bot {
        id: id.to_string(),
        owner: owner.to_string(),
        token: token.to_string(),
        public: false,
        analytics: false,
        discoverable: false,
        interactions_url: None,
    }
}

fn empty_bot_patch() -> PartialBot {
    PartialBot {
        owner: None,
        token: None,
        public: None,
        analytics: None,
        discoverable: None,
        interactions_url: None,
    }
}

#[test]
fn bot_insert_fetch_and_conflict() {
    let mut repo = MemoryBots::new();
    repo.insert_bot(&bot("b1", "u1", "tok-a")).unwrap();
    assert_eq!(repo.insert_bot(&bot("b1", "u2", "zz")).unwrap_err(), RepoError::Conflict);
    let got = repo.fetch_bot("b1").unwrap();
    assert_eq!(got.owner, "u1");
    assert_eq!(repo.fetch_bot("b9").unwrap_err(), RepoError::NotFound);
}

#[test]
fn bot_fetch_by_token() {
    let mut repo = MemoryBots::new();
    repo.insert_bot(&bot("b1", "u1", "tok-one")).unwrap();
    repo.insert_bot(&bot("b2", "u1", "tok-two")).unwrap();
    let got = repo.fetch_bot_by_token("tok-two").unwrap();
    assert_eq!(got.id, "b2");
    assert_eq!(repo.fetch_bot_by_token("tok-nine").unwrap_err(), RepoError::NotFound);
}

#[test]
fn bot_update_patches_and_removes() {
    let mut repo = MemoryBots::new();
    let mut b = bot("b1", "u1", "tok");
    b.interactions_url = Some("https://example.test/hook".to_string());
    repo.insert_bot(&b).unwrap();

    let patch = PartialBot {
        public: Some(true),
        ..empty_bot_patch()
    };
    repo.update_bot("b1", &patch, vec![FieldsBot::Token, FieldsBot::InteractionsUrl]).unwrap();
    let got = repo.fetch_bot("b1").unwrap();
    assert!(got.public);
    assert_eq!(got.token, "");
    assert!(got.interactions_url.is_none());
    assert_eq!(got.owner, "u1");

    assert_eq!(
        repo.update_bot("b9", &empty_bot_patch(), Vec::new()).unwrap_err(),
        RepoError::NotFound
    );
}

#[test]
fn bot_delete() {
    let mut repo = MemoryBots::new();
    repo.insert_bot(&bot("b1", "u1", "tok")).unwrap();
    repo.delete_bot("b1").unwrap();
    assert_eq!(repo.fetch_bot("b1").unwrap_err(), RepoError::NotFound);
    assert_eq!(repo.delete_bot("b1").unwrap_err(), RepoError::NotFound);
}

#[test]
fn bots_by_user_and_count() {
    let mut repo = MemoryBots::new();
    repo.insert_bot(&bot("b1", "u1", "t1")).unwrap();
    repo.insert_bot(&bot("b2", "u2", "t2")).unwrap();
    repo.insert_bot(&bot("b3", "u1", "t3")).unwrap();
    let mine = repo.fetch_bots_by_user("u1").unwrap();
    let mut ids: Vec<String> = mine.iter().map(|b| b.id.clone()).collect();
    ids.sort();
    assert_eq!(ids, vec!["b1".to_string(), "b3".to_string()]);
    assert_eq!(repo.get_number_of_bots_by_user("u1").unwrap(), 2);
    assert_eq!(repo.get_number_of_bots_by_user("u2").unwrap(), 1);
    assert_eq!(repo.get_number_of_bots_by_user("u9").unwrap(), 0);
}

#[test]
fn bot_removal_names_parse() {
    assert_eq!(FieldsBot::parse("token").unwrap(), FieldsBot::Token);
    assert_eq!(FieldsBot::parse("interactions_url").unwrap(), FieldsBot::InteractionsUrl);
    assert_eq!(FieldsBot::parse("owner").unwrap_err(), RepoError::InvalidRemoval);
}
