use quark::error::RepoError;
use quark::repo::{AbstractServer, MemoryServers};
use quark::server::{
    Channel, FieldsRole, FieldsServer, Member, PartialRole, PartialServer, Role, RoleEntry,
    RolePermission, Server,
};

fn server(id: &str, owner: &str, name: &str) -> Server {
    Server {
        id: id.to_string(),
        owner: owner.to_string(),
        name: name.to_string(),
        description: None,
        channels: Vec::new(),
        roles: Vec::new(),
        icon: None,
        banner: None,
    }
}

fn role(name: &str, rank: i64) -> Role {
    Role {
        name: name.to_string(),
        permissions: 0,
        colour: None,
        hoist: false,
        rank,
    }
}

fn empty_server_patch() -> PartialServer {
    PartialServer { owner: None, name: None, description: None, icon: None, banner: None }
}

#[test]
fn server_insert_fetch_update_delete() {
    let mut repo = MemoryServers::new();
    let mut s = server("s1", "u1", "home");
    s.description = Some("a place".to_string());
    repo.insert_server(&s).unwrap();
    assert_eq!(repo.insert_server(&s).unwrap_err(), RepoError::Conflict);

    let got = repo.fetch_server("s1").unwrap();
    assert_eq!(got.name, "home");
    assert_eq!(got.description, Some("a place".to_string()));

    let patch = PartialServer {
        name: Some("renamed".to_string()),
        ..empty_server_patch()
    };
    repo.update_server("s1", &patch, vec![FieldsServer::Description]).unwrap();
    let got = repo.fetch_server("s1").unwrap();
    assert_eq!(got.name, "renamed");
    assert!(got.description.is_none());
    assert_eq!(got.owner, "u1");

    repo.delete_server(&got).unwrap();
    assert_eq!(repo.fetch_server("s1").unwrap_err(), RepoError::NotFound);
    assert_eq!(repo.update_server("s1", &patch, Vec::new()).unwrap_err(), RepoError::NotFound);
}

#[test]
fn fetch_servers_returns_existing_subset() {
    let mut repo = MemoryServers::new();
    repo.insert_server(&server("s1", "u1", "one")).unwrap();
    repo.insert_server(&server("s3", "u1", "three")).unwrap();
    let ids = vec!["s1".to_string(), "s2".to_string(), "s3".to_string()];
    let got = repo.fetch_servers(&ids).unwrap();
    let mut names: Vec<String> = got.iter().map(|s| s.id.clone()).collect();
    names.sort();
    assert_eq!(names, vec!["s1".to_string(), "s3".to_string()]);
}

#[test]
fn role_insert_update_and_conflict() {
    let mut repo = MemoryServers::new();
    repo.insert_server(&server("s1", "u1", "home")).unwrap();
    repo.insert_role("s1", "r1", &role("mods", 1)).unwrap();
    assert_eq!(
        repo.insert_role("s1", "r1", &role("other", 2)).unwrap_err(),
        RepoError::Conflict
    );
    assert_eq!(
        repo.insert_role("s9", "r1", &role("mods", 1)).unwrap_err(),
        RepoError::NotFound
    );

    let mut colour_patch = PartialRole {
        name: None,
        permissions: Some(7),
        colour: Some("red".to_string()),
        hoist: None,
        rank: None,
    };
    repo.update_role("s1", "r1", &colour_patch, Vec::new()).unwrap();
    let got = repo.fetch_server("s1").unwrap();
    assert_eq!(got.roles.len(), 1);
    assert_eq!(got.roles[0].id, "r1");
    assert_eq!(got.roles[0].role.permissions, 7);
    assert_eq!(got.roles[0].role.colour, Some("red".to_string()));

    // removal wins over a simultaneous patch of the same field
    colour_patch.colour = Some("blue".to_string());
    repo.update_role("s1", "r1", &colour_patch, vec![FieldsRole::Colour]).unwrap();
    let got = repo.fetch_server("s1").unwrap();
    assert!(got.roles[0].role.colour.is_none());

    assert_eq!(
        repo.update_role("s1", "r9", &colour_patch, Vec::new()).unwrap_err(),
        RepoError::NotFound
    );
}

#[test]
fn deleting_a_role_cascades_to_members_and_channels() {
    let mut repo = MemoryServers::new();
    let mut s = server("s1", "u1", "home");
    s.roles.push(RoleEntry { id: "r1".to_string(), role: role("mods", 1) });
    s.roles.push(RoleEntry { id: "r2".to_string(), role: role("vips", 2) });
    repo.insert_server(&s).unwrap();
    repo.add_member(&Member {
        server: "s1".to_string(),
        user: "u2".to_string(),
        nickname: None,
        roles: vec!["r1".to_string(), "r2".to_string()],
    });
    repo.add_member(&Member {
        server: "other".to_string(),
        user: "u3".to_string(),
        nickname: None,
        roles: vec!["r1".to_string()],
    });
    repo.add_channel(&Channel {
        id: "c1".to_string(),
        server: "s1".to_string(),
        name: "general".to_string(),
        role_permissions: vec![
            RolePermission { role: "r1".to_string(), allow: 1, deny: 2 },
            RolePermission { role: "r2".to_string(), allow: 4, deny: 0 },
        ],
    });

    repo.delete_role("s1", "r1").unwrap();

    // the parent server no longer shows the role
    let got = repo.fetch_server("s1").unwrap();
    assert_eq!(got.roles.len(), 1);
    assert_eq!(got.roles[0].id, "r2");

    // members of the server no longer reference it; other servers untouched
    let members = repo.members_vec();
    assert_eq!(members.len(), 2);
    assert_eq!(members[0].user, "u2");
    assert_eq!(members[0].roles, vec!["r2".to_string()]);
    assert_eq!(members[1].user, "u3");
    assert_eq!(members[1].roles, vec!["r1".to_string()]);

    // channel overrides of the role are gone
    let channels = repo.channels_vec();
    assert_eq!(channels.len(), 1);
    assert_eq!(channels[0].role_permissions.len(), 1);
    assert_eq!(channels[0].role_permissions[0].role, "r2");

    assert_eq!(repo.delete_role("s1", "r1").unwrap_err(), RepoError::NotFound);
}

#[test]
fn deleting_a_server_cascades_to_members_and_channels() {
    let mut repo = MemoryServers::new();
    repo.insert_server(&server("s1", "u1", "home")).unwrap();
    repo.insert_server(&server("s2", "u1", "away")).unwrap();
    repo.add_member(&Member {
        server: "s1".to_string(),
        user: "u2".to_string(),
        nickname: None,
        roles: Vec::new(),
    });
    repo.add_member(&Member {
        server: "s2".to_string(),
        user: "u2".to_string(),
        nickname: None,
        roles: Vec::new(),
    });
    repo.add_channel(&Channel {
        id: "c1".to_string(),
        server: "s1".to_string(),
        name: "general".to_string(),
        role_permissions: Vec::new(),
    });

    let s1 = repo.fetch_server("s1").unwrap();
    repo.delete_server(&s1).unwrap();

    assert_eq!(repo.fetch_server("s1").unwrap_err(), RepoError::NotFound);
    assert!(repo.fetch_server("s2").is_ok());
    let members = repo.members_vec();
    assert_eq!(members.len(), 1);
    assert_eq!(members[0].server, "s2");
    assert!(repo.channels_vec().is_empty());
}

#[test]
fn server_and_role_removal_names_parse() {
    assert_eq!(FieldsServer::parse("icon").unwrap(), FieldsServer::Icon);
    assert_eq!(FieldsServer::parse("name").unwrap_err(), RepoError::InvalidRemoval);
    assert_eq!(FieldsRole::parse("colour").unwrap(), FieldsRole::Colour);
    assert_eq!(FieldsRole::parse("rank").unwrap_err(), RepoError::InvalidRemoval);
}
