//! The server entity family: servers, their roles (sub-resources of a
//! server), and the dependent member and channel records that role and
//! server deletion must cascade to.
use vstd::prelude::*;

use crate::message::clone_opt_string;
use crate::patch::{patch_opt, patch_req, unset_if};
use crate::store::{seq_to_map, unique_keys};

verus! {

/// A role defined on a server.
#[derive(Debug)]
pub struct Role {
    /// Role name
    pub name: String,
    /// Permission bits granted by this role
    pub permissions: u64,
    /// Display colour
    pub colour: Option<String>,
    /// Whether the role is shown separately in member lists
    pub hoist: bool,
    /// Ranking position (smaller is higher)
    pub rank: i64,
}

/// Mathematical shape of a [`Role`].
#[verifier::ext_equal]
pub struct RoleV {
    pub name: Seq<char>,
    pub permissions: u64,
    pub colour: Option<Seq<char>>,
    pub hoist: bool,
    pub rank: i64,
}

impl View for Role {
    type V = RoleV;

    open spec fn view(&self) -> RoleV {
        RoleV {
            name: self.name@,
            permissions: self.permissions,
            colour: self.colour.deep_view(),
            hoist: self.hoist,
            rank: self.rank,
        }
    }
}

impl Clone for Role {
    fn clone(&self) -> (r: Self)
        ensures
            r == *self,
    {
        Role {
            name: self.name.clone(),
            permissions: self.permissions,
            colour: clone_opt_string(&self.colour),
            hoist: self.hoist,
            rank: self.rank,
        }
    }
}

/// A role stored on a server, keyed by its id.
#[derive(Debug)]
pub struct RoleEntry {
    /// Role id, unique within the server
    pub id: String,
    /// The role record
    pub role: Role,
}

impl Clone for RoleEntry {
    fn clone(&self) -> (r: Self)
        ensures
            r == *self,
    {
        RoleEntry { id: self.id.clone(), role: self.role.clone() }
    }
}

/// The finite map a role list denotes: role id to role record.
pub open spec fn roles_view(rs: Seq<RoleEntry>) -> Map<Seq<char>, RoleV> {
    seq_to_map(rs, |e: RoleEntry| e.id@, |e: RoleEntry| e.role@)
}

/// The roles stored on a server carry pairwise distinct ids.
pub open spec fn server_roles_unique(s: Server) -> bool {
    unique_keys(s.roles@, |e: RoleEntry| e.id@)
}

/// Canonical full record of a server. The id is immutable after
/// creation.
#[derive(Debug)]
pub struct Server {
    /// Unique id
    pub id: String,
    /// Id of the user that owns this server
    pub owner: String,
    /// Server name
    pub name: String,
    /// Server description
    pub description: Option<String>,
    /// Ids of the channels of this server
    pub channels: Vec<String>,
    /// Roles of this server, keyed by role id
    pub roles: Vec<RoleEntry>,
    /// Icon attachment id
    pub icon: Option<String>,
    /// Banner attachment id
    pub banner: Option<String>,
}

/// Mathematical shape of a [`Server`]. The roles form a map from role
/// id to role record.
#[verifier::ext_equal]
pub struct ServerV {
    pub id: Seq<char>,
    pub owner: Seq<char>,
    pub name: Seq<char>,
    pub description: Option<Seq<char>>,
    pub channels: Seq<Seq<char>>,
    pub roles: Map<Seq<char>, RoleV>,
    pub icon: Option<Seq<char>>,
    pub banner: Option<Seq<char>>,
}

impl View for Server {
    type V = ServerV;

    open spec fn view(&self) -> ServerV {
        ServerV {
            id: self.id@,
            owner: self.owner@,
            name: self.name@,
            description: self.description.deep_view(),
            channels: self.channels.deep_view(),
            roles: roles_view(self.roles@),
            icon: self.icon.deep_view(),
            banner: self.banner.deep_view(),
        }
    }
}

impl Clone for Server {
    fn clone(&self) -> (r: Self)
        ensures
            r@ == self@,
            r.roles@ == self.roles@,
    {
        let roles = self.roles.clone();
        proof {
            assert forall|i: int| 0 <= i < self.roles@.len() implies #[trigger] roles@[i]
                == self.roles@[i] by {
                assert(vstd::pervasive::cloned::<RoleEntry>(self.roles@[i], roles@[i]));
            }
            assert(roles@ =~= self.roles@);
        }
        let r = Server {
            id: self.id.clone(),
            owner: self.owner.clone(),
            name: self.name.clone(),
            description: clone_opt_string(&self.description),
            channels: self.channels.clone(),
            roles,
            icon: clone_opt_string(&self.icon),
            banner: clone_opt_string(&self.banner),
        };
        proof {
            assert(r@ =~= self@);
        }
        r
    }
}

/// Sparse patch shape for a server: every field optional-present; no
/// id. Channels and roles are managed through dedicated operations,
/// not through the patch.
#[derive(Debug)]
pub struct PartialServer {
    pub owner: Option<String>,
    pub name: Option<String>,
    pub description: Option<String>,
    pub icon: Option<String>,
    pub banner: Option<String>,
}

/// Mathematical shape of a [`PartialServer`].
#[verifier::ext_equal]
pub struct PartialServerV {
    pub owner: Option<Seq<char>>,
    pub name: Option<Seq<char>>,
    pub description: Option<Seq<char>>,
    pub icon: Option<Seq<char>>,
    pub banner: Option<Seq<char>>,
}

/// The patch that touches nothing.
pub open spec fn partial_server_empty() -> PartialServerV {
    PartialServerV { owner: None, name: None, description: None, icon: None, banner: None }
}

impl View for PartialServer {
    type V = PartialServerV;

    open spec fn view(&self) -> PartialServerV {
        PartialServerV {
            owner: self.owner.deep_view(),
            name: self.name.deep_view(),
            description: self.description.deep_view(),
            icon: self.icon.deep_view(),
            banner: self.banner.deep_view(),
        }
    }
}

impl Clone for PartialServer {
    fn clone(&self) -> (r: Self)
        ensures
            r == *self,
    {
        PartialServer {
            owner: clone_opt_string(&self.owner),
            name: clone_opt_string(&self.name),
            description: clone_opt_string(&self.description),
            icon: clone_opt_string(&self.icon),
            banner: clone_opt_string(&self.banner),
        }
    }
}

impl Default for PartialServer {
    /// The empty patch.
    fn default() -> (r: Self)
        ensures
            r@ == partial_server_empty(),
    {
        let r = PartialServer { owner: None, name: None, description: None, icon: None, banner: None };
        proof {
            assert(r@ =~= partial_server_empty());
        }
        r
    }
}

/// Fields of a server that may be reset through the removal list.
/// Identity, owner, name, channels and roles are not removable: a
/// server always carries them.
#[derive(Clone, Copy, Debug, PartialEq, Eq, Structural)]
pub enum FieldsServer {
    Description,
    Icon,
    Banner,
}

/// The wire name of each removable server field.
pub open spec fn fields_server_name(f: FieldsServer) -> Seq<char> {
    match f {
        FieldsServer::Description => "description"@,
        FieldsServer::Icon => "icon"@,
        FieldsServer::Banner => "banner"@,
    }
}

impl FieldsServer {
    /// Validates a removal-list entry received as text at the boundary
    /// of this layer: a name outside the closed enumeration is rejected
    /// with `InvalidRemoval` rather than silently ignored.
    pub fn parse(name: &str) -> (r: Result<FieldsServer, crate::error::RepoError>)
        ensures
            match r {
                Ok(f) => name@ == fields_server_name(f),
                Err(e) => e == crate::error::RepoError::InvalidRemoval && forall|f: FieldsServer|
                    name@ != fields_server_name(f),
            },
    {
        if crate::patch::str_eq_str(name, "description") {
            Ok(FieldsServer::Description)
        } else if crate::patch::str_eq_str(name, "icon") {
            Ok(FieldsServer::Icon)
        } else if crate::patch::str_eq_str(name, "banner") {
            Ok(FieldsServer::Banner)
        } else {
            Err(crate::error::RepoError::InvalidRemoval)
        }
    }
}

/// Whether a removal list names a given field.
pub fn fields_server_contain(remove: &Vec<FieldsServer>, f: FieldsServer) -> (b: bool)
    ensures
        b == remove@.contains(f),
{
    let mut i: usize = 0;
    while i < remove.len()
        invariant
            0 <= i <= remove@.len(),
            forall|j: int| 0 <= j < i ==> remove@[j] != f,
        decreases remove@.len() - i,
    {
        if remove[i] == f {
            return true;
        }
        i += 1;
    }
    false
}

/// The record that results from the two-phase merge of an update onto a
/// stored server: patch first, removals second (removal wins).
pub open spec fn applied_server(s: ServerV, p: PartialServerV, rm: Seq<FieldsServer>) -> ServerV {
    let patched = ServerV {
        id: s.id,
        owner: patch_req(s.owner, p.owner),
        name: patch_req(s.name, p.name),
        description: patch_opt(s.description, p.description),
        channels: s.channels,
        roles: s.roles,
        icon: patch_opt(s.icon, p.icon),
        banner: patch_opt(s.banner, p.banner),
    };
    ServerV {
        description: unset_if(rm.contains(FieldsServer::Description), patched.description),
        icon: unset_if(rm.contains(FieldsServer::Icon), patched.icon),
        banner: unset_if(rm.contains(FieldsServer::Banner), patched.banner),
        ..patched
    }
}

/// Applies the two-phase merge to a stored server.
pub fn apply_server(s: Server, p: PartialServer, remove: &Vec<FieldsServer>) -> (r: Server)
    ensures
        r@ == applied_server(s@, p@, remove@),
        r.roles@ == s.roles@,
{
    let PartialServer { owner, name, description, icon, banner } = p;
    let mut r = s;
    if let Some(v) = owner {
        r.owner = v;
    }
    if let Some(v) = name {
        r.name = v;
    }
    if let Some(v) = description {
        r.description = Some(v);
    }
    if let Some(v) = icon {
        r.icon = Some(v);
    }
    if let Some(v) = banner {
        r.banner = Some(v);
    }
    if fields_server_contain(remove, FieldsServer::Description) {
        r.description = None;
    }
    if fields_server_contain(remove, FieldsServer::Icon) {
        r.icon = None;
    }
    if fields_server_contain(remove, FieldsServer::Banner) {
        r.banner = None;
    }
    proof {
        assert(r@ =~= applied_server(s@, p@, remove@));
    }
    r
}

/// Sparse patch shape for a role: every field optional-present.
#[derive(Debug)]
pub struct PartialRole {
    pub name: Option<String>,
    pub permissions: Option<u64>,
    pub colour: Option<String>,
    pub hoist: Option<bool>,
    pub rank: Option<i64>,
}

/// Mathematical shape of a [`PartialRole`].
#[verifier::ext_equal]
pub struct PartialRoleV {
    pub name: Option<Seq<char>>,
    pub permissions: Option<u64>,
    pub colour: Option<Seq<char>>,
    pub hoist: Option<bool>,
    pub rank: Option<i64>,
}

/// The patch that touches nothing.
pub open spec fn partial_role_empty() -> PartialRoleV {
    PartialRoleV { name: None, permissions: None, colour: None, hoist: None, rank: None }
}

impl View for PartialRole {
    type V = PartialRoleV;

    open spec fn view(&self) -> PartialRoleV {
        PartialRoleV {
            name: self.name.deep_view(),
            permissions: self.permissions,
            colour: self.colour.deep_view(),
            hoist: self.hoist,
            rank: self.rank,
        }
    }
}

impl Clone for PartialRole {
    fn clone(&self) -> (r: Self)
        ensures
            r == *self,
    {
        PartialRole {
            name: clone_opt_string(&self.name),
            permissions: self.permissions,
            colour: clone_opt_string(&self.colour),
            hoist: self.hoist,
            rank: self.rank,
        }
    }
}

/// Fields of a role that may be reset through the removal list. Only
/// the colour is removable: the other fields always carry a value.
#[derive(Clone, Copy, Debug, PartialEq, Eq, Structural)]
pub enum FieldsRole {
    Colour,
}

/// The wire name of each removable role field.
pub open spec fn fields_role_name(f: FieldsRole) -> Seq<char> {
    match f {
        FieldsRole::Colour => "colour"@,
    }
}

impl FieldsRole {
    /// Validates a removal-list entry received as text at the boundary
    /// of this layer: a name outside the closed enumeration is rejected
    /// with `InvalidRemoval` rather than silently ignored.
    pub fn parse(name: &str) -> (r: Result<FieldsRole, crate::error::RepoError>)
        ensures
            match r {
                Ok(f) => name@ == fields_role_name(f),
                Err(e) => e == crate::error::RepoError::InvalidRemoval && forall|f: FieldsRole|
                    name@ != fields_role_name(f),
            },
    {
        if crate::patch::str_eq_str(name, "colour") {
            Ok(FieldsRole::Colour)
        } else {
            Err(crate::error::RepoError::InvalidRemoval)
        }
    }
}

/// Whether a removal list names a given field.
pub fn fields_role_contain(remove: &Vec<FieldsRole>, f: FieldsRole) -> (b: bool)
    ensures
        b == remove@.contains(f),
{
    let mut i: usize = 0;
    while i < remove.len()
        invariant
            0 <= i <= remove@.len(),
            forall|j: int| 0 <= j < i ==> remove@[j] != f,
        decreases remove@.len() - i,
    {
        if remove[i] == f {
            return true;
        }
        i += 1;
    }
    false
}

/// The record that results from the two-phase merge of an update onto a
/// stored role: patch first, removals second (removal wins).
pub open spec fn applied_role(r: RoleV, p: PartialRoleV, rm: Seq<FieldsRole>) -> RoleV {
    let patched = RoleV {
        name: patch_req(r.name, p.name),
        permissions: patch_req(r.permissions, p.permissions),
        colour: patch_opt(r.colour, p.colour),
        hoist: patch_req(r.hoist, p.hoist),
        rank: patch_req(r.rank, p.rank),
    };
    RoleV {
        colour: unset_if(rm.contains(FieldsRole::Colour), patched.colour),
        ..patched
    }
}

/// Applies the two-phase merge to a stored role.
pub fn apply_role(r: Role, p: PartialRole, remove: &Vec<FieldsRole>) -> (res: Role)
    ensures
        res@ == applied_role(r@, p@, remove@),
{
    let PartialRole { name, permissions, colour, hoist, rank } = p;
    let mut res = r;
    if let Some(v) = name {
        res.name = v;
    }
    if let Some(v) = permissions {
        res.permissions = v;
    }
    if let Some(v) = colour {
        res.colour = Some(v);
    }
    if let Some(v) = hoist {
        res.hoist = v;
    }
    if let Some(v) = rank {
        res.rank = v;
    }
    if fields_role_contain(remove, FieldsRole::Colour) {
        res.colour = None;
    }
    proof {
        assert(res@ =~= applied_role(r@, p@, remove@));
    }
    res
}

/// Membership record of a user on a server. Holds the roles assigned
/// to the member; deleting a role must erase it from every member of
/// that server.
#[derive(Debug)]
pub struct Member {
    /// Id of the server
    pub server: String,
    /// Id of the user
    pub user: String,
    /// Per-server nickname
    pub nickname: Option<String>,
    /// Ids of the roles assigned to this member
    pub roles: Vec<String>,
}

/// Mathematical shape of a [`Member`].
#[verifier::ext_equal]
pub struct MemberV {
    pub server: Seq<char>,
    pub user: Seq<char>,
    pub nickname: Option<Seq<char>>,
    pub roles: Seq<Seq<char>>,
}

impl View for Member {
    type V = MemberV;

    open spec fn view(&self) -> MemberV {
        MemberV {
            server: self.server@,
            user: self.user@,
            nickname: self.nickname.deep_view(),
            roles: self.roles.deep_view(),
        }
    }
}

impl Clone for Member {
    fn clone(&self) -> (r: Self)
        ensures
            r@ == self@,
    {
        let r = Member {
            server: self.server.clone(),
            user: self.user.clone(),
            nickname: clone_opt_string(&self.nickname),
            roles: self.roles.clone(),
        };
        proof {
            assert(r@ =~= self@);
        }
        r
    }
}

/// A per-role permission override on a channel. Deleting the role must
/// erase its override from every channel of that server.
#[derive(Debug)]
pub struct RolePermission {
    /// Id of the role the override applies to
    pub role: String,
    /// Allowed permission bits
    pub allow: u64,
    /// Denied permission bits
    pub deny: u64,
}

/// Mathematical shape of a [`RolePermission`].
#[verifier::ext_equal]
pub struct RolePermissionV {
    pub role: Seq<char>,
    pub allow: u64,
    pub deny: u64,
}

impl DeepView for RolePermission {
    type V = RolePermissionV;

    open spec fn deep_view(&self) -> RolePermissionV {
        RolePermissionV { role: self.role@, allow: self.allow, deny: self.deny }
    }
}

impl Clone for RolePermission {
    fn clone(&self) -> (r: Self)
        ensures
            r == *self,
    {
        RolePermission { role: self.role.clone(), allow: self.allow, deny: self.deny }
    }
}

/// A channel of a server, insofar as the repository contract needs it:
/// a dependent record that server deletion removes and role deletion
/// rewrites.
#[derive(Debug)]
pub struct Channel {
    /// Unique id
    pub id: String,
    /// Id of the server this channel belongs to
    pub server: String,
    /// Channel name
    pub name: String,
    /// Per-role permission overrides
    pub role_permissions: Vec<RolePermission>,
}

/// Mathematical shape of a [`Channel`].
#[verifier::ext_equal]
pub struct ChannelV {
    pub id: Seq<char>,
    pub server: Seq<char>,
    pub name: Seq<char>,
    pub role_permissions: Seq<RolePermissionV>,
}

impl View for Channel {
    type V = ChannelV;

    open spec fn view(&self) -> ChannelV {
        ChannelV {
            id: self.id@,
            server: self.server@,
            name: self.name@,
            role_permissions: self.role_permissions.deep_view(),
        }
    }
}

impl Clone for Channel {
    fn clone(&self) -> (r: Self)
        ensures
            r@ == self@,
    {
        let rp = self.role_permissions.clone();
        proof {
            assert forall|i: int| 0 <= i < self.role_permissions@.len() implies #[trigger] rp@[i]
                == self.role_permissions@[i] by {
                assert(vstd::pervasive::cloned::<RolePermission>(
                    self.role_permissions@[i],
                    rp@[i],
                ));
            }
            assert(rp@ =~= self.role_permissions@);
        }
        let r = Channel {
            id: self.id.clone(),
            server: self.server.clone(),
            name: self.name.clone(),
            role_permissions: rp,
        };
        proof {
            assert(r@ =~= self@);
        }
        r
    }
}

/// A member record after a role deletion cascades to it: members of the
/// server lose the role; members of other servers are untouched.
pub open spec fn member_without_role(m: MemberV, server_id: Seq<char>, role_id: Seq<char>) -> MemberV {
    if m.server == server_id {
        MemberV { roles: m.roles.filter(|r: Seq<char>| r != role_id), ..m }
    } else {
        m
    }
}

/// A channel record after a role deletion cascades to it: channels of
/// the server lose the role's permission override; channels of other
/// servers are untouched.
pub open spec fn channel_without_role(
    c: ChannelV,
    server_id: Seq<char>,
    role_id: Seq<char>,
) -> ChannelV {
    if c.server == server_id {
        ChannelV {
            role_permissions: c.role_permissions.filter(|p: RolePermissionV| p.role != role_id),
            ..c
        }
    } else {
        c
    }
}

} // verus!
