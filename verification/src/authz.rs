//! The authorization database: which user holds which role in which scope, and what
//! a role permits.

use vstd::prelude::*;

verus! {

/// Identifier of a user, as the client certificate names them.
pub type UserId = String;

/// What a user may be permitted to do.
#[derive(Clone, Copy, Debug, PartialEq, Eq, PartialOrd, Ord, Hash, Structural)]
pub enum Permission {
    /// Start jobs and stop them.
    StartOrStop,
    /// Ask for a job's status and read its output.
    Query,
}

/// A bundle of permissions.
#[derive(Clone, Copy, Debug, PartialEq, Eq, PartialOrd, Ord, Hash, Structural)]
pub enum Role {
    TaskManager,
    Analyst,
}

/// The jobs over which a role is held.
#[derive(Clone, Copy, Debug, PartialEq, Eq, PartialOrd, Ord, Hash, Structural)]
pub enum Scope {
    /// The jobs that the user started.
    Owner,
    /// Every job.
    All,
}

/// A role held in a scope.
#[derive(Clone, Copy, Debug, PartialEq, Eq, Structural)]
pub struct Grant {
    pub scope: Scope,
    pub role: Role,
}

/// The grants of one user.
pub struct UserGrants {
    pub user_id: UserId,
    pub grants: Vec<Grant>,
}

/// The database. Each user has one entry, and each role has its list of permissions.
pub struct AuthzDb {
    user_database: Vec<UserGrants>,
    task_manager: Vec<Permission>,
    analyst: Vec<Permission>,
}

impl AuthzDb {
    /// The entries of the users.
    pub closed spec fn users(self) -> Seq<UserGrants> {
        self.user_database@
    }

    /// The permissions of a role.
    pub closed spec fn role_permissions(self, role: Role) -> Seq<Permission> {
        match role {
            Role::TaskManager => self.task_manager@,
            Role::Analyst => self.analyst@,
        }
    }

    /// What holds of a database at all times: no user has two entries.
    pub open spec fn wf(self) -> bool {
        forall|i: int, j: int|
            0 <= i < j < self.users().len() ==> self.users()[i].user_id@ != self.users()[j].user_id@
    }

    /// Whether one of a user's grants gives the permission in the scope.
    pub open spec fn granted_by(self, entry: UserGrants, scope: Scope, permission: Permission) -> bool {
        exists|k: int|
            0 <= k < entry.grants@.len() && (#[trigger] entry.grants@[k]).scope == scope
                && self.role_permissions(entry.grants@[k].role).contains(permission)
    }

    /// Whether the user holds, in exactly this scope, a role that gives the
    /// permission. A user without an entry holds nothing.
    pub open spec fn permits_scoped(self, user: Seq<char>, scope: Scope, permission: Permission) -> bool {
        exists|i: int|
            0 <= i < self.users().len() && (#[trigger] self.users()[i]).user_id@ == user
                && self.granted_by(self.users()[i], scope, permission)
    }

    /// Whether the user holds, in any scope, a role that gives the permission.
    pub open spec fn permits(self, user: Seq<char>, permission: Permission) -> bool {
        self.permits_scoped(user, Scope::Owner, permission) || self.permits_scoped(
            user,
            Scope::All,
            permission,
        )
    }

    /// Decides whether a role gives a permission.
    fn role_has(&self, role: Role, permission: Permission) -> (r: bool)
        ensures
            r == self.role_permissions(role).contains(permission),
    {
        let permissions = match role {
            Role::TaskManager => &self.task_manager,
            Role::Analyst => &self.analyst,
        };
        let mut k: usize = 0;
        while k < permissions.len()
            invariant
                0 <= k <= permissions.len(),
                permissions@ == self.role_permissions(role),
                forall|n: int| 0 <= n < k ==> permissions@[n] != permission,
            decreases permissions.len() - k,
        {
            if permissions[k] == permission {
                return true;
            }
            k += 1;
        }
        false
    }

    /// Decides whether one of an entry's grants gives the permission in the scope.
    fn entry_grants(&self, entry: &UserGrants, scope: Scope, permission: Permission) -> (r: bool)
        ensures
            r == self.granted_by(*entry, scope, permission),
    {
        let mut k: usize = 0;
        while k < entry.grants.len()
            invariant
                0 <= k <= entry.grants.len(),
                forall|n: int|
                    0 <= n < k ==> !((#[trigger] entry.grants@[n]).scope == scope
                        && self.role_permissions(entry.grants@[n].role).contains(permission)),
            decreases entry.grants.len() - k,
        {
            let grant = entry.grants[k];
            if grant.scope == scope && self.role_has(grant.role, permission) {
                return true;
            }
            k += 1;
        }
        false
    }

    /// Decides whether the user holds, in exactly this scope, a role that gives the
    /// permission.
    pub fn has_scoped_permission(&self, user_id: &UserId, scope: Scope, permission: Permission) -> (r:
        bool)
        ensures
            r == self.permits_scoped(user_id@, scope, permission),
    {
        let mut i: usize = 0;
        while i < self.user_database.len()
            invariant
                0 <= i <= self.user_database.len(),
                forall|n: int|
                    0 <= n < i ==> !((#[trigger] self.users()[n]).user_id@ == user_id@
                        && self.granted_by(self.users()[n], scope, permission)),
            decreases self.user_database.len() - i,
        {
            let entry = &self.user_database[i];
            if entry.user_id == *user_id && self.entry_grants(entry, scope, permission) {
                return true;
            }
            i += 1;
        }
        false
    }

    /// Decides whether the user holds, in any scope, a role that gives the
    /// permission.
    pub fn has_permission(&self, user_id: &UserId, permission: Permission) -> (r: bool)
        ensures
            r == self.permits(user_id@, permission),
    {
        self.has_scoped_permission(user_id, Scope::Owner, permission)
            || self.has_scoped_permission(user_id, Scope::All, permission)
    }
}

/// The policy of the built-in database: alice manages the jobs she owns, bob may
/// query every job, and charlie manages every job. A manager may start, stop and
/// query; nobody else holds anything.
pub open spec fn default_policy(user: Seq<char>, scope: Scope, permission: Permission) -> bool {
    ||| user == "alice"@ && scope == Scope::Owner
    ||| user == "bob"@ && scope == Scope::All && permission == Permission::Query
    ||| user == "charlie"@ && scope == Scope::All
}

impl Default for AuthzDb {
    /// The built-in database.
    fn default() -> (db: AuthzDb)
        ensures
            db.wf(),
            forall|user: Seq<char>, scope: Scope, permission: Permission|
                #[trigger] db.permits_scoped(user, scope, permission) == default_policy(
                    user,
                    scope,
                    permission,
                ),
    {
        let mut alice_grants: Vec<Grant> = Vec::new();
        alice_grants.push(Grant { scope: Scope::Owner, role: Role::TaskManager });
        let mut bob_grants: Vec<Grant> = Vec::new();
        bob_grants.push(Grant { scope: Scope::All, role: Role::Analyst });
        let mut charlie_grants: Vec<Grant> = Vec::new();
        charlie_grants.push(Grant { scope: Scope::All, role: Role::TaskManager });

        let mut user_database: Vec<UserGrants> = Vec::new();
        user_database.push(UserGrants { user_id: "alice".to_owned(), grants: alice_grants });
        user_database.push(UserGrants { user_id: "bob".to_owned(), grants: bob_grants });
        user_database.push(UserGrants { user_id: "charlie".to_owned(), grants: charlie_grants });

        let mut task_manager: Vec<Permission> = Vec::new();
        task_manager.push(Permission::StartOrStop);
        task_manager.push(Permission::Query);
        let mut analyst: Vec<Permission> = Vec::new();
        analyst.push(Permission::Query);

        let db = AuthzDb { user_database, task_manager, analyst };
        proof {
            reveal_strlit("alice");
            reveal_strlit("bob");
            reveal_strlit("charlie");
            assert("alice"@.len() == 5 && "bob"@.len() == 3 && "charlie"@.len() == 7);
            assert(db.role_permissions(Role::TaskManager)[0] == Permission::StartOrStop);
            assert(db.role_permissions(Role::TaskManager)[1] == Permission::Query);
            assert(db.role_permissions(Role::Analyst)[0] == Permission::Query);
            assert forall|user: Seq<char>, scope: Scope, permission: Permission|
                #[trigger] db.permits_scoped(user, scope, permission) == default_policy(
                    user,
                    scope,
                    permission,
                ) by {
                if default_policy(user, scope, permission) {
                    let i: int = if user == "alice"@ {
                        0
                    } else if user == "bob"@ {
                        1
                    } else {
                        2
                    };
                    assert(db.users()[i].user_id@ == user);
                    assert(db.users()[i].grants@[0].scope == scope);
                    assert(db.granted_by(db.users()[i], scope, permission));
                }
            }
        }
        db
    }
}

} // verus!
