use vstd::prelude::*;

use crate::error::{fails_with, ApiError, ErrorKind};
use crate::model::{InviteCode, InviteCodeModel, User, UserId, UserModel};

verus! {

/// The whole directory, as mathematical values.
pub struct DatabaseModel {
    pub users: Seq<UserModel>,
    pub invite_codes: Seq<InviteCodeModel>,
    /// The id that the next user created receives.
    pub next_user_id: int,
}

/// Whether some user has this id.
pub open spec fn has_user_id(users: Seq<UserModel>, id: i32) -> bool {
    exists|i: int| 0 <= i < users.len() && #[trigger] users[i].id == id
}

/// Whether some user has this login.
pub open spec fn has_login(users: Seq<UserModel>, login: Seq<char>) -> bool {
    exists|i: int| 0 <= i < users.len() && #[trigger] users[i].login == login
}

/// Whether some invite code is written this way.
pub open spec fn has_code(codes: Seq<InviteCodeModel>, code: Seq<char>) -> bool {
    exists|i: int| 0 <= i < codes.len() && #[trigger] codes[i].code == code
}

/// The users, with the admin flag of the user `id` set to `admin`.
pub open spec fn with_admin(users: Seq<UserModel>, id: i32, admin: bool) -> Seq<UserModel> {
    users.map_values(
        |u: UserModel|
            if u.id == id {
                UserModel { id: u.id, login: u.login, admin }
            } else {
                u
            },
    )
}

/// The invite codes, with the remaining count of `code` set to `remaining`.
pub open spec fn with_remaining(
    codes: Seq<InviteCodeModel>,
    code: Seq<char>,
    remaining: u32,
) -> Seq<InviteCodeModel> {
    codes.map_values(
        |c: InviteCodeModel|
            if c.code == code {
                InviteCodeModel {
                    code: c.code,
                    owner: c.owner,
                    allowed_usage_count: c.allowed_usage_count,
                    remaining_count: remaining,
                }
            } else {
                c
            },
    )
}

/// The invite codes that the user `owner` owns, in the order of creation.
pub open spec fn codes_of(codes: Seq<InviteCodeModel>, owner: i32) -> Seq<InviteCodeModel> {
    codes.filter(|c: InviteCodeModel| c.owner == owner)
}

impl DatabaseModel {
    /// Ids and logins are unique, ids lie below the next id, codes are
    /// unique, and no code has more uses left than it was created with.
    pub open spec fn well_formed(self) -> bool {
        &&& 1 <= self.next_user_id <= i32::MAX
        &&& forall|i: int|
            0 <= i < self.users.len() ==> 1 <= #[trigger] self.users[i].id < self.next_user_id
        &&& forall|i: int, j: int|
            0 <= i < self.users.len() && 0 <= j < self.users.len() && i != j
                ==> #[trigger] self.users[i].id != #[trigger] self.users[j].id
        &&& forall|i: int, j: int|
            0 <= i < self.users.len() && 0 <= j < self.users.len() && i != j
                ==> #[trigger] self.users[i].login != #[trigger] self.users[j].login
        &&& forall|i: int, j: int|
            0 <= i < self.invite_codes.len() && 0 <= j < self.invite_codes.len() && i != j
                ==> #[trigger] self.invite_codes[i].code != #[trigger] self.invite_codes[j].code
        &&& forall|i: int|
            0 <= i < self.invite_codes.len() ==> #[trigger] self.invite_codes[i].remaining_count
                <= self.invite_codes[i].allowed_usage_count
    }
}

/// Setting a user's admin flag twice in a row to the same value: the user is
/// found by both calls, so neither fails, the second call changes nothing,
/// and the user's flag ends up with that value.
pub proof fn lemma_set_admin_twice(users: Seq<UserModel>, id: i32, admin: bool)
    requires
        has_user_id(users, id),
    ensures
        has_user_id(with_admin(users, id, admin), id),
        with_admin(with_admin(users, id, admin), id, admin) == with_admin(users, id, admin),
        forall|i: int|
            0 <= i < users.len() && users[i].id == id ==> (#[trigger] with_admin(users, id, admin)[i]).admin
                == admin,
{
    let once = with_admin(users, id, admin);
    let k = choose|k: int| 0 <= k < users.len() && users[k].id == id;
    assert(once[k].id == id);
    assert(with_admin(once, id, admin) =~= once);
}

/// Changing fields that carry no key keeps the store well formed.
proof fn lemma_same_keys(pre: DatabaseModel, post: DatabaseModel)
    requires
        pre.well_formed(),
        post.next_user_id == pre.next_user_id,
        post.users.len() == pre.users.len(),
        post.invite_codes.len() == pre.invite_codes.len(),
        forall|k: int|
            0 <= k < post.users.len() ==> #[trigger] post.users[k].id == pre.users[k].id
                && post.users[k].login == pre.users[k].login,
        forall|k: int|
            0 <= k < post.invite_codes.len() ==> #[trigger] post.invite_codes[k].code
                == pre.invite_codes[k].code && post.invite_codes[k].remaining_count
                <= post.invite_codes[k].allowed_usage_count,
    ensures
        post.well_formed(),
{
    assert forall|i: int, j: int|
        0 <= i < post.users.len() && 0 <= j < post.users.len() && i != j implies #[trigger] post.users[i].id
            != #[trigger] post.users[j].id by {
        assert(pre.users[i].id != pre.users[j].id);
    }
    assert forall|i: int, j: int|
        0 <= i < post.users.len() && 0 <= j < post.users.len() && i != j implies #[trigger] post.users[i].login
            != #[trigger] post.users[j].login by {
        assert(post.users[i].id == pre.users[i].id);
        assert(post.users[j].id == pre.users[j].id);
        assert(pre.users[i].login != pre.users[j].login);
    }
    assert forall|i: int, j: int|
        0 <= i < post.invite_codes.len() && 0 <= j < post.invite_codes.len() && i != j implies #[trigger] post.invite_codes[i].code
            != #[trigger] post.invite_codes[j].code by {
        assert(pre.invite_codes[i].code != pre.invite_codes[j].code);
    }
    assert forall|i: int| 0 <= i < post.users.len() implies 1 <= #[trigger] post.users[i].id
        < post.next_user_id by {
        assert(post.users[i].id == pre.users[i].id);
    }
    assert forall|i: int| 0 <= i < post.invite_codes.len() implies #[trigger] post.invite_codes[i].remaining_count
        <= post.invite_codes[i].allowed_usage_count by {
        assert(post.invite_codes[i].code == pre.invite_codes[i].code);
    }
}

/// Removing one user keeps the store well formed.
proof fn lemma_remove_user(pre: DatabaseModel, post: DatabaseModel, at: int)
    requires
        pre.well_formed(),
        0 <= at < pre.users.len(),
        post.users == pre.users.remove(at),
        post.invite_codes == pre.invite_codes,
        post.next_user_id == pre.next_user_id,
    ensures
        post.well_formed(),
{
    assert forall|a: int, b: int|
        0 <= a < post.users.len() && 0 <= b < post.users.len() && a != b implies #[trigger] post.users[a].id
            != #[trigger] post.users[b].id && post.users[a].login != post.users[b].login by {
        let a2 = if a < at { a } else { a + 1 };
        let b2 = if b < at { b } else { b + 1 };
        assert(post.users[a] == pre.users[a2]);
        assert(post.users[b] == pre.users[b2]);
    }
    assert forall|i: int, j: int|
        0 <= i < post.users.len() && 0 <= j < post.users.len() && i != j implies #[trigger] post.users[i].login
            != #[trigger] post.users[j].login by {
        assert(post.users[i].id != post.users[j].id && post.users[i].login != post.users[j].login);
    }
    assert forall|a: int| 0 <= a < post.users.len() implies 1 <= #[trigger] post.users[a].id
        < post.next_user_id by {
        let a2 = if a < at { a } else { a + 1 };
        assert(post.users[a] == pre.users[a2]);
    }
}

/// Adding a user with a fresh login and the next id keeps the store well
/// formed.
proof fn lemma_add_user(pre: DatabaseModel, post: DatabaseModel, user: UserModel)
    requires
        pre.well_formed(),
        !has_login(pre.users, user.login),
        user.id == pre.next_user_id,
        pre.next_user_id < i32::MAX,
        post.users == pre.users.push(user),
        post.invite_codes == pre.invite_codes,
        post.next_user_id == pre.next_user_id + 1,
    ensures
        post.well_formed(),
{
    let n = pre.users.len() as int;
    assert forall|a: int| 0 <= a < post.users.len() implies 1 <= #[trigger] post.users[a].id
        < post.next_user_id by {
        if a < n {
            assert(post.users[a] == pre.users[a]);
        }
    }
    assert forall|a: int, b: int|
        0 <= a < post.users.len() && 0 <= b < post.users.len() && a != b implies #[trigger] post.users[a].id
            != #[trigger] post.users[b].id by {
        if a < n {
            assert(post.users[a] == pre.users[a]);
        }
        if b < n {
            assert(post.users[b] == pre.users[b]);
        }
    }
    assert forall|a: int, b: int|
        0 <= a < post.users.len() && 0 <= b < post.users.len() && a != b implies #[trigger] post.users[a].login
            != #[trigger] post.users[b].login by {
        if a < n {
            assert(post.users[a] == pre.users[a]);
        }
        if b < n {
            assert(post.users[b] == pre.users[b]);
        }
    }
}

/// Adding an invite code that is not yet stored, with all of its uses left,
/// keeps the store well formed.
proof fn lemma_add_code(pre: DatabaseModel, post: DatabaseModel, code: InviteCodeModel)
    requires
        pre.well_formed(),
        !has_code(pre.invite_codes, code.code),
        code.remaining_count <= code.allowed_usage_count,
        post.invite_codes == pre.invite_codes.push(code),
        post.users == pre.users,
        post.next_user_id == pre.next_user_id,
    ensures
        post.well_formed(),
{
    let n = pre.invite_codes.len() as int;
    assert forall|a: int, b: int|
        0 <= a < post.invite_codes.len() && 0 <= b < post.invite_codes.len() && a != b implies #[trigger] post.invite_codes[a].code
            != #[trigger] post.invite_codes[b].code by {
        if a < n {
            assert(post.invite_codes[a] == pre.invite_codes[a]);
        }
        if b < n {
            assert(post.invite_codes[b] == pre.invite_codes[b]);
        }
    }
    assert forall|a: int| 0 <= a < post.invite_codes.len() implies #[trigger] post.invite_codes[a].remaining_count
        <= post.invite_codes[a].allowed_usage_count by {
        if a < n {
            assert(post.invite_codes[a] == pre.invite_codes[a]);
        }
    }
}

/// The store of users and invite codes.
pub struct Database {
    users: Vec<User>,
    invite_codes: Vec<InviteCode>,
    next_user_id: i32,
}

impl View for Database {
    type V = DatabaseModel;

    closed spec fn view(&self) -> DatabaseModel {
        DatabaseModel {
            users: self.users@.map_values(|u: User| u@),
            invite_codes: self.invite_codes@.map_values(|c: InviteCode| c@),
            next_user_id: self.next_user_id as int,
        }
    }
}

impl Database {
    /// The store's invariant: its contents are well formed.
    pub open spec fn inv(&self) -> bool {
        self@.well_formed()
    }

    /// An empty store; the first user created gets id 1.
    pub fn new() -> (r: Database)
        ensures
            r.inv(),
            r@.users == Seq::<UserModel>::empty(),
            r@.invite_codes == Seq::<InviteCodeModel>::empty(),
            r@.next_user_id == 1,
    {
        let r = Database { users: Vec::new(), invite_codes: Vec::new(), next_user_id: 1 };
        assert(r@.users =~= Seq::<UserModel>::empty());
        assert(r@.invite_codes =~= Seq::<InviteCodeModel>::empty());
        r
    }

    fn find_user_by_id(&self, id: UserId) -> (r: Option<usize>)
        ensures
            match r {
                Some(i) => i < self@.users.len() && self@.users[i as int].id == id.0,
                None => !has_user_id(self@.users, id.0),
            },
    {
        let mut i: usize = 0;
        while i < self.users.len()
            invariant
                i <= self.users@.len(),
                forall|k: int| 0 <= k < i ==> self@.users[k].id != id.0,
            decreases self.users@.len() - i,
        {
            if self.users[i].id.0 == id.0 {
                return Some(i);
            }
            i = i + 1;
        }
        None
    }

    fn find_user_by_login(&self, login: &String) -> (r: Option<usize>)
        ensures
            match r {
                Some(i) => i < self@.users.len() && self@.users[i as int].login == login@,
                None => !has_login(self@.users, login@),
            },
    {
        let mut i: usize = 0;
        while i < self.users.len()
            invariant
                i <= self.users@.len(),
                forall|k: int| 0 <= k < i ==> self@.users[k].login != login@,
            decreases self.users@.len() - i,
        {
            if self.users[i].github_login == *login {
                return Some(i);
            }
            i = i + 1;
        }
        None
    }

    fn find_code(&self, code: &String) -> (r: Option<usize>)
        ensures
            match r {
                Some(i) => i < self@.invite_codes.len() && self@.invite_codes[i as int].code
                    == code@,
                None => !has_code(self@.invite_codes, code@),
            },
    {
        let mut i: usize = 0;
        while i < self.invite_codes.len()
            invariant
                i <= self.invite_codes@.len(),
                forall|k: int| 0 <= k < i ==> self@.invite_codes[k].code != code@,
            decreases self.invite_codes@.len() - i,
        {
            if self.invite_codes[i].code == *code {
                return Some(i);
            }
            i = i + 1;
        }
        None
    }
    /// Every user, in the order of creation.
    pub fn get_all_users(&self) -> (r: Vec<User>)
        ensures
            r@.map_values(|u: User| u@) == self@.users,
    {
        let mut r: Vec<User> = Vec::new();
        let mut i: usize = 0;
        while i < self.users.len()
            invariant
                i <= self.users@.len(),
                r@.map_values(|u: User| u@) =~= self@.users.subrange(0, i as int),
            decreases self.users@.len() - i,
        {
            let ghost prev = r@;
            let u = self.users[i].duplicate();
            r.push(u);
            assert(r@.map_values(|u: User| u@) =~= prev.map_values(|u: User| u@).push(u@));
            i = i + 1;
            assert(self@.users.subrange(0, i as int) =~= self@.users.subrange(0, i - 1).push(
                self@.users[i - 1],
            ));
        }
        assert(self@.users.subrange(0, i as int) =~= self@.users);
        r
    }

    /// The user with this id, if there is one.
    pub fn get_user_by_id(&self, id: UserId) -> (r: Option<User>)
        ensures
            match r {
                Some(u) => self@.users.contains(u@) && u@.id == id.0,
                None => !has_user_id(self@.users, id.0),
            },
    {
        match self.find_user_by_id(id) {
            Some(i) => Some(self.users[i].duplicate()),
            None => None,
        }
    }

    /// The user with this login, if there is one.
    pub fn get_user_by_github_login(&self, login: &str) -> (r: Option<User>)
        ensures
            match r {
                Some(u) => self@.users.contains(u@) && u@.login == login@,
                None => !has_login(self@.users, login@),
            },
    {
        let key = login.to_owned();
        match self.find_user_by_login(&key) {
            Some(i) => Some(self.users[i].duplicate()),
            None => None,
        }
    }

    /// Adds a user with the next free id and returns that id. Fails with
    /// `Conflict` where the login is taken, and with `Internal` where ids
    /// have run out; the store is then unchanged.
    pub fn create_user(&mut self, login: &str, admin: bool) -> (r: Result<UserId, ApiError>)
        requires
            old(self).inv(),
        ensures
            final(self).inv(),
            has_login(old(self)@.users, login@) ==> fails_with(r, ErrorKind::Conflict) && final(self)@ == old(self)@,
            !has_login(old(self)@.users, login@) && old(self)@.next_user_id == i32::MAX ==> fails_with(r, ErrorKind::Internal) && final(self)@ == old(self)@,
            !has_login(old(self)@.users, login@) && old(self)@.next_user_id < i32::MAX ==> r
                == Ok::<UserId, ApiError>(UserId(old(self)@.next_user_id as i32))
                && final(self)@.users == old(self)@.users.push(
                UserModel { id: old(self)@.next_user_id as i32, login: login@, admin },
            )
                && final(self)@.invite_codes == old(self)@.invite_codes
                && final(self)@.next_user_id == old(self)@.next_user_id + 1,
    {
        let key = login.to_owned();
        if self.find_user_by_login(&key).is_some() {
            return Err(ApiError::new(ErrorKind::Conflict, "login is already taken"));
        }
        if self.next_user_id == i32::MAX {
            return Err(ApiError::new(ErrorKind::Internal, "no user id is left"));
        }
        let id = UserId(self.next_user_id);
        self.users.push(User { id, github_login: key, admin });
        self.next_user_id = self.next_user_id + 1;
        assert(self@.users =~= old(self)@.users.push(UserModel { id: id.0, login: login@, admin }));
        proof {
            lemma_add_user(
                old(self)@,
                self@,
                UserModel { id: id.0, login: login@, admin },
            );
        }
        Ok(id)
    }

    /// Sets the admin flag of the user `id`; setting the flag it already
    /// has changes nothing. Fails with `NotFound` where no user has that id.
    pub fn set_user_is_admin(&mut self, id: UserId, admin: bool) -> (r: Result<(), ApiError>)
        requires
            old(self).inv(),
        ensures
            final(self).inv(),
            !has_user_id(old(self)@.users, id.0) ==> fails_with(r, ErrorKind::NotFound) && final(self)@ == old(self)@,
            has_user_id(old(self)@.users, id.0) ==> r is Ok && final(self)@.users == with_admin(
                old(self)@.users,
                id.0,
                admin,
            ) && final(self)@.invite_codes == old(self)@.invite_codes
                && final(self)@.next_user_id == old(self)@.next_user_id,
    {
        match self.find_user_by_id(id) {
            None => Err(ApiError::new(ErrorKind::NotFound, "user not found")),
            Some(i) => {
                self.users[i].admin = admin;
                assert(self@.users =~= with_admin(old(self)@.users, id.0, admin));
                proof {
                    lemma_same_keys(old(self)@, self@);
                }
                Ok(())
            },
        }
    }

    /// Removes the user `id`. Fails with `NotFound` where no user has that id,
    /// so a second removal of the same user fails.
    pub fn destroy_user(&mut self, id: UserId) -> (r: Result<(), ApiError>)
        requires
            old(self).inv(),
        ensures
            final(self).inv(),
            !has_user_id(old(self)@.users, id.0) ==> fails_with(r, ErrorKind::NotFound) && final(self)@ == old(self)@,
            has_user_id(old(self)@.users, id.0) ==> r is Ok && (exists|i: int|
                0 <= i < old(self)@.users.len() && old(self)@.users[i].id == id.0
                    && final(self)@.users == old(self)@.users.remove(i))
                && final(self)@.invite_codes == old(self)@.invite_codes
                && final(self)@.next_user_id == old(self)@.next_user_id,
    {
        match self.find_user_by_id(id) {
            None => Err(ApiError::new(ErrorKind::NotFound, "user not found")),
            Some(i) => {
                self.users.remove(i);
                assert(self@.users =~= old(self)@.users.remove(i as int));
                proof {
                    lemma_remove_user(old(self)@, self@, i as int);
                }
                Ok(())
            },
        }
    }

    /// The invite codes that the user `owner` owns, in the order of creation.
    pub fn get_invite_codes(&self, owner: UserId) -> (r: Vec<InviteCode>)
        ensures
            r@.map_values(|c: InviteCode| c@) == codes_of(self@.invite_codes, owner.0),
    {
        let mut r: Vec<InviteCode> = Vec::new();
        let mut i: usize = 0;
        while i < self.invite_codes.len()
            invariant
                i <= self.invite_codes@.len(),
                r@.map_values(|c: InviteCode| c@) == codes_of(
                    self@.invite_codes.subrange(0, i as int),
                    owner.0,
                ),
            decreases self.invite_codes@.len() - i,
        {
            let ghost before = self@.invite_codes.subrange(0, i as int);
            let ghost after = self@.invite_codes.subrange(0, i + 1);
            assert(after.drop_last() =~= before);
            assert(after.last() == self@.invite_codes[i as int]);
            reveal(Seq::filter);
            if self.invite_codes[i].owner_user_id.0 == owner.0 {
                r.push(self.invite_codes[i].duplicate());
            }
            i = i + 1;
            assert(r@.map_values(|c: InviteCode| c@) =~= codes_of(after, owner.0));
        }
        assert(self@.invite_codes.subrange(0, i as int) =~= self@.invite_codes);
        r
    }

    /// Stores a new invite code for `owner`, with all of its uses left.
    /// Fails with `NotFound` where no user has the id `owner`, and then with
    /// `Conflict` where the code is already stored; the store is then
    /// unchanged.
    pub fn create_invite_code(&mut self, owner: UserId, code: &str, count: u32) -> (r: Result<
        (),
        ApiError,
    >)
        requires
            old(self).inv(),
        ensures
            final(self).inv(),
            !has_user_id(old(self)@.users, owner.0) ==> fails_with(r, ErrorKind::NotFound) && final(self)@ == old(self)@,
            has_user_id(old(self)@.users, owner.0) && has_code(old(self)@.invite_codes, code@)
                ==> fails_with(r, ErrorKind::Conflict) && final(self)@ == old(
                self,
            )@,
            has_user_id(old(self)@.users, owner.0) && !has_code(old(self)@.invite_codes, code@)
                ==> r is Ok && final(self)@.invite_codes == old(self)@.invite_codes.push(
                InviteCodeModel {
                    code: code@,
                    owner: owner.0,
                    allowed_usage_count: count,
                    remaining_count: count,
                },
            ) && final(self)@.users == old(self)@.users && final(self)@.next_user_id == old(
                self,
            )@.next_user_id,
    {
        if self.find_user_by_id(owner).is_none() {
            return Err(ApiError::new(ErrorKind::NotFound, "user not found"));
        }
        let key = code.to_owned();
        if self.find_code(&key).is_some() {
            return Err(ApiError::new(ErrorKind::Conflict, "invite code is already taken"));
        }
        self.invite_codes.push(
            InviteCode {
                code: key,
                owner_user_id: owner,
                allowed_usage_count: count,
                remaining_count: count,
            },
        );
        assert(self@.invite_codes =~= old(self)@.invite_codes.push(
            InviteCodeModel {
                code: code@,
                owner: owner.0,
                allowed_usage_count: count,
                remaining_count: count,
            },
        ));
        proof {
            lemma_add_code(
                old(self)@,
                self@,
                InviteCodeModel {
                    code: code@,
                    owner: owner.0,
                    allowed_usage_count: count,
                    remaining_count: count,
                },
            );
        }
        Ok(())
    }

    /// Sets how many uses of `code` are left. Fails with `NotFound` where the
    /// code is unknown, and with `BadRequest` where `remaining` exceeds the
    /// uses the code was created with; the store is then unchanged.
    pub fn update_invite_code(&mut self, code: &str, remaining: u32) -> (r: Result<(), ApiError>)
        requires
            old(self).inv(),
        ensures
            final(self).inv(),
            !has_code(old(self)@.invite_codes, code@) ==> fails_with(r, ErrorKind::NotFound) && final(self)@ == old(self)@,
            forall|i: int|
                0 <= i < old(self)@.invite_codes.len() && #[trigger] old(self)@.invite_codes[i].code
                    == code@ ==> if remaining <= old(self)@.invite_codes[i].allowed_usage_count {
                    r is Ok && final(self)@.invite_codes == with_remaining(
                        old(self)@.invite_codes,
                        code@,
                        remaining,
                    ) && final(self)@.users == old(self)@.users && final(self)@.next_user_id
                        == old(self)@.next_user_id
                } else {
                    fails_with(r, ErrorKind::BadRequest) && final(self)@ == old(
                        self,
                    )@
                },
    {
        let key = code.to_owned();
        match self.find_code(&key) {
            None => Err(ApiError::new(ErrorKind::NotFound, "invite code not found")),
            Some(i) => {
                if remaining > self.invite_codes[i].allowed_usage_count {
                    return Err(
                        ApiError::new(
                            ErrorKind::BadRequest,
                            "remaining count exceeds the allowed usage count",
                        ),
                    );
                }
                self.invite_codes[i].remaining_count = remaining;
                assert(self@.invite_codes =~= with_remaining(
                    old(self)@.invite_codes,
                    code@,
                    remaining,
                ));
                proof {
                    lemma_same_keys(old(self)@, self@);
                }
                Ok(())
            },
        }
    }
}

} // verus!
