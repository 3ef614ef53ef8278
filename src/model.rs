use vstd::prelude::*;

verus! {

/// Stable identity of a user.
#[derive(Clone, Copy, Debug, PartialEq, Eq, Structural)]
pub struct UserId(pub i32);

/// What a user record holds, as mathematical values.
pub struct UserModel {
    pub id: i32,
    pub login: Seq<char>,
    pub admin: bool,
}

/// A user of the directory.
#[derive(Debug)]
pub struct User {
    pub id: UserId,
    pub github_login: String,
    pub admin: bool,
}

impl View for User {
    type V = UserModel;

    open spec fn view(&self) -> UserModel {
        UserModel { id: self.id.0, login: self.github_login@, admin: self.admin }
    }
}

impl User {
    /// A copy of this record.
    pub fn duplicate(&self) -> (r: User)
        ensures
            r@ == self@,
    {
        User { id: self.id, github_login: self.github_login.clone(), admin: self.admin }
    }
}

/// What an invite code record holds, as mathematical values.
pub struct InviteCodeModel {
    pub code: Seq<char>,
    pub owner: i32,
    pub allowed_usage_count: u32,
    pub remaining_count: u32,
}

/// A code that admits a bounded number of registrations, owned by a user.
#[derive(Debug)]
pub struct InviteCode {
    pub code: String,
    pub owner_user_id: UserId,
    pub allowed_usage_count: u32,
    pub remaining_count: u32,
}

impl View for InviteCode {
    type V = InviteCodeModel;

    open spec fn view(&self) -> InviteCodeModel {
        InviteCodeModel {
            code: self.code@,
            owner: self.owner_user_id.0,
            allowed_usage_count: self.allowed_usage_count,
            remaining_count: self.remaining_count,
        }
    }
}

impl InviteCode {
    /// A copy of this record.
    pub fn duplicate(&self) -> (r: InviteCode)
        ensures
            r@ == self@,
    {
        InviteCode {
            code: self.code.clone(),
            owner_user_id: self.owner_user_id,
            allowed_usage_count: self.allowed_usage_count,
            remaining_count: self.remaining_count,
        }
    }
}

} // verus!
