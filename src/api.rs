use vstd::prelude::*;

use crate::error::{fails_with, ApiError, ErrorKind};
use crate::model::{InviteCode, InviteCodeModel, User, UserId, UserModel};
use crate::store::{codes_of, has_code, has_login, has_user_id, with_admin, Database};

verus! {

/// Number of symbols in a generated invite code.
pub const INVITE_CODE_LENGTH: usize = 16;

/// A symbol that may stand in a URL unescaped: `A-Z`, `a-z`, `0-9`, `_`, `-`.
pub open spec fn is_url_safe_char(c: char) -> bool {
    ||| c == '_'
    ||| c == '-'
    ||| ('0' <= c && c <= '9')
    ||| ('a' <= c && c <= 'z')
    ||| ('A' <= c && c <= 'Z')
}

pub open spec fn is_url_safe(s: Seq<char>) -> bool {
    forall|i: int| 0 <= i < s.len() ==> is_url_safe_char(#[trigger] s[i])
}

/// Relies on `nanoid::format` with `nanoid::rngs::default` and
/// `nanoid::alphabet::SAFE`: it returns exactly `size` symbols, each taken
/// from that 64-symbol URL-safe alphabet by a random byte. It never returns
/// for `size == 0`, and it computes `8 * size`.
#[verifier::external_body]
fn random_url_safe(size: usize) -> (r: String)
    requires
        0 < size <= usize::MAX / 8,
    ensures
        r@.len() == size,
        is_url_safe(r@),
{
    nanoid::format(nanoid::rngs::default, &nanoid::alphabet::SAFE, size)
}

/// Whether some stored code has the shape of a generated one, so that a new
/// random code may collide with it.
pub open spec fn has_generable_code(codes: Seq<InviteCodeModel>) -> bool {
    exists|i: int|
        0 <= i < codes.len() && #[trigger] codes[i].code.len() == INVITE_CODE_LENGTH
            && is_url_safe(codes[i].code)
}

/// Every user, in the order of creation.
pub fn get_users(app: &Database) -> (r: Vec<User>)
    ensures
        r@.map_values(|u: User| u@) == app@.users,
{
    app.get_all_users()
}

/// Creates a user and returns the record as stored. Fails with `Conflict`
/// where the login is taken and with `Internal` where the store cannot hold
/// one more user.
pub fn create_user(app: &mut Database, github_login: &str, admin: bool) -> (r: Result<
    User,
    ApiError,
>)
    requires
        old(app).inv(),
    ensures
        final(app).inv(),
        has_login(old(app)@.users, github_login@) ==> fails_with(r, ErrorKind::Conflict)
            && final(app)@ == old(app)@,
        !has_login(old(app)@.users, github_login@) && old(app)@.next_user_id == i32::MAX
            ==> fails_with(r, ErrorKind::Internal) && final(app)@ == old(app)@,
        !has_login(old(app)@.users, github_login@) && old(app)@.next_user_id < i32::MAX ==> {
            let created = UserModel {
                id: old(app)@.next_user_id as i32,
                login: github_login@,
                admin,
            };
            &&& r is Ok
            &&& r->Ok_0@ == created
            &&& final(app)@.users == old(app)@.users.push(created)
            &&& final(app)@.invite_codes == old(app)@.invite_codes
        },
{
    let user_id = match app.create_user(github_login, admin) {
        Ok(id) => id,
        Err(e) => {
            return Err(e);
        },
    };
    match app.get_user_by_id(user_id) {
        Some(user) => {
            proof {
                let users = app@.users;
                let last = users.len() - 1;
                let k = choose|k: int| 0 <= k < users.len() && users[k] == user@;
                assert(users[k].id == users[last].id);
                assert(k == last);
            }
            Ok(user)
        },
        None => {
            proof {
                let users = app@.users;
                assert(users[users.len() - 1].id == user_id.0);
            }
            Err(ApiError::new(ErrorKind::Internal, "couldn't find the user we just created"))
        },
    }
}

/// Sets the admin flag of user `user_id`; a call that changes nothing still
/// succeeds. Fails with `NotFound` where no user has that id.
pub fn update_user(app: &mut Database, user_id: i32, admin: bool) -> (r: Result<(), ApiError>)
    requires
        old(app).inv(),
    ensures
        final(app).inv(),
        !has_user_id(old(app)@.users, user_id) ==> fails_with(r, ErrorKind::NotFound)
            && final(app)@ == old(app)@,
        has_user_id(old(app)@.users, user_id) ==> r is Ok && final(app)@.users == with_admin(
            old(app)@.users,
            user_id,
            admin,
        ) && final(app)@.invite_codes == old(app)@.invite_codes && final(app)@.next_user_id
            == old(app)@.next_user_id,
{
    app.set_user_is_admin(UserId(user_id), admin)
}

/// Deletes user `user_id`. Fails with `NotFound` where no user has that id.
pub fn destroy_user(app: &mut Database, user_id: i32) -> (r: Result<(), ApiError>)
    requires
        old(app).inv(),
    ensures
        final(app).inv(),
        !has_user_id(old(app)@.users, user_id) ==> fails_with(r, ErrorKind::NotFound)
            && final(app)@ == old(app)@,
        has_user_id(old(app)@.users, user_id) ==> r is Ok && (exists|i: int|
            0 <= i < old(app)@.users.len() && old(app)@.users[i].id == user_id
                && final(app)@.users == old(app)@.users.remove(i))
            && final(app)@.invite_codes == old(app)@.invite_codes,
{
    app.destroy_user(UserId(user_id))
}

/// The user with this login. Fails with `NotFound` where there is none.
pub fn get_user(app: &Database, login: &str) -> (r: Result<User, ApiError>)
    ensures
        !has_login(app@.users, login@) ==> fails_with(r, ErrorKind::NotFound),
        has_login(app@.users, login@) ==> r is Ok && app@.users.contains(r->Ok_0@)
            && r->Ok_0@.login == login@,
{
    match app.get_user_by_github_login(login) {
        Some(user) => Ok(user),
        None => Err(ApiError::new(ErrorKind::NotFound, "user not found")),
    }
}

/// The invite codes that user `user_id` owns, in the order of creation.
pub fn get_invite_codes(app: &Database, user_id: i32) -> (r: Vec<InviteCode>)
    ensures
        r@.map_values(|c: InviteCode| c@) == codes_of(app@.invite_codes, user_id),
{
    app.get_invite_codes(UserId(user_id))
}

/// Creates an invite code for user `user_id` with `allowed_usage_count`
/// uses, all of them left. The code is random: `INVITE_CODE_LENGTH` URL-safe
/// symbols, and no other stored code is written the same way. Fails with
/// `NotFound` where no user has that id; where the random code is already
/// stored it fails with `Conflict` and does not try another, so it succeeds
/// for an existing user whenever no stored code has the shape of a
/// generated one.
pub fn create_invite_code(app: &mut Database, user_id: i32, allowed_usage_count: u32) -> (r:
    Result<(), ApiError>)
    requires
        old(app).inv(),
    ensures
        final(app).inv(),
        !has_user_id(old(app)@.users, user_id) ==> fails_with(r, ErrorKind::NotFound)
            && final(app)@ == old(app)@,
        has_user_id(old(app)@.users, user_id) && r is Err ==> fails_with(r, ErrorKind::Conflict)
            && final(app)@ == old(app)@,
        has_user_id(old(app)@.users, user_id) && r is Err ==> has_generable_code(
            old(app)@.invite_codes,
        ),
        r is Ok ==> {
            let codes = final(app)@.invite_codes;
            let created = codes.last();
            &&& has_user_id(old(app)@.users, user_id)
            &&& codes.len() == old(app)@.invite_codes.len() + 1
            &&& codes.drop_last() == old(app)@.invite_codes
            &&& created.owner == user_id
            &&& created.allowed_usage_count == allowed_usage_count
            &&& created.remaining_count == allowed_usage_count
            &&& created.code.len() == INVITE_CODE_LENGTH
            &&& is_url_safe(created.code)
            &&& !has_code(old(app)@.invite_codes, created.code)
            &&& final(app)@.users == old(app)@.users
        },
{
    let code = random_url_safe(INVITE_CODE_LENGTH);
    let r = app.create_invite_code(UserId(user_id), code.as_str(), allowed_usage_count);
    proof {
        if r is Ok {
            assert(final(app)@.invite_codes.drop_last() =~= old(app)@.invite_codes);
        }
    }
    r
}

/// Sets how many uses of `code` are left. Fails with `NotFound` where the
/// code is unknown, and with `BadRequest` where `remaining_count` exceeds
/// the uses the code was created with.
pub fn update_invite_code(app: &mut Database, code: &str, remaining_count: u32) -> (r: Result<
    (),
    ApiError,
>)
    requires
        old(app).inv(),
    ensures
        final(app).inv(),
        !has_code(old(app)@.invite_codes, code@) ==> fails_with(r, ErrorKind::NotFound)
            && final(app)@ == old(app)@,
        forall|i: int|
            0 <= i < old(app)@.invite_codes.len() && #[trigger] old(app)@.invite_codes[i].code
                == code@ ==> if remaining_count <= old(app)@.invite_codes[i].allowed_usage_count {
                r is Ok && final(app)@.invite_codes == crate::store::with_remaining(
                    old(app)@.invite_codes,
                    code@,
                    remaining_count,
                ) && final(app)@.users == old(app)@.users
            } else {
                fails_with(r, ErrorKind::BadRequest) && final(app)@ == old(app)@
            },
{
    app.update_invite_code(code, remaining_count)
}

/// Whose token a request asks for: the requester's own, or that of the
/// user with the given login.
pub enum Impersonation {
    NoImpersonation,
    ImpersonateLogin(String),
}

/// The outcome of an impersonation request.
#[derive(Clone, Copy, Debug, PartialEq, Eq, Structural)]
pub enum ImpersonationDecision {
    /// No impersonation was asked for: the token is the requester's own.
    ActAsSelf,
    /// An admin asked for the token of this existing user.
    ActAs(UserId),
    /// The requester is no admin and may not impersonate.
    NotAuthorized,
    /// The requester is an admin but the login names no user.
    TargetMissing,
}

/// Whether the user with login `login` has id `id`.
pub open spec fn login_has_id(users: Seq<UserModel>, login: Seq<char>, id: i32) -> bool {
    exists|i: int| 0 <= i < users.len() && #[trigger] users[i].login == login && users[i].id == id
}

/// The decision on an impersonation request, over the users of the store.
pub open spec fn impersonation_spec(
    users: Seq<UserModel>,
    requester_admin: bool,
    impersonate: Impersonation,
    d: ImpersonationDecision,
) -> bool {
    match impersonate {
        Impersonation::NoImpersonation => d == ImpersonationDecision::ActAsSelf,
        Impersonation::ImpersonateLogin(login) => if !requester_admin {
            d == ImpersonationDecision::NotAuthorized
        } else if !has_login(users, login@) {
            d == ImpersonationDecision::TargetMissing
        } else {
            d matches ImpersonationDecision::ActAs(id) && login_has_id(users, login@, id.0)
        },
    }
}

/// Decides whether a requester with the given admin flag may have a token
/// issued for another user: only an admin may, and only for a login that
/// names an existing user.
pub fn authorize_impersonation(
    app: &Database,
    requester_admin: bool,
    impersonate: &Impersonation,
) -> (r: ImpersonationDecision)
    ensures
        impersonation_spec(app@.users, requester_admin, *impersonate, r),
{
    match impersonate {
        Impersonation::NoImpersonation => ImpersonationDecision::ActAsSelf,
        Impersonation::ImpersonateLogin(login) => {
            if !requester_admin {
                ImpersonationDecision::NotAuthorized
            } else {
                match app.get_user_by_github_login(login.as_str()) {
                    Some(target) => {
                        proof {
                            let k = choose|k: int|
                                0 <= k < app@.users.len() && app@.users[k] == target@;
                            assert(app@.users[k].login == login@);
                        }
                        ImpersonationDecision::ActAs(target.id)
                    },
                    None => ImpersonationDecision::TargetMissing,
                }
            }
        },
    }
}

/// The user for whom a token is issued at the request of the user with login
/// `login`: that user, or the one an admin impersonates. Fails with
/// `NotFound` where `login` names no user, with `Unauthorized` where a
/// non-admin asks to impersonate, whether or not the target exists, and with
/// `UnprocessableEntity` where an admin names a target that does not exist.
pub fn create_access_token(app: &Database, login: &str, impersonate: &Impersonation) -> (r:
    Result<UserId, ApiError>)
    requires
        app.inv(),
    ensures
        !has_login(app@.users, login@) ==> fails_with(r, ErrorKind::NotFound),
        forall|i: int|
            0 <= i < app@.users.len() && #[trigger] app@.users[i].login == login@ ==> {
                let requester = app@.users[i];
                match *impersonate {
                    Impersonation::NoImpersonation => r == Ok::<UserId, ApiError>(
                        UserId(requester.id),
                    ),
                    Impersonation::ImpersonateLogin(target) => if !requester.admin {
                        fails_with(r, ErrorKind::Unauthorized)
                    } else if !has_login(app@.users, target@) {
                        fails_with(r, ErrorKind::UnprocessableEntity)
                    } else {
                        r is Ok && login_has_id(app@.users, target@, r->Ok_0.0)
                    },
                }
            },
{
    let user = match app.get_user_by_github_login(login) {
        Some(user) => user,
        None => {
            return Err(ApiError::new(ErrorKind::NotFound, "user not found"));
        },
    };
    proof {
        let users = app@.users;
        let k = choose|k: int| 0 <= k < users.len() && users[k] == user@;
        assert forall|i: int| 0 <= i < users.len() && #[trigger] users[i].login == login@ implies users[i]
            == user@ by {
            assert(users[k].login == users[i].login);
        }
    }
    match authorize_impersonation(app, user.admin, impersonate) {
        ImpersonationDecision::ActAsSelf => Ok(user.id),
        ImpersonationDecision::ActAs(target) => Ok(target),
        ImpersonationDecision::NotAuthorized => Err(
            ApiError::new(
                ErrorKind::Unauthorized,
                "you do not have permission to impersonate other users",
            ),
        ),
        ImpersonationDecision::TargetMissing => Err(
            ApiError::new(ErrorKind::UnprocessableEntity, "the user to impersonate does not exist"),
        ),
    }
}

/// What a client receives for a token request.
#[derive(Debug)]
pub struct CreateAccessTokenResponse {
    pub user_id: UserId,
    pub encrypted_access_token: String,
}

/// Builds the reply to a token request for user `user_id` from the sealed
/// token, or from `None` where sealing under the client's public key failed:
/// that is a `BadRequest`, and its message holds nothing of the secret.
pub fn access_token_response(user_id: UserId, sealed: Option<String>) -> (r: Result<
    CreateAccessTokenResponse,
    ApiError,
>)
    ensures
        sealed is None ==> fails_with(r, ErrorKind::BadRequest),
        sealed is Some ==> r is Ok && r->Ok_0.user_id == user_id
            && r->Ok_0.encrypted_access_token@ == sealed->Some_0@,
{
    match sealed {
        Some(encrypted_access_token) => Ok(CreateAccessTokenResponse { user_id, encrypted_access_token }),
        None => Err(ApiError::new(ErrorKind::BadRequest, "invalid public key")),
    }
}

} // verus!
