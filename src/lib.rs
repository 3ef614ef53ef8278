//! Administrative API of a collaboration server: a user directory, invite
//! codes with usage counters, access-token issuance with admin
//! impersonation, and the shared-secret gate in front of all of it.

pub mod api;
pub mod error;
pub mod gate;
pub mod model;
pub mod stories;
pub mod store;

pub use api::{
    access_token_response, authorize_impersonation, create_access_token, create_invite_code,
    create_user, destroy_user, get_invite_codes, get_user, get_users, update_invite_code,
    update_user, CreateAccessTokenResponse, Impersonation, ImpersonationDecision,
    INVITE_CODE_LENGTH,
};
pub use error::{ApiError, ErrorKind};
pub use gate::validate_api_token;
pub use model::{InviteCode, User, UserId};
pub use stories::ListItemStory;
pub use store::Database;
