//! Users as the API sees them: roles, service categories, credentials and
//! token claims.

use vstd::prelude::*;

verus! {

/// The claims of a user's access token.
#[derive(Clone, Copy, Debug, PartialEq, Eq, Structural)]
pub struct UserJWT {
    /// The user's id.
    pub id: i32,
}

/// What a user is on the platform.
#[derive(Clone, Copy, Debug, PartialEq, Eq, Structural)]
pub enum UserRole {
    /// Books services.
    Customer,
    /// Offers services.
    Professional,
}

/// The kind of service a professional offers.
#[derive(Clone, Copy, Debug, PartialEq, Eq, Structural)]
pub enum ServiceCategory {
    BeautySpa,
    Cleaning,
    Plumbing,
    Carpentry,
    ApplianceRepair,
    Painting,
    HennaArtist,
    Photography,
    Gardening,
    FashionDesign,
    WeddingPlanning,
    EventPlanning,
    WeddingCatering,
    EventCatering,
    WeddingDecor,
    EventDecor,
    WeddingPhoto,
    EventPhoto,
    WeddingVideo,
    EventVideo,
    Other,
}

/// The credentials of a login.
#[derive(Clone, Debug, PartialEq, Eq)]
pub struct LoginRequest {
    pub email: String,
    pub password: String,
}

/// One row of a user query: the user as a JSON text.
#[derive(Clone, Debug, PartialEq, Eq)]
pub struct RawJsonUser {
    pub user: String,
}

} // verus!
