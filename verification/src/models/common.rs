//! Query parameters shared by the listing endpoints.

use vstd::prelude::*;

verus! {

/// The query parameters of a user listing: which columns to return, which
/// rows to keep, and which page of them.
#[derive(Clone, Debug, PartialEq, Eq)]
pub struct FieldSelection {
    /// The columns to return, separated by commas, such as `id,name,email`.
    /// Without it every column is returned.
    pub fields: Option<String>,
    /// Keep the users whose email contains this text.
    pub email: Option<String>,
    /// Keep the users whose name contains this text.
    pub name: Option<String>,
    /// Keep the users with this role.
    pub role: Option<String>,
    /// Keep the users whose phone number contains this text.
    pub phone_number: Option<String>,
    /// The largest number of users to return.
    pub limit: Option<i32>,
    /// The number of users to skip.
    pub off_set: Option<i32>,
}

/// The mathematical content of a `FieldSelection`.
pub struct FieldSelectionView {
    pub fields: Option<Seq<char>>,
    pub email: Option<Seq<char>>,
    pub name: Option<Seq<char>>,
    pub role: Option<Seq<char>>,
    pub phone_number: Option<Seq<char>>,
    pub limit: Option<i32>,
    pub off_set: Option<i32>,
}

impl View for FieldSelection {
    type V = FieldSelectionView;

    open spec fn view(&self) -> FieldSelectionView {
        FieldSelectionView {
            fields: self.fields.deep_view(),
            email: self.email.deep_view(),
            name: self.name.deep_view(),
            role: self.role.deep_view(),
            phone_number: self.phone_number.deep_view(),
            limit: self.limit,
            off_set: self.off_set,
        }
    }
}

} // verus!
