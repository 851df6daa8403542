//! Data shapes of the request and response boundary around the engine:
//! users and roles, permissions, catalogue listings, pagination envelopes
//! and filters. These carry no logic of their own; amounts are in cents.

use vstd::prelude::*;

verus! {

/// A user account as managed in settings.
#[derive(Clone, Debug)]
pub struct User {
    pub id: String,
    pub username: String,
    pub full_name: String,
    pub role_id: String,
    pub is_active: bool,
    pub avatar_url: Option<String>,
    pub created_at: String,
}

/// The outcome of an authentication attempt.
#[derive(Clone, Debug)]
pub struct AuthResponse {
    pub success: bool,
    pub message: String,
    pub user: Option<User>,
}

/// A page of results with its paging figures.
#[derive(Clone, Debug)]
pub struct PaginatedResult<T> {
    pub data: Vec<T>,
    pub total: i64,
    pub page: i64,
    pub page_size: i64,
    pub total_pages: i64,
}

/// A page of results, as the inventory listings shape it.
#[derive(Clone, Debug)]
pub struct PaginatedResponse<T> {
    pub data: Vec<T>,
    pub total: i64,
    pub page: i64,
    pub page_size: i64,
    pub total_pages: i64,
}

/// One category row of the catalogue listing.
#[derive(Clone, Debug)]
pub struct CategoryListDto {
    pub id: String,
    pub name: String,
    pub description: Option<String>,
    pub color: String,
    pub parent_id: Option<String>,
    pub sequence: i32,
    pub product_count: i64,
    pub children_count: i64,
    pub depth: i32,
    pub created_at: String,
    pub is_active: bool,
}

/// A coded inventory failure handed back to the caller.
#[derive(Clone, Debug)]
pub struct InventoryError {
    pub code: String,
    pub message: String,
}

#[derive(Clone, Debug)]
pub struct CreateCategoryDto {
    pub name: String,
    pub parent_id: Option<String>,
    pub color: String,
    pub sequence: i32,
    pub description: Option<String>,
}

#[derive(Clone, Debug)]
pub struct UpdateCategoryDto {
    pub id: String,
    pub name: String,
    pub parent_id: Option<String>,
    pub color: String,
    pub sequence: i32,
    pub description: Option<String>,
    pub is_active: Option<bool>,
}

/// A coded category-deletion failure with the blocking details.
#[derive(Clone, Debug)]
pub struct DeleteCategoryError {
    pub code: String,
    pub message: String,
    pub details: Vec<String>,
}

/// One kit row of the catalogue listing.
#[derive(Clone, Debug)]
pub struct KitListItem {
    pub id: String,
    pub name: String,
    pub description: Option<String>,
    pub triggers_count: i64,
    pub items_summary: Option<String>,
    pub is_active: bool,
    pub created_at: String,
}

/// One inventory movement row of the listing.
#[derive(Clone, Debug)]
pub struct InventoryMovementView {
    pub id: String,
    pub product_name: String,
    pub user_name: String,
    pub movement_type: String,
    pub reason: String,
    pub quantity: i64,
    pub previous_stock: i64,
    pub new_stock: i64,
    pub formatted_date: String,
    pub notes: Option<String>,
    pub reference: Option<String>,
}

/// Filter of the inventory movement listing.
#[derive(Clone, Debug)]
pub struct MovementsFilter {
    pub search: Option<String>,
    pub movement_type: Option<String>,
    pub start_date: Option<String>,
    pub end_date: Option<String>,
}

#[derive(Clone, Debug)]
pub struct CreateInventoryMovementPayload {
    pub product_id: String,
    pub user_id: String,
    pub movement_type: String,
    pub quantity: i64,
    pub reason: String,
    pub notes: Option<String>,
}

/// What to do with a product's stored image on update.
#[derive(Clone, Copy, Debug, PartialEq, Eq, Structural)]
pub enum ImageAction {
    Keep,
    Remove,
    Replace,
}

/// Filter of the sales history listing.
#[derive(Clone, Debug)]
pub struct SalesFilter {
    pub page: i64,
    pub page_size: i64,
    pub start_date: Option<String>,
    pub end_date: Option<String>,
    pub status: Option<Vec<String>>,
    pub payment_method: Option<String>,
    pub user_id: Option<String>,
    pub customer_id: Option<String>,
    pub folio: Option<String>,
    pub product_search: Option<String>,
    pub sort_by: Option<String>,
    pub sort_order: Option<String>,
}

/// One grantable permission.
#[derive(Clone, Debug)]
pub struct Permission {
    pub id: String,
    pub name: String,
    pub display_name: String,
    pub description: Option<String>,
    pub module: String,
    pub sequence: i32,
}

/// The grant of one permission to one role.
#[derive(Clone, Debug)]
pub struct RolePermission {
    pub role_id: String,
    pub permission_id: String,
}

/// A coded permission-update failure.
#[derive(Clone, Debug)]
pub struct PermissionUpdateError {
    pub code: String,
    pub message: String,
}

/// One user row of the settings listing.
#[derive(Clone, Debug)]
pub struct UserView {
    pub id: String,
    pub username: String,
    pub full_name: String,
    pub avatar_url: Option<String>,
    pub created_at: String,
    pub role_name: String,
    pub role_id: String,
    pub is_active: bool,
}

#[derive(Clone, Debug)]
pub struct CreateUserPayload {
    pub username: String,
    pub password: String,
    pub full_name: String,
    pub role_id: String,
    pub is_active: bool,
    pub avatar_url: Option<String>,
}

/// A coded user-creation failure.
#[derive(Clone, Debug)]
pub struct CreateUserError {
    pub code: String,
    pub message: String,
}

/// A role a user can hold.
#[derive(Clone, Debug)]
pub struct Role {
    pub id: String,
    pub name: String,
    pub display_name: String,
}

#[derive(Clone, Debug)]
pub struct UpdateUserPayload {
    pub id: String,
    pub full_name: String,
    pub role_id: String,
    pub is_active: bool,
    pub avatar_url: Option<String>,
    pub current_user_id: String,
}

} // verus!
