//! Records exchanged with the identity and metadata collaborators: users,
//! their device permissions, and the request and response shapes of the
//! account boundary. The collaborators themselves — password hashing,
//! token signing, persistent storage — live outside the verified core;
//! these are the plain values that cross the seam.

use vstd::prelude::*;

verus! {

/// A device as the metadata store records it.
#[derive(Debug, Clone, PartialEq)]
pub struct ESP32Device {
    pub id: String,
    pub name: String,
    pub mac_address: String,
    pub ip_address: Option<String>,
    pub status: String,
    pub maintenance_mode: bool,
    pub owner_id: String,
    pub firmware_version: Option<String>,
    pub last_seen: String,
    pub created_at: String,
    pub permissions: Vec<(String, String)>,
}

/// A request to record a new device.
#[derive(Debug, Clone, PartialEq)]
pub struct CreateDeviceRequest {
    pub name: String,
    pub mac_address: String,
}

/// A request to change a device's record.
#[derive(Debug, Clone, PartialEq)]
pub struct UpdateDeviceRequest {
    pub name: Option<String>,
    pub maintenance_mode: Option<bool>,
}

/// A request to grant or change a user's grade on a device.
#[derive(Debug, Clone, PartialEq)]
pub struct UpdatePermissionRequest {
    pub user_id: String,
    pub permission: String,
}

/// A registered user.
#[derive(Debug, Clone, PartialEq)]
pub struct User {
    pub id: String,
    pub email: String,
    pub display_name: String,
    pub password_hash: String,
}

/// The claims a signed session token binds.
#[derive(Debug, Clone, PartialEq)]
pub struct Claims {
    pub user_id: String,
    pub email: String,
    pub display_name: String,
    pub device_permissions: Vec<(String, String)>,
    pub exp: usize,
}

/// A request to create an account.
#[derive(Debug, Clone, PartialEq)]
pub struct RegisterRequest {
    pub email: String,
    pub display_name: String,
    pub password: String,
}

/// A request to open a session.
#[derive(Debug, Clone, PartialEq)]
pub struct LoginRequest {
    pub email: String,
    pub password: String,
}

/// A request to change a user's display name.
#[derive(Debug, Clone, PartialEq)]
pub struct UpdateDisplayNameRequest {
    pub display_name: String,
}

/// The account boundary's answer.
#[derive(Debug, Clone, PartialEq)]
pub struct AuthResponse {
    pub success: bool,
    pub message: String,
    pub email: Option<String>,
}

/// One user seeded at first start.
#[derive(Debug, Clone, PartialEq)]
pub struct InitialUserConfig {
    pub email: String,
    pub display_name: String,
    pub password: String,
    pub is_admin: bool,
}

/// The seeded-users file.
#[derive(Debug, Clone, PartialEq)]
pub struct InitialUsersFile {
    pub users: Vec<InitialUserConfig>,
}

/// A device's recorded liveness.
#[derive(Debug, Clone, PartialEq, Eq, Structural)]
pub enum DeviceStatus {
    Online,
    Offline,
    Error,
    Updating,
    Maintenance,
}

/// One permission grant.
#[derive(Debug, Clone, PartialEq)]
pub struct ESP32DevicePermission {
    pub device_id: String,
    pub user_id: String,
    pub permission: String,
}

} // verus!
