//! The people whose calls are screened.

use crate::timestamp::Timestamp;
use vstd::prelude::*;

verus! {

/// Somebody whose calls are screened.
#[derive(Debug)]
pub struct User {
    pub id: u128,
    pub firebase_uid: Option<String>,
    pub email: String,
    pub name: Option<String>,
    pub phone_number: String,
    pub is_active: bool,
    pub created_at: Timestamp,
    pub updated_at: Timestamp,
}

/// How a user wants calls to be handled.
#[derive(Debug)]
pub struct UserSettings {
    pub id: u128,
    pub user_id: u128,
    pub enable_call_screening: bool,
    pub auto_spam_block: bool,
    pub voicemail_greeting: Option<String>,
    pub notification_preferences: NotificationPreferences,
    pub created_at: Timestamp,
    pub updated_at: Timestamp,
}

/// The ways in which a user wants to be told of a call.
#[derive(Clone, Copy, Debug, PartialEq, Eq, Structural)]
pub struct NotificationPreferences {
    pub email_notifications: bool,
    pub sms_notifications: bool,
    pub push_notifications: bool,
}

/// What somebody presents to sign in.
#[derive(Debug)]
pub struct AuthRequest {
    pub email: String,
    pub password: String,
}

/// What somebody who has signed in is given.
#[derive(Debug)]
pub struct AuthResponse {
    pub token: String,
    pub user: User,
}

/// What a token says of its bearer: the user, and the time, in seconds since
/// the epoch, at which the token runs out.
#[derive(Debug)]
pub struct Claims {
    pub sub: String,
    pub exp: usize,
}

} // verus!
