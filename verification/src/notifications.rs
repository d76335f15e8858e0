//! Notifications sent through ntfy: the request and what its answer means.
//! The request is sent by the caller.
use vstd::prelude::*;

use crate::text::{push_str, to_owned_string};

verus! {

/// A notification to post: to `url`, with a `Title` header and the message
/// as body.
#[derive(Debug)]
pub struct NotificationRequest {
    pub url: String,
    pub title: String,
    pub body: String,
}

/// Sends notifications.
pub trait NotificationService {
    /// The request that delivers a notification.
    fn send_notification(&self, title: &str, message: &str) -> NotificationRequest;
}

/// Notifications through an ntfy topic URL.
#[derive(Debug)]
pub struct NtfyService {
    pub url: String,
}

impl NtfyService {
    /// A service posting to `url`.
    pub fn new(url: String) -> (res: Self)
        ensures
            res.url == url,
    {
        NtfyService { url }
    }

    /// What the answer to a notification means: success, or an error with its
    /// status and body (`None` when the body could not be read).
    pub fn outcome(success: bool, status: &str, body: Option<&str>) -> (res: Result<(), String>)
        ensures
            success ==> res is Ok,
            !success ==> (res matches Err(e) && e@ == "Failed to send notification: "@ + status@ + " - "@
                + match body { Some(b) => b@, None => "Failed to read response"@ }),
    {
        if success {
            return Ok(());
        }
        let mut e = to_owned_string("Failed to send notification: ");
        push_str(&mut e, status);
        push_str(&mut e, " - ");
        match body {
            Some(b) => push_str(&mut e, b),
            None => push_str(&mut e, "Failed to read response"),
        }
        Err(e)
    }
}

impl NotificationService for NtfyService {
    fn send_notification(&self, title: &str, message: &str) -> (res: NotificationRequest)
        ensures
            res.url@ == self.url@,
            res.title@ == title@,
            res.body@ == message@,
    {
        NotificationRequest { url: self.url.clone(), title: to_owned_string(title), body: to_owned_string(message) }
    }
}

} // verus!
