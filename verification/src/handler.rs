//! The records of topic registration.

use vstd::prelude::*;

verus! {

/// A user asks to be registered for a topic.
#[derive(Debug, PartialEq, Eq)]
pub struct RegisterRequest {
    pub user_id: usize,
    pub topic: String,
}

/// A client asks to be added to a topic or taken off it.
#[derive(Debug, PartialEq, Eq)]
pub struct TopicActionRequest {
    pub topic: String,
    pub client_id: String,
}

/// The address under which a registered user connects.
#[derive(Debug, PartialEq, Eq)]
pub struct RegisterResponse {
    pub url: String,
}

/// A message for the subscribers of a topic, or for one user among them.
#[derive(Debug, PartialEq, Eq)]
pub struct Event {
    pub topic: String,
    pub user_id: Option<usize>,
    pub message: String,
}

} // verus!
