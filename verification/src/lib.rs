//! A client library for an HTTPS push-notification service: it builds the
//! notification payload and its exact wire encoding, manages a short-lived
//! signed bearer token with a twenty-minute cache, derives the per-push
//! transport headers, and classifies the service's responses. The transport
//! itself stays outside: callers submit the prepared path, headers and body,
//! and hand the response back to be interpreted.

pub mod client;
pub mod endpoint;
pub mod json;
pub mod payload;

pub use client::APNClient;
pub use client::APNClientConfig;
pub use client::APNClientError;
pub use client::APNErrorResponse;
pub use client::APNResponse;
pub use client::APNTokenClaims;

pub use endpoint::Endpoint;
pub use endpoint::PushOption;

pub use json::JsonValue;
pub use payload::Alert;
pub use payload::Body;
pub use payload::BuildError;
pub use payload::InterruptionLevel;
pub use payload::JsonObjectError;
pub use payload::Notification;
pub use payload::Payload;
pub use payload::Sound;
pub use payload::Subtitle;
pub use payload::Title;
