//! Telemetry bridge core: unit records, the user's filter, the situational-awareness
//! XML renderer, datagram framing and the topic-routing decisions of the fan-out hub.

pub mod atomic_event;
pub mod client_session;
pub mod config;
pub mod cursor_on_target;
pub mod flags;
pub mod listener;
pub mod messaging;
pub mod mission_time;
pub mod pipeline;
pub mod registry;
pub mod unit;
