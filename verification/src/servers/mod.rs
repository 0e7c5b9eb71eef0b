pub mod messages;
pub mod user_mapping;

pub use messages::MessageServer;
pub use user_mapping::UserMappingServer;
