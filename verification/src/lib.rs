pub mod chatroom;
pub mod chatserver;
pub mod clock;
pub mod loadbalancer;
pub mod message;
pub mod servers;
pub mod string_map;
pub mod user;
pub mod utils;

pub use chatroom::ChatRoom;
pub use chatserver::ChatServer;
pub use message::Message;
pub use user::User;
pub use loadbalancer::LoadBalancer;
