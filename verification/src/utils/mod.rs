pub mod address;
pub mod sync;
pub mod url;

pub use address::addr;
pub use address::SocketAddress;
pub use sync::new_arcmut;
pub use sync::ArcMut;
pub use sync::Rx;
pub use sync::Tx;
pub use url::from_url_safe;
pub use url::quoted;
pub use url::url_safe;
