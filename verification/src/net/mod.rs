//! The binary protocol spoken between clients and the server.

pub mod framing;
pub mod messages;
pub mod names;
pub mod packages;
pub mod wire;

pub use framing::FrameShape;
pub use packages::ClientPackagePlayerPosition;
pub use packages::PackageBlockUpdate;
pub use packages::ServerPackageLogout;
pub use packages::ServerPackagePlayerPosition;
pub use packages::ServerPlayerLogin;
