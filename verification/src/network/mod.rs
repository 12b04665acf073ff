//! Workspace networking.

pub mod addr;
pub mod bridge;
pub mod dhcp;
pub mod laws;
pub mod manager;
pub mod nftables;
pub mod policy;

pub use addr::Ipv4Addr;
pub use bridge::{tap_device_name, BridgeManager};
pub use dhcp::IpAllocator;
pub use manager::{NetworkManager, WorkspaceNetworkSetup};
pub use nftables::{NetworkPolicy, NftablesManager, PortForwardRule};
