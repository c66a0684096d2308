//! The verified core of an MCP server for UniFi controllers.

pub mod answer_laws;
pub mod camera_laws;
pub mod camera_tools;
pub mod cameras;
pub mod catalog;
pub mod changes;
pub mod client_laws;
pub mod clients;
pub mod clock;
pub mod control;
pub mod control_laws;
pub mod device_laws;
pub mod devices;
pub mod display;
pub mod encode;
pub mod error;
pub mod events;
pub mod firewall;
pub mod inventory;
pub mod json;
pub mod mutation;
pub mod network_laws;
pub mod networks;
pub mod order;
pub mod overview;
pub mod paging;
pub mod paging_laws;
pub mod policies;
pub mod port_forwards;
pub mod protect_events;
pub mod protect_laws;
pub mod recorder;
pub mod redaction;
pub mod registry;
pub mod report;
pub mod rows;
pub mod scan;
pub mod schema;
pub mod schema_laws;
pub mod schema_meaning;
pub mod site;
pub mod site_laws;
pub mod stats;
pub mod system_log;
pub mod text;
pub mod text_laws;
pub mod tree;
pub mod vouchers;
pub mod wifi;
pub mod wifi_laws;
pub mod wlans;
pub mod write_laws;

pub use mutation::survives_its_own_redaction;
pub use networks::{IdentityPrincipal, MCP_ADMIN_GROUP};
pub use registry::{
    tool_registry,
    tools_for_surface,
    ToolBehavior,
    ToolKind,
    ToolSpec,
    ToolSurface,
};
