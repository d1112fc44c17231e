//! Machine layer of a terminal file manager: the entries that stand for the
//! machines of a fleet, their names, their targets, and the parsing of SSH
//! routes and configuration output.

pub mod actors;
pub mod cache;
pub mod error;
pub mod files;
pub mod laws;
pub mod machine;
pub mod order;
pub mod route;
pub mod ssh;
pub mod ssh_config;
pub mod text;
pub mod topology;
pub mod url;

pub use actors::{Bootstrap, Enter, Link, OpenYasa};
pub use cache::{root_files_from, target_for_cached, target_url, MachineCache};
pub use error::{ErrorKind, MachineError};
pub use files::{machine_entry_file, root_cha, Cha, File};
pub use machine::{clean_component, entry_name, Machine};
pub use order::sort_machines;
pub use route::{command_failure_message, route_ssh_target, Route};
pub use ssh::parse_ssh_target;
pub use ssh_config::{
    apply_ssh_config, parse_ssh_config_output, sftp_service_config, ssh_config_path, SftpConfig,
    SftpDefaults, SftpService, SshConfig,
};
pub use text::{chars_of, non_empty, trim_str};
pub use topology::{
    discover_next, fallback_machine, machine_from_topology, machines_from_topology, DiscoverAction,
    Topology, TopologyMachine, TopologyRead, TopologySsh,
};
pub use url::{entry_slug_from_url, is_entry_url, is_root_url, root_url, UrlBuf, UrlScheme};
