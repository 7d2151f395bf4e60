//! Verified core of the WumaTracker position tracker: the decision and parsing
//! logic of the kernel driver's coordinate path and of the desktop client.

pub mod abi;
pub mod bytes;
pub mod collector;
pub mod coord_chain;
pub mod device;
pub mod driver_client;
pub mod errors;
pub mod game_paths;
pub mod helper;
pub mod keyed_table;
pub mod locator_cache;
pub mod mac_image;
pub mod macho_entry;
pub mod macho_lookup;
pub mod offsets;
pub mod pe_scan;
pub mod names;
pub mod process_backend;
pub mod process_list;
pub mod room_code;
pub mod signaling;
pub mod supervisor;
pub mod text;
pub mod user_scan;
