//! Host-side protocol layer for HSLink debug probes: device selection,
//! session state, report framing and response validation.
//!
//! Everything here works on plain values. Talking to the HID bus, and
//! reading the host's volume list, is left to the caller, which hands the
//! results to these functions.

pub mod error;
pub mod frame;
pub mod locator;
pub mod registry;
pub mod response;
pub mod session;

pub use error::HSLinkError;
pub use frame::{encode_frame, strip_frame, FRAME_LEN, IN_REPORT_ID, MAX_PAYLOAD, OUT_REPORT_ID};
pub use locator::{
    find_bl, find_cherrydap_drive, split_nul_list, trim_label, Volume, BOOTLOADER_LABEL,
};
pub use registry::{find_device, hslink_list_device, DeviceRecord, HSLINK_PID, HSLINK_VID};
pub use response::{decode_response, response_payload};
pub use session::{write_outcome, Session};
