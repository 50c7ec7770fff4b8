//! Numeric message types carried in the first two bytes of an envelope.

use vstd::prelude::*;

verus! {

/// Anonymous request for the server's version.
pub const VERSION_REQUEST: u16 = 258;

/// Anonymous reply carrying a version.
pub const VERSION_REPLY: u16 = 2;

/// Positive acknowledgement.
pub const ACK_REPLY: u16 = 1100;

/// Negative acknowledgement with an error code and text.
pub const NACK_REPLY: u16 = 9999;

/// Request to delete the data of records.
pub const REPO_DATA_DELETE_REQUEST: u16 = 591;

/// Request for the size of the data of records.
pub const REPO_DATA_GET_SIZE_REQUEST: u16 = 592;

/// Request to create a directory.
pub const REPO_PATH_CREATE_REQUEST: u16 = 594;

/// Request to delete a directory tree.
pub const REPO_PATH_DELETE_REQUEST: u16 = 595;

/// Reply carrying the sizes of record data.
pub const REPO_DATA_SIZE_REPLY: u16 = 13323;

} // verus!
