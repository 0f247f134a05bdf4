use vstd::prelude::*;

verus! {

pub const ALREADY_OPEN: u32 = 125;
pub const ABOUT_TO_SEND: u32 = 150;
pub const COMMAND_OK: u32 = 200;
pub const FILE: u32 = 213;
pub const READY: u32 = 220;
pub const CLOSING: u32 = 221;
pub const CLOSING_DATA_CONNECTION: u32 = 226;
pub const PASSIVE_MODE: u32 = 227;
pub const LOGGED_IN: u32 = 230;
pub const REQUESTED_FILE_ACTION_OK: u32 = 250;
pub const PATH_CREATED: u32 = 257;
pub const NEED_PASSWORD: u32 = 331;
pub const REQUEST_FILE_PENDING: u32 = 350;
pub const FILE_UNAVAILABLE: u32 = 550;

} // verus!
