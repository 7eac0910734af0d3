//! The example module: an echo port and the description of the native
//! function collection.

use vstd::prelude::*;
use crate::port_drivers::{EchoPortData, Message, PortResult, handle_echo_message};

verus! {

/// Name and version of the native function collection.
pub const MODULE_INFO: &'static str = "avmnif-rs Complete NIF Collection v0.4.0";

/// Number of native functions the collection registers: four arithmetic
/// ones and five counter ones.
pub const NIF_COUNT: usize = 9;

/// Module set-up; the example module needs none.
pub fn init_example_module() {
}

/// Module set-up of the arithmetic collection; it needs none.
pub fn init() {
}

/// Opens an echo port and returns its id; the example port is id 0.
pub fn init_echo_port() -> (r: i32)
    ensures
        r == 0,
{
    0
}

/// Handles a message sent to the echo port by counting it.
pub fn handle_echo_port_message(data: &mut EchoPortData, message: &Message) -> (r: PortResult)
    requires
        old(data).message_count < i32::MAX,
    ensures
        final(data).message_count == old(data).message_count + 1,
        final(data).last_message@ == old(data).last_message@,
        r == PortResult::Continue,
{
    handle_echo_message(data, message)
}

/// Number of messages the echo port has handled.
pub fn get_echo_stats(data: &EchoPortData) -> (r: i32)
    ensures
        r == data.message_count,
{
    data.message_count
}

/// Clears the echo port's count and last message.
pub fn reset_echo_stats(data: &mut EchoPortData)
    ensures
        final(data).message_count == 0,
        final(data).last_message@.len() == 0,
{
    data.message_count = 0;
    data.last_message = String::new();
}

pub fn get_module_info() -> (r: &'static str)
    ensures
        r == MODULE_INFO,
{
    MODULE_INFO
}

pub fn get_nif_count() -> (r: usize)
    ensures
        r == NIF_COUNT,
{
    NIF_COUNT
}

} // verus!
