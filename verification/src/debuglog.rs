//! Debug log lines. Each helper composes the exact line the gateway's
//! trace of device management and transport activity records; writing the
//! lines to disk, stamped, is the I/O layer's part.

use vstd::prelude::*;

verus! {

/// The composer of the gateway's debug trace lines.
pub struct DebugLogger;

impl DebugLogger {
    /// A general trace line: the category, a separator, the message.
    pub fn log_event(category: &str, message: &str) -> (r: String)
        ensures
            r@ == category@ + ": "@ + message@,
    {
        category.to_owned().concat(": ").concat(message)
    }

    /// A transport trace line naming the device and the direction.
    pub fn log_tcp_message(device_id: &str, direction: &str, message: &str) -> (r: String)
        ensures
            r@ == "TCP_"@ + direction@ + ": Device "@ + device_id@ + " - "@ + message@,
    {
        "TCP_".to_owned().concat(direction).concat(": Device ").concat(device_id)
            .concat(" - ").concat(message)
    }

    pub fn log_device_add(device_id: &str) -> (r: String)
        ensures
            r@ == "DEVICE_MANAGEMENT: ADD_DEVICE called for "@ + device_id@,
    {
        "DEVICE_MANAGEMENT: ADD_DEVICE called for ".to_owned().concat(device_id)
    }

    pub fn log_device_already_exists(device_id: &str) -> (r: String)
        ensures
            r@ == "DEVICE_MANAGEMENT: DEVICE_ALREADY_EXISTS "@ + device_id@,
    {
        "DEVICE_MANAGEMENT: DEVICE_ALREADY_EXISTS ".to_owned().concat(device_id)
    }

    pub fn log_esp32_connection_event_send(
        device_id: &str,
        is_closed: bool,
        success: bool,
        error: Option<&str>,
    ) -> (r: String)
        ensures
            r@ == "ESP32_CONNECTION: EVENT_SEND "@
                + (if success { "SUCCESS"@ } else { "FAILED"@ })
                + " for device "@ + device_id@ + " (channel_closed: "@
                + (if is_closed { "true"@ } else { "false"@ }) + ")"@
                + (match error {
                    Some(e) => " error: "@ + e@,
                    None => Seq::<char>::empty(),
                }),
    {
        let status: &str = if success {
            "SUCCESS"
        } else {
            "FAILED"
        };
        let closed: &str = if is_closed {
            "true"
        } else {
            "false"
        };
        let base = "ESP32_CONNECTION: EVENT_SEND ".to_owned().concat(status)
            .concat(" for device ").concat(device_id).concat(" (channel_closed: ")
            .concat(closed).concat(")");
        match error {
            Some(e) => base.concat(" error: ").concat(e),
            None => {
                proof {
                    assert(base@ + Seq::<char>::empty() =~= base@);
                }
                base
            }
        }
    }

    pub fn log_tcp_command_send(device_id: &str, command: &str, tcp_available: bool)
        -> (r: String)
        ensures
            r@ == "TCP_COMMAND: SENDING command '"@ + command@ + "' to device "@
                + device_id@ + " - TCP_AVAILABLE: "@
                + (if tcp_available { "true"@ } else { "false"@ }),
    {
        let avail: &str = if tcp_available {
            "true"
        } else {
            "false"
        };
        "TCP_COMMAND: SENDING command '".to_owned().concat(command)
            .concat("' to device ").concat(device_id)
            .concat(" - TCP_AVAILABLE: ").concat(avail)
    }

    pub fn log_tcp_command_success(device_id: &str, command: &str) -> (r: String)
        ensures
            r@ == "TCP_COMMAND: SUCCESS sent command '"@ + command@ + "' to device "@
                + device_id@,
    {
        "TCP_COMMAND: SUCCESS sent command '".to_owned().concat(command)
            .concat("' to device ").concat(device_id)
    }

    pub fn log_tcp_command_failed(device_id: &str, command: &str, error: &str) -> (r: String)
        ensures
            r@ == "TCP_COMMAND: FAILED to send command '"@ + command@ + "' to device "@
                + device_id@ + ": "@ + error@,
    {
        "TCP_COMMAND: FAILED to send command '".to_owned().concat(command)
            .concat("' to device ").concat(device_id).concat(": ").concat(error)
    }

    pub fn log_tcp_connection_status(device_id: &str, status: &str, details: &str)
        -> (r: String)
        ensures
            r@ == "TCP_CONNECTION: STATUS for device "@ + device_id@ + ": "@
                + status@ + " - "@ + details@,
    {
        "TCP_CONNECTION: STATUS for device ".to_owned().concat(device_id)
            .concat(": ").concat(status).concat(" - ").concat(details)
    }

    pub fn log_tcp_reconnect_attempt(device_id: &str, reason: &str) -> (r: String)
        ensures
            r@ == "TCP_RECONNECT: ATTEMPTING reconnect for device "@ + device_id@
                + " - reason: "@ + reason@,
    {
        "TCP_RECONNECT: ATTEMPTING reconnect for device ".to_owned().concat(device_id)
            .concat(" - reason: ").concat(reason)
    }

    pub fn log_tcp_reconnect_result(device_id: &str, success: bool, error: Option<&str>)
        -> (r: String)
        ensures
            r@ == "TCP_RECONNECT: RESULT for device "@ + device_id@ + ": "@
                + (if success { "SUCCESS"@ } else { "FAILED"@ })
                + (match error {
                    Some(e) => " - error: "@ + e@,
                    None => Seq::<char>::empty(),
                }),
    {
        let status: &str = if success {
            "SUCCESS"
        } else {
            "FAILED"
        };
        let base = "TCP_RECONNECT: RESULT for device ".to_owned().concat(device_id)
            .concat(": ").concat(status);
        match error {
            Some(e) => base.concat(" - error: ").concat(e),
            None => {
                proof {
                    assert(base@ + Seq::<char>::empty() =~= base@);
                }
                base
            }
        }
    }

    pub fn log_reset_attempt(device_id: &str, attempt_number: u32) -> (r: String)
        ensures
            r@ == "RESET_ATTEMPT_"@ + crate::strutil::dec_str(attempt_number as nat)
                + ": Device "@ + device_id@ + " - Reset command initiated"@,
    {
        let n = crate::strutil::u64_to_string(attempt_number as u64);
        "RESET_ATTEMPT_".to_owned().concat(n.as_str()).concat(": Device ")
            .concat(device_id).concat(" - Reset command initiated")
    }

    pub fn log_reset_success(device_id: &str, attempt_number: u32) -> (r: String)
        ensures
            r@ == "RESET_SUCCESS_"@ + crate::strutil::dec_str(attempt_number as nat)
                + ": Device "@ + device_id@ + " - Reset command sent successfully"@,
    {
        let n = crate::strutil::u64_to_string(attempt_number as u64);
        "RESET_SUCCESS_".to_owned().concat(n.as_str()).concat(": Device ")
            .concat(device_id).concat(" - Reset command sent successfully")
    }

    pub fn log_reset_failure(device_id: &str, attempt_number: u32, error: &str) -> (r: String)
        ensures
            r@ == "RESET_FAILURE_"@ + crate::strutil::dec_str(attempt_number as nat)
                + ": Device "@ + device_id@ + " - Reset failed: "@ + error@,
    {
        let n = crate::strutil::u64_to_string(attempt_number as u64);
        "RESET_FAILURE_".to_owned().concat(n.as_str()).concat(": Device ")
            .concat(device_id).concat(" - Reset failed: ").concat(error)
    }

    pub fn log_connection_drop(device_id: &str, reason: &str) -> (r: String)
        ensures
            r@ == "CONNECTION_DROP: Device "@ + device_id@ + " - Connection dropped: "@
                + reason@,
    {
        "CONNECTION_DROP: Device ".to_owned().concat(device_id)
            .concat(" - Connection dropped: ").concat(reason)
    }

    pub fn log_device_manager_state(device_id: &str, state: &str) -> (r: String)
        ensures
            r@ == "DEVICE_MANAGER_STATE: Device "@ + device_id@ + " - "@ + state@,
    {
        "DEVICE_MANAGER_STATE: Device ".to_owned().concat(device_id)
            .concat(" - ").concat(state)
    }
}

} // verus!
