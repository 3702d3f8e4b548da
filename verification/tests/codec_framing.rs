//! The command codec round trip and both framing disciplines.

use esp_gateway::codec::cmd_from_json_val;
use esp_gateway::framing::{extract_complete_json, SerialAccumulator, STX, ETX};
use esp_gateway::json::parse_json;
use esp_gateway::types::Esp32Command;

fn round_trip(cmd: Esp32Command) -> Esp32Command {
    let text = cmd.to_json();
    let tree = parse_json(&text).expect("command text parses");
    cmd_from_json_val(&tree).expect("command text decodes")
}

#[test]
fn set_variable_round_trips() {
    let cmd = Esp32Command::set_variable("ledBlinkDelay".to_string(), 1000);
    assert_eq!(round_trip(cmd.clone()), cmd);
    assert_eq!(cmd.to_json(), "{\"setVariable\":{\"name\":\"ledBlinkDelay\",\"value\":1000}}");
}

#[test]
fn start_option_round_trips() {
    let cmd = Esp32Command::start_option("blink".to_string());
    assert_eq!(round_trip(cmd.clone()), cmd);
    assert_eq!(cmd.to_json(), "{\"startOption\":\"blink\"}");
}

#[test]
fn reset_round_trips() {
    let cmd = Esp32Command::reset();
    assert_eq!(round_trip(cmd.clone()), cmd);
    assert_eq!(cmd.to_json(), "{\"reset\":true}");
}

#[test]
fn get_status_round_trips() {
    let cmd = Esp32Command::get_status();
    assert_eq!(round_trip(cmd.clone()), cmd);
    assert_eq!(cmd.to_json(), "{\"getStatus\":true}");
}

#[test]
fn set_variable_with_escapes_round_trips() {
    let cmd = Esp32Command::set_variable("a\"b\\c".to_string(), 7);
    assert_eq!(round_trip(cmd.clone()), cmd);
}

#[test]
fn tcp_accumulator_splits_glued_objects_with_escaped_braces() {
    let mut buffer: Vec<u8> = b"{\"a\":\"}\"}{\"b\":1}".to_vec();
    let first = extract_complete_json(&mut buffer).expect("first frame");
    assert_eq!(first, b"{\"a\":\"}\"}".to_vec());
    let second = extract_complete_json(&mut buffer).expect("second frame");
    assert_eq!(second, b"{\"b\":1}".to_vec());
    assert!(extract_complete_json(&mut buffer).is_none());
    assert!(buffer.is_empty());
}

#[test]
fn tcp_accumulator_keeps_unterminated_tail() {
    let mut buffer: Vec<u8> = b"  {\"x\":1}{\"partial\":".to_vec();
    let first = extract_complete_json(&mut buffer).expect("complete frame");
    assert_eq!(first, b"{\"x\":1}".to_vec());
    assert!(extract_complete_json(&mut buffer).is_none());
    assert_eq!(buffer, b"{\"partial\":".to_vec());
}

#[test]
fn tcp_accumulator_honours_string_escapes() {
    let mut buffer: Vec<u8> = b"{\"s\":\"\\\"}\"}".to_vec();
    let frame = extract_complete_json(&mut buffer).expect("frame closes");
    assert_eq!(frame, b"{\"s\":\"\\\"}\"}".to_vec());
}

#[test]
fn serial_accumulator_drops_noise_outside_frames() {
    let mut acc = SerialAccumulator::new();
    let mut data: Vec<u8> = Vec::new();
    data.extend_from_slice(b"noise");
    data.push(STX);
    data.extend_from_slice(b"{\"device_id\":\"esp32-01\"}");
    data.push(ETX);
    data.extend_from_slice(b"more noise");
    let frames = acc.push_bytes(&data);
    assert_eq!(frames.len(), 1);
    assert_eq!(frames[0], b"{\"device_id\":\"esp32-01\"}".to_vec());
}

#[test]
fn serial_accumulator_splits_consecutive_frames() {
    let mut acc = SerialAccumulator::new();
    let mut data: Vec<u8> = Vec::new();
    data.push(STX);
    data.extend_from_slice(b"{\"a\":1}");
    data.push(ETX);
    data.push(STX);
    data.extend_from_slice(b"{\"b\":2}");
    data.push(ETX);
    let frames = acc.push_bytes(&data);
    assert_eq!(frames.len(), 2);
    assert_eq!(frames[0], b"{\"a\":1}".to_vec());
    assert_eq!(frames[1], b"{\"b\":2}".to_vec());
}

#[test]
fn serial_accumulator_flushes_overlong_noise_without_stx() {
    let mut acc = SerialAccumulator::new();
    let noise: Vec<u8> = vec![b'x'; 2049];
    let frames = acc.push_bytes(&noise);
    assert!(frames.is_empty());
    assert!(acc.buf.is_empty(), "over-long noise without STX is flushed");
}

#[test]
fn serial_accumulator_keeps_short_noise_and_partial_frame() {
    let mut acc = SerialAccumulator::new();
    let mut data: Vec<u8> = Vec::new();
    data.extend_from_slice(b"junk");
    data.push(STX);
    data.extend_from_slice(b"{\"unfinished\":");
    let frames = acc.push_bytes(&data);
    assert!(frames.is_empty());
    // The noise before the opener is discarded; the partial frame waits.
    assert_eq!(acc.buf[0], STX);
    let mut rest: Vec<u8> = Vec::new();
    rest.extend_from_slice(b"1}");
    rest.push(ETX);
    let frames = acc.push_bytes(&rest);
    assert_eq!(frames.len(), 1);
    assert_eq!(frames[0], b"{\"unfinished\":1}".to_vec());
}
