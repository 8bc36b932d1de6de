use glimanexus::mc_ping::{check_status_json_len, handshake_packet, player_counts, players_from_counts, status_request};

#[test]
fn handshake_packet_for_localhost() {
    let packet = handshake_packet("localhost", 25565);
    let mut body = vec![0x00u8];
    body.extend_from_slice(&[0xff, 0xff, 0xff, 0xff, 0x0f]);
    body.push(9);
    body.extend_from_slice(b"localhost");
    body.extend_from_slice(&[0x63, 0xdd]);
    body.push(0x01);
    let mut expected = vec![body.len() as u8];
    expected.extend_from_slice(&body);
    assert_eq!(packet, expected);
    assert_eq!(packet[0], 19);
}

#[test]
fn handshake_packet_counts_utf8_bytes_of_host() {
    let packet = handshake_packet("ä", 1);
    // length prefix, id, -1, host length 2, two UTF-8 bytes, port, next state
    assert_eq!(packet, vec![12, 0x00, 0xff, 0xff, 0xff, 0xff, 0x0f, 2, 0xc3, 0xa4, 0x00, 0x01, 0x01]);
}

#[test]
fn status_request_is_length_one_id_zero() {
    assert_eq!(status_request(), vec![0x01, 0x00]);
}

#[test]
fn status_json_length_limits() {
    assert_eq!(check_status_json_len(0), Ok(0));
    assert_eq!(check_status_json_len(1234), Ok(1234));
    assert_eq!(check_status_json_len(10 * 1024 * 1024), Ok(10 * 1024 * 1024));
    assert_eq!(
        check_status_json_len(10 * 1024 * 1024 + 1),
        Err("Unerwartet große Antwort vom Server".to_string())
    );
    assert_eq!(check_status_json_len(-1), Err("Unerwartet große Antwort vom Server".to_string()));
}

#[test]
fn player_counts_from_status_json() {
    let json = br#"{"version":{"name":"1.21","protocol":767},"players":{"max":20,"online":3},"description":"hi"}"#;
    assert_eq!(player_counts(json), Ok((Some(3), Some(20))));
}

#[test]
fn player_counts_missing_or_wrong_kind() {
    assert_eq!(player_counts(br#"{"players":{"online":"x"}}"#), Ok((None, None)));
    assert_eq!(player_counts(br#"{"description":"no players"}"#), Ok((None, None)));
    assert_eq!(player_counts(br#"{"players":{"online":-1,"max":5}}"#), Ok((None, Some(5))));
}

#[test]
fn player_counts_not_json_is_an_error() {
    assert!(player_counts(b"not json").is_err());
}

#[test]
fn player_counts_keep_low_32_bits() {
    assert_eq!(players_from_counts(Some((1u64 << 32) + 5), None), (Some(5), None));
    assert_eq!(player_counts(br#"{"players":{"online":4294967301,"max":1}}"#), Ok((Some(5), Some(1))));
}
