use oxiddd::ntp::{build_ntp_request, parse_ntp_response, NtpError, NTP_TO_UNIX_SECONDS};

#[test]
fn test_request_packet_shape() {
    let req = build_ntp_request();
    assert_eq!(req.len(), 48);
    // Leap indicator 0, version 4, mode 3 (client).
    assert_eq!(req[0], 0x23);
    assert!(req[1..].iter().all(|&b| b == 0));
}

#[test]
fn test_parse_valid_response() {
    let mut buf = [0u8; 48];
    let ntp_seconds = (NTP_TO_UNIX_SECONDS + 100) as u32;
    buf[40..44].copy_from_slice(&ntp_seconds.to_be_bytes());
    assert_eq!(parse_ntp_response(&buf, 48), Ok(100));
}

#[test]
fn test_parse_wrong_size() {
    let buf = [0u8; 48];
    assert_eq!(parse_ntp_response(&buf, 47), Err(NtpError::InvalidSize));
    assert_eq!(parse_ntp_response(&buf, 0), Err(NtpError::InvalidSize));
}

#[test]
fn test_parse_pre_epoch_timestamp() {
    // All-zero transmit timestamp predates the Unix epoch.
    let buf = [0u8; 48];
    assert_eq!(parse_ntp_response(&buf, 48), Err(NtpError::InvalidTimestamp));
    let mut almost = [0u8; 48];
    let below = (NTP_TO_UNIX_SECONDS - 1) as u32;
    almost[40..44].copy_from_slice(&below.to_be_bytes());
    assert_eq!(
        parse_ntp_response(&almost, 48),
        Err(NtpError::InvalidTimestamp)
    );
}

#[test]
fn test_error_messages() {
    assert_eq!(NtpError::InvalidSize.message(), "Invalid NTP response size");
    assert_eq!(
        NtpError::InvalidTimestamp.message(),
        "Invalid NTP timestamp"
    );
}
