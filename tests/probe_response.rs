use chamber_firmware::atlas::{
    parse_decimal, parse_probe_response, AtlasCommand, Decimal, ProbeReading, ProtocolError,
    ResponseCode, SensorResponse,
};

fn as_f64(d: Decimal) -> f64 {
    let v = d.mantissa as f64 / 10f64.powi(d.scale as i32);
    if d.negative {
        -v
    } else {
        v
    }
}

#[test]
fn reading_and_status_from_first_and_last_tokens() {
    let r = parse_probe_response(b"23.5\rOther\r*OK\r").unwrap();
    assert_eq!(
        r,
        ProbeReading {
            value: Decimal { negative: false, mantissa: 235, scale: 1 },
            code: ResponseCode::Success,
        }
    );
    assert_eq!(as_f64(r.value), 23.5);
}

#[test]
fn last_token_without_status_fails() {
    assert_eq!(parse_probe_response(b"23.5\rxyz\r"), Err(ProtocolError::UnknownStatus));
}

#[test]
fn empty_response_fails() {
    assert_eq!(parse_probe_response(b""), Err(ProtocolError::UnknownStatus));
    assert_eq!(parse_probe_response(b"\r"), Err(ProtocolError::UnknownStatus));
}

#[test]
fn non_numeric_first_token_fails() {
    assert_eq!(parse_probe_response(b"abc\r*OK\r"), Err(ProtocolError::InvalidReading));
    assert_eq!(parse_probe_response(b"\r*OK\r"), Err(ProtocolError::InvalidReading));
}

#[test]
fn status_without_final_cr() {
    let r = parse_probe_response(b"-7\r*RS").unwrap();
    assert_eq!(r.code, ResponseCode::Reset);
    assert_eq!(r.value, Decimal { negative: true, mantissa: 7, scale: 0 });
}

#[test]
fn single_token_is_both_reading_and_status() {
    assert_eq!(parse_probe_response(b"*OK\r"), Err(ProtocolError::InvalidReading));
}

#[test]
fn every_status_token_matches() {
    let all = [
        (ResponseCode::Success, b"*OK"),
        (ResponseCode::UnknownCommand, b"*ER"),
        (ResponseCode::OverVolt, b"*OV"),
        (ResponseCode::UnderVolt, b"*UV"),
        (ResponseCode::Reset, b"*RS"),
        (ResponseCode::Ready, b"*RE"),
        (ResponseCode::Sleeping, b"*SL"),
        (ResponseCode::WakeUp, b"*WA"),
    ];
    for (code, token) in all.iter() {
        assert_eq!(code.token(), **token);
        assert_eq!(ResponseCode::try_from_token(&token[..]), Some(*code));
    }
    assert_eq!(ResponseCode::try_from_token(b"*OKK"), None);
    assert_eq!(ResponseCode::try_from_token(b"OK"), None);
    assert_eq!(ResponseCode::try_from_token(b"#OK"), None);
    let alias: SensorResponse = ResponseCode::Ready;
    assert_eq!(alias, ResponseCode::Ready);
}

#[test]
fn status_from_probe_response_uses_last_token() {
    assert_eq!(ResponseCode::try_from_probe_response(b"1.0\r*SL\r"), Some(ResponseCode::Sleeping));
    assert_eq!(ResponseCode::try_from_probe_response(b"*WA\r1.0\r"), None);
    assert_eq!(ResponseCode::try_from_probe_response(b""), None);
}

#[test]
fn decimal_forms() {
    assert_eq!(parse_decimal(b"0.25"), Some(Decimal { negative: false, mantissa: 25, scale: 2 }));
    assert_eq!(parse_decimal(b"+12"), Some(Decimal { negative: false, mantissa: 12, scale: 0 }));
    assert_eq!(parse_decimal(b".5"), Some(Decimal { negative: false, mantissa: 5, scale: 1 }));
    assert_eq!(parse_decimal(b"7."), Some(Decimal { negative: false, mantissa: 7, scale: 0 }));
    assert_eq!(parse_decimal(b"."), None);
    assert_eq!(parse_decimal(b"-"), None);
    assert_eq!(parse_decimal(b""), None);
    assert_eq!(parse_decimal(b"1.2.3"), None);
    assert_eq!(parse_decimal(b"1e5"), None);
    assert_eq!(
        parse_decimal(b"18446744073709551615"),
        Some(Decimal { negative: false, mantissa: u64::MAX, scale: 0 })
    );
    assert_eq!(parse_decimal(b"18446744073709551616"), None);
    assert_eq!(parse_decimal(b"1844674407370955161.6"), None);
}

#[test]
fn command_holds_its_bytes() {
    let c = AtlasCommand::new(0x6F, b"O,T,1").unwrap();
    assert_eq!(c.address, 0x6F);
    assert_eq!(c.bytes(), b"O,T,1");
    assert!(AtlasCommand::new(0x6F, &[b'R'; 64]).is_some());
    assert!(AtlasCommand::new(0x6F, &[b'R'; 65]).is_none());
}
