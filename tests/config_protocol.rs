use relay_sr201::config::{
    check_set_reply, decode_get, decode_set, find_key, get_request, parse_config, set_request,
    unframe,
};
use relay_sr201::error::{make_generic, Error};
use relay_sr201::wire::read_response;

const TEN: &str = "192.168.1.100,255.255.255.0,192.168.1.1,,0,1.0.1,ABCDEF,8.8.8.8,cloud.example,0";

#[test]
fn missing_envelope_fails() {
    assert!(matches!(unframe("OK;"), Err(Error::Framing(_))));
    assert!(matches!(unframe(">OK"), Err(Error::Framing(_))));
    assert!(matches!(unframe(""), Err(Error::Framing(_))));
    assert!(matches!(unframe(">"), Err(Error::Framing(_))));
    assert_eq!(unframe(">OK;").unwrap(), "OK");
    assert_eq!(unframe(">;").unwrap(), "");
    let raw = TEN.to_string() + ";";
    assert!(matches!(decode_get(raw.as_bytes()), Err(Error::Framing(_))));
    let raw = ">".to_string() + TEN;
    assert!(matches!(decode_get(raw.as_bytes()), Err(Error::Framing(_))));
}

#[test]
fn wrong_field_count_fails() {
    assert!(matches!(parse_config("a,b,c,d,e,f,g,h,i"), Err(Error::FieldCount(9))));
    assert!(matches!(parse_config("a,b,c,d,e,f,g,h,i,j,k"), Err(Error::FieldCount(11))));
    assert!(matches!(parse_config(""), Err(Error::FieldCount(1))));
}

#[test]
fn ten_fields_map_named_keys() {
    let m = parse_config(TEN).unwrap();
    assert_eq!(m.len(), 9);
    assert_eq!(m.get("ipv4").unwrap(), "192.168.1.100");
    assert_eq!(m.get("netmask").unwrap(), "255.255.255.0");
    assert_eq!(m.get("gateway").unwrap(), "192.168.1.1");
    assert_eq!(m.get("power_persist").unwrap(), "0");
    assert_eq!(m.get("version").unwrap(), "1.0.1");
    assert_eq!(m.get("serial").unwrap(), "ABCDEF");
    assert_eq!(m.get("dns").unwrap(), "8.8.8.8");
    assert_eq!(m.get("cloud_server").unwrap(), "cloud.example");
    assert_eq!(m.get("cloud_enabled").unwrap(), "0");
    assert!(m.get("").is_none());
    assert!(m.get("other").is_none());
    for i in 0..m.len() {
        assert!(!m.entry(i).0.is_empty());
    }
    assert_eq!(m.entry(3).0, "power_persist");
}

#[test]
fn decode_get_reads_framed_reply() {
    let raw = ">".to_string() + TEN + ";";
    let m = decode_get(raw.as_bytes()).unwrap();
    assert_eq!(m.get("dns").unwrap(), "8.8.8.8");
    assert_eq!(get_request(), b"#12222;".to_vec());
}

#[test]
fn set_requests_use_selectors() {
    assert_eq!(set_request("ipv4", "10.0.0.2").unwrap(), b"#22222,10.0.0.2;".to_vec());
    assert_eq!(set_request("version", "x").unwrap(), b"#72222,x;".to_vec());
    assert_eq!(set_request("cloud_enabled", "1").unwrap(), b"#A2222,1;".to_vec());
    assert_eq!(set_request("dns", "").unwrap(), b"#82222,;".to_vec());
}

#[test]
fn set_unknown_or_unwritable_key_fails() {
    assert!(matches!(set_request("serial", "x"), Err(Error::KeyNotFound(k)) if k == "serial"));
    assert!(matches!(set_request("nope", "x"), Err(Error::KeyNotFound(k)) if k == "nope"));
    assert!(matches!(set_request("", "x"), Err(Error::KeyNotFound(_))));
    assert_eq!(find_key("gateway"), Some(2));
    assert_eq!(find_key(""), None);
}

#[test]
fn set_replies_are_told_apart() {
    assert!(decode_set(b">OK;").is_ok());
    assert!(matches!(decode_set(b">ERR;"), Err(Error::DeviceRejected)));
    assert!(matches!(decode_set(b">WEIRD;"), Err(Error::UnknownResponse(p)) if p == "WEIRD"));
    assert!(matches!(decode_set(b"OK"), Err(Error::Framing(_))));
    assert!(check_set_reply("OK").is_ok());
    assert!(matches!(check_set_reply("ok"), Err(Error::UnknownResponse(_))));
}

#[test]
fn responses_must_be_text() {
    assert!(matches!(read_response(&[0xff, 0xfe]), Err(Error::Decode(_))));
    assert_eq!(read_response("é;".as_bytes()).unwrap(), "é;");
    assert_eq!(read_response(b"").unwrap(), "");
    assert!(matches!(read_response(&[b'a'; 127]), Ok(_)));
    assert!(matches!(read_response(&[b'a'; 128]), Err(Error::Framing(_))));
}

#[test]
fn errors_describe_themselves() {
    assert_eq!(make_generic("boom").description(), "Generic error: boom");
    assert_eq!(Error::DeviceRejected.description(), "Device replied with error");
    assert_eq!(Error::Parse("9".to_string()).description(), "Failed to parse: 9");
}
