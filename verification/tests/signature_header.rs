use jsonrpc::headers::{HeaderError, XSignature};
use jsonrpc::math::{AddArgs, MulArgs, SubArgs};

#[test]
fn header_name() {
    assert_eq!(XSignature::name(), "x-signature");
}

#[test]
fn decode_takes_first_value() {
    let values = vec![b"abc 123".to_vec(), b"second".to_vec()];
    assert_eq!(XSignature::decode(&values), Ok(XSignature("abc 123".to_string())));
}

#[test]
fn decode_accepts_tab_and_empty() {
    assert_eq!(XSignature::decode(&vec![b"a\tb".to_vec()]), Ok(XSignature("a\tb".to_string())));
    assert_eq!(XSignature::decode(&vec![Vec::new()]), Ok(XSignature(String::new())));
}

#[test]
fn decode_refuses_missing_header() {
    assert_eq!(XSignature::decode(&Vec::new()), Err(HeaderError));
}

#[test]
fn decode_refuses_non_visible_bytes() {
    assert_eq!(XSignature::decode(&vec![vec![b'a', 0x80]]), Err(HeaderError));
    assert_eq!(XSignature::decode(&vec![vec![b'a', 0x7f]]), Err(HeaderError));
    assert_eq!(XSignature::decode(&vec!["é".as_bytes().to_vec()]), Err(HeaderError));
    assert_eq!(XSignature::decode(&vec![vec![b'a', b'\n']]), Err(HeaderError));
}

#[test]
fn method_markers_exist() {
    assert_eq!(format!("{:?} {:?} {:?}", AddArgs, SubArgs, MulArgs), "AddArgs SubArgs MulArgs");
}

#[test]
fn encode_gives_the_utf8_bytes() {
    assert_eq!(XSignature("abc 1\t2".to_string()).encode(), Some(b"abc 1\t2".to_vec()));
    assert_eq!(XSignature("é".to_string()).encode(), Some("é".as_bytes().to_vec()));
    assert_eq!(XSignature(String::new()).encode(), Some(Vec::new()));
}

#[test]
fn encode_refuses_control_characters() {
    assert_eq!(XSignature("a\nb".to_string()).encode(), None);
    assert_eq!(XSignature("a\u{7f}".to_string()).encode(), None);
}

#[test]
fn decode_undoes_encode() {
    let s = XSignature("sig-123 ~!".to_string());
    let bytes = s.encode().unwrap();
    assert_eq!(XSignature::decode(&vec![bytes]), Ok(s));
}
