use mime_more::dataurl::DataurlCharset;
use mime_more::{Dataurl, Mime, MimeError};

const PNG: [u8; 15] = [
    0x89, 0x50, 0x4E, 0x47, 0x0D, 0x0A, 0x1A, 0x0A, 0x11, 0x45, 0x14, 0x19, 0x19, 0x81, 0x0,
];

#[test]
fn test_dataurl() {
    let content = &PNG;

    let dataurl = Dataurl::from_data(content.to_vec()).unwrap();
    assert_eq!(dataurl.mime().to_string(), "image/png");
    let string = dataurl.to_string();
    assert_eq!(string, "data:image/png;base64,iVBORw0KGgoRRRQZGYEA");

    let dataurl = Dataurl::from_str("data:image/png;base64,iVBORw0KGgoRRRQZGYEA").unwrap();
    assert_eq!(dataurl.mime().to_string(), "image/png");
    assert_eq!(dataurl.data().to_vec(), content.to_vec());
}

#[test]
fn known_vector_is_binary() {
    let d = Dataurl::from_data(PNG.to_vec()).unwrap();
    assert_eq!(d.charset(), DataurlCharset::Base64);
    assert!(!d.is_texture());
    let back = Dataurl::from_str(&d.to_string()).unwrap();
    assert_eq!(back, d);
}

#[test]
fn text_payload_is_percent_encoded() {
    let d = Dataurl::new(Mime::from_str("text/plain").unwrap(), b"a b/c".to_vec());
    assert_eq!(d.charset(), DataurlCharset::Utf8);
    assert_eq!(d.to_string(), "data:text/plain;charset=utf-8,a%20b%2Fc");
    let binary = Dataurl::new(Mime::from_str("text/plain").unwrap(), vec![0xFF, b'~', b'+']);
    assert_eq!(binary.to_string(), "data:text/plain;charset=utf-8,%FF~%2B");
    let back = Dataurl::from_str("data:text/plain;charset=utf-8,a%20b%2Fc").unwrap();
    assert_eq!(back.data().to_vec(), b"a b/c".to_vec());
    assert_eq!(Dataurl::from_str("data:text/plain;utf-8,a%20b").unwrap().data().to_vec(), b"a b".to_vec());
}

#[test]
fn round_trip_both_encodings() {
    let cases: [(&str, &[u8]); 6] = [
        ("text/plain", b"hello, world; 100%"),
        ("text/plain", &[0xFF, 0x00, 0x25]),
        ("application/json", b"{\"a\":1}"),
        ("image/png", &PNG),
        ("image/png", b""),
        ("application/octet-stream", "é漢字".as_bytes()),
    ];
    for (t, b) in cases {
        let d = Dataurl::new(Mime::from_str(t).unwrap(), b.to_vec());
        let back = Dataurl::from_str(&d.to_string()).unwrap();
        assert_eq!(back.mime().to_string(), t);
        assert_eq!(back.data().to_vec(), b.to_vec());
        assert_eq!(back.charset(), d.charset());
    }
}

#[test]
fn malformed_dataurls() {
    assert_eq!(Dataurl::from_str("nodata:prefix").unwrap_err(), MimeError::MalformedDataurl);
    assert_eq!(Dataurl::from_str("data:text/plain,payload").unwrap_err(), MimeError::MalformedDataurl);
    assert_eq!(Dataurl::from_str("data:text/plain;utf-8payload").unwrap_err(), MimeError::MalformedDataurl);
    assert_eq!(Dataurl::from_str("data:text/plain;latin1,payload").unwrap_err(), MimeError::UnknownCharsetToken);
    assert_eq!(Dataurl::from_str("").unwrap_err(), MimeError::MalformedDataurl);
}

#[test]
fn bad_type_and_payload() {
    assert_eq!(Dataurl::from_str("data:textplain;base64,AAAA").unwrap_err(), MimeError::InvalidTypeGrammar);
    assert_eq!(Dataurl::from_str("data:image/png;base64,@@@").unwrap_err(), MimeError::InvalidBase64);
    assert_eq!(Dataurl::from_str("data:image/png;base64,AAA").unwrap_err(), MimeError::InvalidBase64);
}

#[test]
fn charset_tokens() {
    assert_eq!(DataurlCharset::from_str("utf-8"), Ok(DataurlCharset::Utf8));
    assert_eq!(DataurlCharset::from_str("charset=utf-8"), Err(MimeError::UnknownCharsetToken));
    assert_eq!(DataurlCharset::from_str("latin1"), Err(MimeError::UnknownCharsetToken));
    assert_eq!(DataurlCharset::from_str(""), Err(MimeError::UnknownCharsetToken));
    assert_eq!(DataurlCharset::from_str("base64"), Ok(DataurlCharset::Base64));
    assert_eq!(DataurlCharset::from_str("UTF-8"), Err(MimeError::UnknownCharsetToken));
    assert_eq!(DataurlCharset::Utf8.as_str(), "utf-8");
    assert_eq!(DataurlCharset::Base64.as_str(), "base64");
    assert!(DataurlCharset::Utf8.to_texture_bool());
    assert!(!DataurlCharset::Base64.to_texture_bool());
    assert_eq!(DataurlCharset::from(true), DataurlCharset::Utf8);
    assert_eq!(DataurlCharset::from(false), DataurlCharset::Base64);
}

#[test]
fn unsniffable_data_is_refused() {
    assert_eq!(Dataurl::from_data(b"words".to_vec()).unwrap_err(), MimeError::LookupNotFound);
}

#[test]
fn malformed_percent_escapes() {
    for bad in [
        "data:text/plain;utf-8,%zz",
        "data:text/plain;charset=utf-8,abc%",
        "data:text/plain;utf-8,%4",
        "data:text/plain;utf-8,%4g",
        "data:text/plain;utf-8,100%",
    ] {
        assert_eq!(Dataurl::from_str(bad).unwrap_err(), MimeError::InvalidPercentEncoding);
    }
}

#[test]
fn percent_decoding_cases() {
    let d = Dataurl::from_str("data:text/plain;utf-8,%2f%2F%41").unwrap();
    assert_eq!(d.data().to_vec(), b"//A".to_vec());
    let d = Dataurl::from_str("data:text/plain;utf-8,é+").unwrap();
    assert_eq!(d.data().to_vec(), "é+".as_bytes().to_vec());
    let d = Dataurl::from_str("data:text/plain;charset=utf-8,%FF%00").unwrap();
    assert_eq!(d.data().to_vec(), vec![0xFF, 0x00]);
    assert_eq!(d.charset(), DataurlCharset::Utf8);
}
