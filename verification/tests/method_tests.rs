use tcp_web::RequestMethod;

const TOKENS: [&str; 8] = [
    "GET", "HEAD", "POST", "PUT", "DELETE", "CONNECT", "OPTIONS", "TRACE",
];

#[test]
fn round_trip_all_methods() {
    for tok in TOKENS {
        let m = RequestMethod::from_str(tok).expect("canonical token must parse");
        assert_eq!(m.to_string(), tok);
    }
}

#[test]
fn unknown_tokens_fail() {
    assert!(RequestMethod::from_str("PATCH").is_err());
    assert!(RequestMethod::from_str("get").is_err());
    assert!(RequestMethod::from_str("GETT").is_err());
    assert!(RequestMethod::from_str("").is_err());
    assert!(RequestMethod::from_str("GET ").is_err());
}

#[test]
fn default_is_get() {
    let m: RequestMethod = Default::default();
    assert_eq!(m, RequestMethod::GET);
}
