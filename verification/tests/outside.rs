use odradek_acceptance::checks::batch::{gzip_records, told, GzipFault};
use odradek_acceptance::raw::{settle_trust, trusted, TlsTrust, WireError};

const FIRST: &str = "-----BEGIN CERTIFICATE-----\n\
MIIBejCCASGgAwIBAgIUalI/DdGiv/RavfXYfLVIj4Ewnk8wCgYIKoZIzj0EAwIw\n\
EjEQMA4GA1UEAwwHb2RyYWRlazAgFw0yNjExMTYyMzE5MTJaGA8yMTI2MTAyMzIz\n\
MTkxMlowEjEQMA4GA1UEAwwHb2RyYWRlazBZMBMGByqGSM49AgEGCCqGSM49AwEH\n\
A0IABIihrE56aODV2eo0pWe/NGhTznoh9yucKWwYUSC85lUqi9onDZLTsZ/HNovf\n\
33WpbqU7JTbKTbXXEGQ8FkzKeOWjUzBRMB0GA1UdDgQWBBRJeO/va3a7IBxIZfm5\n\
F7Nt2/IwLjAfBgNVHSMEGDAWgBRJeO/va3a7IBxIZfm5F7Nt2/IwLjAPBgNVHRMB\n\
Af8EBTADAQH/MAoGCCqGSM49BAMCA0cAMEQCIBrmXJ+YeqK9ELPNSp9b5Bht3Lzj\n\
SYM0zfteBtq7WH95AiAspukVYUimyP3bOajFDN4nCBZlw15+uUcM2eWgouKPxg==\n\
-----END CERTIFICATE-----\n\
";

const SECOND: &str = "-----BEGIN CERTIFICATE-----\n\
MIIBdzCCAR2gAwIBAgIUPm+tu3MTV07IEAHzDkoF2A6HXt0wCgYIKoZIzj0EAwIw\n\
EDEOMAwGA1UEAwwFb3RoZXIwIBcNMjYxMTE2MjMxOTEyWhgPMjEyNjEwMjMyMzE5\n\
MTJaMBAxDjAMBgNVBAMMBW90aGVyMFkwEwYHKoZIzj0CAQYIKoZIzj0DAQcDQgAE\n\
qr1sKU4Fl4hg1QpXjyqsrzzzShLXxh+vOdDAI01XKjFWs2v1Z4DLnCKCwv5EyC1j\n\
QiXBaytDp8VBU5yBeiNfTKNTMFEwHQYDVR0OBBYEFI9eXGB8YofXb6yw4YUPpFnJ\n\
fD7pMB8GA1UdIwQYMBaAFI9eXGB8YofXb6yw4YUPpFnJfD7pMA8GA1UdEwEB/wQF\n\
MAMBAf8wCgYIKoZIzj0EAwIDSAAwRQIhAMn9s3ku9Wu5VwTG7TN05nohBJUY33Tz\n\
q5adbXzCXF+2AiBUBuoacH+n3ZFpZs/FPNjTlcMsniXHGHJDtooE8uR7FA==\n\
-----END CERTIFICATE-----\n\
";

fn said(r: Result<Vec<Vec<u8>>, WireError>) -> String {
    match r {
        Err(WireError::Tls(e)) => e,
        other => panic!("{other:?}"),
    }
}

#[test]
fn exactly_the_certificates_of_the_pem_are_trusted() {
    let both = format!("a comment\n{FIRST}between\n{SECOND}");
    let certificates = trusted(both.as_bytes(), "localhost").unwrap();
    assert_eq!(certificates.len(), 2);
    assert_eq!(certificates[0].len(), 382);
    assert_eq!(certificates[0][..4], [0x30, 0x82, 0x01, 0x7a]);
    assert_eq!(certificates[1], trusted(SECOND.as_bytes(), "127.0.0.1").unwrap()[0]);
    assert_ne!(certificates[0], certificates[1]);
    let trust = TlsTrust::from_ca_pem(both.as_bytes(), "broker.example").unwrap();
    assert_eq!((trust.certificates, trust.server_name), (certificates, "broker.example".to_owned()));
}

#[test]
fn what_cannot_be_trusted_is_said_in_order() {
    for empty in ["", "no certificates here", "-----BEGIN X-----\nAA==\n-----END X-----\n"] {
        assert_eq!(said(trusted(empty.as_bytes(), "not a name")), "ca pem holds no certificates");
    }
    let open = format!("{FIRST}-----BEGIN CERTIFICATE-----\n");
    assert!(said(trusted(open.as_bytes(), "localhost")).starts_with("bad ca pem: missing section end marker"));
    assert!(said(trusted(b"-----BEGIN CERTIFICATE\n", "localhost"))
        .starts_with("bad ca pem: illegal section start"));
    let refused = "-----BEGIN CERTIFICATE-----\nAAAA\n-----END CERTIFICATE-----\n";
    let both = format!("{FIRST}{refused}-----BEGIN CERTIFICATE-----\n");
    assert!(said(trusted(both.as_bytes(), "not a name")).starts_with("bad ca certificate: "));
    assert_eq!(said(trusted(FIRST.as_bytes(), "not a name")), "bad server name: invalid dns name");
    assert!(matches!(TlsTrust::from_ca_pem(b"", "localhost"), Err(WireError::Tls(_))));
}

#[test]
fn trust_is_settled_by_what_was_found() {
    let s = |e: &str| Some(e.to_owned());
    let one = || vec![vec![1, 2]];
    assert_eq!(said(settle_trust(one(), s("p"), s("c"), s("n"))), "bad ca certificate: c");
    assert_eq!(said(settle_trust(one(), s("p"), None, s("n"))), "bad ca pem: p");
    assert_eq!(said(settle_trust(vec![], None, None, s("n"))), "ca pem holds no certificates");
    assert_eq!(said(settle_trust(one(), None, None, s("n"))), "bad server name: n");
    assert_eq!(settle_trust(one(), None, None, None).unwrap(), one());
}

#[test]
fn a_failed_compression_says_which_step_failed() {
    assert_eq!(
        told(Err(GzipFault::Writing("full".to_owned()))),
        Err("gzipping the record set: full".to_owned())
    );
    assert_eq!(
        told(Err(GzipFault::Finishing("full".to_owned()))),
        Err("finishing the gzip stream: full".to_owned())
    );
    assert_eq!(told(Ok(vec![7])), Ok(vec![7]));
    assert!(gzip_records(&vec![]).is_ok());
}
