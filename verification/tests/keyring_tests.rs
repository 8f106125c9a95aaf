use sagens::alpine::{select_signing_cert, signing_cert_index};
use sequoia_openpgp::cert::CertBuilder;
use sequoia_openpgp::serialize::SerializeInto;

const EXPECTED: &str = "0482D84022F52DF1C4E7CD43293ACD0907D9495A";

#[test]
fn picks_the_release_signing_cert() {
    let items = vec![Ok("AAAA".to_string()), Ok(EXPECTED.to_string()), Err("late".to_string())];
    assert_eq!(select_signing_cert(&items), Ok(1));
}

#[test]
fn stops_at_the_first_keyring_error() {
    let items = vec![Ok("AAAA".to_string()), Err("bad packet".to_string()), Ok(EXPECTED.to_string())];
    assert_eq!(select_signing_cert(&items), Err("bad packet".to_string()));
    assert_eq!(
        select_signing_cert(&vec![Ok("AAAA".to_string())]),
        Err("expected Alpine release signing cert not found".to_string())
    );
}

#[test]
fn other_keyrings_do_not_hold_the_release_cert() {
    let (cert, _) = CertBuilder::new().add_userid("someone <someone@example.org>").generate().unwrap();
    let armored = cert.armored().to_vec().unwrap();
    assert_eq!(
        signing_cert_index(&armored),
        Err("expected Alpine release signing cert not found".to_string())
    );
    assert!(signing_cert_index(b"definitely not a keyring").is_err());
}
