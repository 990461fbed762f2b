//! Canonical key fingerprints.

use zkpod::jwk::{compute_fingerprint, FingerprintError, JwkField};

const JWK_A: &str = "{\"kty\":\"RSA\",\"n\":\"1o9PCAMHVu4LrBQhyvGWgx5jW8PTANe8NEyef3leptmLSPlYJug7qbsI00-AkW7ycKAzyKuX4RoxQZsBewwOEgnGoBD6wZTakNZMtLD8srm2hgylBV1FG4SjINojOYYo4QL_ogI55bMFGEFaScoSXERci0w_-ZdrtZBDoLSy_nMV2AKn7ZnSJrTFU2Pegm-ZduVU7xdCotVzAMYQDKfWMy5pltZDcpM0PXgjabK26nYGkgmSlFZvHr3sG-SG8MPo1JCJX-gvDWJ-0Y5gcCMVtv7xwXqDos3Zw5GlCgK1haxeBrEusE5LvT1gIUikFEo3ETRSEKmdVZXmAXIlj-o0uw\",\"e\":\"AQAB\"}";
const JWK_B: &str = "{\"kty\":\"RSA\",\"n\":\"xNUeniyl4fyo-WkHbDxjy0vmwsmw05xImsgJhjpW9pISovLlADioYSlHwJgNmSO-iqGzxNc_W7Xt6JtfWmRfHV1rSn76-XiUc348oVNFNr73AsKsBALuZYGTjsOzVOCDgw64pK03icBZnUQEs7nNOjIqHesS8q-6GuLKq2LjD2HJJ2oL5jgzVmuix3L7iLEDV8NkVSx9PE01dq8DBcX9oSAs9HaW7Nfad7JEzxNL4o7LlQQsL7roRaQ8KlmwWlHIDMoSHUvDgoqC01nUT6-yhW5TDAd8qpL8SAirbgkU1oaTa2EjvEYl7qo7zd7J9Z587mYo9VZhUBMcfmrcE-eqZQ\",\"e\":\"AQAB\"}";
const JWK_C: &str = "{\"kty\":\"RSA\",\"n\":\"nKGEh2DVxk94ki-gySRL7FEWdeA4cyV6psyDGpgcyJROcAHZ5q-l4xeULBO5FTTYSDA7-cG4y-UhtDVoAorUckhjb1bYJ8QM8_x_8Yp___YmLYZRTlcxeiXJFKnwGcQhKP-WmOryl8AlNlaJlh0IP19ipSLC-fgYePYeFhqtSVb2TjQOmr2d8HacKae6qDIKvWyJGNPEIQwokp01rtTmOAm6IEhk6xFNB5mlEyPkapHOf5eFwxL6IjmMJ-Atg_v1duqsNyHimrh7h7CXNhJ40obuQQxYxLlfeYpzw_LugADTH0EpTCWIjbDC3rjYQkQ0bUROK1JhcW1f3kV2hmA9ow\",\"e\":\"AQAB\"}";

#[test]
fn fingerprint_exact_values() {
    assert_eq!(compute_fingerprint(JWK_A).unwrap(), "dLfamdDHSh-CfIqmLKpgRNthKCoXO_rslG6kkicWx9U");
    assert_eq!(compute_fingerprint(JWK_B).unwrap(), "aSIwV3OC_kpQMP0m21iHCOniq8zyGUQAorYPa6WlrI4");
    assert_eq!(compute_fingerprint(JWK_C).unwrap(), "LGdHYc0DZTuRRLjABhp8CsBAQZGzRaDUq_yuIal5D_k");
}

#[test]
fn fingerprint_ignores_cosmetic_members_and_order() {
    let n = JWK_A
        .trim_start_matches("{\"kty\":\"RSA\",\"n\":\"")
        .trim_end_matches("\",\"e\":\"AQAB\"}");
    let reordered = String::from("{\"use\":\"sig\",\"e\":\"AQAB\",\"kid\":\"key-1\",\"n\":\"")
        + n + "\",\"kty\":\"RSA\"}";
    assert_eq!(compute_fingerprint(&reordered).unwrap(), "dLfamdDHSh-CfIqmLKpgRNthKCoXO_rslG6kkicWx9U");
}

#[test]
fn fingerprint_changes_with_any_identifying_member() {
    let fa = compute_fingerprint(JWK_A).unwrap();
    let fb = compute_fingerprint(JWK_B).unwrap();
    let fc = compute_fingerprint(JWK_C).unwrap();
    assert_ne!(fa, fb);
    assert_ne!(fa, fc);
    assert_ne!(fb, fc);
    let kty_changed = JWK_A.replace("\"kty\":\"RSA\"", "\"kty\":\"EC\"");
    assert_ne!(compute_fingerprint(&kty_changed).unwrap(), fa);
    let e_changed = JWK_A.replace("\"e\":\"AQAB\"", "\"e\":\"AQAD\"");
    assert_ne!(compute_fingerprint(&e_changed).unwrap(), fa);
}

#[test]
fn fingerprint_names_first_missing_member() {
    assert_eq!(
        compute_fingerprint("{}").unwrap_err(),
        FingerprintError::MissingField(JwkField::E)
    );
    assert_eq!(
        compute_fingerprint("{\"e\":\"AQAB\"}").unwrap_err(),
        FingerprintError::MissingField(JwkField::Kty)
    );
    assert_eq!(
        compute_fingerprint("{\"e\":\"AQAB\",\"kty\":\"RSA\"}").unwrap_err(),
        FingerprintError::MissingField(JwkField::N)
    );
    assert_eq!(
        compute_fingerprint("not json").unwrap_err(),
        FingerprintError::MissingField(JwkField::E)
    );
}
