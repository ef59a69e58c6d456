//! Tests of password hashing, rate limiting, and the random string helper.

use std::collections::HashSet;

use festival_api::common::{compare_hashed_strings, hash_string_with_salt, is_user_timed_out};
use festival_api::response::{Response, STATUS_INTERNAL_SERVER_ERROR, STATUS_TOO_MANY_REQUESTS};
use festival_api::utils::{generate_random_alphanumeric, sha_256_hash, sha_512_hash};

#[test]
fn test_create_hash_password() {
    // To ensure salt is working.
    // Don't set too high, hashing is expensive + time consuming.
    let loop_count = 5;

    let pwd = generate_random_alphanumeric(10);

    let mut set: HashSet<String> = HashSet::default();
    for _ in 0..loop_count {
        let hashed_pwd = hash_string_with_salt(pwd.clone());
        if set.contains(&hashed_pwd) {
            panic!("Duplicate key found in set - password not being salted");
        }
        set.insert(hashed_pwd);
    }
}

#[test]
fn test_compare_password() {
    // Ensure that we can compare the hash still!
    let pwd = generate_random_alphanumeric(4);
    let hashed_pwd = hash_string_with_salt(pwd.clone());
    assert!(
        compare_hashed_strings::<String>(pwd, hashed_pwd.clone()).expect("Failed to compare hashes ")
    );
    assert!(
        !compare_hashed_strings::<String>(String::from("hello"), hashed_pwd)
            .expect("Failed to compare hashes ")
    );
}

#[test]
fn failed_password_compare() {
    let pwd = generate_random_alphanumeric(4);

    // This isn't an error that can occur in practice, but it's useful to test
    // that the application is working as expected upon an error being
    // encountered.
    let result =
        compare_hashed_strings::<String>(pwd, String::from("")).expect_err("failed comparison");
    match result {
        Response::TextErr(data) => {
            assert_eq!(data.status(), STATUS_INTERNAL_SERVER_ERROR);
            assert_eq!(
                data.data(),
                "Failed to compare hashes password hash string too short"
            );
        }
        _ => panic!("Invalid response type!"),
    }
}

#[test]
fn common_test_generate_random_alphanumeric() {
    // Note, there is a chance that we *could* get a string which has been
    // generated before. But that chance is infinitesimally small as to be
    // negligible.
    let sample_size = 1000;
    let mut set: HashSet<String> = HashSet::default();
    for _ in 0..sample_size {
        let s = generate_random_alphanumeric(32);
        if set.contains(&s) {
            panic!("Duplicate key found in set");
        }
        set.insert(s);
    }
}

#[test]
fn utils_test_generate_random_alphanumeric() {
    let sample_size = 1000;
    let mut set: HashSet<String> = HashSet::default();
    for _ in 0..sample_size {
        let s = generate_random_alphanumeric(32);
        assert_eq!(s.len(), 32);
        assert!(s.chars().all(|c| c.is_ascii_alphanumeric()));
        if set.contains(&s) {
            panic!("Duplicate key found in set");
        }
        set.insert(s);
    }
}

/// The digest helpers produce the well-known hex digests.
#[test]
fn hash_helpers_match_known_digests() {
    assert_eq!(
        sha_256_hash(""),
        "e3b0c44298fc1c149afbf4c8996fb92427ae41e4649b934ca495991b7852b855"
    );
    assert_eq!(
        sha_512_hash(""),
        "cf83e1357eefb8bdf1542850d66d8007d620e4050b5715dc83f4a921d36ce9ce\
         47d0d13c5d85f2b0ff8318d2877eec2f63b931bd47417a81a538327af927da3e"
    );
    assert_eq!(sha_256_hash("").len(), 64);
    assert_eq!(sha_512_hash("").len(), 128);
}

/// Under the request threshold nobody is timed out.
#[test]
fn rate_limit_under_threshold() {
    let r = is_user_timed_out::<String>(3, 5, true, false, 0, 5);
    assert!(r.is_ok());
}

/// Over the threshold, a recent earliest request earns a 429 naming the
/// seconds left; an exempt user passes; an unknown user is rejected.
#[test]
fn rate_limit_over_threshold() {
    // period 5 minutes, earliest request 100 seconds old: 200 left.
    let r = is_user_timed_out::<String>(5, 5, true, false, 100, 5);
    match r.expect_err("timed out") {
        Response::TextErr(d) => {
            assert_eq!(d.status, STATUS_TOO_MANY_REQUESTS);
            assert_eq!(
                d.data,
                "Too many requests! You will be able to make another request in 200 seconds."
            );
        }
        _ => panic!("Invalid response type!"),
    }

    assert!(is_user_timed_out::<String>(5, 5, true, true, 100, 5).is_ok());
    assert!(is_user_timed_out::<String>(5, 5, true, false, 300, 5).is_ok());
    assert!(is_user_timed_out::<String>(5, 5, false, false, 100, 5).is_err());
}
