//! Common functions used in endpoints: password hashing and the rate-limit
//! decision. Database reads and the clock live with the caller; the
//! decisions taken on what they hand over are checked here.

use argon2::password_hash::{PasswordHash, PasswordHasher, PasswordVerifier, SaltString};
use vstd::prelude::*;

use crate::response::{Data, Response, STATUS_BAD_REQUEST, STATUS_INTERNAL_SERVER_ERROR,
    STATUS_TOO_MANY_REQUESTS};
use crate::strutil::{spec_decimal, u64_to_string};

verus! {

/// A search item to be used for finding various database interactions when
/// the flexibility between searching via a users name, and a users id is
/// required.
pub enum SearchItem {
    Name(String),
    Id(i32),
}

/// Whether the original text hashes to the PHC string: a function of the
/// two texts alone.
pub uninterp spec fn argon2_verifies(original: Seq<char>, hashed: Seq<char>) -> bool;

/// Hash a string with a random salt to be stored in the database,
/// utilizing the argon2id algorithm.
///
/// Relies on argon2's hash_password over a fresh OsRng salt: the returned
/// PHC string verifies against the input (the salt and parameters are
/// embedded in it), and differs between calls because the salt is random.
/// Hashing refuses a password over `MAX_PWD_LEN` bytes; the length bound
/// here keeps the input under that limit (a char is at most four bytes),
/// and with a freshly generated salt no other failure remains, so the
/// unwrapped call cannot panic.
#[verifier::external_body]
pub fn hash_string_with_salt(s: String) -> (r: String)
    requires
        s@.len() <= 0x3FFF_FFFF,
    ensures
        argon2_verifies(s@, r@),
{
    let salt = SaltString::generate(&mut argon2::password_hash::rand_core::OsRng);
    let argon2 = argon2::Argon2::default();
    let hash = argon2.hash_password(s.as_bytes(), &salt).unwrap();
    hash.to_string()
}

/// Relies on argon2's PasswordHash parsing and verify_password: whether
/// the original text hashes to the PHC string depends on the two texts
/// alone; a string that does not parse as a PHC hash is reported with the
/// parser's words.
#[verifier::external_body]
fn argon2_verify(original: &str, hashed: &str) -> (r: Result<bool, String>)
    ensures
        match r {
            Ok(b) => b == argon2_verifies(original@, hashed@),
            Err(_) => true,
        },
{
    let parsed = match PasswordHash::new(hashed) {
        Ok(p) => p,
        Err(e) => return Err(format!("{}", e)),
    };
    Ok(argon2::Argon2::default().verify_password(original.as_bytes(), &parsed).is_ok())
}

/// A function which checks whether the first string can be hashed into the
/// second string. Returns a boolean true if they are the same, and false
/// otherwise. In the event the strings cannot be compared due to an error,
/// returns an Err(response) which may be returned to the user.
pub fn compare_hashed_strings<F>(orignal: String, hashed: String) -> (r: Result<bool, Response<F>>)
    ensures
        match r {
            Ok(b) => b == argon2_verifies(orignal@, hashed@),
            Err(resp) => match resp {
                Response::TextErr(d) => d.status == STATUS_INTERNAL_SERVER_ERROR && exists|
                    tail: Seq<char>,
                |
                    d.data@ == "Failed to compare hashes "@ + tail,
                _ => false,
            },
        },
{
    match argon2_verify(orignal.as_str(), hashed.as_str()) {
        Ok(b) => Ok(b),
        Err(e) => {
            let mut msg = String::from_str("Failed to compare hashes ");
            msg.append(e.as_str());
            proof {
                assert(msg@ == "Failed to compare hashes "@ + e@);
            }
            Err(Response::TextErr(Data { data: msg, status: STATUS_INTERNAL_SERVER_ERROR }))
        },
    }
}

/// Returns Ok(()) if the user is not timed out. If the user is timed out
/// returns Err(Response) with a custom message containing the number of
/// seconds the user has left before becoming non-timed out.
///
/// The caller reads the database and the clock, and hands over: how many
/// recent requests were found, the account threshold, whether the user
/// record was found, whether it is exempt from rate limits, the age in
/// seconds of the earliest recent request, and the length of the rate
/// window in minutes.
pub fn is_user_timed_out<F>(
    recent_request_count: usize,
    threshold: usize,
    user_found: bool,
    exempt: bool,
    earliest_req_age_seconds: i64,
    period_minutes: i64,
) -> (r: Result<(), Response<F>>)
    requires
        0 <= period_minutes <= i64::MAX / 60,
        earliest_req_age_seconds >= 0,
    ensures
        recent_request_count < threshold ==> r is Ok,
        recent_request_count >= threshold ==> {
            if !user_found {
                match r {
                    Err(Response::TextErr(d)) => d.status == STATUS_BAD_REQUEST && d.data@
                        == "User does not exist!"@,
                    _ => false,
                }
            } else if exempt {
                r is Ok
            } else if earliest_req_age_seconds < period_minutes * 60 {
                match r {
                    Err(Response::TextErr(d)) => d.status == STATUS_TOO_MANY_REQUESTS && d.data@
                        == "Too many requests! You will be able to make another request in "@
                        + spec_decimal(period_minutes * 60 - earliest_req_age_seconds)
                        + " seconds."@,
                    _ => false,
                }
            } else {
                r is Ok
            }
        },
{
    if recent_request_count >= threshold {
        // If this user is exempt from rate limits, enforce that now!
        if !user_found {
            return Err(
                Response::TextErr(
                    Data {
                        data: String::from_str("User does not exist!"),
                        status: STATUS_BAD_REQUEST,
                    },
                ),
            );
        }
        if exempt {
            return Ok(());
        }
        // Validate that this user hasn't made too many requests.
        let window_seconds = period_minutes * 60;
        if earliest_req_age_seconds < window_seconds {
            let remaining = window_seconds - earliest_req_age_seconds;
            let remaining_text = u64_to_string(remaining as u64);
            let mut msg = String::from_str(
                "Too many requests! You will be able to make another request in ",
            );
            msg.append(remaining_text.as_str());
            msg.append(" seconds.");
            proof {
                assert(msg@ =~= "Too many requests! You will be able to make another request in "@
                    + spec_decimal(period_minutes * 60 - earliest_req_age_seconds) + " seconds."@);
            }
            return Err(
                Response::TextErr(Data { data: msg, status: STATUS_TOO_MANY_REQUESTS }),
            );
        }
    }
    Ok(())
}

} // verus!
