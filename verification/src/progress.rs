//! Wallet typing and person identifiers of the account store.
use vstd::prelude::*;

use crate::text::{concat2, owned, str_eq};

verus! {

/// The characters of the URL-safe alphabet of `nanoid`: `_`, `-`, ASCII
/// digits and ASCII letters.
pub open spec fn is_url_safe_id_char(c: char) -> bool {
    c == '_' || c == '-' || ('0' <= c && c <= '9') || ('a' <= c && c <= 'z') || ('A' <= c && c <= 'Z')
}

/// Ten random characters of the URL-safe alphabet: `nanoid::format` with
/// `nanoid::rngs::default` and `nanoid::alphabet::SAFE`, which is what
/// `nanoid!(10)` expands to. With this 64-character alphabet the source
/// draws ten random bytes and pushes one alphabet character for each. Which
/// characters come out is random and not stated; the operating system's
/// random source failing makes the call panic.
#[verifier::external_body]
fn random_url_safe_id_of_ten() -> (id: String)
    ensures
        id@.len() == 10,
        forall|i: int| 0 <= i < 10 ==> is_url_safe_id_char(#[trigger] id@[i]),
{
    nanoid::format(nanoid::rngs::default, &nanoid::alphabet::SAFE, 10)
}

/// A new random person identifier: ten URL-safe characters.
pub fn generate_person_id() -> (id: String)
    ensures
        id@.len() == 10,
        forall|i: int| 0 <= i < 10 ==> is_url_safe_id_char(#[trigger] id@[i]),
{
    random_url_safe_id_of_ten()
}

/// Activity above which a wallet is taken for an exchange.
pub const EXCHANGE_NONCE_THRESHOLD: u64 = 10000;

/// Distinct senders above which a wallet is taken for an exchange.
pub const EXCHANGE_FAN_IN_THRESHOLD: u64 = 500;

/// An exchange tag or more than 10 000 transactions make a wallet an
/// exchange before its fan-in is looked at.
pub fn exchange_by_tag_or_activity(known_exchange_tags: u64, nonce: u64) -> (r: bool)
    ensures
        r == (known_exchange_tags > 0 || nonce > EXCHANGE_NONCE_THRESHOLD),
{
    known_exchange_tags > 0 || nonce > EXCHANGE_NONCE_THRESHOLD
}

/// The type of a wallet: `exchange` when it is tagged as one, has more than
/// 10 000 transactions or receives from more than 500 distinct senders;
/// else the type detected for it.
pub fn detect_wallet_type(
    known_exchange_tags: u64,
    nonce: u64,
    fan_in: u64,
    detected_wallet_type: String,
) -> (t: String)
    ensures
        t@ == if known_exchange_tags > 0 || nonce > EXCHANGE_NONCE_THRESHOLD || fan_in
            > EXCHANGE_FAN_IN_THRESHOLD {
            "exchange"@
        } else {
            detected_wallet_type@
        },
{
    if exchange_by_tag_or_activity(known_exchange_tags, nonce) || fan_in > EXCHANGE_FAN_IN_THRESHOLD {
        owned("exchange")
    } else {
        detected_wallet_type
    }
}

/// The person an exchange wallet belongs to: `EXCHANGE_` and its address;
/// `None` for other wallets, whose person is looked up or made.
pub fn exchange_person_id(wallet_type: &str, address: &str) -> (id: Option<String>)
    ensures
        match id {
            Some(p) => wallet_type@ == "exchange"@ && p@ == "EXCHANGE_"@ + address@,
            None => wallet_type@ != "exchange"@,
        },
{
    if str_eq(wallet_type, "exchange") {
        Some(concat2("EXCHANGE_", address))
    } else {
        None
    }
}

} // verus!
