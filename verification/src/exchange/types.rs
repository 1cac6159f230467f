//! Exchange wallet roles, attributions and entity identifiers.
use vstd::prelude::*;

use crate::text::{
    ascii_lower, chars_of, concat2, is_ascii_alphanumeric, is_whitespace, owned, spec_ascii_lower, spec_ascii_lower_seq, spec_is_ascii_alphanumeric, spec_is_whitespace,
    string_of, string_of_range, to_ascii_lowercase,
};

verus! {

/// The part an address plays for an exchange.
#[derive(Debug, Clone, Copy, PartialEq, Eq, Structural)]
pub enum ExchangeWalletRole {
    Hot,
    Deposit,
    Sweep,
    Treasury,
    Withdraw,
    Internal,
}

impl ExchangeWalletRole {
    /// The upper-case name of the role.
    pub open spec fn spec_name(self) -> Seq<char> {
        match self {
            ExchangeWalletRole::Hot => "HOT"@,
            ExchangeWalletRole::Deposit => "DEPOSIT"@,
            ExchangeWalletRole::Sweep => "SWEEP"@,
            ExchangeWalletRole::Treasury => "TREASURY"@,
            ExchangeWalletRole::Withdraw => "WITHDRAW"@,
            ExchangeWalletRole::Internal => "INTERNAL"@,
        }
    }

    /// The upper-case name of the role, as its `Display` writes it.
    pub fn to_string(&self) -> (r: String)
        ensures
            r@ == self.spec_name(),
    {
        match self {
            ExchangeWalletRole::Hot => owned("HOT"),
            ExchangeWalletRole::Deposit => owned("DEPOSIT"),
            ExchangeWalletRole::Sweep => owned("SWEEP"),
            ExchangeWalletRole::Treasury => owned("TREASURY"),
            ExchangeWalletRole::Withdraw => owned("WITHDRAW"),
            ExchangeWalletRole::Internal => owned("INTERNAL"),
        }
    }
}

/// An address attributed to an exchange. The confidence is in basis points
/// (10 000 is full confidence).
#[derive(Debug, Clone)]
pub struct ExchangeAttribution {
    pub exchange_name: String,
    pub role: String,
    pub confidence_bps: u32,
    pub detection_source: String,
    pub cluster_id: Option<String>,
}

/// What one character of an exchange name becomes in its entity id: ASCII
/// letters and digits in lower case, white space, `-` and `_` as `_`, anything
/// else dropped.
pub open spec fn entity_id_char(c: char) -> Seq<char> {
    if spec_is_ascii_alphanumeric(c) {
        seq![spec_ascii_lower(c)]
    } else if spec_is_whitespace(c) || c == '-' || c == '_' {
        seq!['_']
    } else {
        Seq::empty()
    }
}

/// The entity-id characters of a whole name.
pub open spec fn entity_id_body(s: Seq<char>) -> Seq<char>
    decreases s.len(),
{
    if s.len() == 0 {
        Seq::empty()
    } else {
        entity_id_body(s.drop_last()) + entity_id_char(s.last())
    }
}

/// `s` without its trailing `c` characters (`str::trim_end_matches`).
pub open spec fn trim_end_char(s: Seq<char>, c: char) -> Seq<char>
    decreases s.len(),
{
    if s.len() > 0 && s.last() == c {
        trim_end_char(s.drop_last(), c)
    } else {
        s
    }
}

/// `"exchange:"` followed by the name's entity-id characters, trailing `_` trimmed.
pub open spec fn spec_exchange_entity_id(name: Seq<char>) -> Seq<char> {
    trim_end_char("exchange:"@ + entity_id_body(name), '_')
}

proof fn lemma_trim_end_char_concat(a: Seq<char>, b: Seq<char>, c: char)
    requires
        a.len() > 0,
        a.last() != c,
    ensures
        trim_end_char(a + b, c) == a + trim_end_char(b, c),
    decreases b.len(),
{
    if b.len() > 0 {
        assert((a + b).drop_last() =~= a + b.drop_last());
        assert((a + b).last() == b.last());
        if b.last() == c {
            lemma_trim_end_char_concat(a, b.drop_last(), c);
        }
    } else {
        assert(a + b =~= a);
        assert(a.len() > 0 && a.last() != c);
    }
}

proof fn lemma_trim_end_char_prefix(s: Seq<char>, e: int, c: char)
    requires
        0 <= e <= s.len(),
        forall|j: int| e <= j < s.len() ==> #[trigger] s[j] == c,
        e == 0 || s[e - 1] != c,
    ensures
        trim_end_char(s, c) == s.take(e),
    decreases s.len() - e,
{
    if e < s.len() {
        assert(s.last() == s[s.len() - 1]);
        let t = s.drop_last();
        assert forall|j: int| e <= j < t.len() implies #[trigger] t[j] == c by {
            assert(t[j] == s[j]);
        }
        if e > 0 {
            assert(t[e - 1] == s[e - 1]);
        }
        lemma_trim_end_char_prefix(t, e, c);
        assert(t.take(e) =~= s.take(e));
    } else {
        assert(s.take(e) =~= s);
        if e > 0 {
            assert(s.last() == s[e - 1]);
        }
    }
}

/// An exchange's entity id: `"exchange:"` and the name in lower-case ASCII
/// letters and digits, with white space, `-` and `_` as `_`, other characters
/// dropped, and trailing `_` trimmed.
pub fn exchange_entity_id(exchange_name: &str) -> (id: String)
    ensures
        id@ == spec_exchange_entity_id(exchange_name@),
{
    let cs = chars_of(exchange_name);
    let mut body: Vec<char> = Vec::new();
    let mut i: usize = 0;
    while i < cs.len()
        invariant
            i <= cs@.len(),
            body@ == entity_id_body(cs@.take(i as int)),
        decreases cs.len() - i,
    {
        let ch = cs[i];
        if is_ascii_alphanumeric(ch) {
            body.push(ascii_lower(ch));
        } else if is_whitespace(ch) || ch == '-' || ch == '_' {
            body.push('_');
        }
        assert(cs@.take(i + 1).drop_last() =~= cs@.take(i as int));
        assert(cs@.take(i + 1).last() == ch);
        i = i + 1;
        assert(body@ =~= entity_id_body(cs@.take(i as int)));
    }
    assert(cs@.take(cs@.len() as int) =~= cs@);
    let mut e: usize = body.len();
    while e > 0 && body[e - 1] == '_'
        invariant
            e <= body@.len(),
            forall|j: int| e <= j < body@.len() ==> #[trigger] body@[j] == '_',
        decreases e,
    {
        e = e - 1;
    }
    proof {
        reveal_strlit("exchange:");
        lemma_trim_end_char_prefix(body@, e as int, '_');
        lemma_trim_end_char_concat("exchange:"@, body@, '_');
    }
    let trimmed = string_of_range(&body, 0, e);
    let mut id = owned("exchange:");
    id.append(trimmed.as_str());
    id
}

/// Only the ASCII letters and digits of `s`.
pub open spec fn ascii_alphanumerics(s: Seq<char>) -> Seq<char>
    decreases s.len(),
{
    if s.len() == 0 {
        Seq::empty()
    } else {
        ascii_alphanumerics(s.drop_last()) + (if spec_is_ascii_alphanumeric(s.last()) {
            seq![s.last()]
        } else {
            Seq::empty()
        })
    }
}

/// A short fingerprint of an address: its ASCII letters and digits when there
/// are at most eight, else the first four and the last four of them.
pub open spec fn spec_address_fingerprint(address: Seq<char>) -> Seq<char> {
    let a = ascii_alphanumerics(address);
    if a.len() <= 8 {
        a
    } else {
        a.take(4) + a.skip(a.len() - 4)
    }
}

/// `"Unattributed Exchange "` and the address fingerprint.
pub open spec fn spec_unattributed_exchange_name(anchor: Seq<char>) -> Seq<char> {
    "Unattributed Exchange "@ + spec_address_fingerprint(anchor)
}

/// `"exchange:unattributed:"` and the address fingerprint in lower case.
pub open spec fn spec_unattributed_exchange_entity_id(anchor: Seq<char>) -> Seq<char> {
    "exchange:unattributed:"@ + spec_ascii_lower_seq(spec_address_fingerprint(anchor))
}

fn address_fingerprint(address: &str) -> (r: String)
    ensures
        r@ == spec_address_fingerprint(address@),
{
    let cs = chars_of(address);
    let mut alnum: Vec<char> = Vec::new();
    let mut i: usize = 0;
    while i < cs.len()
        invariant
            i <= cs@.len(),
            alnum@ == ascii_alphanumerics(cs@.take(i as int)),
        decreases cs.len() - i,
    {
        let ch = cs[i];
        if is_ascii_alphanumeric(ch) {
            alnum.push(ch);
        }
        assert(cs@.take(i + 1).drop_last() =~= cs@.take(i as int));
        assert(cs@.take(i + 1).last() == ch);
        i = i + 1;
        assert(alnum@ =~= ascii_alphanumerics(cs@.take(i as int)));
    }
    assert(cs@.take(cs@.len() as int) =~= cs@);
    let n = alnum.len();
    if n <= 8 {
        return string_of(&alnum);
    }
    let head = string_of_range(&alnum, 0, 4);
    let tail = string_of_range(&alnum, n - 4, n);
    let mut r = head;
    r.append(tail.as_str());
    assert(alnum@.subrange(0, 4) =~= alnum@.take(4));
    assert(alnum@.subrange(n - 4, n as int) =~= alnum@.skip(n - 4));
    r
}

/// The display name of an exchange known only by one of its addresses.
pub fn unattributed_exchange_name(anchor_address: &str) -> (r: String)
    ensures
        r@ == spec_unattributed_exchange_name(anchor_address@),
{
    let fp = address_fingerprint(anchor_address);
    concat2("Unattributed Exchange ", fp.as_str())
}

/// The entity id of an exchange known only by one of its addresses.
pub fn unattributed_exchange_entity_id(anchor_address: &str) -> (r: String)
    ensures
        r@ == spec_unattributed_exchange_entity_id(anchor_address@),
{
    let fp = address_fingerprint(anchor_address);
    let lower = to_ascii_lowercase(fp.as_str());
    concat2("exchange:unattributed:", lower.as_str())
}

/// A character that can follow the `"exchange:"` prefix of an entity id.
pub open spec fn is_entity_id_char(c: char) -> bool {
    ('a' <= c && c <= 'z') || ('0' <= c && c <= '9') || c == '_'
}

proof fn lemma_entity_id_body_chars(s: Seq<char>)
    ensures
        forall|j: int|
            0 <= j < entity_id_body(s).len() ==> is_entity_id_char(#[trigger] entity_id_body(s)[j]),
    decreases s.len(),
{
    if s.len() > 0 {
        lemma_entity_id_body_chars(s.drop_last());
        let a = entity_id_body(s.drop_last());
        let b = entity_id_char(s.last());
        assert(entity_id_body(s) == a + b);
        let c = s.last();
        if spec_is_ascii_alphanumeric(c) && 'A' <= c && c <= 'Z' {
            assert(((c as u32) + 32) as char as u32 == (c as u32) + 32);
        }
        assert forall|j: int| 0 <= j < (a + b).len() implies is_entity_id_char(#[trigger] (a + b)[j]) by {
            if j < a.len() {
                assert((a + b)[j] == a[j]);
            } else {
                assert((a + b)[j] == b[j - a.len()]);
            }
        }
    }
}

proof fn lemma_trim_end_char_shape(s: Seq<char>, c: char)
    ensures
        trim_end_char(s, c).len() <= s.len(),
        trim_end_char(s, c) == s.take(trim_end_char(s, c).len() as int),
        trim_end_char(s, c).len() == 0 || trim_end_char(s, c).last() != c,
    decreases s.len(),
{
    if s.len() > 0 && s.last() == c {
        lemma_trim_end_char_shape(s.drop_last(), c);
        let t = trim_end_char(s.drop_last(), c);
        assert(s.drop_last().take(t.len() as int) =~= s.take(t.len() as int));
    } else {
        assert(s.take(s.len() as int) =~= s);
    }
}

/// Law (entity id shape): every entity id is `"exchange:"` followed by lower-case
/// ASCII letters, digits and `_`, and never ends with `_`.
pub proof fn lemma_exchange_entity_id_shape(name: Seq<char>)
    ensures
        spec_exchange_entity_id(name).len() >= 9,
        spec_exchange_entity_id(name).take(9) == "exchange:"@,
        forall|j: int|
            9 <= j < spec_exchange_entity_id(name).len() ==> is_entity_id_char(
                #[trigger] spec_exchange_entity_id(name)[j],
            ),
        spec_exchange_entity_id(name).last() != '_',
{
    reveal_strlit("exchange:");
    let body = entity_id_body(name);
    lemma_trim_end_char_concat("exchange:"@, body, '_');
    lemma_entity_id_body_chars(name);
    lemma_trim_end_char_shape(body, '_');
    let t = trim_end_char(body, '_');
    let id = "exchange:"@ + t;
    assert(id.take(9) =~= "exchange:"@);
    assert forall|j: int| 9 <= j < id.len() implies is_entity_id_char(#[trigger] id[j]) by {
        assert(id[j] == t[j - 9]);
        assert(t[j - 9] == body[j - 9]);
    }
    if t.len() == 0 {
        assert(id.last() == ':');
    } else {
        assert(id.last() == t.last());
    }
}

} // verus!
