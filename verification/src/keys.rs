//! API keys: minting their tokens, and what operators are told of them.

use vstd::prelude::*;
use crate::ident::{id_text, print_id};
use crate::number::{hex, hex_text};
use crate::text::strip_prefix;
use crate::time::{listing_time, Timestamp};

verus! {

/// How many random bytes a token is made from.
pub const TOKEN_BYTES: usize = 24;

/// A key just minted. The token is shown once; only its digest is kept.
#[derive(Debug)]
pub struct IssuedKey {
    pub tenant_id: u128,
    pub token: String,
}

/// A key in a listing. The digest is what names it, as the token cannot be had back.
#[derive(Debug)]
pub struct KeyInfo {
    pub digest_hex: String,
    pub label: Option<String>,
    pub created_at: Timestamp,
    pub revoked_at: Option<Timestamp>,
}

/// The token made from some bytes.
pub open spec fn token_of(bytes: Seq<u8>) -> Seq<char> {
    "sm_"@ + hex(bytes)
}

/// Fills a buffer with `rand::rngs::OsRng`'s `try_fill_bytes`, which takes the bytes from the
/// operating system; none where that fails. Nothing is promised of the bytes but their number.
#[verifier::external_body]
fn random_bytes(count: usize) -> (r: Option<Vec<u8>>)
    requires
        count <= 1024,
    ensures
        r matches Some(bytes) ==> bytes@.len() == count,
{
    let mut bytes = vec![0u8; count];
    rand::RngCore::try_fill_bytes(&mut rand::rngs::OsRng, &mut bytes).ok()?;
    Some(bytes)
}

/// The token made from some bytes.
pub fn token_from_bytes(bytes: &[u8]) -> (r: String)
    ensures
        r@ == token_of(bytes@),
{
    let mut token: String = "sm_".to_owned();
    token.append(hex_text(bytes).as_str());
    token
}

/// The token made from the bytes that were drawn: there is one exactly where there are bytes.
pub fn token_from_draw(drawn: Option<Vec<u8>>) -> (r: Option<String>)
    ensures
        match drawn {
            Some(bytes) => r matches Some(token) && token@ == token_of(bytes@),
            None => r is None,
        },
{
    match drawn {
        Some(bytes) => Some(token_from_bytes(bytes.as_slice())),
        None => None,
    }
}

/// A new token, made from as many random bytes as a token takes; none where the operating system
/// has no randomness to give. When that is, rests with the system.
pub fn generate_token() -> (r: Option<String>)
    ensures
        r matches Some(token) ==> exists|bytes: Seq<u8>|
            bytes.len() == TOKEN_BYTES && #[trigger] token_of(bytes) == token@,
        r matches Some(token) ==> token@.len() == 51,
{
    let drawn: Option<Vec<u8>> = random_bytes(TOKEN_BYTES);
    let ghost bytes = drawn;
    let token: Option<String> = token_from_draw(drawn);
    assert(token is Some ==> token_of(bytes->0@) == token->0@);
    proof {
        if bytes is Some {
            tokens_are_hexadecimal(bytes->0@);
        }
    }
    token
}

/// What a key is named by.
#[derive(Debug, Clone, Copy, PartialEq, Eq, Structural)]
pub enum KeyReference {
    Token,
    Digest,
}

/// A text that starts as tokens do is a token, any other a digest.
pub open spec fn reference_kind(text: Seq<char>) -> KeyReference {
    if "sm_"@.is_prefix_of(text) {
        KeyReference::Token
    } else {
        KeyReference::Digest
    }
}

/// What kind of name a key is given by.
pub fn key_reference(text: &str) -> (r: KeyReference)
    ensures
        r == reference_kind(text@),
{
    match strip_prefix(text, "sm_") {
        Some(_) => KeyReference::Token,
        None => KeyReference::Digest,
    }
}

/// Every token that is minted is taken for a token when a key is named by it.
pub proof fn tokens_are_known_as_tokens(bytes: Seq<u8>)
    ensures
        reference_kind(token_of(bytes)) == KeyReference::Token,
{
    assert("sm_"@.is_prefix_of(token_of(bytes)));
}

/// A token is as long as its bytes tell, and after the prefix it holds hexadecimal digits alone.
pub proof fn tokens_are_hexadecimal(bytes: Seq<u8>)
    ensures
        token_of(bytes).len() == 3 + 2 * bytes.len(),
        forall|i: int|
            3 <= i < token_of(bytes).len() ==> ('0' <= #[trigger] token_of(bytes)[i] <= '9' || 'a'
                <= token_of(bytes)[i] <= 'f'),
{
    reveal_strlit("sm_");
    let digits = hex(bytes);
    assert(digits.len() == 2 * bytes.len());
    assert forall|i: int| 3 <= i < token_of(bytes).len() implies ('0' <= #[trigger] token_of(
        bytes,
    )[i] <= '9' || 'a' <= token_of(bytes)[i] <= 'f') by {
        assert(token_of(bytes)[i] == digits[i - 3]);
    }
}

/// Tokens made from different bytes differ.
pub proof fn tokens_are_injective(a: Seq<u8>, b: Seq<u8>)
    requires
        token_of(a) == token_of(b),
    ensures
        a == b,
{
    let prefix = "sm_"@;
    assert(token_of(a).skip(prefix.len() as int) =~= hex(a));
    assert(token_of(b).skip(prefix.len() as int) =~= hex(b));
    crate::number::hex_is_injective(a, b);
}

/// The state of a key in a listing.
pub open spec fn key_status(revoked_at: Option<Timestamp>) -> Seq<char> {
    match revoked_at {
        Some(t) => "revoked "@ + listing_time(t@.0, t@.1),
        None => "active"@,
    }
}

/// The line for a key in a listing: its digest, when it was made, its state and its label.
pub open spec fn key_line(key: KeyInfo) -> Seq<char> {
    key.digest_hex@ + "  "@ + listing_time(key.created_at@.0, key.created_at@.1) + "  "@
        + key_status(key.revoked_at) + "  "@ + match key.label {
        Some(label) => label@,
        None => ""@,
    }
}

/// The line for a key in a listing.
pub fn key_listing(key: &KeyInfo) -> (r: String)
    ensures
        r@ == key_line(*key),
{
    let status: String = match &key.revoked_at {
        Some(t) => "revoked ".to_owned().concat(t.to_listing().as_str()),
        None => "active".to_owned(),
    };
    let label: &str = match &key.label {
        Some(label) => label.as_str(),
        None => "",
    };
    let mut line: String = key.digest_hex.clone();
    line.append("  ");
    line.append(key.created_at.to_listing().as_str());
    line.append("  ");
    line.append(status.as_str());
    line.append("  ");
    line.append(label);
    line
}

/// What an operator is told where a tenant has no keys.
pub fn no_keys_message(external_id: &str) -> (r: String)
    ensures
        r@ == "no keys for tenant "@ + external_id@,
{
    "no keys for tenant ".to_owned().concat(external_id)
}

/// What an operator is told of a new key: its tenant, and the token, this once.
pub fn issue_report(external_id: &str, issued: &IssuedKey) -> (r: Vec<String>)
    ensures
        r@.len() == 2,
        r@[0]@ == "tenant "@ + external_id@ + " = "@ + id_text(issued.tenant_id),
        r@[1]@ == "token (shown once, store it now): "@ + issued.token@,
{
    let mut tenant: String = "tenant ".to_owned();
    tenant.append(external_id);
    tenant.append(" = ");
    tenant.append(print_id(issued.tenant_id).as_str());
    let token: String = "token (shown once, store it now): ".to_owned().concat(
        issued.token.as_str(),
    );
    let mut lines: Vec<String> = Vec::new();
    lines.push(tenant);
    lines.push(token);
    lines
}

/// What an operator is told of a revocation; `revoked` says whether a key in force was named.
pub fn revocation_message(revoked: bool) -> (r: String)
    ensures
        r@ == if revoked {
            "revoked"@
        } else {
            "no active key matched (already revoked or unknown)"@
        },
{
    if revoked {
        "revoked".to_owned()
    } else {
        "no active key matched (already revoked or unknown)".to_owned()
    }
}

/// A token starts with its prefix, and what follows it gives the bytes, two digits for each.
pub proof fn tokens_show_their_bytes(bytes: Seq<u8>)
    ensures
        token_of(bytes)[0] == 's',
        token_of(bytes)[1] == 'm',
        token_of(bytes)[2] == '_',
        token_of(bytes).skip(3) == hex(bytes),
{
    reveal_strlit("sm_");
    assert(token_of(bytes).skip(3) =~= hex(bytes));
}

/// A name that starts with another character than tokens do is a digest.
pub proof fn digests_are_known_as_digests(text: Seq<char>)
    ensures
        reference_kind(text) == KeyReference::Token <==> text.len() >= 3 && text[0] == 's'
            && text[1] == 'm' && text[2] == '_',
{
    reveal_strlit("sm_");
    let prefix = "sm_"@;
    assert(prefix.len() == 3 && prefix[0] == 's' && prefix[1] == 'm' && prefix[2] == '_');
    if text.len() >= 3 && text[0] == 's' && text[1] == 'm' && text[2] == '_' {
        assert(prefix =~= text.subrange(0, 3));
    }
    if prefix.is_prefix_of(text) {
        assert(text.subrange(0, 3)[0] == text[0]);
        assert(text.subrange(0, 3)[1] == text[1]);
        assert(text.subrange(0, 3)[2] == text[2]);
    }
}

/// The line for a key starts with its digest and ends with its label, where it has one, and tells
/// a key that is in force from one that was revoked.
pub proof fn key_lines_tell_what_is_known(key: KeyInfo)
    ensures
        ({
            let made = listing_time(key.created_at@.0, key.created_at@.1);
            let label = if key.label is Some {
                key.label->0@
            } else {
                Seq::empty()
            };
            &&& key.revoked_at is None ==> key_line(key) == key.digest_hex@ + "  "@ + made + "  "@
                + "active"@ + "  "@ + label
            &&& key.revoked_at matches Some(t) ==> key_line(key) == key.digest_hex@ + "  "@ + made
                + "  "@ + ("revoked "@ + listing_time(t@.0, t@.1)) + "  "@ + label
        }),
{
    reveal_strlit("");
    assert(""@ =~= Seq::<char>::empty());
}

} // verus!
