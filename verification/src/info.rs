//! `famp info`: the peer card other agents register this agent with.

use vstd::prelude::*;
use crate::executable::last_component;
use crate::init::InitError;
use crate::text::owned;
use base64::Engine;

verus! {

/// The shareable identity for peer registration.
#[derive(Debug)]
pub struct PeerCard {
    /// Suggested alias: the last segment of the principal.
    pub alias: String,
    /// HTTPS endpoint of the agent's inbox.
    pub endpoint: String,
    /// base64url-unpadded ed25519 public key.
    pub pubkey: String,
    /// FAMP principal (`agent:authority/name`).
    pub principal: String,
}

/// The character of a 6-bit value in the URL-safe base64 alphabet
/// (`A`–`Z`, `a`–`z`, `0`–`9`, `-`, `_`).
pub open spec fn b64url_digit(v: int) -> char {
    if v < 26 {
        ('A' as int + v) as char
    } else if v < 52 {
        ('a' as int + (v - 26)) as char
    } else if v < 62 {
        ('0' as int + (v - 52)) as char
    } else if v == 62 {
        '-'
    } else {
        '_'
    }
}

/// `bytes` in URL-safe base64 without padding: each group of three bytes
/// gives four characters, a final two bytes give three and a final byte
/// gives two.
pub open spec fn b64url_nopad(bytes: Seq<u8>) -> Seq<char>
    decreases bytes.len(),
{
    if bytes.len() == 0 {
        Seq::empty()
    } else if bytes.len() == 1 {
        let b0 = bytes[0] as int;
        seq![b64url_digit(b0 / 4), b64url_digit((b0 % 4) * 16)]
    } else if bytes.len() == 2 {
        let (b0, b1) = (bytes[0] as int, bytes[1] as int);
        seq![b64url_digit(b0 / 4), b64url_digit((b0 % 4) * 16 + b1 / 16), b64url_digit((b1 % 16) * 4)]
    } else {
        let (b0, b1, b2) = (bytes[0] as int, bytes[1] as int, bytes[2] as int);
        seq![b64url_digit(b0 / 4), b64url_digit((b0 % 4) * 16 + b1 / 16), b64url_digit((b1 % 16) * 4 + b2 / 64), b64url_digit(b2 % 64)]
            + b64url_nopad(bytes.skip(3))
    }
}

/// Encodes a public key with `base64::engine::general_purpose::URL_SAFE_NO_PAD`:
/// the URL-safe alphabet, no `=` padding.
#[verifier::external_body]
pub fn encode_b64url(bytes: &[u8]) -> (r: String)
    ensures
        r@ == b64url_nopad(bytes@),
{
    base64::engine::general_purpose::URL_SAFE_NO_PAD.encode(bytes)
}

/// The principal used when the configuration names none.
pub open spec fn default_principal() -> Seq<char> {
    "agent:localhost/self"@
}

/// Builds the peer card from the configured principal (if any), the listen
/// address (as text) and the encoded public key.
pub fn peer_card(principal: Option<String>, listen_addr: &str, pubkey: String) -> (r: PeerCard)
    ensures
        r.principal@ == (match principal { Some(p) => p@, None => default_principal() }),
        r.alias@ == last_component(r.principal@),
        r.endpoint@ == "https://"@ + listen_addr@,
        r.pubkey == pubkey,
{
    let principal = match principal {
        Some(p) => p,
        None => owned("agent:localhost/self"),
    };
    let alias = crate::executable::after_last_slash(principal.as_str());
    let mut endpoint = owned("https://");
    endpoint.append(listen_addr);
    PeerCard { alias, endpoint, pubkey, principal }
}

/// Builds the peer card from the bytes of the public-key file: a key that
/// is not 32 bytes long is an incomplete identity naming the key file;
/// otherwise the key is encoded base64url without padding.
pub fn peer_card_from_key(pub_bytes: &[u8], pub_path: String, principal: Option<String>, listen_addr: &str) -> (r: Result<PeerCard, InitError>)
    ensures
        pub_bytes@.len() != 32 ==> (r matches Err(InitError::IdentityIncomplete { missing }) && missing@ == pub_path@),
        pub_bytes@.len() == 32 ==> (r matches Ok(c)
            && c.pubkey@ == b64url_nopad(pub_bytes@)
            && c.principal@ == (match principal { Some(p) => p@, None => default_principal() })
            && c.alias@ == last_component(c.principal@)
            && c.endpoint@ == "https://"@ + listen_addr@),
{
    if pub_bytes.len() != 32 {
        return Err(InitError::IdentityIncomplete { missing: pub_path });
    }
    let pubkey = encode_b64url(pub_bytes);
    Ok(peer_card(principal, listen_addr, pubkey))
}

/// The card as text, one field per line.
pub fn card_text(card: &PeerCard) -> (r: Vec<String>)
    ensures
        r@.len() == 4,
        r@[0]@ == "Alias:     "@ + card.alias@,
        r@[1]@ == "Endpoint:  "@ + card.endpoint@,
        r@[2]@ == "Pubkey:    "@ + card.pubkey@,
        r@[3]@ == "Principal: "@ + card.principal@,
{
    let mut out: Vec<String> = Vec::new();
    let mut a = owned("Alias:     ");
    a.append(card.alias.as_str());
    out.push(a);
    let mut b = owned("Endpoint:  ");
    b.append(card.endpoint.as_str());
    out.push(b);
    let mut c = owned("Pubkey:    ");
    c.append(card.pubkey.as_str());
    out.push(c);
    let mut d = owned("Principal: ");
    d.append(card.principal.as_str());
    out.push(d);
    out
}

} // verus!
