//! Address-validation tokens of the QUIC server, and the decisions that an
//! acceptor takes on an Initial packet.
//!
//! A token is `b"quiche"`, then the octets of the client's IP address, then
//! the original destination connection id. A token is accepted for a source
//! address exactly when it was minted for that address.
use vstd::prelude::*;

verus! {

/// Length of a connection id that the server hands out (quiche's
/// `MAX_CONN_ID_LEN`).
pub const MAX_CONN_ID_LEN: usize = 20;

/// The bytes `quiche` that every token starts with.
pub open spec fn token_tag() -> Seq<u8> {
    seq![113u8, 117u8, 105u8, 99u8, 104u8, 101u8]
}

/// The token minted for destination connection id `dcid` and a client whose
/// IP address has octets `ip`.
pub open spec fn token_for(dcid: Seq<u8>, ip: Seq<u8>) -> Seq<u8> {
    token_tag() + ip + dcid
}

/// Why a token was refused.
#[derive(Debug, Clone, Copy, PartialEq, Eq, Structural)]
pub enum TokenError {
    /// Fewer than six bytes.
    TooShort,
    /// It does not start with `quiche`.
    BadTag,
    /// The address octets after the tag are not the client's.
    AddressMismatch,
}

/// The result of validating `token` for a client with address octets `ip`.
pub open spec fn validate_spec(token: Seq<u8>, ip: Seq<u8>) -> Result<Seq<u8>, TokenError> {
    if token.len() < 6 {
        Err(TokenError::TooShort)
    } else if token.take(6) != token_tag() {
        Err(TokenError::BadTag)
    } else {
        let rest = token.skip(6);
        if rest.len() < ip.len() || rest.take(ip.len() as int) != ip {
            Err(TokenError::AddressMismatch)
        } else {
            Ok(rest.skip(ip.len() as int))
        }
    }
}

/// Mints the retry token for destination connection id `dcid` and a client
/// whose IP address has octets `ip`.
pub fn mint_token(dcid: &[u8], ip: &[u8]) -> (token: Vec<u8>)
    ensures
        token@ == token_for(dcid@, ip@),
{
    let mut token: Vec<u8> = Vec::new();
    token.push(113u8);
    token.push(117u8);
    token.push(105u8);
    token.push(99u8);
    token.push(104u8);
    token.push(101u8);
    assert(token@ =~= token_tag());
    token.extend_from_slice(ip);
    token.extend_from_slice(dcid);
    assert(token@ =~= token_for(dcid@, ip@));
    token
}

/// Checks a token presented by a client whose IP address has octets `ip`
/// and returns the original destination connection id that it carries.
pub fn validate_token<'a>(token: &'a [u8], ip: &[u8]) -> (r: Result<&'a [u8], TokenError>)
    ensures
        match validate_spec(token@, ip@) {
            Ok(odcid) => r matches Ok(o) && o@ == odcid,
            Err(e) => r matches Err(x) && x == e,
        },
{
    if token.len() < 6 {
        return Err(TokenError::TooShort);
    }
    if !(token[0] == 113u8 && token[1] == 117u8 && token[2] == 105u8 && token[3] == 99u8
        && token[4] == 104u8 && token[5] == 101u8) {
        assert(token@.take(6)[0] == token@[0]);
        assert(token@.take(6)[1] == token@[1]);
        assert(token@.take(6)[2] == token@[2]);
        assert(token@.take(6)[3] == token@[3]);
        assert(token@.take(6)[4] == token@[4]);
        assert(token@.take(6)[5] == token@[5]);
        return Err(TokenError::BadTag);
    }
    assert(token@.take(6) =~= token_tag());
    let rest = &token[6..token.len()];
    assert(rest@ =~= token@.skip(6));
    if rest.len() < ip.len() {
        return Err(TokenError::AddressMismatch);
    }
    let mut i: usize = 0;
    while i < ip.len()
        invariant
            token@.len() >= 6,
            token@.take(6) == token_tag(),
            rest@ == token@.skip(6),
            ip@.len() <= rest@.len(),
            i <= ip@.len(),
            forall|j: int| 0 <= j < i ==> rest@[j] == ip@[j],
        decreases ip@.len() - i,
    {
        if rest[i] != ip[i] {
            assert(rest@.take(ip@.len() as int)[i as int] != ip@[i as int]);
            return Err(TokenError::AddressMismatch);
        }
        i += 1;
    }
    assert(rest@.take(ip@.len() as int) =~= ip@);
    let odcid = &rest[ip.len()..rest.len()];
    assert(odcid@ =~= rest@.skip(ip@.len() as int));
    Ok(odcid)
}

/// A token minted for a client is accepted for that client, and gives back
/// the connection id it was minted for.
pub proof fn lemma_minted_token_validates(dcid: Seq<u8>, ip: Seq<u8>)
    ensures
        validate_spec(token_for(dcid, ip), ip) == Ok::<Seq<u8>, TokenError>(dcid),
{
    let t = token_for(dcid, ip);
    assert(t.take(6) =~= token_tag());
    assert(t.skip(6) =~= ip + dcid);
    assert((ip + dcid).take(ip.len() as int) =~= ip);
    assert((ip + dcid).skip(ip.len() as int) =~= dcid);
}

/// A token is accepted for a client only when it is exactly the token minted
/// for that client and the connection id it gives back.
pub proof fn lemma_valid_token_was_minted(token: Seq<u8>, ip: Seq<u8>)
    requires
        validate_spec(token, ip) is Ok,
    ensures
        token == token_for(validate_spec(token, ip)->Ok_0, ip),
{
    let odcid = validate_spec(token, ip)->Ok_0;
    let rest = token.skip(6);
    assert(rest =~= rest.take(ip.len() as int) + rest.skip(ip.len() as int));
    assert(token =~= token.take(6) + token.skip(6));
}

/// What an acceptor does with an Initial packet.
#[derive(Debug)]
pub enum HelloAction<'a> {
    /// Answer with a version negotiation packet.
    NegotiateVersion,
    /// The packet carries no token: answer with a retry packet.
    Retry,
    /// Accept a connection whose original destination id is given.
    Accept(&'a [u8]),
}

/// Why an Initial packet is refused.
#[derive(Debug, Clone, Copy, PartialEq, Eq, Structural)]
pub enum HelloError {
    /// The token does not validate.
    Token(TokenError),
    /// The destination connection id does not have the server's length.
    ConnIdLength,
}

/// The acceptor's decision on an Initial packet: negotiate a version when it
/// is not supported, ask for a retry when there is no token, then validate
/// the token and the length of the destination connection id.
pub fn client_hello_action<'a>(
    version_supported: bool,
    token: &'a [u8],
    ip: &[u8],
    dcid_len: usize,
) -> (r: Result<HelloAction<'a>, HelloError>)
    ensures
        !version_supported ==> (r matches Ok(HelloAction::NegotiateVersion)),
        version_supported && token@.len() == 0 ==> (r matches Ok(HelloAction::Retry)),
        version_supported && token@.len() > 0 ==> match validate_spec(token@, ip@) {
            Err(e) => r matches Err(HelloError::Token(x)) && x == e,
            Ok(odcid) => if dcid_len != MAX_CONN_ID_LEN {
                r matches Err(HelloError::ConnIdLength)
            } else {
                r matches Ok(HelloAction::Accept(o)) && o@ == odcid
            },
        },
{
    if !version_supported {
        return Ok(HelloAction::NegotiateVersion);
    }
    if token.len() == 0 {
        return Ok(HelloAction::Retry);
    }
    let odcid = match validate_token(token, ip) {
        Ok(odcid) => odcid,
        Err(e) => return Err(HelloError::Token(e)),
    };
    if dcid_len != MAX_CONN_ID_LEN {
        return Err(HelloError::ConnIdLength);
    }
    Ok(HelloAction::Accept(odcid))
}

} // verus!
