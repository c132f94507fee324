//! PRELOGIN: the option table of the server's answer and the encryption
//! negotiation that decides how the session goes on.
use vstd::prelude::*;
use crate::error::{DecodeError, SessionError};
use crate::text::push_chars;
use crate::utils::{be_u16, r_u16_be};
use PreLoginEncryptionOptions::{NotSupported, Off, On, Required};

verus! {

/// Option token of the encryption setting.
pub const PL_OPTION_ENCRYPTION: u8 = 0x01;
/// Option token of the instance name check.
pub const PL_OPTION_INSTOPT: u8 = 0x02;
/// Ends the option table.
pub const PL_OPTION_TERMINATOR: u8 = 0xff;

/// The encryption settings that the PRELOGIN exchange negotiates.
#[derive(Debug, Clone, Copy, PartialEq, Eq)]
pub enum PreLoginEncryptionOptions {
    Off,
    On,
    NotSupported,
    Required,
}

/// The setting of the code `b`, if the protocol defines one.
pub open spec fn encryption_of(b: u8) -> Option<PreLoginEncryptionOptions> {
    if b == 0 {
        Some(PreLoginEncryptionOptions::Off)
    } else if b == 1 {
        Some(PreLoginEncryptionOptions::On)
    } else if b == 2 {
        Some(PreLoginEncryptionOptions::NotSupported)
    } else if b == 3 {
        Some(PreLoginEncryptionOptions::Required)
    } else {
        None
    }
}

impl PreLoginEncryptionOptions {
    /// The setting of the code `b`; an undefined code is an invalid field.
    pub fn try_from(b: u8) -> (r: Result<PreLoginEncryptionOptions, DecodeError>)
        ensures
            match encryption_of(b) {
                Some(o) => r == Ok::<PreLoginEncryptionOptions, DecodeError>(o),
                None => r matches Err(DecodeError::InvalidField(_)),
            },
    {
        match b {
            0 => Ok(PreLoginEncryptionOptions::Off),
            1 => Ok(PreLoginEncryptionOptions::On),
            2 => Ok(PreLoginEncryptionOptions::NotSupported),
            3 => Ok(PreLoginEncryptionOptions::Required),
            _ => Err(DecodeError::invalid_field()),
        }
    }

    /// The code of this setting.
    pub fn as_u8(&self) -> (r: u8)
        ensures
            encryption_of(r) == Some(*self),
    {
        match self {
            PreLoginEncryptionOptions::Off => 0,
            PreLoginEncryptionOptions::On => 1,
            PreLoginEncryptionOptions::NotSupported => 2,
            PreLoginEncryptionOptions::Required => 3,
        }
    }
}

/// Each setting has one code: two codes that read as the same setting are
/// equal, so the code that `as_u8` gives is the one that `try_from` reads back.
pub proof fn lemma_encryption_code_unique(b1: u8, b2: u8)
    requires
        encryption_of(b1) is Some,
        encryption_of(b1) == encryption_of(b2),
    ensures
        b1 == b2,
{
}

/// From the entry at `off` on, the option table of `b` ends with the
/// terminator and every option's data lies within `b`. Each entry is a token
/// byte, a big-endian offset and a big-endian length.
pub open spec fn table_ok(b: Seq<u8>, off: int) -> bool
    decreases b.len() - off,
{
    if off < 0 || off >= b.len() {
        false
    } else if b[off] == PL_OPTION_TERMINATOR {
        true
    } else if off + 5 > b.len() {
        false
    } else {
        be_u16(b, off + 1) + be_u16(b, off + 3) <= b.len() && table_ok(b, off + 5)
    }
}

/// The data of the first option `token` in the table of `b` from `off` on.
pub open spec fn find_option(b: Seq<u8>, off: int, token: u8) -> Option<Seq<u8>>
    decreases b.len() - off,
{
    if off < 0 || off >= b.len() || b[off] == PL_OPTION_TERMINATOR || off + 5 > b.len() {
        None
    } else if b[off] == token {
        let o = be_u16(b, off + 1);
        let l = be_u16(b, off + 3);
        if o + l <= b.len() {
            Some(b.subrange(o, o + l))
        } else {
            None
        }
    } else {
        find_option(b, off + 5, token)
    }
}

/// A PRELOGIN payload whose option table is well formed.
#[derive(Debug, Clone, Copy)]
pub struct PreLoginSpan<'a> {
    bytes: &'a [u8],
}

impl<'a> View for PreLoginSpan<'a> {
    type V = Seq<u8>;

    closed spec fn view(&self) -> Seq<u8> {
        self.bytes@
    }
}

impl<'a> PreLoginSpan<'a> {
    /// Accepts a PRELOGIN payload whose option table ends and stays in bounds.
    pub fn new(bytes: &'a [u8]) -> (r: Result<Self, DecodeError>)
        ensures
            table_ok(bytes@, 0) ==> (r matches Ok(s) && s@ == bytes@),
            !table_ok(bytes@, 0) ==> r matches Err(DecodeError::InvalidLength(_)),
    {
        let mut off: usize = 0;
        while off < bytes.len()
            invariant
                table_ok(bytes@, off as int) == table_ok(bytes@, 0),
            decreases bytes.len() - off,
        {
            if bytes[off] == PL_OPTION_TERMINATOR {
                return Ok(PreLoginSpan { bytes });
            }
            if bytes.len() - off < 5 {
                return Err(DecodeError::invalid_length());
            }
            let o = r_u16_be(bytes, off + 1) as usize;
            let l = r_u16_be(bytes, off + 3) as usize;
            if o + l > bytes.len() {
                return Err(DecodeError::invalid_length());
            }
            off = off + 5;
        }
        Err(DecodeError::invalid_length())
    }

    /// The data of the first option `token`, if the table has it.
    pub fn option(&self, token: u8) -> (r: Option<&'a [u8]>)
        ensures
            match find_option(self@, 0, token) {
                Some(d) => r matches Some(s) && s@ == d,
                None => r is None,
            },
    {
        let b = self.bytes;
        let mut off: usize = 0;
        while off < b.len()
            invariant
                b@ == self@,
                find_option(b@, off as int, token) == find_option(b@, 0, token),
            decreases b.len() - off,
        {
            if b[off] == PL_OPTION_TERMINATOR || b.len() - off < 5 {
                return None;
            }
            if b[off] == token {
                let o = r_u16_be(b, off + 1) as usize;
                let l = r_u16_be(b, off + 3) as usize;
                if o + l > b.len() {
                    return None;
                }
                return Some(vstd::slice::slice_subrange(b, o, o + l));
            }
            off = off + 5;
        }
        None
    }

    /// The first byte of the encryption option.
    pub fn encryption(&self) -> (r: Option<u8>)
        ensures
            r == encryption_byte(self@),
    {
        match self.option(PL_OPTION_ENCRYPTION) {
            Some(d) => if d.len() > 0 {
                Some(d[0])
            } else {
                None
            },
            None => None,
        }
    }

    /// The data of the instance option.
    pub fn inst_opt(&self) -> (r: Option<&'a [u8]>)
        ensures
            match find_option(self@, 0, PL_OPTION_INSTOPT) {
                Some(d) => r matches Some(s) && s@ == d,
                None => r is None,
            },
    {
        self.option(PL_OPTION_INSTOPT)
    }
}

/// The first byte of the encryption option of the payload `b`, if it has one.
pub open spec fn encryption_byte(b: Seq<u8>) -> Option<u8> {
    match find_option(b, 0, PL_OPTION_ENCRYPTION) {
        Some(d) => if d.len() > 0 {
            Some(d[0])
        } else {
            None
        },
        None => None,
    }
}

/// Where the session goes after the PRELOGIN exchange.
#[derive(Debug, Clone, Copy, PartialEq, Eq)]
pub enum PreLoginOutcome {
    /// Login without encryption.
    LoginReady,
    /// Negotiate TLS before login.
    TlsSslNegotiation,
}

/// The outcome that the server's setting `res` and the client's request `req`
/// agree on; `None` where the pair is refused.
pub open spec fn negotiated(
    res: PreLoginEncryptionOptions,
    req: PreLoginEncryptionOptions,
) -> Option<PreLoginOutcome> {
    match (res, req) {
        (NotSupported, Off) => Some(PreLoginOutcome::LoginReady),
        (Off, Off) | (On, Off) | (Required, Off) | (On, On) | (Required, On) => Some(
            PreLoginOutcome::TlsSslNegotiation,
        ),
        _ => None,
    }
}

/// The client's requested setting: the code it sent, `Off` when it sent none or
/// an undefined one.
pub open spec fn requested_setting(requested: Option<u8>) -> PreLoginEncryptionOptions {
    match requested {
        Some(b) => match encryption_of(b) {
            Some(o) => o,
            None => PreLoginEncryptionOptions::Off,
        },
        None => PreLoginEncryptionOptions::Off,
    }
}

/// The server's answer asks for a named instance (its INSTOPT data begins with 1).
pub open spec fn instance_mismatch(b: Seq<u8>) -> bool {
    find_option(b, 0, PL_OPTION_INSTOPT) matches Some(d) && d.len() > 0 && d[0] == 1
}

/// The server's setting code: the encryption byte of the answer, NotSupported
/// when it has none.
pub open spec fn server_setting_code(b: Seq<u8>) -> u8 {
    match encryption_byte(b) {
        Some(x) => x,
        None => 2u8,
    }
}

/// The name of a setting, as `Debug` writes it.
pub open spec fn setting_name(o: PreLoginEncryptionOptions) -> Seq<char> {
    match o {
        Off => "Off"@,
        On => "On"@,
        NotSupported => "NotSupported"@,
        Required => "Required"@,
    }
}

/// The message of an answer that asks for a named instance.
pub open spec fn instance_mismatch_text() -> Seq<char> {
    "PreLogin: INSTOP mismatch"@
}

/// The message of a refused pair of the server's setting `res` and the
/// client's `req`.
pub open spec fn refusal_text(res: PreLoginEncryptionOptions, req: PreLoginEncryptionOptions) -> Seq<char> {
    if req == On && (res == Off || res == NotSupported) {
        "PreLogin: client requires encryption, server does not support it"@
    } else {
        "PreLogin: unsupported encryption negotiation res="@ + setting_name(res) + " req="@
            + setting_name(req)
    }
}

/// Writes the name of a setting.
fn push_setting_name(s: &mut String, o: PreLoginEncryptionOptions)
    ensures
        final(s)@ == old(s)@ + setting_name(o),
{
    match o {
        Off => push_chars(s, "Off"),
        On => push_chars(s, "On"),
        NotSupported => push_chars(s, "NotSupported"),
        Required => push_chars(s, "Required"),
    }
}

/// Writes the message of a refused pair.
fn refusal_message(res: PreLoginEncryptionOptions, req: PreLoginEncryptionOptions) -> (r: String)
    ensures
        r@ == refusal_text(res, req),
{
    let unsupported_by_server = match (res, req) {
        (Off, On) | (NotSupported, On) => true,
        _ => false,
    };
    if unsupported_by_server {
        "PreLogin: client requires encryption, server does not support it".to_owned()
    } else {
        let mut s = "PreLogin: unsupported encryption negotiation res=".to_owned();
        push_setting_name(&mut s, res);
        push_chars(&mut s, " req=");
        push_setting_name(&mut s, req);
        s
    }
}

/// Refuses an answer that asks for a named instance.
pub fn check_instance(answer: &PreLoginSpan<'_>) -> (r: Result<(), SessionError>)
    ensures
        instance_mismatch(answer@) ==> (r matches Err(
            SessionError::DecodeError(DecodeError::InvalidField(m)),
        ) && m@ == instance_mismatch_text()),
        !instance_mismatch(answer@) ==> r is Ok,
{
    if let Some(d) = answer.inst_opt() {
        if d.len() > 0 && d[0] == 1 {
            return Err(
                SessionError::DecodeError(DecodeError::InvalidField("PreLogin: INSTOP mismatch".to_owned())),
            );
        }
    }
    Ok(())
}

/// The encryption code that an encoded client PRELOGIN packet asks for: the
/// encryption option of the table after its 8-byte header, if the table is
/// well formed.
pub fn requested_encryption(packet: &[u8]) -> (r: Option<u8>)
    ensures
        packet@.len() >= 8 && table_ok(packet@.subrange(8, packet@.len() as int), 0) ==> r
            == encryption_byte(packet@.subrange(8, packet@.len() as int)),
        !(packet@.len() >= 8 && table_ok(packet@.subrange(8, packet@.len() as int), 0)) ==> r is None,
{
    if packet.len() < 8 {
        return None;
    }
    match PreLoginSpan::new(vstd::slice::slice_subrange(packet, 8, packet.len())) {
        Ok(span) => span.encryption(),
        Err(_) => None,
    }
}

/// The negotiation by codes (0 off, 1 on, 2 not supported, 3 required), the
/// server's `s` against the client's `q`: TLS exactly when the server encrypts
/// (on or required) and the client asks for off or on, or when both are off;
/// login without encryption exactly when the server does not support it and
/// the client asks for off; every other pair is refused.
pub proof fn lemma_negotiation_by_codes(s: u8, q: u8)
    requires
        s <= 3,
        q <= 3,
    ensures
        negotiated(encryption_of(s)->0, encryption_of(q)->0) == Some(
            PreLoginOutcome::TlsSslNegotiation,
        ) <==> ((s == 1 || s == 3) && (q == 0 || q == 1)) || (s == 0 && q == 0),
        negotiated(encryption_of(s)->0, encryption_of(q)->0) == Some(PreLoginOutcome::LoginReady)
            <==> (s == 2 && q == 0),
        negotiated(encryption_of(s)->0, encryption_of(q)->0) is None <==> (q == 2 || q == 3 || (
        q == 1 && (s == 0 || s == 2))),
{
}

/// A client that sends no encryption code, or one the protocol does not
/// define, is taken to ask for no encryption.
pub proof fn lemma_request_defaults_to_off(requested: Option<u8>)
    requires
        requested is None || encryption_of(requested->0) is None,
    ensures
        requested_setting(requested) == Off,
{
}

/// Where the server's answer encrypts (code 1 or 3) and asks for no named
/// instance, and the client asks for off or on (or sends nothing), the
/// negotiation goes to TLS.
pub proof fn lemma_encrypting_server_negotiates_tls(requested: Option<u8>, answer: Seq<u8>)
    requires
        !instance_mismatch(answer),
        server_setting_code(answer) == 1 || server_setting_code(answer) == 3,
        requested is None || requested == Some(0u8) || requested == Some(1u8),
    ensures
        encryption_of(server_setting_code(answer)) matches Some(res) && negotiated(
            res,
            requested_setting(requested),
        ) == Some(PreLoginOutcome::TlsSslNegotiation),
{
}

/// Decides the PRELOGIN exchange from the client's requested encryption code
/// and the server's answer. An instance mismatch, an undefined server setting
/// and a refused pair are invalid fields; a pair that needs TLS is unimplemented
/// where no TLS is available.
pub fn negotiate(requested: Option<u8>, answer: &PreLoginSpan<'_>, tls_available: bool) -> (r:
    Result<PreLoginOutcome, SessionError>)
    ensures
        instance_mismatch(answer@) ==> (r matches Err(
            SessionError::DecodeError(DecodeError::InvalidField(m)),
        ) && m@ == instance_mismatch_text()),
        !instance_mismatch(answer@) ==> match encryption_of(server_setting_code(answer@)) {
            None => r matches Err(SessionError::DecodeError(DecodeError::InvalidField(_))),
            Some(res) => match negotiated(res, requested_setting(requested)) {
                Some(PreLoginOutcome::LoginReady) => r == Ok::<PreLoginOutcome, SessionError>(
                    PreLoginOutcome::LoginReady,
                ),
                Some(PreLoginOutcome::TlsSslNegotiation) => if tls_available {
                    r == Ok::<PreLoginOutcome, SessionError>(PreLoginOutcome::TlsSslNegotiation)
                } else {
                    r matches Err(SessionError::Unimplemented)
                },
                None => r matches Err(SessionError::DecodeError(DecodeError::InvalidField(m)))
                    && m@ == refusal_text(res, requested_setting(requested)),
            },
        },
{
    let req = match requested {
        Some(b) => match PreLoginEncryptionOptions::try_from(b) {
            Ok(o) => o,
            Err(_) => PreLoginEncryptionOptions::Off,
        },
        None => PreLoginEncryptionOptions::Off,
    };
    let code = match answer.encryption() {
        Some(x) => x,
        None => 2,
    };
    match check_instance(answer) {
        Ok(()) => {},
        Err(e) => {
            return Err(e);
        },
    }
    let res = match PreLoginEncryptionOptions::try_from(code) {
        Ok(o) => o,
        Err(e) => {
            return Err(SessionError::DecodeError(e));
        },
    };
    match (res, req) {
        (NotSupported, Off) => Ok(PreLoginOutcome::LoginReady),
        (Off, Off) | (On, Off) | (Required, Off) | (On, On) | (Required, On) => {
            if tls_available {
                Ok(PreLoginOutcome::TlsSslNegotiation)
            } else {
                Err(SessionError::Unimplemented)
            }
        },
        _ => Err(SessionError::DecodeError(DecodeError::InvalidField(refusal_message(res, req)))),
    }
}

} // verus!
