//! The request that the federated authentication plugin reads, and what its
//! answer is worth.
use vstd::prelude::*;
use crate::bulk_load::u32_le_bytes;

verus! {

/// `b` behind its length, as a little-endian 32-bit number (modulo 2^32).
pub open spec fn length_prefixed(b: Seq<u8>) -> Seq<u8> {
    u32_le_bytes(b.len() as int) + b
}

/// What the plugin reads on its input: the STS URL and the SPN, each behind
/// its length, then 1 and the nonce, or 0 without one.
pub open spec fn plugin_request(sts_url: Seq<u8>, spn: Seq<u8>, nonce: Option<Seq<u8>>) -> Seq<u8> {
    length_prefixed(sts_url) + length_prefixed(spn) + match nonce {
        Some(n) => seq![1u8] + n,
        None => seq![0u8],
    }
}

fn push_length_prefixed(out: &mut Vec<u8>, b: &[u8])
    ensures
        final(out)@ == old(out)@ + length_prefixed(b@),
{
    let n = b.len();
    out.push((n % 256) as u8);
    out.push((n / 256 % 256) as u8);
    out.push((n / 65536 % 256) as u8);
    out.push((n / 16777216 % 256) as u8);
    let ghost mid = out@;
    let mut i: usize = 0;
    while i < b.len()
        invariant
            i <= b@.len(),
            out@ == mid + b@.subrange(0, i as int),
        decreases b@.len() - i,
    {
        out.push(b[i]);
        i = i + 1;
        assert(out@ =~= mid + b@.subrange(0, i as int));
    }
    assert(b@.subrange(0, b@.len() as int) =~= b@);
    assert(out@ =~= old(out)@ + length_prefixed(b@));
}

/// Encodes the plugin's request.
pub fn plugin_request_bytes(sts_url: &[u8], spn: &[u8], nonce: Option<&[u8]>) -> (r: Vec<u8>)
    ensures
        r@ == plugin_request(
            sts_url@,
            spn@,
            match nonce {
                Some(n) => Some(n@),
                None => None,
            },
        ),
{
    let mut out: Vec<u8> = Vec::new();
    push_length_prefixed(&mut out, sts_url);
    push_length_prefixed(&mut out, spn);
    match nonce {
        Some(n) => {
            out.push(1);
            let ghost mid = out@;
            let mut i: usize = 0;
            while i < n.len()
                invariant
                    i <= n@.len(),
                    out@ == mid + n@.subrange(0, i as int),
                decreases n@.len() - i,
            {
                out.push(n[i]);
                i = i + 1;
                assert(out@ =~= mid + n@.subrange(0, i as int));
            }
            assert(n@.subrange(0, n@.len() as int) =~= n@);
        },
        None => {
            out.push(0);
        },
    }
    assert(out@ =~= plugin_request(
        sts_url@,
        spn@,
        match nonce {
            Some(n) => Some(n@),
            None => None,
        },
    ));
    out
}

/// Why a plugin's answer is refused.
#[derive(Debug, Clone, Copy, PartialEq, Eq)]
pub enum PluginRefusal {
    /// The plugin exited unsuccessfully, with this code if it had one.
    ExitStatus(Option<i32>),
    /// The plugin succeeded but gave no token.
    EmptyToken,
}

/// What the output of a plugin that ended is worth: an unsuccessful exit is
/// refused with its code, an empty token too; anything else is the token.
pub fn plugin_outcome(success: bool, code: Option<i32>, token: Vec<u8>) -> (r: Result<
    Vec<u8>,
    PluginRefusal,
>)
    ensures
        !success ==> r == Err::<Vec<u8>, PluginRefusal>(PluginRefusal::ExitStatus(code)),
        success && token@.len() == 0 ==> r == Err::<Vec<u8>, PluginRefusal>(
            PluginRefusal::EmptyToken,
        ),
        success && token@.len() > 0 ==> r == Ok::<Vec<u8>, PluginRefusal>(token),
{
    if !success {
        return Err(PluginRefusal::ExitStatus(code));
    }
    if token.len() == 0 {
        return Err(PluginRefusal::EmptyToken);
    }
    Ok(token)
}

} // verus!
