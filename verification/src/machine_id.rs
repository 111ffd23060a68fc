//! The host fingerprint: three bytes made of a stable name of the machine.
use rand::RngCore;
use vstd::prelude::*;
use vstd::string::*;

verus! {

/// The MD5 digest of a byte string, as `md5::compute` computes it.
pub uninterp spec fn md5_of(data: Seq<u8>) -> Seq<u8>;

/// Calls `md5::compute`. Trusted: the sixteen bytes that come back are the
/// named digest, a function of the data alone.
#[verifier::external_body]
fn md5_digest(data: &[u8]) -> (digest: [u8; 16])
    ensures
        digest@ == md5_of(data@),
{
    md5::compute(data).0
}

/// Calls `hostname::get`. Trusted: nothing: the name is the system's to give.
/// A name that cannot be read, or is not Unicode, comes back empty.
#[verifier::external_body]
fn host_name() -> String {
    match hostname::get() {
        Ok(name) => name.into_string().unwrap_or_default(),
        Err(_) => String::new(),
    }
}

/// Calls `rand::thread_rng` and `RngCore::fill_bytes` on three bytes.
/// Trusted: nothing: the bytes are random.
#[verifier::external_body]
pub(crate) fn random_bytes() -> [u8; 3] {
    let mut bytes = [0_u8; 3];
    rand::thread_rng().fill_bytes(&mut bytes);
    bytes
}

/// The fingerprint that a digest gives: its first three bytes.
pub fn prefix(digest: &[u8; 16]) -> (r: [u8; 3])
    ensures
        r@ == digest@.subrange(0, 3),
{
    let r = [digest[0], digest[1], digest[2]];
    assert(r@ =~= digest@.subrange(0, 3));
    r
}

/// The fingerprint of a machine by its name: the first three bytes of the
/// name's MD5 digest. Without a name the fingerprint is random.
pub fn from_name(name: &str) -> (r: [u8; 3])
    ensures
        name@.len() > 0 ==> r@ == md5_of(name.spec_bytes()).subrange(0, 3),
{
    if name.is_empty() {
        random_bytes()
    } else {
        let digest = md5_digest(name.as_bytes());
        prefix(&digest)
    }
}

/// The fingerprint of this machine. `machine_id` is the identifier that the
/// system keeps for the machine, empty where it has none or it could not be
/// read; the host name then takes its place.
pub fn get(machine_id: String) -> (r: [u8; 3])
    ensures
        machine_id@.len() > 0 ==> r@ == md5_of(vstd::utf8::encode_utf8(machine_id@)).subrange(
            0,
            3,
        ),
{
    if !machine_id.as_str().is_empty() {
        from_name(machine_id.as_str())
    } else {
        let name = host_name();
        from_name(name.as_str())
    }
}

} // verus!
