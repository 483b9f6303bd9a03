use vstd::prelude::*;
use vstd::utf8::decode_utf8;
use vstd::utf8::encode_utf8;
use vstd::utf8::encode_utf8_decode_utf8;

verus! {

/// Compares two byte slices, looking at every byte of equally long inputs
/// rather than stopping at the first difference. Inputs of different length
/// are rejected at once: the length of a fixed shared secret is not what is
/// being protected.
pub fn constant_time_eq(a: &[u8], b: &[u8]) -> (equal: bool)
    ensures
        equal == (a@ == b@),
{
    if a.len() != b.len() {
        return false;
    }
    let n = a.len();
    let mut diff: u8 = 0;
    for i in 0..n
        invariant
            n == a@.len(),
            n == b@.len(),
            (diff == 0) == (forall|j: int| 0 <= j < i ==> a@[j] == b@[j]),
    {
        let x = a[i];
        let y = b[i];
        assert((diff | (x ^ y)) == 0 <==> (diff == 0 && x == y)) by (bit_vector);
        diff = diff | (x ^ y);
    }
    assert(diff == 0 ==> a@ =~= b@);
    diff == 0
}

/// Whether a request that carried `provided` in its `X-API-Key` header (or
/// no such header, or one that is not visible ASCII text) may pass: the
/// header must be there and hold exactly the configured key.
pub fn api_key_accepted(provided: Option<&str>, api_key: &str) -> (ok: bool)
    ensures
        ok == match provided {
            Some(p) => p@ == api_key@,
            None => false,
        },
{
    match provided {
        None => false,
        Some(p) => {
            let ok = constant_time_eq(p.as_bytes(), api_key.as_bytes());
            proof {
                if encode_utf8(p@) == encode_utf8(api_key@) {
                    encode_utf8_decode_utf8(p@);
                    encode_utf8_decode_utf8(api_key@);
                    assert(decode_utf8(encode_utf8(p@)) == decode_utf8(encode_utf8(api_key@)));
                }
            }
            ok
        },
    }
}

} // verus!
