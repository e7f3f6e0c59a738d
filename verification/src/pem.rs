//! Certificates and keys in PEM notation.

use vstd::prelude::*;

verus! {

/// The certificates of a PEM text in DER notation, or the text of the fault
/// that reading them met.
pub uninterp spec fn pem_certificate_list(pem: Seq<u8>) -> Result<Seq<Seq<u8>>, Seq<char>>;

/// The bytes of each of a list of byte strings.
pub open spec fn byte_lists(list: Seq<Vec<u8>>) -> Seq<Seq<u8>> {
    list.map_values(|bytes: Vec<u8>| bytes@)
}

/// `rustls_pemfile::certs`: the certificate sections in the order in which they
/// stand, or the first fault. The result depends on the bytes alone; what the
/// sections hold is left unsaid.
#[verifier::external_body]
pub(crate) fn pem_certificates(pem: &[u8]) -> (result: Result<Vec<Vec<u8>>, String>)
    ensures
        match result {
            Ok(list) => pem_certificate_list(pem@) == Ok::<_, Seq<char>>(byte_lists(list@)),
            Err(fault) => pem_certificate_list(pem@) == Err::<Seq<Seq<u8>>, _>(fault@),
        },
{
    let mut reader = pem;
    match rustls_pemfile::certs(&mut reader).collect::<Result<Vec<_>, _>>() {
        Ok(list) => Ok(list.iter().map(|der| der.to_vec()).collect()),
        Err(fault) => Err(fault.to_string()),
    }
}

/// Whether a PEM text has a private key, or the text of the fault that reading
/// it met.
pub uninterp spec fn pem_key_found(pem: Seq<u8>) -> Result<bool, Seq<char>>;

/// `rustls_pemfile::private_key`: whether a section holds a private key, or the
/// first fault before one. The result depends on the bytes alone.
#[verifier::external_body]
pub(crate) fn pem_private_key(pem: &[u8]) -> (result: Result<bool, String>)
    ensures
        match result {
            Ok(found) => pem_key_found(pem@) == Ok::<_, Seq<char>>(found),
            Err(fault) => pem_key_found(pem@) == Err::<bool, _>(fault@),
        },
{
    let mut reader = pem;
    match rustls_pemfile::private_key(&mut reader) {
        Ok(key) => Ok(key.is_some()),
        Err(fault) => Err(fault.to_string()),
    }
}

} // verus!
