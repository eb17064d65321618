//! What the library takes on trust: the calls it makes into other crates and into parts of
//! `std`, each with the contract that the rest of the library builds on.

use vstd::prelude::*;
use axum::http::{HeaderMap, HeaderName, HeaderValue, StatusCode};
use chrono::{DateTime, Utc};
use rustls::pki_types::{CertificateDer, PrivateKeyDer, PrivatePkcs8KeyDer};
use rustls::ServerConfig;
use std::collections::HashMap;
use std::io::Cursor;
use std::sync::Arc;
use tokio_rustls::TlsAcceptor;

verus! {

/// The bytes of each item of a list.
pub open spec fn each_bytes(list: Seq<Vec<u8>>) -> Seq<Seq<u8>> {
    list.map_values(|item: Vec<u8>| item@)
}

// ---------------------------------------------------------------------------
// Header maps (axum::http)
// ---------------------------------------------------------------------------

/// `axum::http::HeaderMap`, carried as an opaque value.
#[verifier::external_type_specification]
#[verifier::external_body]
#[verifier::reject_recursive_types(T)]
pub struct ExHeaderMap<T>(HeaderMap<T>);

/// `axum::http::HeaderName`, carried as an opaque value.
#[verifier::external_type_specification]
#[verifier::external_body]
pub struct ExHeaderName(HeaderName);

/// `axum::http::HeaderValue`, carried as an opaque value.
#[verifier::external_type_specification]
#[verifier::external_body]
pub struct ExHeaderValue(HeaderValue);

/// The text of a header name, as `HeaderName::as_str` gives it: in lower case.
pub uninterp spec fn name_text(name: HeaderName) -> Seq<char>;

/// The bytes of a header value, as `HeaderValue::as_bytes` gives them.
pub uninterp spec fn value_bytes(value: HeaderValue) -> Seq<u8>;

/// Whether a header value is marked as sensitive, as `HeaderValue::is_sensitive` says.
pub uninterp spec fn value_is_sensitive(value: HeaderValue) -> bool;

/// What a header value holds.
#[verifier::ext_equal]
pub struct ValueView {
    pub bytes: Seq<u8>,
    pub sensitive: bool,
}

/// What a header value holds.
pub open spec fn value_view(value: HeaderValue) -> ValueView {
    ValueView { bytes: value_bytes(value), sensitive: value_is_sensitive(value) }
}

/// What a header map holds: for each header name, by its text, its values in the order in which
/// they were added.
pub uninterp spec fn header_values(headers: HeaderMap<HeaderValue>) -> Map<Seq<char>, Seq<ValueView>>;

/// The contents of a map without headers.
pub open spec fn no_headers() -> Map<Seq<char>, Seq<ValueView>> {
    Map::empty()
}

/// The values that a list of header fields gives to one name, in the order of the list.
pub open spec fn values_of(fields: Seq<(HeaderName, HeaderValue)>, name: Seq<char>) -> Seq<ValueView>
    decreases fields.len(),
{
    if fields.len() == 0 {
        Seq::empty()
    } else if name_text(fields.last().0) == name {
        values_of(fields.drop_last(), name).push(value_view(fields.last().1))
    } else {
        values_of(fields.drop_last(), name)
    }
}

/// The list of fields says the same as the contents of a header map: a name is in the map where
/// the list gives it a value, and its values stand in the list in the map's order.
pub open spec fn lists_headers(
    fields: Seq<(HeaderName, HeaderValue)>,
    values: Map<Seq<char>, Seq<ValueView>>,
) -> bool {
    &&& forall|name: Seq<char>| #[trigger]
        values.contains_key(name) <==> values_of(fields, name).len() > 0
    &&& forall|name: Seq<char>|
        values.contains_key(name) ==> #[trigger] values[name] == values_of(fields, name)
}

/// A header map of so many names takes another field: `HeaderMap` has room for 2^15 slots, and
/// it refuses to grow past that only where more than a fifth of them are in use.
pub const ROOMY: usize = 6553;

/// `HeaderMap::new`: a map without headers.
#[verifier::external_body]
pub(crate) fn new_header_map() -> (headers: HeaderMap<HeaderValue>)
    ensures
        header_values(headers) == no_headers(),
{
    HeaderMap::new()
}

/// `HeaderMap::clone`: a map that holds the same headers.
#[verifier::external_body]
pub(crate) fn clone_headers(headers: &HeaderMap<HeaderValue>) -> (copy: HeaderMap<HeaderValue>)
    ensures
        header_values(copy) == header_values(*headers),
{
    headers.clone()
}

/// `HeaderMap::remove`: every value of the named header goes, and nothing else changes.
#[verifier::external_body]
pub(crate) fn remove_header(headers: &mut HeaderMap<HeaderValue>, name: &HeaderName)
    ensures
        header_values(*final(headers)) == header_values(*old(headers)).remove(name_text(*name)),
{
    headers.remove(name);
}

/// `HeaderMap::iter`: each header once for each of its values. The order among the names is left
/// open, that of the values of one name is the order in which they were added.
#[verifier::external_body]
pub(crate) fn header_fields(headers: &HeaderMap<HeaderValue>) -> (fields: Vec<(HeaderName, HeaderValue)>)
    ensures
        lists_headers(fields@, header_values(*headers)),
{
    headers.iter().map(|(name, value)| (name.clone(), value.clone())).collect()
}

/// `HeaderMap::try_insert`: the named header holds the given value, with its mark, and no other. The
/// map refuses only for its size, and is then as it was.
#[verifier::external_body]
pub(crate) fn insert_header(
    headers: &mut HeaderMap<HeaderValue>,
    name: &HeaderName,
    value: &HeaderValue,
) -> (fits: bool)
    ensures
        fits ==> header_values(*final(headers)) == header_values(*old(headers)).insert(
            name_text(*name),
            seq![(ValueView { bytes: value_bytes(*value), sensitive: value_is_sensitive(*value) })],
        ),
        !fits ==> header_values(*final(headers)) == header_values(*old(headers)),
        !fits ==> header_values(*old(headers)).dom().len() > ROOMY,
{
    headers.try_insert(name, value.clone()).is_ok()
}

/// `HeaderName::as_str`: the text of the name.
#[verifier::external_body]
pub(crate) fn name_str(name: &HeaderName) -> (text: &str)
    ensures
        text@ == name_text(*name),
{
    name.as_str()
}

/// `HeaderValue::as_bytes`: the bytes of the value.
#[verifier::external_body]
pub(crate) fn value_vec(value: &HeaderValue) -> (bytes: Vec<u8>)
    ensures
        bytes@ == value_bytes(*value),
{
    value.as_bytes().to_vec()
}

/// `StatusCode::from_u16`: the codes from 100 to 999 are status codes.
#[verifier::external_body]
pub(crate) fn is_status_code(code: u16) -> (valid: bool)
    ensures
        valid == (100 <= code <= 999),
{
    StatusCode::from_u16(code).is_ok()
}

// ---------------------------------------------------------------------------
// JSON (serde_json)
// ---------------------------------------------------------------------------

/// `serde_json::Error`, carried as an opaque value.
#[verifier::external_type_specification]
#[verifier::external_body]
pub struct ExJsonError(serde_json::Error);

/// What `serde_json` reads in a text that is a JSON object of strings, and `None` for any other
/// text.
pub uninterp spec fn json_string_object(text: Seq<char>) -> Option<Map<Seq<char>, Seq<char>>>;

/// The map that a list of pairs writes out, the last pair of a key counting.
pub open spec fn pairs_as_map(pairs: Seq<(String, String)>) -> Map<Seq<char>, Seq<char>>
    decreases pairs.len(),
{
    if pairs.len() == 0 {
        Map::empty()
    } else {
        pairs_as_map(pairs.drop_last()).insert(pairs.last().0@, pairs.last().1@)
    }
}

/// `serde_json::from_str` into a `HashMap<String, String>`, handed out as pairs in an order that
/// is left open.
#[verifier::external_body]
pub(crate) fn read_json_string_object(text: &str) -> (read: Result<Vec<(String, String)>, serde_json::Error>)
    ensures
        match read {
            Ok(pairs) => json_string_object(text@) == Some(pairs_as_map(pairs@)),
            Err(_) => json_string_object(text@) is None,
        },
{
    let object: HashMap<String, String> = serde_json::from_str(text)?;
    Ok(object.into_iter().collect())
}

// ---------------------------------------------------------------------------
// PEM files (rustls_pemfile)
// ---------------------------------------------------------------------------

/// The certificates that `rustls_pemfile` finds in a PEM file, in order, with `None` for each
/// place where it reports an error.
pub uninterp spec fn pem_certs(pem: Seq<u8>) -> Seq<Option<Seq<u8>>>;

/// The private keys in PKCS #8 that `rustls_pemfile` finds in a PEM file, in order, with `None`
/// for each place where it reports an error.
pub uninterp spec fn pem_pkcs8_keys(pem: Seq<u8>) -> Seq<Option<Seq<u8>>>;

/// The bytes of each section that was found.
pub open spec fn section_bytes(sections: Seq<Option<Vec<u8>>>) -> Seq<Option<Seq<u8>>> {
    sections.map_values(
        |section: Option<Vec<u8>>|
            match section {
                Some(der) => Some(der@),
                None => None,
            },
    )
}

/// `rustls_pemfile::certs` on the contents of a file.
#[verifier::external_body]
pub(crate) fn read_pem_certs(pem: &[u8]) -> (found: Vec<Option<Vec<u8>>>)
    ensures
        section_bytes(found@) == pem_certs(pem@),
{
    let mut reader = Cursor::new(pem);
    let found = rustls_pemfile::certs(&mut reader).map(|cert| cert.ok().map(|der| der.to_vec()));
    found.collect()
}

/// `rustls_pemfile::pkcs8_private_keys` on the contents of a file.
#[verifier::external_body]
pub(crate) fn read_pem_pkcs8_keys(pem: &[u8]) -> (found: Vec<Option<Vec<u8>>>)
    ensures
        section_bytes(found@) == pem_pkcs8_keys(pem@),
{
    let mut reader = Cursor::new(pem);
    let found = rustls_pemfile::pkcs8_private_keys(&mut reader)
        .map(|key| key.ok().map(|der| der.secret_pkcs8_der().to_vec()));
    found.collect()
}

// ---------------------------------------------------------------------------
// TLS (rustls, tokio_rustls)
// ---------------------------------------------------------------------------

/// `tokio_rustls::TlsAcceptor`, carried as an opaque value.
#[verifier::external_type_specification]
#[verifier::external_body]
pub struct ExTlsAcceptor(TlsAcceptor);

/// `rustls::Error`, carried as an opaque value.
#[verifier::external_type_specification]
#[verifier::external_body]
pub struct ExRustlsError(rustls::Error);

/// The certificate chain, in DER, that an acceptor shows on every connection.
pub uninterp spec fn acceptor_chain(acceptor: TlsAcceptor) -> Seq<Seq<u8>>;

/// The private key, in PKCS #8, that an acceptor uses on every connection.
pub uninterp spec fn acceptor_key(acceptor: TlsAcceptor) -> Seq<u8>;

/// Whether an acceptor asks its clients for a certificate.
pub uninterp spec fn acceptor_asks_client(acceptor: TlsAcceptor) -> bool;

/// Whether `rustls` answers a chain and a key so under some crypto provider: with this error, or,
/// where there is none, by taking them.
pub uninterp spec fn single_cert_outcome(
    chain: Seq<Seq<u8>>,
    key: Seq<u8>,
    refusal: Option<rustls::Error>,
) -> bool;

/// `rustls::ServerConfig::builder` and `with_single_cert`, without client authentication, and
/// `TlsAcceptor::from`: an acceptor that comes out uses the given chain and the given key for all
/// its connections and asks no client for a certificate. What comes out is an answer of `rustls` to
/// this chain and this key.
///
/// Which answer it is rests on the crypto provider that the process has installed, which reads the
/// key, so that is left unsaid, and so is whether a second call ends alike. The manifest of this
/// crate enables one provider, which `builder` installs where the process has none.
#[verifier::external_body]
pub(crate) fn single_cert_acceptor(certs: &Vec<Vec<u8>>, key: &Vec<u8>) -> (made: Result<TlsAcceptor, rustls::Error>)
    ensures
        made matches Ok(acceptor) ==> acceptor_chain(acceptor) == each_bytes(certs@),
        made matches Ok(acceptor) ==> acceptor_key(acceptor) == key@,
        made matches Ok(acceptor) ==> !acceptor_asks_client(acceptor),
        single_cert_outcome(each_bytes(certs@), key@, made.err()),
{
    let chain = certs.iter().map(|der| CertificateDer::from(der.clone())).collect();
    let key = PrivateKeyDer::Pkcs8(PrivatePkcs8KeyDer::from(key.clone()));
    let config = ServerConfig::builder().with_no_client_auth().with_single_cert(chain, key)?;
    Ok(TlsAcceptor::from(Arc::new(config)))
}

// ---------------------------------------------------------------------------
// Time (chrono)
// ---------------------------------------------------------------------------

/// Nanoseconds in a day.
pub open spec fn day_nanos() -> int {
    86_400_000_000_000
}

/// The whole days in a span of nanoseconds, a part of a day being dropped.
pub open spec fn whole_days(nanos: int) -> int {
    if nanos >= 0 {
        nanos / day_nanos()
    } else {
        -((-nanos) / day_nanos())
    }
}

/// A time that is no leap second, well inside the years that `chrono` can write.
pub open spec fn is_plain_time(secs: i64, nanos: u32) -> bool {
    -8_000_000_000_000 <= secs <= 8_000_000_000_000 && nanos < 1_000_000_000
}

/// The days that `chrono` counts from one time to another, each in seconds and nanoseconds since
/// the start of 1970, or `None` where it has no such time.
pub uninterp spec fn chrono_days(secs: i64, nanos: u32, from_secs: i64, from_nanos: u32) -> Option<i64>;

/// `DateTime::from_timestamp` on both times, their difference and `TimeDelta::num_days`.
///
/// Between times that are no leap seconds, that is the whole days between them.
#[verifier::external_body]
pub(crate) fn days_between(secs: i64, nanos: u32, from_secs: i64, from_nanos: u32) -> (days: Option<i64>)
    ensures
        days == chrono_days(secs, nanos, from_secs, from_nanos),
        is_plain_time(secs, nanos) && is_plain_time(from_secs, from_nanos) ==> days is Some && days->0
            == whole_days((secs - from_secs) * 1_000_000_000 + nanos - from_nanos),
{
    let time = DateTime::<Utc>::from_timestamp(secs, nanos)?;
    let from = DateTime::<Utc>::from_timestamp(from_secs, from_nanos)?;
    Some((time - from).num_days())
}

// ---------------------------------------------------------------------------
// Text (std)
// ---------------------------------------------------------------------------

/// The text in lower case, by the rules of Unicode.
pub uninterp spec fn lower_case(text: Seq<char>) -> Seq<char>;

/// An ASCII letter in lower case; any other character as it is.
pub open spec fn ascii_lower(c: char) -> char {
    if 'A' <= c <= 'Z' {
        ((c as u8) + 32) as char
    } else {
        c
    }
}

/// `str::to_lowercase`: in a text of ASCII characters the letters from `A` to `Z` change to those
/// from `a` to `z`, and nothing else changes.
pub assume_specification[ str::to_lowercase ](s: &str) -> (lower: String)
    ensures
        lower@ == lower_case(s@),
        vstd::utf8::is_ascii_chars(s@) ==> lower@ == s@.map_values(|c: char| ascii_lower(c)),
;

} // verus!
