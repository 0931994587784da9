//! Declarations of the outside types that pass through the verified code.
use vstd::prelude::*;

verus! {

/// A host-side error value (`anyhow::Error`), carried through unopened.
#[verifier::external_type_specification]
#[verifier::external_body]
pub struct ExHostError(anyhow::Error);

/// A UTF-8 decoding error (`std::str::Utf8Error`), carried through unopened.
#[verifier::external_type_specification]
#[verifier::external_body]
pub struct ExUtf8Error(std::str::Utf8Error);

/// A URL parsing error (`url::ParseError`), carried through unopened.
#[verifier::external_type_specification]
#[verifier::external_body]
pub struct ExUrlParseError(url::ParseError);

/// A JSON value (`serde_json::Value`), carried through unopened.
#[verifier::external_type_specification]
#[verifier::external_body]
pub struct ExJsonValue(serde_json::Value);

/// A compiled-code engine (`wasmtime::Engine`), carried through unopened.
#[verifier::external_type_specification]
#[verifier::external_body]
pub struct ExEngine(wasmtime::Engine);

/// An HTTP request method (`reqwest::Method`, that is `http::Method`),
/// carried through unopened.
#[verifier::external_type_specification]
#[verifier::external_body]
pub struct ExHttpMethod(reqwest::Method);

} // verus!
