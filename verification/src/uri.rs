//! The components of a parsed URI that the subscription parser reads.

use crate::probe_result::text_model;
use vstd::prelude::*;

verus! {

/// The components of a URI. User name, password, host and fragment are kept
/// as the URI writes them, percent-encoding included.
#[derive(Debug, Clone, PartialEq, Eq)]
pub struct UriParts {
    pub scheme: String,
    /// Empty where the URI has no user name.
    pub username: String,
    pub password: Option<String>,
    pub host: Option<String>,
    pub port: Option<u16>,
    pub fragment: Option<String>,
}

/// The mathematical model of [`UriParts`].
pub struct UriModel {
    pub scheme: Seq<char>,
    pub username: Seq<char>,
    pub password: Option<Seq<char>>,
    pub host: Option<Seq<char>>,
    pub port: Option<u16>,
    pub fragment: Option<Seq<char>>,
}

impl View for UriParts {
    type V = UriModel;

    open spec fn view(&self) -> UriModel {
        UriModel {
            scheme: self.scheme@,
            username: self.username@,
            password: text_model(self.password),
            host: text_model(self.host),
            port: self.port,
            fragment: text_model(self.fragment),
        }
    }
}

} // verus!
