//! Error types of the network domain.

use vstd::prelude::*;

use crate::text::{decimal, push_decimal, push_str};

verus! {

/// Why a subnet text or an address/prefix pair was refused.
#[derive(Debug, Clone, PartialEq, Eq)]
pub enum NetworkError {
    /// The text has no `/` between address and prefix.
    InvalidFormat,
    /// The address part is not a dotted-quad IPv4 address; holds that part.
    InvalidIp(String),
    /// The prefix part is not a number in `0..=255`; holds that part.
    InvalidPrefix(String),
    /// The prefix is a number above 32; holds it.
    PrefixOutOfRange(u8),
}

/// The abstract content of a [`NetworkError`].
pub enum NetworkErrorView {
    InvalidFormat,
    InvalidIp(Seq<char>),
    InvalidPrefix(Seq<char>),
    PrefixOutOfRange(u8),
}

impl View for NetworkError {
    type V = NetworkErrorView;

    open spec fn view(&self) -> NetworkErrorView {
        match self {
            NetworkError::InvalidFormat => NetworkErrorView::InvalidFormat,
            NetworkError::InvalidIp(s) => NetworkErrorView::InvalidIp(s@),
            NetworkError::InvalidPrefix(s) => NetworkErrorView::InvalidPrefix(s@),
            NetworkError::PrefixOutOfRange(p) => NetworkErrorView::PrefixOutOfRange(*p),
        }
    }
}

/// The message shown for an error.
pub open spec fn error_text(e: NetworkErrorView) -> Seq<char> {
    match e {
        NetworkErrorView::InvalidFormat => "Input 'ip/prefix' biciminde olmali, orn: 192.168.1.10/24"@,
        NetworkErrorView::InvalidIp(s) => "Gecersiz IP adresi: "@ + s,
        NetworkErrorView::InvalidPrefix(s) => "Gecersiz prefix: "@ + s,
        NetworkErrorView::PrefixOutOfRange(p) => "Prefix 0 ile 32 arasinda olmali, verilen: "@
            + decimal(p as nat),
    }
}

impl NetworkError {
    /// The message shown for the error.
    pub fn message(&self) -> (r: String)
        ensures
            r@ == error_text(self@),
    {
        match self {
            NetworkError::InvalidFormat => "Input 'ip/prefix' biciminde olmali, orn: 192.168.1.10/24".to_owned(),
            NetworkError::InvalidIp(s) => {
                let mut m = "Gecersiz IP adresi: ".to_owned();
                push_str(&mut m, s.as_str());
                m
            },
            NetworkError::InvalidPrefix(s) => {
                let mut m = "Gecersiz prefix: ".to_owned();
                push_str(&mut m, s.as_str());
                m
            },
            NetworkError::PrefixOutOfRange(p) => {
                let mut m = "Prefix 0 ile 32 arasinda olmali, verilen: ".to_owned();
                push_decimal(&mut m, *p as u64);
                m
            },
        }
    }
}

} // verus!
