//! Driver options parsed from a connection URL. Only the parser builds
//! them, so the URL they carry is the one they were parsed from.
use vstd::prelude::*;

verus! {

#[verifier::external_type_specification]
#[verifier::external_body]
pub struct ExOpts(mysql::Opts);

/// Whether the MySQL driver accepts a text as a connection URL.
pub uninterp spec fn mysql_url_accepted(url: Seq<char>) -> bool;

/// A URL that the driver refused.
pub enum ConnectError {
    InvalidUrl,
}

/// Driver options, with the URL that they were parsed from.
pub struct UrlOpts {
    opts: mysql::Opts,
    url: Ghost<Seq<char>>,
}

impl UrlOpts {
    /// The URL that the options were parsed from.
    pub closed spec fn url(&self) -> Seq<char> {
        self.url@
    }

    /// The driver options.
    pub fn into_opts(self) -> mysql::Opts {
        self.opts
    }
}

/// Parses a connection URL into driver options.
///
/// Trusted: wraps `mysql::Opts::from_url`, which parses the URL and reads
/// the user, password, host, port, database and query parameters from it;
/// its error is turned into `ConnectError::InvalidUrl`. Whether it succeeds
/// is named `mysql_url_accepted`. The options are marked with the URL given
/// here, and since nothing else can build a `UrlOpts`, the marker names the
/// URL that the driver parsed. Verus does not see into the options
/// themselves, so what they hold is not stated.
#[verifier::external_body]
pub(crate) fn parse_url_opts(url: &str) -> (r: Result<UrlOpts, ConnectError>)
    ensures
        r is Ok <==> mysql_url_accepted(url@),
        r is Ok ==> r->Ok_0.url() == url@,
{
    match mysql::Opts::from_url(url) {
        Ok(opts) => Ok(UrlOpts { opts, url: Ghost(url@) }),
        Err(_) => Err(ConnectError::InvalidUrl),
    }
}

} // verus!
