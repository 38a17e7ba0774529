//! How to reach the cluster: in the clear, or secured for a host name.

use vstd::prelude::*;
use url::Url;
use crate::error::NatsError;

verus! {

/// The transport to open.
pub enum Transport {
    Plain,
    Tls { host: String },
}

/// Model of a transport.
pub enum TransportModel {
    Plain,
    Tls { host: Seq<char> },
}

impl View for Transport {
    type V = TransportModel;

    open spec fn view(&self) -> TransportModel {
        match *self {
            Transport::Plain => TransportModel::Plain,
            Transport::Tls { host } => TransportModel::Tls { host: host@ },
        }
    }
}

/// What `Url::parse` and `Url::host_str` make of a text: nothing where it is no URL,
/// else the host it names, if it names one.
pub uninterp spec fn url_host_of(uri: Seq<char>) -> Option<Option<Seq<char>>>;

/// Model of a parsed host.
pub open spec fn host_view(h: Option<Option<String>>) -> Option<Option<Seq<char>>> {
    match h {
        None => None,
        Some(None) => Some(None),
        Some(Some(s)) => Some(Some(s@)),
    }
}

/// `Url::parse`, then `Url::host_str`: the outer `None` stands for a parse error, the
/// inner one for a URL without host. The result depends on the text alone.
#[verifier::external_body]
pub(crate) fn url_host(uri: &str) -> (r: Option<Option<String>>)
    ensures
        host_view(r) == url_host_of(uri@),
{
    match Url::parse(uri) {
        Ok(url) => Some(url.host_str().map(String::from)),
        Err(_) => None,
    }
}

/// The rule by which the transport is chosen: an address that is no `host:port` is
/// refused first; without security the transport is plain; with it, the host of the
/// address read as a URL is needed.
pub open spec fn transport_spec(
    tls_required: bool,
    address_ok: bool,
    host: Option<Option<Seq<char>>>,
) -> Result<TransportModel, NatsError> {
    if !address_ok {
        Err(NatsError::UriInvalid)
    } else if !tls_required {
        Ok(TransportModel::Plain)
    } else {
        match host {
            None => Err(NatsError::UrlParseError),
            Some(None) => Err(NatsError::TlsHostMissingError),
            Some(Some(h)) => Ok(TransportModel::Tls { host: h }),
        }
    }
}

/// What `choose_transport` and `plan_connection` answer, as a model.
pub open spec fn transport_view(r: Result<Transport, NatsError>) -> Result<
    TransportModel,
    NatsError,
> {
    match r {
        Ok(t) => Ok(t@),
        Err(e) => Err(e),
    }
}

/// Chooses the transport from the host that the address gave when read as a URL.
pub fn choose_transport(tls_required: bool, address_ok: bool, host: Option<Option<String>>) -> (r:
    Result<Transport, NatsError>)
    ensures
        transport_view(r) == transport_spec(tls_required, address_ok, host_view(host)),
{
    if !address_ok {
        return Err(NatsError::UriInvalid);
    }
    if !tls_required {
        return Ok(Transport::Plain);
    }
    match host {
        None => Err(NatsError::UrlParseError),
        Some(None) => Err(NatsError::TlsHostMissingError),
        Some(Some(h)) => Ok(Transport::Tls { host: h }),
    }
}

/// Chooses the transport for a cluster address. `address_ok` says whether the address
/// was accepted as `host:port`.
pub fn plan_connection(tls_required: bool, address_ok: bool, cluster_uri: &str) -> (r: Result<
    Transport,
    NatsError,
>)
    ensures
        transport_view(r) == transport_spec(tls_required, address_ok, url_host_of(cluster_uri@)),
{
    let host = url_host(cluster_uri);
    choose_transport(tls_required, address_ok, host)
}

} // verus!
