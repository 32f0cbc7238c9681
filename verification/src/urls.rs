//! The addresses that the main window goes to, and what is read from those that it is sent to.

use vstd::prelude::*;

use crate::backend;
use crate::strings;
use crate::text;

verus! {

/// The address of the error page where pages of the launcher's own have the scheme of the web.
pub const WEB_ERROR_URL_BASE: &'static str = "http://alas-error.localhost/backend";

/// The address of the error page elsewhere.
pub const ERROR_URL_BASE: &'static str = "alas-error://localhost/backend";

/// The address of the splash page where pages of the launcher's own have the scheme of the web.
pub const WEB_SPLASH_URL: &'static str = "http://alas-splash.localhost/";

/// The address of the splash page elsewhere.
pub const SPLASH_URL: &'static str = "alas-splash://localhost/";

/// The port that an error page speaks of where its address names none.
pub const DEFAULT_PORT: u16 = 22267;

/// The address of the error page, where `web_scheme` says whether pages of the launcher's own have
/// the scheme of the web.
pub open spec fn error_base(web_scheme: bool) -> Seq<char> {
    if web_scheme {
        WEB_ERROR_URL_BASE@
    } else {
        ERROR_URL_BASE@
    }
}

/// The address of the splash page.
pub fn splash_url(web_scheme: bool) -> (r: &'static str)
    ensures
        r@ == if web_scheme {
            WEB_SPLASH_URL@
        } else {
            SPLASH_URL@
        },
{
    if web_scheme {
        WEB_SPLASH_URL
    } else {
        SPLASH_URL
    }
}

/// A name with its value, in the query of an address.
#[derive(Debug)]
pub struct Param {
    pub key: String,
    pub value: String,
}

/// The names and values of parameters.
pub open spec fn params_view(params: Seq<Param>) -> Seq<(Seq<char>, Seq<char>)> {
    Seq::new(params.len(), |i: int| (params[i].key@, params[i].value@))
}

/// The parts of an address that tell which server it leads to.
#[derive(Debug)]
pub struct Target {
    pub scheme: String,
    pub host: Option<String>,
    /// The port that the address names, or else the one that its scheme implies.
    pub port: Option<u16>,
}

impl Target {
    /// The parts of the address.
    pub open spec fn parts(self) -> (Seq<char>, Option<Seq<char>>, Option<u16>) {
        (self.scheme@, text::view_of(self.host), self.port)
    }
}

/// The error of url's parser.
#[verifier::external_type_specification]
#[verifier::external_body]
pub struct ExUrlParseError(url::ParseError);

/// The address that `url::Url::parse_with_params` makes of an address and parameters.
pub uninterp spec fn with_params(base: Seq<char>, params: Seq<(Seq<char>, Seq<char>)>) -> Option<
    Seq<char>,
>;

/// The parameters that `url::Url::query_pairs` finds in an address, if it is one.
pub uninterp spec fn query_of(address: Seq<char>) -> Option<Seq<(Seq<char>, Seq<char>)>>;

/// The scheme that `url::Url::scheme` gives of an address, if it is one.
pub uninterp spec fn scheme_of(address: Seq<char>) -> Option<Seq<char>>;

/// The host that `url::Url::host_str` gives of an address, if it is one that has a host.
pub uninterp spec fn host_of(address: Seq<char>) -> Option<Seq<char>>;

/// The port that `url::Url::port_or_known_default` gives of an address, if it is one that has a
/// port or whose scheme implies one.
pub uninterp spec fn port_of(address: Seq<char>) -> Option<u16>;

/// The scheme, host and port of an address, if it is one.
pub open spec fn target_of(address: Seq<char>) -> Option<
    (Seq<char>, Option<Seq<char>>, Option<u16>),
> {
    match scheme_of(address) {
        Some(scheme) => Some((scheme, host_of(address), port_of(address))),
        None => None,
    }
}

/// `url::Url::parse_with_params` of one of the two addresses of the error page: the address with the
/// parameters in its query. Neither has a query of its own, so the query is those parameters. Other
/// addresses are left out: url panics where one of more than 4 GiB has no query.
#[verifier::external_body]
fn add_params(base: &str, params: &Vec<Param>) -> (r: Result<String, url::ParseError>)
    requires
        base@ == WEB_ERROR_URL_BASE@ || base@ == ERROR_URL_BASE@,
    ensures
        match r {
            Ok(address) => with_params(base@, params_view(params@)) == Some(address@) && query_of(
                address@,
            ) == Some(params_view(params@)),
            Err(_) => with_params(base@, params_view(params@)) is None,
        },
{
    let pairs = params.iter().map(|p| (p.key.as_str(), p.value.as_str()));
    url::Url::parse_with_params(base, pairs).map(|address| address.to_string())
}

/// `url::Url::query_pairs` of the address: its parameters in order, if url reads it.
#[verifier::external_body]
fn query_pairs(address: &str) -> (r: Option<Vec<Param>>)
    ensures
        match r {
            Some(params) => query_of(address@) == Some(params_view(params@)),
            None => query_of(address@) is None,
        },
{
    url::Url::parse(address).ok().map(|parsed| {
        parsed.query_pairs().map(|(key, value)| Param {
            key: key.into_owned(),
            value: value.into_owned(),
        }).collect()
    })
}

/// `url::Url::scheme` of the address, if url reads it.
#[verifier::external_body]
fn address_scheme(address: &str) -> (r: Option<String>)
    ensures
        text::view_of(r) == scheme_of(address@),
{
    url::Url::parse(address).ok().map(|parsed| parsed.scheme().to_owned())
}

/// `url::Url::host_str` of the address, if url reads it.
#[verifier::external_body]
fn address_host(address: &str) -> (r: Option<String>)
    ensures
        text::view_of(r) == host_of(address@),
{
    url::Url::parse(address).ok().and_then(|parsed| parsed.host_str().map(|host| host.to_owned()))
}

/// `url::Url::port_or_known_default` of the address, if url reads it.
#[verifier::external_body]
fn address_port(address: &str) -> (r: Option<u16>)
    ensures
        r == port_of(address@),
{
    url::Url::parse(address).ok().and_then(|parsed| parsed.port_or_known_default())
}

/// The parameters of the error page's address.
pub open spec fn error_params(port: u16, detail: Seq<char>) -> Seq<(Seq<char>, Seq<char>)> {
    seq![("port"@, text::decimal(port as nat)), ("detail"@, detail)]
}

/// The port and the detail that an error page speaks of, the parameters up to the one `n` read in
/// order: a port that is a number, and any detail, takes the place of the one before.
pub open spec fn read_params(
    params: Seq<(Seq<char>, Seq<char>)>,
    n: int,
    unable_to_connect: Seq<char>,
) -> (nat, Seq<char>)
    decreases n,
{
    if n <= 0 {
        (DEFAULT_PORT as nat, unable_to_connect)
    } else {
        let (port, detail) = read_params(params, n - 1, unable_to_connect);
        let (key, value) = params[n - 1];
        if key == "port"@ {
            match text::parse_unsigned(value, u16::MAX as nat) {
                Some(parsed) => (parsed, detail),
                None => (port, detail),
            }
        } else if key == "detail"@ {
            (port, value)
        } else {
            (port, detail)
        }
    }
}

/// The port and the detail that an error page at this address speaks of.
pub open spec fn request_params(address: Seq<char>, unable_to_connect: Seq<char>) -> (
    nat,
    Seq<char>,
) {
    match query_of(address) {
        Some(params) => read_params(params, params.len() as int, unable_to_connect),
        None => (DEFAULT_PORT as nat, unable_to_connect),
    }
}

/// The address of the error page for a backend on `port`. A page at this address speaks of that
/// port and that detail.
pub fn backend_error_url(port: u16, error_detail: &str, web_scheme: bool) -> (r: Result<
    String,
    url::ParseError,
>)
    ensures
        match r {
            Ok(address) => {
                &&& with_params(error_base(web_scheme), error_params(port, error_detail@)) == Some(
                    address@,
                )
                &&& forall|other: Seq<char>| #[trigger]
                    request_params(address@, other) == (port as nat, error_detail@)
            },
            Err(_) => with_params(
                error_base(web_scheme),
                error_params(port, error_detail@),
            ) is None,
        },
{
    let mut params: Vec<Param> = Vec::new();
    params.push(Param { key: "port".to_owned(), value: strings::decimal_string(port as u64) });
    params.push(Param { key: "detail".to_owned(), value: error_detail.to_owned() });
    assert(params_view(params@) =~= error_params(port, error_detail@));
    let base = if web_scheme {
        WEB_ERROR_URL_BASE
    } else {
        ERROR_URL_BASE
    };
    let result = add_params(base, &params);
    proof {
        if result is Ok {
            let address = result->Ok_0@;
            assert forall|other: Seq<char>| #[trigger]
                request_params(address, other) == (port as nat, error_detail@) by {
                the_error_page_reads_its_parameters_back(port, error_detail@, other);
            }
        }
    }
    result
}

/// The parameters of the error page's address are read as the port and the detail that they were
/// made of.
pub proof fn the_error_page_reads_its_parameters_back(
    port: u16,
    detail: Seq<char>,
    unable_to_connect: Seq<char>,
)
    ensures
        read_params(error_params(port, detail), 2, unable_to_connect) == (port as nat, detail),
{
    let params = error_params(port, detail);
    reveal_strlit("port");
    reveal_strlit("detail");
    assert("port"@.len() != "detail"@.len());
    text::lemma_decimal_parses(port as nat, u16::MAX as nat);
    reveal_with_fuel(read_params, 3);
    assert(params[0] == ("port"@, text::decimal(port as nat)));
    assert(params[1] == ("detail"@, detail));
}

/// The parameters are read in order: a further port takes the place of the one before where it is a
/// number that is a port, a further detail takes the place of the one before, and neither touches
/// the other. Any other parameter, and a port that is none, changes nothing. Without parameters the
/// page speaks of the usual port and says what it was given to say.
pub proof fn a_later_parameter_takes_the_place_of_an_earlier(
    params: Seq<(Seq<char>, Seq<char>)>,
    name: Seq<char>,
    value: Seq<char>,
    port: u16,
    text: Seq<char>,
)
    ensures
        ({
            let n = params.len() as int;
            let before = read_params(params, n, text);
            let with_port = params.push(("port"@, text::decimal(port as nat)));
            let with_detail = params.push(("detail"@, value));
            let with_other = params.push((name, value));
            &&& read_params(with_port, n + 1, text) == (port as nat, before.1)
            &&& read_params(with_detail, n + 1, text) == (before.0, value)
            &&& name != "port"@ && name != "detail"@ ==> read_params(with_other, n + 1, text)
                == before
            &&& name == "port"@ && text::parse_unsigned(value, 65535) is None ==> read_params(
                with_other,
                n + 1,
                text,
            ) == before
        }),
        read_params(Seq::empty(), 0, text) == (22267nat, text),
{
    let n = params.len() as int;
    reveal_strlit("port");
    reveal_strlit("detail");
    assert("port"@.len() != "detail"@.len());
    text::lemma_decimal_parses(port as nat, u16::MAX as nat);
    lemma_read_front(params, ("port"@, text::decimal(port as nat)), n, text);
    lemma_read_front(params, ("detail"@, value), n, text);
    lemma_read_front(params, (name, value), n, text);
}

proof fn lemma_read_front(
    params: Seq<(Seq<char>, Seq<char>)>,
    more: (Seq<char>, Seq<char>),
    n: int,
    text: Seq<char>,
)
    requires
        n <= params.len(),
    ensures
        read_params(params.push(more), n, text) == read_params(params, n, text),
    decreases n,
{
    if n > 0 {
        lemma_read_front(params, more, n - 1, text);
        assert(params.push(more)[n - 1] == params[n - 1]);
    }
}

/// The port and the detail that parameters tell an error page.
pub fn params_of_request(params: &Vec<Param>, unable_to_connect: &str) -> (r: (u16, String))
    ensures
        (r.0 as nat, r.1@) == read_params(
            params_view(params@),
            params@.len() as int,
            unable_to_connect@,
        ),
{
    let mut port: u16 = DEFAULT_PORT;
    let mut detail: String = unable_to_connect.to_owned();
    let ghost views = params_view(params@);
    for i in 0..params.len()
        invariant
            views == params_view(params@),
            (port as nat, detail@) == read_params(views, i as int, unable_to_connect@),
    {
        assert(views[i as int] == (params@[i as int].key@, params@[i as int].value@));
        if strings::same_text(params[i].key.as_str(), "port") {
            if let Some(parsed) = strings::parsed_unsigned(
                &strings::chars_of(params[i].value.as_str()),
                u16::MAX as u64,
            ) {
                port = parsed as u16;
            }
        } else if strings::same_text(params[i].key.as_str(), "detail") {
            detail = params[i].value.clone();
        }
    }
    (port, detail)
}

/// The port and the detail that an error page at the address `uri` speaks of.
pub fn backend_error_request_params(uri: &str, unable_to_connect: &str) -> (r: (u16, String))
    ensures
        (r.0 as nat, r.1@) == request_params(uri@, unable_to_connect@),
{
    match query_pairs(uri) {
        Some(params) => {
            assert(params_view(params@).len() == params@.len());
            params_of_request(&params, unable_to_connect)
        },
        None => (DEFAULT_PORT, unable_to_connect.to_owned()),
    }
}

/// An address with these parts leads to the backend on `port`.
pub open spec fn leads_to_backend(
    parts: (Seq<char>, Option<Seq<char>>, Option<u16>),
    port: u16,
) -> bool {
    &&& parts.0 == "http"@ || parts.0 == "https"@
    &&& parts.1 == Some("127.0.0.1"@) || parts.1 == Some("localhost"@)
    &&& parts.2 == Some(port)
}

/// Whether an address with these parts leads to the backend on `port`.
pub fn target_is_backend(target: &Target, port: u16) -> (r: bool)
    ensures
        r == leads_to_backend(target.parts(), port),
{
    let scheme_fits = strings::same_text(target.scheme.as_str(), "http") || strings::same_text(
        target.scheme.as_str(),
        "https",
    );
    let host_fits = match &target.host {
        Some(host) => strings::same_text(host.as_str(), "127.0.0.1") || strings::same_text(
            host.as_str(),
            "localhost",
        ),
        None => false,
    };
    let port_fits = match target.port {
        Some(own) => own == port,
        None => false,
    };
    scheme_fits && host_fits && port_fits
}

/// Whether the address leads to the backend on `port`.
pub fn is_backend_url(address: &str, port: u16) -> (r: bool)
    ensures
        r == (target_of(address@) matches Some(parts) && leads_to_backend(parts, port)),
{
    match address_scheme(address) {
        Some(scheme) => {
            let target = Target { scheme, host: address_host(address), port: address_port(address) };
            target_is_backend(&target, port)
        },
        None => false,
    }
}

/// What becomes of a navigation of the main window.
#[derive(Clone, Copy, Debug, PartialEq, Eq, Structural)]
pub enum Navigation {
    Allow,
    /// Find out first whether the backend can be reached.
    CheckBackend,
}

/// What becomes of a navigation to an address with these parts, if it is one.
pub open spec fn navigation_to(
    target: Option<(Seq<char>, Option<Seq<char>>, Option<u16>)>,
    port: u16,
) -> Navigation {
    if target is Some && leads_to_backend(target->0, port) {
        Navigation::CheckBackend
    } else {
        Navigation::Allow
    }
}

/// The backend is checked before a navigation to it over either scheme of the web, under either name
/// of the local machine and on its own port. A navigation to another port, host or scheme, or to
/// what is no address, is let through.
pub proof fn only_the_backend_is_checked(
    scheme: Seq<char>,
    host: Option<Seq<char>>,
    own_port: Option<u16>,
    port: u16,
)
    ensures
        (scheme == "http"@ || scheme == "https"@) && (host == Some("127.0.0.1"@) || host == Some(
            "localhost"@,
        )) ==> navigation_to(Some((scheme, host, Some(port))), port) is CheckBackend,
        own_port != Some(port) ==> navigation_to(Some((scheme, host, own_port)), port) is Allow,
        host is None ==> navigation_to(Some((scheme, host, own_port)), port) is Allow,
        navigation_to(Some((scheme, host, own_port)), port) is CheckBackend ==> own_port == Some(
            port,
        ) && (scheme == "http"@ || scheme == "https"@) && (host == Some("127.0.0.1"@) || host
            == Some("localhost"@)),
        navigation_to(None, port) is Allow,
{
}

/// What becomes of a navigation to the address.
pub fn handle_backend_navigation(address: &str, port: u16) -> (r: Navigation)
    ensures
        r == navigation_to(target_of(address@), port),
{
    if is_backend_url(address, port) {
        Navigation::CheckBackend
    } else {
        Navigation::Allow
    }
}

/// Where the main window goes.
#[derive(Debug)]
pub enum Destination {
    Backend { address: String },
    ErrorPage { address: String },
}

/// The result is where the main window goes, where `failure` says why the backend cannot be reached.
pub open spec fn goes_to(
    port: u16,
    failure: Option<Seq<char>>,
    web_scheme: bool,
    result: Result<Destination, url::ParseError>,
) -> bool {
    match failure {
        None => result matches Ok(Destination::Backend { address }) && address@
            == backend::url_text(port),
        Some(detail) => match with_params(error_base(web_scheme), error_params(port, detail)) {
            Some(page) => result matches Ok(Destination::ErrorPage { address }) && address@ == page,
            None => result is Err,
        },
    }
}

/// The window goes to the backend just if that can be reached, on the port that is asked for; else
/// it is never sent there, and the scheme of the page that it is sent to is that of the system.
pub proof fn an_unreachable_backend_is_not_shown(
    port: u16,
    failure: Option<Seq<char>>,
    web_scheme: bool,
    result: Result<Destination, url::ParseError>,
)
    requires
        goes_to(port, failure, web_scheme, result),
    ensures
        failure is None <==> (result matches Ok(destination) && destination is Backend),
        failure is None ==> (result matches Ok(destination)
            && destination->Backend_address@ == backend::url_text(port)),
        failure is Some && result is Ok ==> with_params(
            if web_scheme {
                "http://alas-error.localhost/backend"@
            } else {
                "alas-error://localhost/backend"@
            },
            error_params(port, failure->0),
        ) == Some(result->Ok_0->ErrorPage_address@),
{
}

/// Where the main window goes once it is known whether the backend can be reached: to the backend,
/// or to the page that says why it cannot be.
pub fn navigate_backend_or_error(port: u16, failure: Option<&str>, web_scheme: bool) -> (r: Result<
    Destination,
    url::ParseError,
>)
    ensures
        goes_to(
            port,
            match failure {
                Some(detail) => Some(detail@),
                None => None,
            },
            web_scheme,
            r,
        ),
        r matches Ok(destination) ==> (failure matches Some(detail) ==> forall|other: Seq<char>|
            #[trigger] request_params(destination->ErrorPage_address@, other) == (
                port as nat,
                detail@,
            )),
{
    match failure {
        None => Ok(Destination::Backend { address: backend::backend_url(port) }),
        Some(detail) => match backend_error_url(port, detail, web_scheme) {
            Ok(address) => Ok(Destination::ErrorPage { address }),
            Err(error) => Err(error),
        },
    }
}

} // verus!
