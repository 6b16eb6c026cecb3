//! The strings that PHP's engine keeps for the life of the server: names of server variables
//! and the values that do not change from request to request.
use crate::cli::{
    document_root, law_root_and_script_name_make_the_path, script_name, Config,
};
use crate::net::{format_ip, ip_text};
use crate::text::{
    decimal, format_decimal, is_text, law_decimal_text_reads_back, signed_decimal, upper, utf8,
};
use vstd::prelude::*;
use vstd::slice::slice_to_vec;
use vstd::utf8::{is_ascii_chars, is_ascii_chars_encode_utf8};

verus! {

/// A string that is kept for the life of the server.
#[derive(Clone, Copy, Debug, PartialEq, Eq, Structural)]
pub enum InternedName {
    Ferrumphp,
    ServerSoftware,
    GatewayInterface,
    Cgi11,
    RequestUri,
    RequestMethod,
    QueryString,
    ServerProtocol,
    ServerName,
    ServerPort,
    ServerAddr,
    ScriptName,
    ScriptFilename,
    DocumentRoot,
    PathInfo,
    PathTranslated,
    PhpSelf,
    RemoteAddr,
    RemotePort,
    Https,
    HttpAccept,
    HttpAcceptEncoding,
    HttpAcceptLanguage,
    HttpAuthorization,
    HttpCacheControl,
    HttpConnection,
    HttpContentEncoding,
    HttpCookie,
    HttpDate,
    HttpHost,
    HttpOrigin,
    HttpReferer,
    HttpUserAgent,
    ContentType,
    ContentLength,
    HttpXForwardedFor,
    HttpXForwardedHost,
    HttpXForwardedProto,
    HttpXRealIp,
    HttpXRequestId,
    ServerAddrValue,
    ServerPortValue,
    ScriptFilenameValue,
    DocumentRootValue,
    ScriptNameValue,
}

impl InternedName {
    /// The text of a string that does not depend on the configuration.
    pub open spec fn fixed(self) -> Option<Seq<u8>> {
        match self {
            InternedName::Ferrumphp => Some(utf8("FerrumPHP")),
            InternedName::ServerSoftware => Some(utf8("SERVER_SOFTWARE")),
            InternedName::GatewayInterface => Some(utf8("GATEWAY_INTERFACE")),
            InternedName::Cgi11 => Some(utf8("CGI/1.1")),
            InternedName::RequestUri => Some(utf8("REQUEST_URI")),
            InternedName::RequestMethod => Some(utf8("REQUEST_METHOD")),
            InternedName::QueryString => Some(utf8("QUERY_STRING")),
            InternedName::ServerProtocol => Some(utf8("SERVER_PROTOCOL")),
            InternedName::ServerName => Some(utf8("SERVER_NAME")),
            InternedName::ServerPort => Some(utf8("SERVER_PORT")),
            InternedName::ServerAddr => Some(utf8("SERVER_ADDR")),
            InternedName::ScriptName => Some(utf8("SCRIPT_NAME")),
            InternedName::ScriptFilename => Some(utf8("SCRIPT_FILENAME")),
            InternedName::DocumentRoot => Some(utf8("DOCUMENT_ROOT")),
            InternedName::PathInfo => Some(utf8("PATH_INFO")),
            InternedName::PathTranslated => Some(utf8("PATH_TRANSLATED")),
            InternedName::PhpSelf => Some(utf8("PHP_SELF")),
            InternedName::RemoteAddr => Some(utf8("REMOTE_ADDR")),
            InternedName::RemotePort => Some(utf8("REMOTE_PORT")),
            InternedName::Https => Some(utf8("HTTPS")),
            InternedName::HttpAccept => Some(utf8("HTTP_ACCEPT")),
            InternedName::HttpAcceptEncoding => Some(utf8("HTTP_ACCEPT_ENCODING")),
            InternedName::HttpAcceptLanguage => Some(utf8("HTTP_ACCEPT_LANGUAGE")),
            InternedName::HttpAuthorization => Some(utf8("HTTP_AUTHORIZATION")),
            InternedName::HttpCacheControl => Some(utf8("HTTP_CACHE_CONTROL")),
            InternedName::HttpConnection => Some(utf8("HTTP_CONNECTION")),
            InternedName::HttpContentEncoding => Some(utf8("HTTP_CONTENT_ENCODING")),
            InternedName::HttpCookie => Some(utf8("HTTP_COOKIE")),
            InternedName::HttpDate => Some(utf8("HTTP_DATE")),
            InternedName::HttpHost => Some(utf8("HTTP_HOST")),
            InternedName::HttpOrigin => Some(utf8("HTTP_ORIGIN")),
            InternedName::HttpReferer => Some(utf8("HTTP_REFERER")),
            InternedName::HttpUserAgent => Some(utf8("HTTP_USER_AGENT")),
            InternedName::ContentType => Some(utf8("CONTENT_TYPE")),
            InternedName::ContentLength => Some(utf8("CONTENT_LENGTH")),
            InternedName::HttpXForwardedFor => Some(utf8("HTTP_X_FORWARDED_FOR")),
            InternedName::HttpXForwardedHost => Some(utf8("HTTP_X_FORWARDED_HOST")),
            InternedName::HttpXForwardedProto => Some(utf8("HTTP_X_FORWARDED_PROTO")),
            InternedName::HttpXRealIp => Some(utf8("HTTP_X_REAL_IP")),
            InternedName::HttpXRequestId => Some(utf8("HTTP_X_REQUEST_ID")),
            _ => None,
        }
    }
}

/// The kept strings that depend on the configuration.
#[derive(Debug)]
pub struct Interned {
    /// Text of the address that the server is bound to.
    pub server_addr_value: Vec<u8>,
    /// Text of the port that the server is bound to.
    pub server_port_value: Vec<u8>,
    /// Path of the front controller.
    pub script_filename_value: Vec<u8>,
    /// Directory of the front controller.
    pub document_root_value: Vec<u8>,
    /// Path of the front controller below its directory.
    pub script_name_value: Vec<u8>,
}

impl Interned {
    /// The text of a kept string.
    pub open spec fn text(self, name: InternedName) -> Seq<u8> {
        match name {
            InternedName::ServerAddrValue => self.server_addr_value@,
            InternedName::ServerPortValue => self.server_port_value@,
            InternedName::ScriptFilenameValue => self.script_filename_value@,
            InternedName::DocumentRootValue => self.document_root_value@,
            InternedName::ScriptNameValue => self.script_name_value@,
            _ => name.fixed()->0,
        }
    }

    /// Whether these are the strings for `config`.
    pub open spec fn fits(self, config: Config) -> bool {
        &&& self.server_addr_value@ == ip_text(config.bind.ip)
        &&& self.server_port_value@ == decimal(config.bind.port as nat)
        &&& self.script_filename_value@ == config.entrypoint@
        &&& self.document_root_value@ == document_root(config.entrypoint@)
        &&& self.script_name_value@ == script_name(config.entrypoint@)
    }

    /// Computes the kept strings from the configuration.
    pub fn init(config: &Config) -> (interned: Interned)
        ensures
            interned.fits(*config),
    {
        Interned {
            server_addr_value: format_ip(config.bind.ip),
            server_port_value: format_decimal(config.bind.port),
            script_filename_value: slice_to_vec(&config.entrypoint),
            document_root_value: slice_to_vec(config.document_root()),
            script_name_value: slice_to_vec(config.script_name()),
        }
    }

    /// The text of a kept string.
    pub fn get(&self, name: InternedName) -> (text: &[u8])
        ensures
            text@ == self.text(name),
    {
        match name {
            InternedName::Ferrumphp => "FerrumPHP".as_bytes(),
            InternedName::ServerSoftware => "SERVER_SOFTWARE".as_bytes(),
            InternedName::GatewayInterface => "GATEWAY_INTERFACE".as_bytes(),
            InternedName::Cgi11 => "CGI/1.1".as_bytes(),
            InternedName::RequestUri => "REQUEST_URI".as_bytes(),
            InternedName::RequestMethod => "REQUEST_METHOD".as_bytes(),
            InternedName::QueryString => "QUERY_STRING".as_bytes(),
            InternedName::ServerProtocol => "SERVER_PROTOCOL".as_bytes(),
            InternedName::ServerName => "SERVER_NAME".as_bytes(),
            InternedName::ServerPort => "SERVER_PORT".as_bytes(),
            InternedName::ServerAddr => "SERVER_ADDR".as_bytes(),
            InternedName::ScriptName => "SCRIPT_NAME".as_bytes(),
            InternedName::ScriptFilename => "SCRIPT_FILENAME".as_bytes(),
            InternedName::DocumentRoot => "DOCUMENT_ROOT".as_bytes(),
            InternedName::PathInfo => "PATH_INFO".as_bytes(),
            InternedName::PathTranslated => "PATH_TRANSLATED".as_bytes(),
            InternedName::PhpSelf => "PHP_SELF".as_bytes(),
            InternedName::RemoteAddr => "REMOTE_ADDR".as_bytes(),
            InternedName::RemotePort => "REMOTE_PORT".as_bytes(),
            InternedName::Https => "HTTPS".as_bytes(),
            InternedName::HttpAccept => "HTTP_ACCEPT".as_bytes(),
            InternedName::HttpAcceptEncoding => "HTTP_ACCEPT_ENCODING".as_bytes(),
            InternedName::HttpAcceptLanguage => "HTTP_ACCEPT_LANGUAGE".as_bytes(),
            InternedName::HttpAuthorization => "HTTP_AUTHORIZATION".as_bytes(),
            InternedName::HttpCacheControl => "HTTP_CACHE_CONTROL".as_bytes(),
            InternedName::HttpConnection => "HTTP_CONNECTION".as_bytes(),
            InternedName::HttpContentEncoding => "HTTP_CONTENT_ENCODING".as_bytes(),
            InternedName::HttpCookie => "HTTP_COOKIE".as_bytes(),
            InternedName::HttpDate => "HTTP_DATE".as_bytes(),
            InternedName::HttpHost => "HTTP_HOST".as_bytes(),
            InternedName::HttpOrigin => "HTTP_ORIGIN".as_bytes(),
            InternedName::HttpReferer => "HTTP_REFERER".as_bytes(),
            InternedName::HttpUserAgent => "HTTP_USER_AGENT".as_bytes(),
            InternedName::ContentType => "CONTENT_TYPE".as_bytes(),
            InternedName::ContentLength => "CONTENT_LENGTH".as_bytes(),
            InternedName::HttpXForwardedFor => "HTTP_X_FORWARDED_FOR".as_bytes(),
            InternedName::HttpXForwardedHost => "HTTP_X_FORWARDED_HOST".as_bytes(),
            InternedName::HttpXForwardedProto => "HTTP_X_FORWARDED_PROTO".as_bytes(),
            InternedName::HttpXRealIp => "HTTP_X_REAL_IP".as_bytes(),
            InternedName::HttpXRequestId => "HTTP_X_REQUEST_ID".as_bytes(),
            InternedName::ServerAddrValue => &self.server_addr_value,
            InternedName::ServerPortValue => &self.server_port_value,
            InternedName::ScriptFilenameValue => &self.script_filename_value,
            InternedName::DocumentRootValue => &self.document_root_value,
            InternedName::ScriptNameValue => &self.script_name_value,
        }
    }

    /// The kept name of the server variable for a well-known request header.
    pub fn map_header_name(&self, name: &[u8]) -> (variable: Option<InternedName>)
        ensures
            variable == known_header(name@),
    {
        if is_text(name, "accept") {
            Some(InternedName::HttpAccept)
        } else if is_text(name, "accept-encoding") {
            Some(InternedName::HttpAcceptEncoding)
        } else if is_text(name, "accept-language") {
            Some(InternedName::HttpAcceptLanguage)
        } else if is_text(name, "authorization") {
            Some(InternedName::HttpAuthorization)
        } else if is_text(name, "cache-control") {
            Some(InternedName::HttpCacheControl)
        } else if is_text(name, "connection") {
            Some(InternedName::HttpConnection)
        } else if is_text(name, "content-encoding") {
            Some(InternedName::HttpContentEncoding)
        } else if is_text(name, "content-length") {
            Some(InternedName::ContentLength)
        } else if is_text(name, "content-type") {
            Some(InternedName::ContentType)
        } else if is_text(name, "cookie") {
            Some(InternedName::HttpCookie)
        } else if is_text(name, "date") {
            Some(InternedName::HttpDate)
        } else if is_text(name, "host") {
            Some(InternedName::HttpHost)
        } else if is_text(name, "origin") {
            Some(InternedName::HttpOrigin)
        } else if is_text(name, "referer") {
            Some(InternedName::HttpReferer)
        } else if is_text(name, "user-agent") {
            Some(InternedName::HttpUserAgent)
        } else if is_text(name, "x-forwarded-for") {
            Some(InternedName::HttpXForwardedFor)
        } else if is_text(name, "x-forwarded-host") {
            Some(InternedName::HttpXForwardedHost)
        } else if is_text(name, "x-forwarded-proto") {
            Some(InternedName::HttpXForwardedProto)
        } else if is_text(name, "x-real-ip") {
            Some(InternedName::HttpXRealIp)
        } else if is_text(name, "x-request-id") {
            Some(InternedName::HttpXRequestId)
        } else {
            None
        }
    }
}

/// The kept name of the server variable for a well-known request header.
pub open spec fn known_header(name: Seq<u8>) -> Option<InternedName> {
    if name == utf8("accept") {
        Some(InternedName::HttpAccept)
    } else if name == utf8("accept-encoding") {
        Some(InternedName::HttpAcceptEncoding)
    } else if name == utf8("accept-language") {
        Some(InternedName::HttpAcceptLanguage)
    } else if name == utf8("authorization") {
        Some(InternedName::HttpAuthorization)
    } else if name == utf8("cache-control") {
        Some(InternedName::HttpCacheControl)
    } else if name == utf8("connection") {
        Some(InternedName::HttpConnection)
    } else if name == utf8("content-encoding") {
        Some(InternedName::HttpContentEncoding)
    } else if name == utf8("content-length") {
        Some(InternedName::ContentLength)
    } else if name == utf8("content-type") {
        Some(InternedName::ContentType)
    } else if name == utf8("cookie") {
        Some(InternedName::HttpCookie)
    } else if name == utf8("date") {
        Some(InternedName::HttpDate)
    } else if name == utf8("host") {
        Some(InternedName::HttpHost)
    } else if name == utf8("origin") {
        Some(InternedName::HttpOrigin)
    } else if name == utf8("referer") {
        Some(InternedName::HttpReferer)
    } else if name == utf8("user-agent") {
        Some(InternedName::HttpUserAgent)
    } else if name == utf8("x-forwarded-for") {
        Some(InternedName::HttpXForwardedFor)
    } else if name == utf8("x-forwarded-host") {
        Some(InternedName::HttpXForwardedHost)
    } else if name == utf8("x-forwarded-proto") {
        Some(InternedName::HttpXForwardedProto)
    } else if name == utf8("x-real-ip") {
        Some(InternedName::HttpXRealIp)
    } else if name == utf8("x-request-id") {
        Some(InternedName::HttpXRequestId)
    } else {
        None
    }
}

/// One byte of a header name as it stands in the name of a server variable: in upper case,
/// with an underscore for a hyphen.
pub open spec fn variable_byte(b: u8) -> u8 {
    if b == 45 {
        95
    } else {
        upper(b)
    }
}

/// The name of the server variable for a request header: `HTTP_` and the header's name
/// in upper case, with underscores for hyphens.
pub open spec fn header_variable(name: Seq<u8>) -> Seq<u8> {
    utf8("HTTP_") + name.map_values(|b: u8| variable_byte(b))
}

proof fn lemma_variable_of(header: &str, variable: &str)
    requires
        is_ascii_chars(header@),
        is_ascii_chars(variable@),
        variable@.len() == header@.len() + 5,
        variable@.take(5) == "HTTP_"@,
        forall|i: int|
            0 <= i < header@.len() ==> variable@[i + 5] as u8 == variable_byte(
                (#[trigger] header@[i]) as u8,
            ),
    ensures
        utf8(variable) == header_variable(utf8(header)),
{
    reveal_strlit("HTTP_");
    is_ascii_chars_encode_utf8(header@);
    is_ascii_chars_encode_utf8(variable@);
    is_ascii_chars_encode_utf8("HTTP_"@);
    assert forall|i: int| 0 <= i < 5 implies "HTTP_"@[i] == variable@[i] by {
        assert(variable@.take(5)[i] == variable@[i]);
    }
    assert forall|i: int| 0 <= i < variable@.len() implies utf8(variable)[i] == header_variable(
        utf8(header),
    )[i] by {
        if i >= 5 {
            assert(header@[i - 5] as u8 == utf8(header)[i - 5]);
        }
    }
    assert(utf8(variable) =~= header_variable(utf8(header)));
}

proof fn lemma_rule_part_1()
    ensures
        utf8("HTTP_ACCEPT") == header_variable(utf8("accept")),
        utf8("HTTP_ACCEPT_ENCODING") == header_variable(utf8("accept-encoding")),
        utf8("HTTP_ACCEPT_LANGUAGE") == header_variable(utf8("accept-language")),
{
    reveal_strlit("HTTP_");
    assert(utf8("HTTP_ACCEPT") == header_variable(utf8("accept"))) by {
        reveal_strlit("accept");
        reveal_strlit("HTTP_ACCEPT");
        assert("HTTP_ACCEPT"@.take(5) =~= "HTTP_"@);
        lemma_variable_of("accept", "HTTP_ACCEPT");
    }
    assert(utf8("HTTP_ACCEPT_ENCODING") == header_variable(utf8("accept-encoding"))) by {
        reveal_strlit("accept-encoding");
        reveal_strlit("HTTP_ACCEPT_ENCODING");
        assert("HTTP_ACCEPT_ENCODING"@.take(5) =~= "HTTP_"@);
        lemma_variable_of("accept-encoding", "HTTP_ACCEPT_ENCODING");
    }
    assert(utf8("HTTP_ACCEPT_LANGUAGE") == header_variable(utf8("accept-language"))) by {
        reveal_strlit("accept-language");
        reveal_strlit("HTTP_ACCEPT_LANGUAGE");
        assert("HTTP_ACCEPT_LANGUAGE"@.take(5) =~= "HTTP_"@);
        lemma_variable_of("accept-language", "HTTP_ACCEPT_LANGUAGE");
    }
}

proof fn lemma_rule_part_2()
    ensures
        utf8("HTTP_AUTHORIZATION") == header_variable(utf8("authorization")),
        utf8("HTTP_CACHE_CONTROL") == header_variable(utf8("cache-control")),
        utf8("HTTP_CONNECTION") == header_variable(utf8("connection")),
{
    reveal_strlit("HTTP_");
    assert(utf8("HTTP_AUTHORIZATION") == header_variable(utf8("authorization"))) by {
        reveal_strlit("authorization");
        reveal_strlit("HTTP_AUTHORIZATION");
        assert("HTTP_AUTHORIZATION"@.take(5) =~= "HTTP_"@);
        lemma_variable_of("authorization", "HTTP_AUTHORIZATION");
    }
    assert(utf8("HTTP_CACHE_CONTROL") == header_variable(utf8("cache-control"))) by {
        reveal_strlit("cache-control");
        reveal_strlit("HTTP_CACHE_CONTROL");
        assert("HTTP_CACHE_CONTROL"@.take(5) =~= "HTTP_"@);
        lemma_variable_of("cache-control", "HTTP_CACHE_CONTROL");
    }
    assert(utf8("HTTP_CONNECTION") == header_variable(utf8("connection"))) by {
        reveal_strlit("connection");
        reveal_strlit("HTTP_CONNECTION");
        assert("HTTP_CONNECTION"@.take(5) =~= "HTTP_"@);
        lemma_variable_of("connection", "HTTP_CONNECTION");
    }
}

proof fn lemma_rule_part_3()
    ensures
        utf8("HTTP_CONTENT_ENCODING") == header_variable(utf8("content-encoding")),
        utf8("HTTP_COOKIE") == header_variable(utf8("cookie")),
        utf8("HTTP_DATE") == header_variable(utf8("date")),
{
    reveal_strlit("HTTP_");
    assert(utf8("HTTP_CONTENT_ENCODING") == header_variable(utf8("content-encoding"))) by {
        reveal_strlit("content-encoding");
        reveal_strlit("HTTP_CONTENT_ENCODING");
        assert("HTTP_CONTENT_ENCODING"@.take(5) =~= "HTTP_"@);
        lemma_variable_of("content-encoding", "HTTP_CONTENT_ENCODING");
    }
    assert(utf8("HTTP_COOKIE") == header_variable(utf8("cookie"))) by {
        reveal_strlit("cookie");
        reveal_strlit("HTTP_COOKIE");
        assert("HTTP_COOKIE"@.take(5) =~= "HTTP_"@);
        lemma_variable_of("cookie", "HTTP_COOKIE");
    }
    assert(utf8("HTTP_DATE") == header_variable(utf8("date"))) by {
        reveal_strlit("date");
        reveal_strlit("HTTP_DATE");
        assert("HTTP_DATE"@.take(5) =~= "HTTP_"@);
        lemma_variable_of("date", "HTTP_DATE");
    }
}

proof fn lemma_rule_part_4()
    ensures
        utf8("HTTP_HOST") == header_variable(utf8("host")),
        utf8("HTTP_ORIGIN") == header_variable(utf8("origin")),
        utf8("HTTP_REFERER") == header_variable(utf8("referer")),
{
    reveal_strlit("HTTP_");
    assert(utf8("HTTP_HOST") == header_variable(utf8("host"))) by {
        reveal_strlit("host");
        reveal_strlit("HTTP_HOST");
        assert("HTTP_HOST"@.take(5) =~= "HTTP_"@);
        lemma_variable_of("host", "HTTP_HOST");
    }
    assert(utf8("HTTP_ORIGIN") == header_variable(utf8("origin"))) by {
        reveal_strlit("origin");
        reveal_strlit("HTTP_ORIGIN");
        assert("HTTP_ORIGIN"@.take(5) =~= "HTTP_"@);
        lemma_variable_of("origin", "HTTP_ORIGIN");
    }
    assert(utf8("HTTP_REFERER") == header_variable(utf8("referer"))) by {
        reveal_strlit("referer");
        reveal_strlit("HTTP_REFERER");
        assert("HTTP_REFERER"@.take(5) =~= "HTTP_"@);
        lemma_variable_of("referer", "HTTP_REFERER");
    }
}

proof fn lemma_rule_part_5()
    ensures
        utf8("HTTP_USER_AGENT") == header_variable(utf8("user-agent")),
        utf8("HTTP_X_FORWARDED_FOR") == header_variable(utf8("x-forwarded-for")),
        utf8("HTTP_X_FORWARDED_HOST") == header_variable(utf8("x-forwarded-host")),
{
    reveal_strlit("HTTP_");
    assert(utf8("HTTP_USER_AGENT") == header_variable(utf8("user-agent"))) by {
        reveal_strlit("user-agent");
        reveal_strlit("HTTP_USER_AGENT");
        assert("HTTP_USER_AGENT"@.take(5) =~= "HTTP_"@);
        lemma_variable_of("user-agent", "HTTP_USER_AGENT");
    }
    assert(utf8("HTTP_X_FORWARDED_FOR") == header_variable(utf8("x-forwarded-for"))) by {
        reveal_strlit("x-forwarded-for");
        reveal_strlit("HTTP_X_FORWARDED_FOR");
        assert("HTTP_X_FORWARDED_FOR"@.take(5) =~= "HTTP_"@);
        lemma_variable_of("x-forwarded-for", "HTTP_X_FORWARDED_FOR");
    }
    assert(utf8("HTTP_X_FORWARDED_HOST") == header_variable(utf8("x-forwarded-host"))) by {
        reveal_strlit("x-forwarded-host");
        reveal_strlit("HTTP_X_FORWARDED_HOST");
        assert("HTTP_X_FORWARDED_HOST"@.take(5) =~= "HTTP_"@);
        lemma_variable_of("x-forwarded-host", "HTTP_X_FORWARDED_HOST");
    }
}

proof fn lemma_rule_part_6()
    ensures
        utf8("HTTP_X_FORWARDED_PROTO") == header_variable(utf8("x-forwarded-proto")),
        utf8("HTTP_X_REAL_IP") == header_variable(utf8("x-real-ip")),
        utf8("HTTP_X_REQUEST_ID") == header_variable(utf8("x-request-id")),
{
    reveal_strlit("HTTP_");
    assert(utf8("HTTP_X_FORWARDED_PROTO") == header_variable(utf8("x-forwarded-proto"))) by {
        reveal_strlit("x-forwarded-proto");
        reveal_strlit("HTTP_X_FORWARDED_PROTO");
        assert("HTTP_X_FORWARDED_PROTO"@.take(5) =~= "HTTP_"@);
        lemma_variable_of("x-forwarded-proto", "HTTP_X_FORWARDED_PROTO");
    }
    assert(utf8("HTTP_X_REAL_IP") == header_variable(utf8("x-real-ip"))) by {
        reveal_strlit("x-real-ip");
        reveal_strlit("HTTP_X_REAL_IP");
        assert("HTTP_X_REAL_IP"@.take(5) =~= "HTTP_"@);
        lemma_variable_of("x-real-ip", "HTTP_X_REAL_IP");
    }
    assert(utf8("HTTP_X_REQUEST_ID") == header_variable(utf8("x-request-id"))) by {
        reveal_strlit("x-request-id");
        reveal_strlit("HTTP_X_REQUEST_ID");
        assert("HTTP_X_REQUEST_ID"@.take(5) =~= "HTTP_"@);
        lemma_variable_of("x-request-id", "HTTP_X_REQUEST_ID");
    }
}

/// The kept names follow the general rule: but for `content-type` and `content-length`,
/// the variable of a well-known header is `HTTP_` and the header's name in upper case,
/// with underscores for hyphens.
pub proof fn law_known_headers_follow_the_rule(name: Seq<u8>)
    requires
        known_header(name) is Some,
        name != utf8("content-type"),
        name != utf8("content-length"),
    ensures
        known_header(name)->0.fixed() == Some(header_variable(name)),
{
    if name == utf8("accept") {
        lemma_rule_part_1();
    } else if name == utf8("accept-encoding") {
        lemma_rule_part_1();
    } else if name == utf8("accept-language") {
        lemma_rule_part_1();
    } else if name == utf8("authorization") {
        lemma_rule_part_2();
    } else if name == utf8("cache-control") {
        lemma_rule_part_2();
    } else if name == utf8("connection") {
        lemma_rule_part_2();
    } else if name == utf8("content-encoding") {
        lemma_rule_part_3();
    } else if name == utf8("cookie") {
        lemma_rule_part_3();
    } else if name == utf8("date") {
        lemma_rule_part_3();
    } else if name == utf8("host") {
        lemma_rule_part_4();
    } else if name == utf8("origin") {
        lemma_rule_part_4();
    } else if name == utf8("referer") {
        lemma_rule_part_4();
    } else if name == utf8("user-agent") {
        lemma_rule_part_5();
    } else if name == utf8("x-forwarded-for") {
        lemma_rule_part_5();
    } else if name == utf8("x-forwarded-host") {
        lemma_rule_part_5();
    } else if name == utf8("x-forwarded-proto") {
        lemma_rule_part_6();
    } else if name == utf8("x-real-ip") {
        lemma_rule_part_6();
    } else if name == utf8("x-request-id") {
        lemma_rule_part_6();
    }
}

/// `SCRIPT_FILENAME` is `DOCUMENT_ROOT` followed by `SCRIPT_NAME`.
pub proof fn law_script_filename_is_root_and_name(interned: Interned, config: Config)
    requires
        interned.fits(config),
    ensures
        interned.text(InternedName::ScriptFilenameValue) == interned.text(
            InternedName::DocumentRootValue,
        ) + interned.text(InternedName::ScriptNameValue),
{
    law_root_and_script_name_make_the_path(config.entrypoint@);
}

/// `SERVER_PORT` reads as the number of the port that the server is bound to.
pub proof fn law_server_port_reads_as_the_port(interned: Interned, config: Config)
    requires
        interned.fits(config),
    ensures
        signed_decimal(interned.text(InternedName::ServerPortValue)) == Some(
            config.bind.port as int,
        ),
{
    law_decimal_text_reads_back(config.bind.port as nat);
}

/// The strings for a configuration are the text of its address, its port in digits, the path of
/// the script, and that path in two parts: the directory and what follows it.
pub proof fn law_kept_strings_follow_the_configuration(
    config: &Config,
    interned: Interned,
    root: &[u8],
    script: &[u8],
    port: Vec<u8>,
)
    requires
        call_ensures(Interned::init, (config,), interned),
        call_ensures(format_decimal, (config.bind.port,), port),
        call_ensures(Config::document_root, (config,), root),
        call_ensures(Config::script_name, (config,), script),
    ensures
        interned.server_addr_value@ == ip_text(config.bind.ip),
        interned.server_port_value@ == port@,
        signed_decimal(interned.server_port_value@) == Some(config.bind.port as int),
        interned.script_filename_value@ == config.entrypoint@,
        interned.document_root_value@ == root@,
        interned.script_name_value@ == script@,
        root@ + script@ == config.entrypoint@,
{
    law_server_port_reads_as_the_port(interned, *config);
    law_root_and_script_name_make_the_path(config.entrypoint@);
}

/// The kept strings are handed out as they are: the names of the server's own variables are
/// those that CGI gives them, and the values those of the configuration.
pub proof fn law_kept_strings_are_handed_out(
    interned: &Interned,
    name: InternedName,
    text: &[u8],
)
    requires
        call_ensures(Interned::get, (interned, name), text),
    ensures
        name is ServerSoftware ==> text@ == utf8("SERVER_SOFTWARE"),
        name is GatewayInterface ==> text@ == utf8("GATEWAY_INTERFACE"),
        name is ServerAddr ==> text@ == utf8("SERVER_ADDR"),
        name is ServerPort ==> text@ == utf8("SERVER_PORT"),
        name is ScriptFilename ==> text@ == utf8("SCRIPT_FILENAME"),
        name is DocumentRoot ==> text@ == utf8("DOCUMENT_ROOT"),
        name is ScriptName ==> text@ == utf8("SCRIPT_NAME"),
        name is PathInfo ==> text@ == utf8("PATH_INFO"),
        name is PhpSelf ==> text@ == utf8("PHP_SELF"),
        name is RemoteAddr ==> text@ == utf8("REMOTE_ADDR"),
        name is RemotePort ==> text@ == utf8("REMOTE_PORT"),
        name is RequestUri ==> text@ == utf8("REQUEST_URI"),
        name is RequestMethod ==> text@ == utf8("REQUEST_METHOD"),
        name is QueryString ==> text@ == utf8("QUERY_STRING"),
        name is ContentType ==> text@ == utf8("CONTENT_TYPE"),
        name is ContentLength ==> text@ == utf8("CONTENT_LENGTH"),
        name is ServerName ==> text@ == utf8("SERVER_NAME"),
        name is ServerProtocol ==> text@ == utf8("SERVER_PROTOCOL"),
        name is Ferrumphp ==> text@ == utf8("FerrumPHP"),
        name is Cgi11 ==> text@ == utf8("CGI/1.1"),
        name is ServerAddrValue ==> text@ == interned.server_addr_value@,
        name is ServerPortValue ==> text@ == interned.server_port_value@,
        name is ScriptFilenameValue ==> text@ == interned.script_filename_value@,
        name is DocumentRootValue ==> text@ == interned.document_root_value@,
        name is ScriptNameValue ==> text@ == interned.script_name_value@,
{
}

/// A well-known request header that has a variable of its own has one with `HTTP_` before the
/// header's name, of the same length otherwise, which differs from the name by capital letters
/// and underscores alone.
pub proof fn law_known_headers_keep_their_names(
    interned: &Interned,
    header: &[u8],
    variable: InternedName,
    text: &[u8],
    i: int,
)
    requires
        call_ensures(Interned::map_header_name, (interned, header), Some(variable)),
        call_ensures(Interned::get, (interned, variable), text),
        header@ != utf8("content-type"),
        header@ != utf8("content-length"),
        0 <= i < header@.len(),
    ensures
        text@.len() == 5 + header@.len(),
        text@.take(5) == utf8("HTTP_"),
        header@[i] == 45 ==> text@[5 + i] == 95,
        97 <= header@[i] <= 122 ==> text@[5 + i] == header@[i] - 32,
        header@[i] != 45 && !(97 <= header@[i] <= 122) ==> text@[5 + i] == header@[i],
{
    law_known_headers_follow_the_rule(header@);
    reveal_strlit("HTTP_");
    is_ascii_chars_encode_utf8("HTTP_"@);
    assert(header_variable(header@).take(5) =~= utf8("HTTP_"));
}

/// The request headers that have a kept name are these and no others; the media type and the
/// length have theirs without `HTTP_`.
pub proof fn law_known_headers_are_these(
    interned: &Interned,
    header: &[u8],
    variable: Option<InternedName>,
)
    requires
        call_ensures(Interned::map_header_name, (interned, header), variable),
    ensures
        header@ == utf8("content-type") ==> variable == Some(InternedName::ContentType),
        header@ == utf8("content-length") ==> variable == Some(InternedName::ContentLength),
        variable is Some <==> {
            ||| header@ == utf8("accept")
            ||| header@ == utf8("accept-encoding")
            ||| header@ == utf8("accept-language")
            ||| header@ == utf8("authorization")
            ||| header@ == utf8("cache-control")
            ||| header@ == utf8("connection")
            ||| header@ == utf8("content-encoding")
            ||| header@ == utf8("content-length")
            ||| header@ == utf8("content-type")
            ||| header@ == utf8("cookie")
            ||| header@ == utf8("date")
            ||| header@ == utf8("host")
            ||| header@ == utf8("origin")
            ||| header@ == utf8("referer")
            ||| header@ == utf8("user-agent")
            ||| header@ == utf8("x-forwarded-for")
            ||| header@ == utf8("x-forwarded-host")
            ||| header@ == utf8("x-forwarded-proto")
            ||| header@ == utf8("x-real-ip")
            ||| header@ == utf8("x-request-id")
        },
{
    lemma_lengths();
}

proof fn lemma_lengths()
    ensures
        utf8("accept").len() == 6,
        utf8("accept-encoding").len() == 15,
        utf8("accept-language").len() == 15,
        utf8("authorization").len() == 13,
        utf8("cache-control").len() == 13,
        utf8("connection").len() == 10,
        utf8("content-encoding").len() == 16,
        utf8("content-length").len() == 14,
        utf8("content-type").len() == 12,
{
    reveal_strlit("accept");
    is_ascii_chars_encode_utf8("accept"@);
    reveal_strlit("accept-encoding");
    is_ascii_chars_encode_utf8("accept-encoding"@);
    reveal_strlit("accept-language");
    is_ascii_chars_encode_utf8("accept-language"@);
    reveal_strlit("authorization");
    is_ascii_chars_encode_utf8("authorization"@);
    reveal_strlit("cache-control");
    is_ascii_chars_encode_utf8("cache-control"@);
    reveal_strlit("connection");
    is_ascii_chars_encode_utf8("connection"@);
    reveal_strlit("content-encoding");
    is_ascii_chars_encode_utf8("content-encoding"@);
    reveal_strlit("content-length");
    is_ascii_chars_encode_utf8("content-length"@);
    reveal_strlit("content-type");
    is_ascii_chars_encode_utf8("content-type"@);
}

} // verus!
