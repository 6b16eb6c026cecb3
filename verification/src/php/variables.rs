//! The server variables that a request shows to PHP as `$_SERVER`.
use crate::cli::{script_name, Config};
use crate::headers::{
    first_text, header_fields, header_text, is_lower_case, lemma_first_text, list_headers,
    names_are_lower_case, LookedUp,
};
use crate::net::{format_ip, ip_text, parse_ip, parsed_ip, IpAddr, SocketAddr};
use crate::php::context::{bytes_of, PhpRequestContext};
use crate::php::interned::{
    header_variable, known_header, law_known_headers_follow_the_rule, variable_byte, Interned,
    InternedName,
};
use crate::text::{
    append, before_first, cut_before_first, find_first, format_decimal, is_text,
    law_prefix_is_taken_off, law_text_is_cut_at_the_first_separator, law_trimming_takes_blanks_off,
    owned, strip_prefix, trim, trimmed, utf8, without_prefix,
};
use vstd::prelude::*;
use vstd::slice::slice_to_vec;
use vstd::utf8::{is_ascii_chars, is_ascii_chars_encode_utf8};

verus! {

/// The name of a server variable.
#[derive(Debug)]
pub enum VariableName {
    /// A name that is kept for the life of the server.
    Interned(InternedName),
    /// A name made up for a request header.
    Header(Vec<u8>),
}

/// The value of a server variable.
#[derive(Debug)]
pub enum VariableValue {
    /// A text that is kept for the life of the server.
    Interned(InternedName),
    /// A text of this request.
    Text(Vec<u8>),
    /// A number.
    Long(i64),
}

/// A server variable to be set.
#[derive(Debug)]
pub struct ServerVariable {
    pub name: VariableName,
    pub value: VariableValue,
}

/// A value as PHP sees it.
pub enum PhpValue {
    Text(Seq<u8>),
    Long(i64),
}

impl VariableName {
    /// The name as PHP sees it.
    pub open spec fn seen(self, interned: Interned) -> Seq<u8> {
        match self {
            VariableName::Interned(name) => interned.text(name),
            VariableName::Header(name) => name@,
        }
    }
}

impl VariableValue {
    /// The value as PHP sees it.
    pub open spec fn seen(self, interned: Interned) -> PhpValue {
        match self {
            VariableValue::Interned(name) => PhpValue::Text(interned.text(name)),
            VariableValue::Text(text) => PhpValue::Text(text@),
            VariableValue::Long(number) => PhpValue::Long(number),
        }
    }
}

impl ServerVariable {
    /// The variable as PHP sees it.
    pub open spec fn seen(self, interned: Interned) -> (Seq<u8>, PhpValue) {
        (self.name.seen(interned), self.value.seen(interned))
    }
}

/// The variables as PHP sees them, in the order in which they are set.
pub open spec fn seen(vars: Seq<ServerVariable>, interned: Interned) -> Seq<
    (Seq<u8>, PhpValue),
> {
    vars.map_values(|var: ServerVariable| var.seen(interned))
}

/// One variable, if there is a value for it.
pub open spec fn optional(name: Seq<u8>, value: Option<Seq<u8>>) -> Seq<(Seq<u8>, PhpValue)> {
    match value {
        Some(text) => seq![(name, PhpValue::Text(text))],
        None => Seq::empty(),
    }
}

/// The variables that are the same for every request.
pub open spec fn constant_variables(interned: Interned) -> Seq<(Seq<u8>, PhpValue)> {
    seq![
        (utf8("SERVER_SOFTWARE"), PhpValue::Text(utf8("FerrumPHP"))),
        (utf8("GATEWAY_INTERFACE"), PhpValue::Text(utf8("CGI/1.1"))),
        (utf8("SERVER_ADDR"), PhpValue::Text(interned.server_addr_value@)),
        (utf8("SERVER_PORT"), PhpValue::Text(interned.server_port_value@)),
        (utf8("SCRIPT_FILENAME"), PhpValue::Text(interned.script_filename_value@)),
        (utf8("DOCUMENT_ROOT"), PhpValue::Text(interned.document_root_value@)),
        (utf8("SCRIPT_NAME"), PhpValue::Text(interned.script_name_value@)),
    ]
}

/// What the target holds beyond the script's name; the whole target when it does not start
/// with that name.
pub open spec fn path_info(uri: Seq<u8>, script: Seq<u8>) -> Option<Seq<u8>> {
    let rest = match without_prefix(uri, script) {
        Some(rest) => rest,
        None => uri,
    };
    if rest.len() == 0 {
        None
    } else {
        Some(rest)
    }
}

/// The variables on the path: `PATH_INFO` and `PHP_SELF`, or neither.
pub open spec fn path_variables(uri: Seq<u8>, script: Seq<u8>) -> Seq<(Seq<u8>, PhpValue)> {
    match path_info(uri, script) {
        Some(info) => seq![
            (utf8("PATH_INFO"), PhpValue::Text(info)),
            (utf8("PHP_SELF"), PhpValue::Text(script + info)),
        ],
        None => Seq::empty(),
    }
}

/// The text in which a proxy reports the client: the first entry of `x-forwarded-for`.
pub open spec fn forwarded_text(fields: Seq<(Seq<u8>, Seq<u8>)>) -> Option<Seq<u8>> {
    match first_text(fields, utf8("x-forwarded-for")) {
        Some(value) => Some(trimmed(before_first(value, 44))),
        None => None,
    }
}

/// The client address that a proxy reports.
pub open spec fn forwarded_ip(fields: Seq<(Seq<u8>, Seq<u8>)>) -> Option<IpAddr> {
    match forwarded_text(fields) {
        Some(text) => parsed_ip(text),
        None => None,
    }
}

/// The address of the client: the reported one if the peer is trusted to report it.
pub open spec fn client_address(
    peer: IpAddr,
    trusted: bool,
    forwarded: Option<IpAddr>,
) -> IpAddr {
    if trusted && forwarded is Some {
        forwarded->0
    } else {
        peer
    }
}

/// The variables on the client: `REMOTE_ADDR` and `REMOTE_PORT`, or neither.
pub open spec fn remote_variables(
    peer: Option<SocketAddr>,
    fields: Seq<(Seq<u8>, Seq<u8>)>,
    config: Config,
) -> Seq<(Seq<u8>, PhpValue)> {
    match peer {
        Some(remote) => {
            let client = client_address(remote.ip, config.trusts(remote.ip), forwarded_ip(fields));
            seq![
                (utf8("REMOTE_ADDR"), PhpValue::Text(ip_text(client))),
                (utf8("REMOTE_PORT"), PhpValue::Long(remote.port as i64)),
            ]
        },
        None => Seq::empty(),
    }
}

/// The host that the request names, without a port.
pub open spec fn server_name(fields: Seq<(Seq<u8>, Seq<u8>)>) -> Option<Seq<u8>> {
    match first_text(fields, utf8("host")) {
        Some(host) => Some(before_first(host, 58)),
        None => None,
    }
}

/// The name of a protocol version that is known by its number.
pub open spec fn protocol_name(proto_num: i32) -> Seq<u8> {
    if proto_num == 900 {
        utf8("HTTP/0.9")
    } else if proto_num == 1000 {
        utf8("HTTP/1.0")
    } else if proto_num == 2000 {
        utf8("HTTP/2")
    } else if proto_num == 3000 {
        utf8("HTTP/3")
    } else {
        utf8("HTTP/1.1")
    }
}

/// Whether a request header becomes a variable of its own. Headers with an underscore do not:
/// their variable could be taken for that of a header with a hyphen.
pub open spec fn is_exported(name: Seq<u8>) -> bool {
    &&& name != utf8("content-type")
    &&& name != utf8("content-length")
    &&& !name.contains(95)
}

/// The variables for the request headers.
pub open spec fn header_variables(fields: Seq<(Seq<u8>, Seq<u8>)>) -> Seq<(Seq<u8>, PhpValue)>
    decreases fields.len(),
{
    if fields.len() == 0 {
        Seq::empty()
    } else if is_exported(fields.last().0) {
        header_variables(fields.drop_last()).push(
            (header_variable(fields.last().0), PhpValue::Text(fields.last().1)),
        )
    } else {
        header_variables(fields.drop_last())
    }
}

impl<B, H, R> PhpRequestContext<B, H, R> {
    /// The variables that say what was requested.
    pub open spec fn request_variables(self) -> Seq<(Seq<u8>, PhpValue)> {
        seq![
            (utf8("REQUEST_URI"), PhpValue::Text(self.uri@)),
            (utf8("REQUEST_METHOD"), PhpValue::Text(self.method@)),
        ] + optional(utf8("QUERY_STRING"), bytes_of(self.query)) + optional(
            utf8("CONTENT_TYPE"),
            bytes_of(self.content_type),
        ) + (match self.content_length {
            Some(length) => seq![(utf8("CONTENT_LENGTH"), PhpValue::Long(length))],
            None => Seq::empty(),
        }) + optional(utf8("SERVER_NAME"), server_name(header_fields(self.headers))) + seq![
            (utf8("SERVER_PROTOCOL"), PhpValue::Text(protocol_name(self.proto_num))),
        ]
    }

    /// All variables of the request, in the order in which they are set.
    pub open spec fn server_variables(self, interned: Interned, config: Config) -> Seq<
        (Seq<u8>, PhpValue),
    > {
        constant_variables(interned) + path_variables(
            self.uri@,
            script_name(config.entrypoint@),
        ) + remote_variables(self.peer, header_fields(self.headers), config)
            + self.request_variables() + header_variables(header_fields(self.headers))
    }
}

/// Adds a variable with a kept name.
fn set(vars: &mut Vec<ServerVariable>, interned: &Interned, name: InternedName, value: VariableValue)
    ensures
        seen(final(vars)@, *interned) == seen(old(vars)@, *interned).push(
            (interned.text(name), value.seen(*interned)),
        ),
{
    vars.push(ServerVariable { name: VariableName::Interned(name), value });
    assert(seen(vars@, *interned) =~= seen(old(vars)@, *interned).push(
        (interned.text(name), value.seen(*interned)),
    ));
}

/// The first entry of a list of forwarded addresses.
pub fn first_forwarded(value: &[u8]) -> (entry: &[u8])
    ensures
        entry@ == trimmed(before_first(value@, 44)),
{
    trim(cut_before_first(value, 44))
}

/// The address of the client, given what the proxy reports.
pub fn client_ip(peer: IpAddr, trusted: bool, forwarded: Option<IpAddr>) -> (client: IpAddr)
    ensures
        client == client_address(peer, trusted, forwarded),
{
    match forwarded {
        Some(ip) => if trusted {
            ip
        } else {
            peer
        },
        None => peer,
    }
}

/// The name of a protocol version that is known by its number.
fn protocol(proto_num: i32) -> (name: &'static str)
    ensures
        utf8(name) == protocol_name(proto_num),
{
    match proto_num {
        900 => "HTTP/0.9",
        1000 => "HTTP/1.0",
        1100 => "HTTP/1.1",
        2000 => "HTTP/2",
        3000 => "HTTP/3",
        _ => "HTTP/1.1",
    }
}

/// The name of the variable for a request header.
fn header_variable_name(name: &[u8]) -> (variable: Vec<u8>)
    ensures
        variable@ == header_variable(name@),
{
    let mut variable: Vec<u8> = owned("HTTP_");
    let mut i: usize = 0;
    while i < name.len()
        invariant
            i <= name@.len(),
            variable@ == utf8("HTTP_") + name@.take(i as int).map_values(
                |b: u8| variable_byte(b),
            ),
        decreases name@.len() - i,
    {
        let b: u8 = name[i];
        let upper_case: u8 = if b == 45 {
            95
        } else if 97 <= b && b <= 122 {
            b - 32
        } else {
            b
        };
        variable.push(upper_case);
        i = i + 1;
        assert(variable@ =~= utf8("HTTP_") + name@.take(i as int).map_values(
            |b: u8| variable_byte(b),
        ));
    }
    assert(name@.take(i as int) =~= name@);
    variable
}

/// Whether a request header becomes a variable of its own.
fn exports(name: &[u8]) -> (exported: bool)
    ensures
        exported == is_exported(name@),
{
    proof {
        name@.index_of_first_ensures(95u8);
    }
    !is_text(name, "content-type") && !is_text(name, "content-length") && find_first(
        name,
        95,
    ).is_none()
}

impl<B, H, R> PhpRequestContext<B, H, R> {
    /// The client address that the proxy reports in `x-forwarded-for`.
    pub fn forwarded_client_ip(&self) -> (ip: Option<IpAddr>)
        ensures
            ip == forwarded_ip(header_fields(self.headers)),
    {
        match header_text(&self.headers, LookedUp::XForwardedFor) {
            Some(value) => parse_ip(first_forwarded(value)),
            None => None,
        }
    }

    /// Adds `PATH_INFO` and `PHP_SELF`.
    fn register_path_variables(
        &self,
        vars: &mut Vec<ServerVariable>,
        interned: &Interned,
        config: &Config,
    )
        ensures
            seen(final(vars)@, *interned) == seen(old(vars)@, *interned) + path_variables(
                self.uri@,
                script_name(config.entrypoint@),
            ),
    {
        let script: &[u8] = config.script_name();
        let info: &[u8] = match strip_prefix(&self.uri, script) {
            Some(rest) => rest,
            None => &self.uri,
        };
        if info.len() > 0 {
            set(
                vars,
                interned,
                InternedName::PathInfo,
                VariableValue::Text(slice_to_vec(info)),
            );
            let mut php_self: Vec<u8> = slice_to_vec(script);
            append(&mut php_self, info);
            set(vars, interned, InternedName::PhpSelf, VariableValue::Text(php_self));
        }
        assert(seen(vars@, *interned) =~= seen(old(vars)@, *interned) + path_variables(
            self.uri@,
            script_name(config.entrypoint@),
        ));
    }

    /// Adds `REMOTE_ADDR` and `REMOTE_PORT`.
    fn register_remote_variables(
        &self,
        vars: &mut Vec<ServerVariable>,
        interned: &Interned,
        config: &Config,
    )
        ensures
            seen(final(vars)@, *interned) == seen(old(vars)@, *interned) + remote_variables(
                self.peer,
                header_fields(self.headers),
                *config,
            ),
    {
        if let Some(remote) = self.peer {
            let trusted: bool = config.is_trusted_proxy(remote.ip);
            let client: IpAddr = client_ip(remote.ip, trusted, self.forwarded_client_ip());
            set(
                vars,
                interned,
                InternedName::RemoteAddr,
                VariableValue::Text(format_ip(client)),
            );
            set(
                vars,
                interned,
                InternedName::RemotePort,
                VariableValue::Long(remote.port as i64),
            );
        }
        assert(seen(vars@, *interned) =~= seen(old(vars)@, *interned) + remote_variables(
            self.peer,
            header_fields(self.headers),
            *config,
        ));
    }

    /// Adds the variables that are the same for every request.
    fn register_constants(vars: &mut Vec<ServerVariable>, interned: &Interned)
        ensures
            seen(final(vars)@, *interned) == seen(old(vars)@, *interned) + constant_variables(
                *interned,
            ),
    {
        set(
            vars,
            interned,
            InternedName::ServerSoftware,
            VariableValue::Interned(InternedName::Ferrumphp),
        );
        set(
            vars,
            interned,
            InternedName::GatewayInterface,
            VariableValue::Interned(InternedName::Cgi11),
        );
        set(
            vars,
            interned,
            InternedName::ServerAddr,
            VariableValue::Interned(InternedName::ServerAddrValue),
        );
        set(
            vars,
            interned,
            InternedName::ServerPort,
            VariableValue::Interned(InternedName::ServerPortValue),
        );
        set(
            vars,
            interned,
            InternedName::ScriptFilename,
            VariableValue::Interned(InternedName::ScriptFilenameValue),
        );
        set(
            vars,
            interned,
            InternedName::DocumentRoot,
            VariableValue::Interned(InternedName::DocumentRootValue),
        );
        set(
            vars,
            interned,
            InternedName::ScriptName,
            VariableValue::Interned(InternedName::ScriptNameValue),
        );
        assert(seen(vars@, *interned) =~= seen(old(vars)@, *interned) + constant_variables(
            *interned,
        ));
    }

    /// Adds the variables that say what was requested.
    fn register_request_variables(&self, vars: &mut Vec<ServerVariable>, interned: &Interned)
        ensures
            seen(final(vars)@, *interned) == seen(old(vars)@, *interned)
                + self.request_variables(),
    {
        set(
            vars,
            interned,
            InternedName::RequestUri,
            VariableValue::Text(slice_to_vec(&self.uri)),
        );
        set(
            vars,
            interned,
            InternedName::RequestMethod,
            VariableValue::Text(slice_to_vec(&self.method)),
        );
        if let Some(query) = &self.query {
            set(
                vars,
                interned,
                InternedName::QueryString,
                VariableValue::Text(slice_to_vec(query)),
            );
        }
        if let Some(content_type) = &self.content_type {
            set(
                vars,
                interned,
                InternedName::ContentType,
                VariableValue::Text(slice_to_vec(content_type)),
            );
        }
        if let Some(content_length) = self.content_length {
            set(
                vars,
                interned,
                InternedName::ContentLength,
                VariableValue::Long(content_length),
            );
        }
        if let Some(host) = header_text(&self.headers, LookedUp::Host) {
            set(
                vars,
                interned,
                InternedName::ServerName,
                VariableValue::Text(slice_to_vec(cut_before_first(host, 58))),
            );
        }
        set(
            vars,
            interned,
            InternedName::ServerProtocol,
            VariableValue::Text(owned(protocol(self.proto_num))),
        );
        assert(seen(vars@, *interned) =~= seen(old(vars)@, *interned)
            + self.request_variables());
    }

    /// Adds the variables for the request headers.
    fn register_header_variables(&self, vars: &mut Vec<ServerVariable>, interned: &Interned)
        ensures
            seen(final(vars)@, *interned) == seen(old(vars)@, *interned) + header_variables(
                header_fields(self.headers),
            ),
            names_are_lower_case(header_fields(self.headers)),
    {
        let ghost before = seen(vars@, *interned);
        let ghost fields = header_fields(self.headers);
        let list: Vec<(Vec<u8>, Vec<u8>)> = list_headers(&self.headers);
        assert forall|i: int| 0 <= i < fields.len() implies is_lower_case(
            (#[trigger] fields[i]).0,
        ) by {
            assert(is_lower_case(list@[i].0@));
        }
        let mut i: usize = 0;
        assert(seen(vars@, *interned) =~= before + header_variables(fields.take(0)));
        while i < list.len()
            invariant
                i <= list@.len(),
                list@.len() == fields.len(),
                forall|j: int|
                    0 <= j < list@.len() ==> (#[trigger] list@[j]).0@ == fields[j].0
                        && list@[j].1@ == fields[j].1,
                seen(vars@, *interned) == before + header_variables(fields.take(i as int)),
            decreases list@.len() - i,
        {
            let name: &Vec<u8> = &list[i].0;
            let ghost field = fields[i as int];
            assert(fields.take(i + 1).drop_last() =~= fields.take(i as int));
            assert(fields.take(i + 1).last() == field);
            if exports(name) {
                let ghost shown = seen(vars@, *interned);
                let variable: VariableName = match interned.map_header_name(name) {
                    Some(known) => {
                        proof {
                            law_known_headers_follow_the_rule(name@);
                        }
                        VariableName::Interned(known)
                    },
                    None => VariableName::Header(header_variable_name(name)),
                };
                let value: VariableValue = VariableValue::Text(slice_to_vec(&list[i].1));
                assert(variable.seen(*interned) == header_variable(field.0));
                vars.push(ServerVariable { name: variable, value });
                assert(seen(vars@, *interned) =~= shown.push(
                    (header_variable(field.0), PhpValue::Text(field.1)),
                ));
            }
            assert(seen(vars@, *interned) =~= before + header_variables(fields.take(i + 1)));
            i = i + 1;
        }
        assert(fields.take(i as int) =~= fields);
    }

    /// Adds all variables of the request, in the order in which PHP is to set them. The names of
    /// the request headers that they stem from are in lower case.
    pub fn register_server_variables(
        &self,
        vars: &mut Vec<ServerVariable>,
        interned: &Interned,
        config: &Config,
    )
        requires
            config.has_directory(),
        ensures
            seen(final(vars)@, *interned) == seen(old(vars)@, *interned) + self.server_variables(
                *interned,
                *config,
            ),
            names_are_lower_case(header_fields(self.headers)),
    {
        Self::register_constants(vars, interned);
        self.register_path_variables(vars, interned, config);
        self.register_remote_variables(vars, interned, config);
        self.register_request_variables(vars, interned);
        self.register_header_variables(vars, interned);
        assert(seen(vars@, *interned) =~= seen(old(vars)@, *interned) + self.server_variables(
            *interned,
            *config,
        ));
    }
}

/// The table that results from setting variables one after the other.
pub open spec fn table(vars: Seq<(Seq<u8>, PhpValue)>) -> Map<Seq<u8>, PhpValue>
    decreases vars.len(),
{
    if vars.len() == 0 {
        Map::empty()
    } else {
        table(vars.drop_last()).insert(vars.last().0, vars.last().1)
    }
}

/// Whether `name` starts as the variables of request headers do.
pub open spec fn is_header_variable(name: Seq<u8>) -> bool {
    utf8("HTTP_").is_prefix_of(name)
}

/// Every variable that stems from a request header starts with `HTTP_`.
pub proof fn law_header_variables_start_with_http(fields: Seq<(Seq<u8>, Seq<u8>)>, i: int)
    requires
        0 <= i < header_variables(fields).len(),
    ensures
        is_header_variable(header_variables(fields)[i].0),
    decreases fields.len(),
{
    if i < header_variables(fields.drop_last()).len() {
        law_header_variables_start_with_http(fields.drop_last(), i);
    }
}

proof fn lemma_not_a_header_variable(literal: &str)
    requires
        is_ascii_chars(literal@),
        literal@.len() > 0,
        literal@[0] != 'H',
    ensures
        !is_header_variable(utf8(literal)),
{
    reveal_strlit("HTTP_");
    is_ascii_chars_encode_utf8(literal@);
    is_ascii_chars_encode_utf8("HTTP_"@);
    assert(utf8("HTTP_")[0] == 72);
    assert(utf8(literal)[0] == literal@[0] as u8);
    if is_header_variable(utf8(literal)) {
        assert(utf8(literal).take(5)[0] == utf8("HTTP_")[0]);
    }
}

proof fn lemma_constant_names(interned: Interned, i: int)
    requires
        0 <= i < constant_variables(interned).len(),
    ensures
        !is_header_variable(constant_variables(interned)[i].0),
{
    reveal_strlit("SERVER_SOFTWARE");
    reveal_strlit("GATEWAY_INTERFACE");
    reveal_strlit("SERVER_ADDR");
    reveal_strlit("SERVER_PORT");
    reveal_strlit("SCRIPT_FILENAME");
    reveal_strlit("DOCUMENT_ROOT");
    reveal_strlit("SCRIPT_NAME");
    lemma_not_a_header_variable("SERVER_SOFTWARE");
    lemma_not_a_header_variable("GATEWAY_INTERFACE");
    lemma_not_a_header_variable("SERVER_ADDR");
    lemma_not_a_header_variable("SERVER_PORT");
    lemma_not_a_header_variable("SCRIPT_FILENAME");
    lemma_not_a_header_variable("DOCUMENT_ROOT");
    lemma_not_a_header_variable("SCRIPT_NAME");
}

proof fn lemma_path_and_remote_names(
    uri: Seq<u8>,
    script: Seq<u8>,
    peer: Option<SocketAddr>,
    fields: Seq<(Seq<u8>, Seq<u8>)>,
    config: Config,
)
    ensures
        forall|i: int|
            0 <= i < path_variables(uri, script).len() ==> !is_header_variable(
                (#[trigger] path_variables(uri, script)[i]).0,
            ),
        forall|i: int|
            0 <= i < remote_variables(peer, fields, config).len() ==> !is_header_variable(
                (#[trigger] remote_variables(peer, fields, config)[i]).0,
            ),
{
    reveal_strlit("PATH_INFO");
    reveal_strlit("PHP_SELF");
    reveal_strlit("REMOTE_ADDR");
    reveal_strlit("REMOTE_PORT");
    lemma_not_a_header_variable("PATH_INFO");
    lemma_not_a_header_variable("PHP_SELF");
    lemma_not_a_header_variable("REMOTE_ADDR");
    lemma_not_a_header_variable("REMOTE_PORT");
}

proof fn lemma_request_names<B, H, R>(ctx: PhpRequestContext<B, H, R>, i: int)
    requires
        0 <= i < ctx.request_variables().len(),
    ensures
        !is_header_variable(ctx.request_variables()[i].0),
{
    reveal_strlit("REQUEST_URI");
    reveal_strlit("REQUEST_METHOD");
    reveal_strlit("QUERY_STRING");
    reveal_strlit("CONTENT_TYPE");
    reveal_strlit("CONTENT_LENGTH");
    reveal_strlit("SERVER_NAME");
    reveal_strlit("SERVER_PROTOCOL");
    lemma_not_a_header_variable("REQUEST_URI");
    lemma_not_a_header_variable("REQUEST_METHOD");
    lemma_not_a_header_variable("QUERY_STRING");
    lemma_not_a_header_variable("CONTENT_TYPE");
    lemma_not_a_header_variable("CONTENT_LENGTH");
    lemma_not_a_header_variable("SERVER_NAME");
    lemma_not_a_header_variable("SERVER_PROTOCOL");
}

impl<B, H, R> PhpRequestContext<B, H, R> {
    /// The variables that do not stem from request headers one by one.
    pub open spec fn own_variables(self, interned: Interned, config: Config) -> Seq<
        (Seq<u8>, PhpValue),
    > {
        constant_variables(interned) + path_variables(
            self.uri@,
            script_name(config.entrypoint@),
        ) + remote_variables(self.peer, header_fields(self.headers), config)
            + self.request_variables()
    }
}

/// No request header can replace a variable that the server sets on its own account.
pub proof fn law_headers_do_not_replace_own_variables<B, H, R>(
    ctx: PhpRequestContext<B, H, R>,
    interned: Interned,
    config: Config,
    own: int,
    header: int,
)
    requires
        0 <= own < ctx.own_variables(interned, config).len(),
        0 <= header < header_variables(header_fields(ctx.headers)).len(),
    ensures
        ctx.own_variables(interned, config)[own].0 != header_variables(
            header_fields(ctx.headers),
        )[header].0,
{
    let fields = header_fields(ctx.headers);
    let constants = constant_variables(interned);
    let path = path_variables(ctx.uri@, script_name(config.entrypoint@));
    let remote = remote_variables(ctx.peer, fields, config);
    law_header_variables_start_with_http(fields, header);
    lemma_path_and_remote_names(
        ctx.uri@,
        script_name(config.entrypoint@),
        ctx.peer,
        fields,
        config,
    );
    if own < constants.len() {
        lemma_constant_names(interned, own);
    } else if own < constants.len() + path.len() {
        assert(ctx.own_variables(interned, config)[own] == path[own - constants.len()]);
    } else if own < constants.len() + path.len() + remote.len() {
        assert(ctx.own_variables(interned, config)[own] == remote[own - constants.len()
            - path.len()]);
    } else {
        lemma_request_names(ctx, own - constants.len() - path.len() - remote.len());
    }
}

/// Two request headers that become variables never share one: names in lower case without
/// underscores lead to different variables.
pub proof fn law_header_variables_are_distinct(a: Seq<u8>, b: Seq<u8>)
    requires
        is_lower_case(a) && is_exported(a),
        is_lower_case(b) && is_exported(b),
        header_variable(a) == header_variable(b),
    ensures
        a == b,
{
    let start = utf8("HTTP_").len() as int;
    assert(header_variable(a).len() == start + a.len());
    assert(header_variable(b).len() == start + b.len());
    assert forall|i: int| 0 <= i < a.len() implies a[i] == b[i] by {
        assert(header_variable(a)[start + i] == variable_byte(a[i]));
        assert(header_variable(b)[start + i] == variable_byte(b[i]));
        assert(a.contains(a[i]));
        assert(b.contains(b[i]));
    }
    assert(a =~= b);
}

proof fn lemma_table_keeps_other_names(
    before: Seq<(Seq<u8>, PhpValue)>,
    more: Seq<(Seq<u8>, PhpValue)>,
    name: Seq<u8>,
)
    requires
        forall|i: int| 0 <= i < more.len() ==> (#[trigger] more[i]).0 != name,
    ensures
        table(before + more).contains_key(name) == table(before).contains_key(name),
        table(before).contains_key(name) ==> table(before + more)[name] == table(before)[name],
    decreases more.len(),
{
    if more.len() == 0 {
        assert(before + more =~= before);
    } else {
        lemma_table_keeps_other_names(before, more.drop_last(), name);
        assert((before + more).drop_last() =~= before + more.drop_last());
        assert((before + more).last() == more.last());
        assert(more[more.len() - 1].0 != name);
    }
}

/// What PHP sees under a name that does not start with `HTTP_` is what the server set on its
/// own account, whatever headers the request brings.
pub proof fn law_own_variables_are_seen<B, H, R>(
    ctx: PhpRequestContext<B, H, R>,
    interned: Interned,
    config: Config,
    name: Seq<u8>,
)
    requires
        !is_header_variable(name),
    ensures
        ({
            let all = table(ctx.server_variables(interned, config));
            let own = table(ctx.own_variables(interned, config));
            &&& all.contains_key(name) == own.contains_key(name)
            &&& own.contains_key(name) ==> all[name] == own[name]
        }),
{
    let fields = header_fields(ctx.headers);
    let own = ctx.own_variables(interned, config);
    assert forall|i: int| 0 <= i < header_variables(fields).len() implies (
    #[trigger] header_variables(fields)[i]).0 != name by {
        law_header_variables_start_with_http(fields, i);
    }
    lemma_table_keeps_other_names(own, header_variables(fields), name);
    assert(ctx.server_variables(interned, config) =~= own + header_variables(fields));
}

proof fn lemma_later_fields_have_other_variables(
    fields: Seq<(Seq<u8>, Seq<u8>)>,
    at: int,
) -> (count: int)
    requires
        0 <= at < fields.len(),
        is_exported(fields[at].0),
        names_are_lower_case(fields),
        forall|i: int| at < i < fields.len() ==> (#[trigger] fields[i]).0 != fields[at].0,
    ensures
        0 < count <= header_variables(fields).len(),
        header_variables(fields)[count - 1] == (
            header_variable(fields[at].0),
            PhpValue::Text(fields[at].1),
        ),
        forall|i: int|
            count <= i < header_variables(fields).len() ==> (#[trigger] header_variables(
                fields,
            )[i]).0 != header_variable(fields[at].0),
    decreases fields.len(),
{
    if at == fields.len() - 1 {
        header_variables(fields).len() as int
    } else {
        let shorter = fields.drop_last();
        assert forall|i: int| 0 <= i < shorter.len() implies is_lower_case(
            (#[trigger] shorter[i]).0,
        ) by {
            assert(shorter[i] == fields[i]);
        }
        let count = lemma_later_fields_have_other_variables(shorter, at);
        let last = fields[fields.len() - 1];
        if is_exported(last.0) && header_variable(last.0) == header_variable(fields[at].0) {
            law_header_variables_are_distinct(last.0, fields[at].0);
        }
        count
    }
}

/// PHP sees every request header that has no underscore in its name, other than
/// `content-type` and `content-length`; where a header occurs more than once, its last value.
pub proof fn law_last_value_of_a_header_is_seen<B, H, R>(
    ctx: PhpRequestContext<B, H, R>,
    interned: Interned,
    config: Config,
    at: int,
)
    requires
        ({
            let fields = header_fields(ctx.headers);
            &&& 0 <= at < fields.len()
            &&& is_exported(fields[at].0)
            &&& names_are_lower_case(fields)
            &&& forall|i: int| at < i < fields.len() ==> (#[trigger] fields[i]).0 != fields[at].0
        }),
    ensures
        ({
            let field = header_fields(ctx.headers)[at];
            let all = table(ctx.server_variables(interned, config));
            &&& all.contains_key(header_variable(field.0))
            &&& all[header_variable(field.0)] == PhpValue::Text(field.1)
        }),
{
    let fields = header_fields(ctx.headers);
    let own = ctx.own_variables(interned, config);
    let vars = header_variables(fields);
    let name = header_variable(fields[at].0);
    let count = lemma_later_fields_have_other_variables(fields, at);
    let first = own + vars.take(count);
    let more = vars.skip(count);
    assert forall|i: int| 0 <= i < more.len() implies (#[trigger] more[i]).0 != name by {
        assert(more[i] == vars[count + i]);
    }
    lemma_table_keeps_other_names(first, more, name);
    assert(first.last() == vars[count - 1]);
    assert(ctx.server_variables(interned, config) =~= first + more);
}

/// A peer that is not trusted cannot choose the client address that PHP sees: it is the
/// peer's own, whatever the request headers say.
pub proof fn law_untrusted_peer_is_the_client(
    peer: SocketAddr,
    fields: Seq<(Seq<u8>, Seq<u8>)>,
    config: Config,
)
    requires
        !config.trusts(peer.ip),
    ensures
        remote_variables(Some(peer), fields, config) == seq![
            (utf8("REMOTE_ADDR"), PhpValue::Text(ip_text(peer.ip))),
            (utf8("REMOTE_PORT"), PhpValue::Long(peer.port as i64)),
        ],
{
}

/// The address that a trusted proxy reports is the client address that PHP sees, with the
/// proxy's port. Where it reports none, PHP sees the address of the proxy.
pub proof fn law_trusted_proxy_reports_the_client(
    peer: SocketAddr,
    fields: Seq<(Seq<u8>, Seq<u8>)>,
    config: Config,
)
    requires
        config.trusts(peer.ip),
    ensures
        remote_variables(Some(peer), fields, config) == seq![
            (
                utf8("REMOTE_ADDR"),
                PhpValue::Text(
                    ip_text(
                        match forwarded_ip(fields) {
                            Some(client) => client,
                            None => peer.ip,
                        },
                    ),
                ),
            ),
            (utf8("REMOTE_PORT"), PhpValue::Long(peer.port as i64)),
        ],
{
}

/// A target that starts with the script's name and goes on is `PHP_SELF` itself, and its
/// `PATH_INFO` is what follows that name.
pub proof fn law_target_below_the_script_is_php_self(uri: Seq<u8>, script: Seq<u8>)
    requires
        script.is_prefix_of(uri),
        script.len() < uri.len(),
    ensures
        path_variables(uri, script) == seq![
            (utf8("PATH_INFO"), PhpValue::Text(uri.skip(script.len() as int))),
            (utf8("PHP_SELF"), PhpValue::Text(uri)),
        ],
{
    assert(script + uri.skip(script.len() as int) =~= uri);
}

/// What PHP finds under a name when variables were set one after the other.
pub open spec fn found(vars: Seq<(Seq<u8>, PhpValue)>, name: Seq<u8>) -> Option<PhpValue> {
    if table(vars).contains_key(name) {
        Some(table(vars)[name])
    } else {
        None
    }
}

/// PHP finds the value that was set last, or nothing if none was set.
pub proof fn law_last_setting_is_found(vars: Seq<(Seq<u8>, PhpValue)>, name: Seq<u8>, at: int)
    requires
        -1 <= at < vars.len(),
        at >= 0 ==> vars[at].0 == name,
        forall|i: int| at < i < vars.len() ==> (#[trigger] vars[i]).0 != name,
    ensures
        found(vars, name) == if at >= 0 {
            Some(vars[at].1)
        } else {
            None
        },
    decreases vars.len(),
{
    if vars.len() > 0 && at < vars.len() - 1 {
        let last = vars.len() - 1;
        assert(vars[last].0 != name);
        assert forall|i: int| at < i < vars.drop_last().len() implies (
        #[trigger] vars.drop_last()[i]).0 != name by {
            assert(vars.drop_last()[i] == vars[i]);
        }
        law_last_setting_is_found(vars.drop_last(), name, at);
    }
}

proof fn lemma_found_in_either(
    first: Seq<(Seq<u8>, PhpValue)>,
    second: Seq<(Seq<u8>, PhpValue)>,
    name: Seq<u8>,
)
    ensures
        found(second, name) is Some ==> found(first + second, name) == found(second, name),
        found(second, name) is None ==> found(first + second, name) == found(first, name),
    decreases second.len(),
{
    if second.len() == 0 {
        assert(first + second =~= first);
    } else {
        lemma_found_in_either(first, second.drop_last(), name);
        assert((first + second).drop_last() =~= first + second.drop_last());
        assert((first + second).last() == second.last());
    }
}

proof fn lemma_found_nowhere(vars: Seq<(Seq<u8>, PhpValue)>, name: Seq<u8>)
    requires
        forall|i: int| 0 <= i < vars.len() ==> (#[trigger] vars[i]).0 != name,
    ensures
        found(vars, name) is None,
{
    law_last_setting_is_found(vars, name, -1);
}

/// By what the names of the server's own variables differ: length and some bytes.
spec fn mark(name: Seq<u8>) -> (nat, u8, u8, u8) {
    (name.len(), name[0], name[1], name[7])
}

proof fn lemma_mark(literal: &str)
    requires
        is_ascii_chars(literal@),
        literal@.len() > 7,
    ensures
        mark(utf8(literal)) == (
            literal@.len(),
            literal@[0] as u8,
            literal@[1] as u8,
            literal@[7] as u8,
        ),
{
    is_ascii_chars_encode_utf8(literal@);
}

proof fn lemma_marks_part_1()
    ensures
        mark(utf8("SERVER_SOFTWARE")) == (15nat, 83u8, 69u8, 83u8),
        mark(utf8("GATEWAY_INTERFACE")) == (17nat, 71u8, 65u8, 95u8),
        mark(utf8("SERVER_ADDR")) == (11nat, 83u8, 69u8, 65u8),
        mark(utf8("SERVER_PORT")) == (11nat, 83u8, 69u8, 80u8),
        mark(utf8("SCRIPT_FILENAME")) == (15nat, 83u8, 67u8, 70u8),
        mark(utf8("DOCUMENT_ROOT")) == (13nat, 68u8, 79u8, 84u8),
{
    reveal_strlit("SERVER_SOFTWARE");
    lemma_mark("SERVER_SOFTWARE");
    reveal_strlit("GATEWAY_INTERFACE");
    lemma_mark("GATEWAY_INTERFACE");
    reveal_strlit("SERVER_ADDR");
    lemma_mark("SERVER_ADDR");
    reveal_strlit("SERVER_PORT");
    lemma_mark("SERVER_PORT");
    reveal_strlit("SCRIPT_FILENAME");
    lemma_mark("SCRIPT_FILENAME");
    reveal_strlit("DOCUMENT_ROOT");
    lemma_mark("DOCUMENT_ROOT");
}

proof fn lemma_marks_part_2()
    ensures
        mark(utf8("SCRIPT_NAME")) == (11nat, 83u8, 67u8, 78u8),
        mark(utf8("PATH_INFO")) == (9nat, 80u8, 65u8, 70u8),
        mark(utf8("PHP_SELF")) == (8nat, 80u8, 72u8, 70u8),
        mark(utf8("REMOTE_ADDR")) == (11nat, 82u8, 69u8, 65u8),
        mark(utf8("REMOTE_PORT")) == (11nat, 82u8, 69u8, 80u8),
        mark(utf8("REQUEST_URI")) == (11nat, 82u8, 69u8, 95u8),
{
    reveal_strlit("SCRIPT_NAME");
    lemma_mark("SCRIPT_NAME");
    reveal_strlit("PATH_INFO");
    lemma_mark("PATH_INFO");
    reveal_strlit("PHP_SELF");
    lemma_mark("PHP_SELF");
    reveal_strlit("REMOTE_ADDR");
    lemma_mark("REMOTE_ADDR");
    reveal_strlit("REMOTE_PORT");
    lemma_mark("REMOTE_PORT");
    reveal_strlit("REQUEST_URI");
    lemma_mark("REQUEST_URI");
}

proof fn lemma_marks_part_3()
    ensures
        mark(utf8("REQUEST_METHOD")) == (14nat, 82u8, 69u8, 95u8),
        mark(utf8("QUERY_STRING")) == (12nat, 81u8, 85u8, 84u8),
        mark(utf8("CONTENT_TYPE")) == (12nat, 67u8, 79u8, 95u8),
        mark(utf8("CONTENT_LENGTH")) == (14nat, 67u8, 79u8, 95u8),
        mark(utf8("SERVER_NAME")) == (11nat, 83u8, 69u8, 78u8),
        mark(utf8("SERVER_PROTOCOL")) == (15nat, 83u8, 69u8, 80u8),
{
    reveal_strlit("REQUEST_METHOD");
    lemma_mark("REQUEST_METHOD");
    reveal_strlit("QUERY_STRING");
    lemma_mark("QUERY_STRING");
    reveal_strlit("CONTENT_TYPE");
    lemma_mark("CONTENT_TYPE");
    reveal_strlit("CONTENT_LENGTH");
    lemma_mark("CONTENT_LENGTH");
    reveal_strlit("SERVER_NAME");
    lemma_mark("SERVER_NAME");
    reveal_strlit("SERVER_PROTOCOL");
    lemma_mark("SERVER_PROTOCOL");
}

proof fn lemma_marks()
    ensures
        mark(utf8("SERVER_SOFTWARE")) == (15nat, 83u8, 69u8, 83u8),
        mark(utf8("GATEWAY_INTERFACE")) == (17nat, 71u8, 65u8, 95u8),
        mark(utf8("SERVER_ADDR")) == (11nat, 83u8, 69u8, 65u8),
        mark(utf8("SERVER_PORT")) == (11nat, 83u8, 69u8, 80u8),
        mark(utf8("SCRIPT_FILENAME")) == (15nat, 83u8, 67u8, 70u8),
        mark(utf8("DOCUMENT_ROOT")) == (13nat, 68u8, 79u8, 84u8),
        mark(utf8("SCRIPT_NAME")) == (11nat, 83u8, 67u8, 78u8),
        mark(utf8("PATH_INFO")) == (9nat, 80u8, 65u8, 70u8),
        mark(utf8("PHP_SELF")) == (8nat, 80u8, 72u8, 70u8),
        mark(utf8("REMOTE_ADDR")) == (11nat, 82u8, 69u8, 65u8),
        mark(utf8("REMOTE_PORT")) == (11nat, 82u8, 69u8, 80u8),
        mark(utf8("REQUEST_URI")) == (11nat, 82u8, 69u8, 95u8),
        mark(utf8("REQUEST_METHOD")) == (14nat, 82u8, 69u8, 95u8),
        mark(utf8("QUERY_STRING")) == (12nat, 81u8, 85u8, 84u8),
        mark(utf8("CONTENT_TYPE")) == (12nat, 67u8, 79u8, 95u8),
        mark(utf8("CONTENT_LENGTH")) == (14nat, 67u8, 79u8, 95u8),
        mark(utf8("SERVER_NAME")) == (11nat, 83u8, 69u8, 78u8),
        mark(utf8("SERVER_PROTOCOL")) == (15nat, 83u8, 69u8, 80u8),
{
    lemma_marks_part_1();
    lemma_marks_part_2();
    lemma_marks_part_3();
}

proof fn lemma_own_names_are_no_header_variables(name: Seq<u8>)
    requires
        is_own_name(name),
    ensures
        !is_header_variable(name),
{
    lemma_marks();
    reveal_strlit("HTTP_");
    is_ascii_chars_encode_utf8("HTTP_"@);
    if is_header_variable(name) {
        assert(name[0] == utf8("HTTP_")[0]);
    }
}

/// Whether a name is one of those that the server sets on its own account.
pub open spec fn is_own_name(name: Seq<u8>) -> bool {
    ||| name == utf8("SERVER_SOFTWARE")
    ||| name == utf8("GATEWAY_INTERFACE")
    ||| name == utf8("SERVER_ADDR")
    ||| name == utf8("SERVER_PORT")
    ||| name == utf8("SCRIPT_FILENAME")
    ||| name == utf8("DOCUMENT_ROOT")
    ||| name == utf8("SCRIPT_NAME")
    ||| name == utf8("PATH_INFO")
    ||| name == utf8("PHP_SELF")
    ||| name == utf8("REMOTE_ADDR")
    ||| name == utf8("REMOTE_PORT")
    ||| name == utf8("REQUEST_URI")
    ||| name == utf8("REQUEST_METHOD")
    ||| name == utf8("QUERY_STRING")
    ||| name == utf8("CONTENT_TYPE")
    ||| name == utf8("CONTENT_LENGTH")
    ||| name == utf8("SERVER_NAME")
    ||| name == utf8("SERVER_PROTOCOL")
}

proof fn lemma_found_of_constants(interned: Interned, name: Seq<u8>)
    ensures
        ({
            let value = found(constant_variables(interned), name);
            &&& name == utf8("SERVER_SOFTWARE") ==> value == Some(
                PhpValue::Text(utf8("FerrumPHP")),
            )
            &&& name == utf8("GATEWAY_INTERFACE") ==> value == Some(
                PhpValue::Text(utf8("CGI/1.1")),
            )
            &&& name == utf8("SERVER_ADDR") ==> value == Some(
                PhpValue::Text(interned.server_addr_value@),
            )
            &&& name == utf8("SERVER_PORT") ==> value == Some(
                PhpValue::Text(interned.server_port_value@),
            )
            &&& name == utf8("SCRIPT_FILENAME") ==> value == Some(
                PhpValue::Text(interned.script_filename_value@),
            )
            &&& name == utf8("DOCUMENT_ROOT") ==> value == Some(
                PhpValue::Text(interned.document_root_value@),
            )
            &&& name == utf8("SCRIPT_NAME") ==> value == Some(
                PhpValue::Text(interned.script_name_value@),
            )
            &&& value is Some ==> {
                ||| name == utf8("SERVER_SOFTWARE")
                ||| name == utf8("GATEWAY_INTERFACE")
                ||| name == utf8("SERVER_ADDR")
                ||| name == utf8("SERVER_PORT")
                ||| name == utf8("SCRIPT_FILENAME")
                ||| name == utf8("DOCUMENT_ROOT")
                ||| name == utf8("SCRIPT_NAME")
            }
        }),
{
    lemma_marks();
    let vars = constant_variables(interned);
    let at: int = if name == utf8("SERVER_SOFTWARE") {
        0
    } else if name == utf8("GATEWAY_INTERFACE") {
        1
    } else if name == utf8("SERVER_ADDR") {
        2
    } else if name == utf8("SERVER_PORT") {
        3
    } else if name == utf8("SCRIPT_FILENAME") {
        4
    } else if name == utf8("DOCUMENT_ROOT") {
        5
    } else if name == utf8("SCRIPT_NAME") {
        6
    } else {
        -1
    };
    law_last_setting_is_found(vars, name, at);
}

proof fn lemma_found_of_pair(
    first: Seq<u8>,
    second: Seq<u8>,
    a: PhpValue,
    b: PhpValue,
    name: Seq<u8>,
)
    requires
        first != second,
    ensures
        ({
            let value = found(seq![(first, a), (second, b)], name);
            &&& name == first ==> value == Some(a)
            &&& name == second ==> value == Some(b)
            &&& name != first && name != second ==> value is None
        }),
{
    let vars = seq![(first, a), (second, b)];
    let at: int = if name == second {
        1
    } else if name == first {
        0
    } else {
        -1
    };
    law_last_setting_is_found(vars, name, at);
}

proof fn lemma_found_of_one(set: Seq<u8>, value: PhpValue, name: Seq<u8>)
    ensures
        name == set ==> found(seq![(set, value)], name) == Some(value),
        name != set ==> found(seq![(set, value)], name) is None,
        found(Seq::empty(), name) is None,
{
    let vars = seq![(set, value)];
    law_last_setting_is_found(
        vars,
        name,
        if name == set {
            0
        } else {
            -1
        },
    );
    law_last_setting_is_found(Seq::empty(), name, -1);
}

proof fn lemma_found_of_request<B, H, R>(ctx: PhpRequestContext<B, H, R>, name: Seq<u8>)
    ensures
        ({
            let value = found(ctx.request_variables(), name);
            &&& name == utf8("REQUEST_URI") ==> value == Some(PhpValue::Text(ctx.uri@))
            &&& name == utf8("REQUEST_METHOD") ==> value == Some(PhpValue::Text(ctx.method@))
            &&& name == utf8("QUERY_STRING") ==> value == match ctx.query {
                Some(text) => Some(PhpValue::Text(text@)),
                None => None,
            }
            &&& name == utf8("CONTENT_TYPE") ==> value == match ctx.content_type {
                Some(text) => Some(PhpValue::Text(text@)),
                None => None,
            }
            &&& name == utf8("CONTENT_LENGTH") ==> value == match ctx.content_length {
                Some(length) => Some(PhpValue::Long(length)),
                None => None,
            }
            &&& name == utf8("SERVER_NAME") ==> value == match server_name(
                header_fields(ctx.headers),
            ) {
                Some(text) => Some(PhpValue::Text(text)),
                None => None,
            }
            &&& name == utf8("SERVER_PROTOCOL") ==> value == Some(
                PhpValue::Text(protocol_name(ctx.proto_num)),
            )
            &&& value is Some ==> {
                ||| name == utf8("REQUEST_URI")
                ||| name == utf8("REQUEST_METHOD")
                ||| name == utf8("QUERY_STRING")
                ||| name == utf8("CONTENT_TYPE")
                ||| name == utf8("CONTENT_LENGTH")
                ||| name == utf8("SERVER_NAME")
                ||| name == utf8("SERVER_PROTOCOL")
            }
        }),
{
    lemma_marks();
    let host = server_name(header_fields(ctx.headers));
    let a = seq![
        (utf8("REQUEST_URI"), PhpValue::Text(ctx.uri@)),
        (utf8("REQUEST_METHOD"), PhpValue::Text(ctx.method@)),
    ];
    let b = optional(utf8("QUERY_STRING"), bytes_of(ctx.query));
    let c = optional(utf8("CONTENT_TYPE"), bytes_of(ctx.content_type));
    let d = match ctx.content_length {
        Some(length) => seq![(utf8("CONTENT_LENGTH"), PhpValue::Long(length))],
        None => Seq::empty(),
    };
    let e = optional(utf8("SERVER_NAME"), host);
    let f = seq![(utf8("SERVER_PROTOCOL"), PhpValue::Text(protocol_name(ctx.proto_num)))];
    lemma_found_in_either(a + b + c + d + e, f, name);
    lemma_found_in_either(a + b + c + d, e, name);
    lemma_found_in_either(a + b + c, d, name);
    lemma_found_in_either(a + b, c, name);
    lemma_found_in_either(a, b, name);
    lemma_found_of_pair(
        utf8("REQUEST_URI"),
        utf8("REQUEST_METHOD"),
        PhpValue::Text(ctx.uri@),
        PhpValue::Text(ctx.method@),
        name,
    );
    lemma_found_of_one(utf8("QUERY_STRING"), PhpValue::Text(ctx.query->0@), name);
    lemma_found_of_one(utf8("CONTENT_TYPE"), PhpValue::Text(ctx.content_type->0@), name);
    lemma_found_of_one(utf8("CONTENT_LENGTH"), PhpValue::Long(ctx.content_length->0), name);
    lemma_found_of_one(utf8("SERVER_NAME"), PhpValue::Text(host->0), name);
    lemma_found_of_one(
        utf8("SERVER_PROTOCOL"),
        PhpValue::Text(protocol_name(ctx.proto_num)),
        name,
    );
}

proof fn lemma_found_of_path(uri: Seq<u8>, script: Seq<u8>, name: Seq<u8>)
    ensures
        ({
            let value = found(path_variables(uri, script), name);
            let info = path_info(uri, script);
            &&& name == utf8("PATH_INFO") ==> value == match info {
                Some(text) => Some(PhpValue::Text(text)),
                None => None,
            }
            &&& name == utf8("PHP_SELF") ==> value == match info {
                Some(text) => Some(PhpValue::Text(script + text)),
                None => None,
            }
            &&& value is Some ==> name == utf8("PATH_INFO") || name == utf8("PHP_SELF")
        }),
{
    lemma_marks();
    let info = path_info(uri, script)->0;
    lemma_found_of_pair(
        utf8("PATH_INFO"),
        utf8("PHP_SELF"),
        PhpValue::Text(info),
        PhpValue::Text(script + info),
        name,
    );
    lemma_found_nowhere(Seq::empty(), name);
}

proof fn lemma_found_of_remote(
    peer: Option<SocketAddr>,
    fields: Seq<(Seq<u8>, Seq<u8>)>,
    config: Config,
    name: Seq<u8>,
)
    ensures
        ({
            let value = found(remote_variables(peer, fields, config), name);
            &&& name == utf8("REMOTE_ADDR") ==> value == match peer {
                Some(remote) => Some(
                    PhpValue::Text(
                        ip_text(
                            client_address(
                                remote.ip,
                                config.trusts(remote.ip),
                                forwarded_ip(fields),
                            ),
                        ),
                    ),
                ),
                None => None,
            }
            &&& name == utf8("REMOTE_PORT") ==> value == match peer {
                Some(remote) => Some(PhpValue::Long(remote.port as i64)),
                None => None,
            }
            &&& value is Some ==> name == utf8("REMOTE_ADDR") || name == utf8("REMOTE_PORT")
        }),
{
    lemma_marks();
    let remote = peer->0;
    lemma_found_of_pair(
        utf8("REMOTE_ADDR"),
        utf8("REMOTE_PORT"),
        PhpValue::Text(
            ip_text(client_address(remote.ip, config.trusts(remote.ip), forwarded_ip(fields))),
        ),
        PhpValue::Long(remote.port as i64),
        name,
    );
    lemma_found_nowhere(Seq::empty(), name);
}

/// What PHP finds under a name, group by group.
proof fn lemma_found_by_group<B, H, R>(
    ctx: PhpRequestContext<B, H, R>,
    interned: Interned,
    config: Config,
    name: Seq<u8>,
)
    ensures
        ({
            let fields = header_fields(ctx.headers);
            let path = path_variables(ctx.uri@, script_name(config.entrypoint@));
            let remote = remote_variables(ctx.peer, fields, config);
            let value = found(ctx.server_variables(interned, config), name);
            if !is_header_variable(name) {
                if found(ctx.request_variables(), name) is Some {
                    value == found(ctx.request_variables(), name)
                } else if found(remote, name) is Some {
                    value == found(remote, name)
                } else if found(path, name) is Some {
                    value == found(path, name)
                } else {
                    value == found(constant_variables(interned), name)
                }
            } else {
                value == found(header_variables(fields), name)
            }
        }),
{
    let fields = header_fields(ctx.headers);
    let constants = constant_variables(interned);
    let path = path_variables(ctx.uri@, script_name(config.entrypoint@));
    let remote = remote_variables(ctx.peer, fields, config);
    let request = ctx.request_variables();
    let headers = header_variables(fields);
    lemma_found_in_either(constants + path + remote + request, headers, name);
    lemma_found_in_either(constants + path + remote, request, name);
    lemma_found_in_either(constants + path, remote, name);
    lemma_found_in_either(constants, path, name);
    if !is_header_variable(name) {
        assert forall|i: int| 0 <= i < headers.len() implies (#[trigger] headers[i]).0 != name by {
            law_header_variables_start_with_http(fields, i);
        }
        lemma_found_nowhere(headers, name);
    } else {
        lemma_found_of_constants(interned, name);
        lemma_found_of_path(ctx.uri@, script_name(config.entrypoint@), name);
        lemma_found_of_remote(ctx.peer, fields, config, name);
        lemma_found_of_request(ctx, name);
        if is_own_name(name) {
            lemma_own_names_are_no_header_variables(name);
        }
    }
}

proof fn lemma_all_are_shown<B, H, R>(
    ctx: &PhpRequestContext<B, H, R>,
    vars: &mut Vec<ServerVariable>,
    interned: &Interned,
    config: &Config,
    name: Seq<u8>,
)
    requires
        call_ensures(
            PhpRequestContext::<B, H, R>::register_server_variables,
            (ctx, vars, interned, config),
            (),
        ),
        vars@.len() == 0,
    ensures
        seen(final(vars)@, *interned) == ctx.server_variables(*interned, *config),
        is_own_name(name) ==> !is_header_variable(name),
{
    assert(seen(old(vars)@, *interned) =~= Seq::empty());
    assert(seen(final(vars)@, *interned) =~= ctx.server_variables(*interned, *config));
    if is_own_name(name) {
        lemma_own_names_are_no_header_variables(name);
    }
}

/// Variables are added behind those that are there, which stay as they are.
pub proof fn law_variables_are_added<B, H, R>(
    ctx: &PhpRequestContext<B, H, R>,
    vars: &mut Vec<ServerVariable>,
    interned: &Interned,
    config: &Config,
    i: int,
)
    requires
        call_ensures(
            PhpRequestContext::<B, H, R>::register_server_variables,
            (ctx, vars, interned, config),
            (),
        ),
        0 <= i < vars@.len(),
    ensures
        i < final(vars)@.len(),
        final(vars)@[i].seen(*interned) == old(vars)@[i].seen(*interned),
{
    lemma_first_stay(
        old(vars)@,
        final(vars)@,
        *interned,
        ctx.server_variables(*interned, *config),
        i,
    );
}

proof fn lemma_first_stay(
    before: Seq<ServerVariable>,
    after: Seq<ServerVariable>,
    interned: Interned,
    added: Seq<(Seq<u8>, PhpValue)>,
    i: int,
)
    requires
        seen(after, interned) == seen(before, interned) + added,
        0 <= i < before.len(),
    ensures
        i < after.len(),
        after[i].seen(interned) == before[i].seen(interned),
{
    assert(seen(after, interned).len() == after.len());
    assert(seen(after, interned)[i] == seen(before, interned)[i]);
}

/// PHP finds the software and the interface by their names, the address and the port that the
/// server is bound to, and the script with its directory and its name.
pub proof fn law_php_sees_the_settings<B, H, R>(
    ctx: &PhpRequestContext<B, H, R>,
    vars: &mut Vec<ServerVariable>,
    interned: &Interned,
    config: &Config,
    root: &[u8],
    script: &[u8],
    port: Vec<u8>,
)
    requires
        call_ensures(
            PhpRequestContext::<B, H, R>::register_server_variables,
            (ctx, vars, interned, config),
            (),
        ),
        vars@.len() == 0,
        call_ensures(Interned::init, (config,), *interned),
        call_ensures(Config::document_root, (config,), root),
        call_ensures(Config::script_name, (config,), script),
        call_ensures(format_decimal, (config.bind.port,), port),
    ensures
        ({
            let shown = seen(final(vars)@, *interned);
            &&& found(shown, utf8("SERVER_SOFTWARE")) == Some(PhpValue::Text(utf8("FerrumPHP")))
            &&& found(shown, utf8("GATEWAY_INTERFACE")) == Some(PhpValue::Text(utf8("CGI/1.1")))
            &&& found(shown, utf8("SERVER_ADDR")) == Some(PhpValue::Text(ip_text(config.bind.ip)))
            &&& found(shown, utf8("SERVER_PORT")) == Some(PhpValue::Text(port@))
            &&& found(shown, utf8("SCRIPT_FILENAME")) == Some(PhpValue::Text(config.entrypoint@))
            &&& found(shown, utf8("DOCUMENT_ROOT")) == Some(PhpValue::Text(root@))
            &&& found(shown, utf8("SCRIPT_NAME")) == Some(PhpValue::Text(script@))
        }),
{
    let names = seq![
        utf8("SERVER_SOFTWARE"),
        utf8("GATEWAY_INTERFACE"),
        utf8("SERVER_ADDR"),
        utf8("SERVER_PORT"),
        utf8("SCRIPT_FILENAME"),
        utf8("DOCUMENT_ROOT"),
        utf8("SCRIPT_NAME"),
    ];
    lemma_marks();
    assert forall|i: int| 0 <= i < names.len() implies found(
        seen(final(vars)@, *interned),
        #[trigger] names[i],
    ) == found(constant_variables(*interned), names[i]) by {
        lemma_all_are_shown(ctx, vars, interned, config, names[i]);
        lemma_found_by_group(*ctx, *interned, *config, names[i]);
        lemma_found_of_path(ctx.uri@, script_name(config.entrypoint@), names[i]);
        lemma_found_of_remote(ctx.peer, header_fields(ctx.headers), *config, names[i]);
        lemma_found_of_request(*ctx, names[i]);
    }
    lemma_found_of_constants(*interned, names[0]);
    lemma_found_of_constants(*interned, names[1]);
    lemma_found_of_constants(*interned, names[2]);
    lemma_found_of_constants(*interned, names[3]);
    lemma_found_of_constants(*interned, names[4]);
    lemma_found_of_constants(*interned, names[5]);
    lemma_found_of_constants(*interned, names[6]);
}

/// PHP finds the target, the method, the query, the media type and the length of the request as
/// its context holds them, and where that holds none, nothing.
pub proof fn law_php_sees_what_was_requested<B, H, R>(
    ctx: &PhpRequestContext<B, H, R>,
    vars: &mut Vec<ServerVariable>,
    interned: &Interned,
    config: &Config,
)
    requires
        call_ensures(
            PhpRequestContext::<B, H, R>::register_server_variables,
            (ctx, vars, interned, config),
            (),
        ),
        vars@.len() == 0,
    ensures
        ({
            let shown = seen(final(vars)@, *interned);
            &&& found(shown, utf8("REQUEST_URI")) == Some(PhpValue::Text(ctx.uri@))
            &&& found(shown, utf8("REQUEST_METHOD")) == Some(PhpValue::Text(ctx.method@))
            &&& ctx.query is Some ==> found(shown, utf8("QUERY_STRING")) == Some(
                PhpValue::Text(ctx.query->0@),
            )
            &&& ctx.query is None ==> found(shown, utf8("QUERY_STRING")) is None
            &&& ctx.content_type is Some ==> found(shown, utf8("CONTENT_TYPE")) == Some(
                PhpValue::Text(ctx.content_type->0@),
            )
            &&& ctx.content_type is None ==> found(shown, utf8("CONTENT_TYPE")) is None
            &&& ctx.content_length is Some ==> found(shown, utf8("CONTENT_LENGTH")) == Some(
                PhpValue::Long(ctx.content_length->0),
            )
            &&& ctx.content_length is None ==> found(shown, utf8("CONTENT_LENGTH")) is None
        }),
{
    let names = seq![
        utf8("REQUEST_URI"),
        utf8("REQUEST_METHOD"),
        utf8("QUERY_STRING"),
        utf8("CONTENT_TYPE"),
        utf8("CONTENT_LENGTH"),
    ];
    assert forall|i: int| 0 <= i < names.len() implies found(
        seen(final(vars)@, *interned),
        #[trigger] names[i],
    ) == found(ctx.request_variables(), names[i]) by {
        lemma_found_in_request(ctx, vars, interned, config, names[i]);
    }
    lemma_found_of_request(*ctx, names[0]);
    lemma_found_of_request(*ctx, names[1]);
    lemma_found_of_request(*ctx, names[2]);
    lemma_found_of_request(*ctx, names[3]);
    lemma_found_of_request(*ctx, names[4]);
}

proof fn lemma_found_in_request<B, H, R>(
    ctx: &PhpRequestContext<B, H, R>,
    vars: &mut Vec<ServerVariable>,
    interned: &Interned,
    config: &Config,
    name: Seq<u8>,
)
    requires
        call_ensures(
            PhpRequestContext::<B, H, R>::register_server_variables,
            (ctx, vars, interned, config),
            (),
        ),
        vars@.len() == 0,
        name == utf8("REQUEST_URI") || name == utf8("REQUEST_METHOD") || name == utf8(
            "QUERY_STRING",
        ) || name == utf8("CONTENT_TYPE") || name == utf8("CONTENT_LENGTH") || name == utf8(
            "SERVER_NAME",
        ) || name == utf8("SERVER_PROTOCOL"),
    ensures
        found(seen(final(vars)@, *interned), name) == found(ctx.request_variables(), name),
{
    lemma_marks();
    lemma_all_are_shown(ctx, vars, interned, config, name);
    lemma_found_by_group(*ctx, *interned, *config, name);
    lemma_found_of_constants(*interned, name);
    lemma_found_of_path(ctx.uri@, script_name(config.entrypoint@), name);
    lemma_found_of_remote(ctx.peer, header_fields(ctx.headers), *config, name);
}

/// `SERVER_NAME` is set for every request whose first host header is readable as text: to what
/// precedes its first colon, or to all of it when it has none. It is not set for any other.
pub proof fn law_server_name_is_the_host_without_its_port<B, H, R>(
    ctx: &PhpRequestContext<B, H, R>,
    vars: &mut Vec<ServerVariable>,
    interned: &Interned,
    config: &Config,
    before: Seq<(Seq<u8>, Seq<u8>)>,
    value: Seq<u8>,
    after: Seq<(Seq<u8>, Seq<u8>)>,
    host: Seq<u8>,
    rest: Seq<u8>,
)
    requires
        call_ensures(
            PhpRequestContext::<B, H, R>::register_server_variables,
            (ctx, vars, interned, config),
            (),
        ),
        vars@.len() == 0,
        forall|i: int| 0 <= i < before.len() ==> (#[trigger] before[i]).0 != utf8("host"),
        value == host || value == host + seq![58u8] + rest,
        forall|i: int| 0 <= i < host.len() ==> #[trigger] host[i] != 58,
    ensures
        header_fields(ctx.headers) == before + seq![(utf8("host"), value)] + after ==> {
            let readable = forall|i: int|
                0 <= i < value.len() ==> 32 <= #[trigger] value[i] <= 126 || value[i] == 9;
            let name = found(seen(final(vars)@, *interned), utf8("SERVER_NAME"));
            &&& readable ==> name == Some(PhpValue::Text(host))
            &&& !readable ==> name is None
        },
        header_fields(ctx.headers) == before ==> found(
            seen(final(vars)@, *interned),
            utf8("SERVER_NAME"),
        ) is None,
{
    lemma_found_in_request(ctx, vars, interned, config, utf8("SERVER_NAME"));
    lemma_found_of_request(*ctx, utf8("SERVER_NAME"));
    lemma_first_text(before, utf8("host"), value, after);
    law_text_is_cut_at_the_first_separator(host, 58, rest);
}

/// `SERVER_PROTOCOL` names the version of HTTP that the number of the context stands for.
pub proof fn law_server_protocol_names_the_version<B, H, R>(
    ctx: &PhpRequestContext<B, H, R>,
    vars: &mut Vec<ServerVariable>,
    interned: &Interned,
    config: &Config,
)
    requires
        call_ensures(
            PhpRequestContext::<B, H, R>::register_server_variables,
            (ctx, vars, interned, config),
            (),
        ),
        vars@.len() == 0,
    ensures
        found(seen(final(vars)@, *interned), utf8("SERVER_PROTOCOL")) == Some(
            PhpValue::Text(
                match ctx.proto_num {
                    900 => utf8("HTTP/0.9"),
                    1000 => utf8("HTTP/1.0"),
                    2000 => utf8("HTTP/2"),
                    3000 => utf8("HTTP/3"),
                    _ => utf8("HTTP/1.1"),
                },
            ),
        ),
{
    lemma_found_in_request(ctx, vars, interned, config, utf8("SERVER_PROTOCOL"));
    lemma_found_of_request(*ctx, utf8("SERVER_PROTOCOL"));
}

/// For a target that is the script's name and more, `PATH_INFO` is what is more and `PHP_SELF`
/// the target; for the script's name alone, and for an empty target, neither is set; for any
/// other target `PATH_INFO` is the target and `PHP_SELF` the script's name followed by it.
pub proof fn law_path_info_follows_the_script<B, H, R>(
    ctx: &PhpRequestContext<B, H, R>,
    vars: &mut Vec<ServerVariable>,
    interned: &Interned,
    config: &Config,
    script: &[u8],
    rest: Seq<u8>,
)
    requires
        call_ensures(
            PhpRequestContext::<B, H, R>::register_server_variables,
            (ctx, vars, interned, config),
            (),
        ),
        vars@.len() == 0,
        call_ensures(Config::script_name, (config,), script),
    ensures
        ({
            let shown = seen(final(vars)@, *interned);
            let info = found(shown, utf8("PATH_INFO"));
            let own = found(shown, utf8("PHP_SELF"));
            &&& ctx.uri@ == script@ + rest && rest.len() > 0 ==> info == Some(PhpValue::Text(rest))
                && own == Some(PhpValue::Text(ctx.uri@))
            &&& ctx.uri@ == script@ || ctx.uri@.len() == 0 ==> info is None && own is None
            &&& ctx.uri@.len() > 0 && !script@.is_prefix_of(ctx.uri@) ==> info == Some(
                PhpValue::Text(ctx.uri@),
            ) && own == Some(PhpValue::Text(script@ + ctx.uri@))
        }),
{
    lemma_marks();
    let names = seq![utf8("PATH_INFO"), utf8("PHP_SELF")];
    assert forall|i: int| 0 <= i < names.len() implies found(
        seen(final(vars)@, *interned),
        #[trigger] names[i],
    ) == found(path_variables(ctx.uri@, script@), names[i]) by {
        lemma_all_are_shown(ctx, vars, interned, config, names[i]);
        lemma_found_by_group(*ctx, *interned, *config, names[i]);
        lemma_found_of_constants(*interned, names[i]);
        lemma_found_of_remote(ctx.peer, header_fields(ctx.headers), *config, names[i]);
        lemma_found_of_request(*ctx, names[i]);
    }
    lemma_found_of_path(ctx.uri@, script@, names[0]);
    lemma_found_of_path(ctx.uri@, script@, names[1]);
    law_prefix_is_taken_off(ctx.uri@, script@, rest);
    law_prefix_is_taken_off(ctx.uri@, script@, Seq::empty());
    assert(script@ + Seq::<u8>::empty() =~= script@);
    if ctx.uri@.len() == 0 {
        if script@.is_prefix_of(ctx.uri@) {
            assert(ctx.uri@.skip(script@.len() as int) =~= Seq::<u8>::empty());
        }
    }
}

/// `REMOTE_ADDR` is the address that the request came from, unless that is a trusted proxy's and
/// the request names a client: then it is the client's. `REMOTE_PORT` is the port that the
/// request came from. Without an address neither is set.
pub proof fn law_php_sees_the_client<B, H, R>(
    ctx: &PhpRequestContext<B, H, R>,
    vars: &mut Vec<ServerVariable>,
    interned: &Interned,
    config: &Config,
    trusted: bool,
    forwarded: Option<IpAddr>,
)
    requires
        call_ensures(
            PhpRequestContext::<B, H, R>::register_server_variables,
            (ctx, vars, interned, config),
            (),
        ),
        vars@.len() == 0,
        ctx.peer is Some ==> call_ensures(
            Config::is_trusted_proxy,
            (config, ctx.peer->0.ip),
            trusted,
        ),
        call_ensures(PhpRequestContext::<B, H, R>::forwarded_client_ip, (ctx,), forwarded),
    ensures
        ({
            let shown = seen(final(vars)@, *interned);
            let address = found(shown, utf8("REMOTE_ADDR"));
            let port = found(shown, utf8("REMOTE_PORT"));
            &&& ctx.peer is None ==> address is None && port is None
            &&& ctx.peer is Some ==> port == Some(PhpValue::Long(ctx.peer->0.port as i64))
            &&& ctx.peer is Some && trusted && forwarded is Some ==> address == Some(
                PhpValue::Text(ip_text(forwarded->0)),
            )
            &&& ctx.peer is Some && (!trusted || forwarded is None) ==> address == Some(
                PhpValue::Text(ip_text(ctx.peer->0.ip)),
            )
        }),
{
    lemma_marks();
    let names = seq![utf8("REMOTE_ADDR"), utf8("REMOTE_PORT")];
    let remote = remote_variables(ctx.peer, header_fields(ctx.headers), *config);
    assert forall|i: int| 0 <= i < names.len() implies found(
        seen(final(vars)@, *interned),
        #[trigger] names[i],
    ) == found(remote, names[i]) by {
        lemma_all_are_shown(ctx, vars, interned, config, names[i]);
        lemma_found_by_group(*ctx, *interned, *config, names[i]);
        lemma_found_of_constants(*interned, names[i]);
        lemma_found_of_path(ctx.uri@, script_name(config.entrypoint@), names[i]);
        lemma_found_of_request(*ctx, names[i]);
    }
    lemma_found_of_remote(ctx.peer, header_fields(ctx.headers), *config, names[0]);
    lemma_found_of_remote(ctx.peer, header_fields(ctx.headers), *config, names[1]);
}

/// The client that a proxy reports is the first entry of the first `x-forwarded-for` header,
/// without the blanks around it, whatever entries follow. There is none if the header is not
/// readable as text, or is missing.
pub proof fn law_first_forwarded_entry_is_the_client<B, H, R>(
    ctx: &PhpRequestContext<B, H, R>,
    ip: Option<IpAddr>,
    before: Seq<(Seq<u8>, Seq<u8>)>,
    value: Seq<u8>,
    after: Seq<(Seq<u8>, Seq<u8>)>,
    first: Seq<u8>,
    rest: Seq<u8>,
)
    requires
        call_ensures(PhpRequestContext::<B, H, R>::forwarded_client_ip, (ctx,), ip),
        forall|i: int|
            0 <= i < before.len() ==> (#[trigger] before[i]).0 != utf8("x-forwarded-for"),
        value == first || value == first + seq![44u8] + rest,
        forall|i: int| 0 <= i < first.len() ==> #[trigger] first[i] != 44,
    ensures
        header_fields(ctx.headers) == before + seq![(utf8("x-forwarded-for"), value)] + after ==> {
            let readable = forall|i: int|
                0 <= i < value.len() ==> 32 <= #[trigger] value[i] <= 126 || value[i] == 9;
            &&& readable ==> ip == parsed_ip(trimmed(first))
            &&& !readable ==> ip is None
        },
        header_fields(ctx.headers) == before ==> ip is None,
{
    lemma_first_text(before, utf8("x-forwarded-for"), value, after);
    law_text_is_cut_at_the_first_separator(first, 44, rest);
}

/// Of a list of addresses the first entry is taken, without the blanks around it.
pub proof fn law_first_entry_is_taken(
    value: &[u8],
    entry: &[u8],
    start: Seq<u8>,
    kept: Seq<u8>,
    end: Seq<u8>,
    rest: Seq<u8>,
)
    requires
        call_ensures(first_forwarded, (value,), entry),
        forall|i: int| 0 <= i < start.len() ==> #[trigger] start[i] == 32 || start[i] == 9,
        forall|i: int| 0 <= i < end.len() ==> #[trigger] end[i] == 32 || end[i] == 9,
        forall|i: int| 0 <= i < kept.len() ==> #[trigger] kept[i] != 44,
        kept.len() > 0 ==> kept[0] != 32 && kept[0] != 9 && kept.last() != 32 && kept.last() != 9,
        value@ == start + kept + end || value@ == start + kept + end + seq![44u8] + rest,
    ensures
        entry@ == kept,
{
    let first = start + kept + end;
    assert forall|i: int| 0 <= i < first.len() implies #[trigger] first[i] != 44 by {
        if i < start.len() {
            assert(first[i] == start[i]);
        } else if i < start.len() + kept.len() {
            assert(first[i] == kept[i - start.len()]);
        } else {
            assert(first[i] == end[i - start.len() - kept.len()]);
        }
    }
    law_text_is_cut_at_the_first_separator(first, 44, rest);
    law_trimming_takes_blanks_off(start, kept, end);
}

/// The client is the one that is reported if the peer is trusted and reports one, and otherwise
/// the peer.
pub proof fn law_trust_decides_on_the_client(
    peer: IpAddr,
    trusted: bool,
    forwarded: Option<IpAddr>,
    client: IpAddr,
)
    requires
        call_ensures(client_ip, (peer, trusted, forwarded), client),
    ensures
        trusted ==> forwarded is Some ==> client == forwarded->0,
        !trusted ==> client == peer,
        forwarded is None ==> client == peer,
{
}

/// Whether `variable` is `HTTP_` and `name` with capital letters, underscores for hyphens, and
/// all else as it is.
pub open spec fn stands_for(variable: Seq<u8>, name: Seq<u8>) -> bool {
    &&& variable.len() == 5 + name.len()
    &&& variable.take(5) == utf8("HTTP_")
    &&& forall|i: int|
        0 <= i < name.len() ==> {
            &&& name[i] == 45 ==> #[trigger] variable[5 + i] == 95
            &&& 97 <= name[i] <= 122 ==> variable[5 + i] == name[i] - 32
            &&& name[i] != 45 && !(97 <= name[i] <= 122) ==> variable[5 + i] == name[i]
        }
}

proof fn lemma_stands_for(variable: Seq<u8>, name: Seq<u8>)
    ensures
        stands_for(variable, name) <==> variable == header_variable(name),
{
    reveal_strlit("HTTP_");
    is_ascii_chars_encode_utf8("HTTP_"@);
    let made = header_variable(name);
    assert(made.take(5) =~= utf8("HTTP_"));
    assert forall|i: int| 0 <= i < name.len() implies #[trigger] made[5 + i] == variable_byte(
        name[i],
    ) by {}
    assert(stands_for(made, name));
    if stands_for(variable, name) {
        assert forall|i: int| 0 <= i < variable.len() implies variable[i] == made[i] by {
            if i < 5 {
                assert(variable[i] == variable.take(5)[i]);
                assert(made[i] == made.take(5)[i]);
            } else {
                let at = i - 5;
                assert(variable[5 + at] == variable[i]);
                assert(made[5 + at] == made[i]);
            }
        }
        assert(variable =~= made);
    }
}

/// PHP finds every request header by its variable, with the value that came last: all of them
/// but `content-type` and `content-length`, and those with an underscore in their name.
pub proof fn law_headers_become_variables<B, H, R>(
    ctx: &PhpRequestContext<B, H, R>,
    vars: &mut Vec<ServerVariable>,
    interned: &Interned,
    config: &Config,
    at: int,
    variable: Seq<u8>,
)
    requires
        call_ensures(
            PhpRequestContext::<B, H, R>::register_server_variables,
            (ctx, vars, interned, config),
            (),
        ),
        vars@.len() == 0,
        0 <= at < header_fields(ctx.headers).len(),
        stands_for(variable, header_fields(ctx.headers)[at].0),
        header_fields(ctx.headers)[at].0 != utf8("content-type"),
        header_fields(ctx.headers)[at].0 != utf8("content-length"),
        forall|i: int|
            0 <= i < header_fields(ctx.headers)[at].0.len() ==> #[trigger] header_fields(
                ctx.headers,
            )[at].0[i] != 95,
        forall|i: int|
            at < i < header_fields(ctx.headers).len() ==> (#[trigger] header_fields(
                ctx.headers,
            )[i]).0 != header_fields(ctx.headers)[at].0,
    ensures
        found(seen(final(vars)@, *interned), variable) == Some(
            PhpValue::Text(header_fields(ctx.headers)[at].1),
        ),
{
    lemma_all_are_shown(ctx, vars, interned, config, variable);
    lemma_stands_for(variable, header_fields(ctx.headers)[at].0);
    law_last_value_of_a_header_is_seen(*ctx, *interned, *config, at);
}

/// Under a name that starts with `HTTP_` PHP finds nothing but the value of a request header
/// that the name stands for. That header is neither `content-type` nor `content-length`, and
/// has no underscore in its name.
pub proof fn law_header_variables_come_from_headers<B, H, R>(
    ctx: &PhpRequestContext<B, H, R>,
    vars: &mut Vec<ServerVariable>,
    interned: &Interned,
    config: &Config,
    variable: Seq<u8>,
)
    requires
        call_ensures(
            PhpRequestContext::<B, H, R>::register_server_variables,
            (ctx, vars, interned, config),
            (),
        ),
        vars@.len() == 0,
        utf8("HTTP_").is_prefix_of(variable),
        found(seen(final(vars)@, *interned), variable) is Some,
    ensures
        exists|at: int| #[trigger]
            is_source(
                header_fields(ctx.headers),
                at,
                variable,
                found(seen(final(vars)@, *interned), variable)->0,
            ),
{
    lemma_all_are_shown(ctx, vars, interned, config, variable);
    lemma_found_by_group(*ctx, *interned, *config, variable);
    let fields = header_fields(ctx.headers);
    lemma_found_has_a_source(fields, variable);
}

/// Whether a variable stands for the field at `at` and shows its value.
pub open spec fn is_source(
    fields: Seq<(Seq<u8>, Seq<u8>)>,
    at: int,
    variable: Seq<u8>,
    value: PhpValue,
) -> bool {
    &&& 0 <= at < fields.len()
    &&& stands_for(variable, fields[at].0)
    &&& value == PhpValue::Text(fields[at].1)
    &&& fields[at].0 != utf8("content-type")
    &&& fields[at].0 != utf8("content-length")
    &&& !fields[at].0.contains(95)
}

proof fn lemma_found_has_a_source(fields: Seq<(Seq<u8>, Seq<u8>)>, variable: Seq<u8>)
    requires
        found(header_variables(fields), variable) is Some,
    ensures
        exists|at: int| #[trigger]
            is_source(fields, at, variable, found(header_variables(fields), variable)->0),
    decreases fields.len(),
{
    let value = found(header_variables(fields), variable)->0;
    let before = fields.drop_last();
    let last = fields.len() - 1;
    if is_exported(fields.last().0) && header_variable(fields.last().0) == variable {
        lemma_stands_for(variable, fields.last().0);
        assert(header_variables(fields).drop_last() =~= header_variables(before));
        assert(is_source(fields, last, variable, value));
    } else {
        if is_exported(fields.last().0) {
            assert(header_variables(fields).drop_last() =~= header_variables(before));
        }
        lemma_found_has_a_source(before, variable);
        let at = choose|at: int| #[trigger]
            is_source(before, at, variable, found(header_variables(before), variable)->0);
        assert(is_source(fields, at, variable, value));
    }
}

/// PHP finds nothing else: a name under which it finds something starts with `HTTP_` or is one
/// of those that the server sets on its own account.
pub proof fn law_php_sees_nothing_else<B, H, R>(
    ctx: &PhpRequestContext<B, H, R>,
    vars: &mut Vec<ServerVariable>,
    interned: &Interned,
    config: &Config,
    name: Seq<u8>,
)
    requires
        call_ensures(
            PhpRequestContext::<B, H, R>::register_server_variables,
            (ctx, vars, interned, config),
            (),
        ),
        vars@.len() == 0,
        !utf8("HTTP_").is_prefix_of(name),
        !is_own_name(name),
    ensures
        found(seen(final(vars)@, *interned), name) is None,
{
    lemma_all_are_shown(ctx, vars, interned, config, name);
    lemma_found_by_group(*ctx, *interned, *config, name);
    lemma_found_of_constants(*interned, name);
    lemma_found_of_path(ctx.uri@, script_name(config.entrypoint@), name);
    lemma_found_of_remote(ctx.peer, header_fields(ctx.headers), *config, name);
    lemma_found_of_request(*ctx, name);
}

} // verus!
