//! Command line settings and the configuration that they are checked into.
use crate::net::{in_network, IpAddr, IpNet, SocketAddr};
use crate::path::{
    extension, is_php_file, law_path_starts_with_its_parent, law_path_with_extension_has_a_parent,
    lemma_extension_follows_the_last_dot, lemma_name_is_taken_off, parent, parent_of,
};
use crate::text::utf8;
use vstd::prelude::*;
use vstd::slice::slice_subrange;
use vstd::string::*;
use vstd::utf8::is_ascii_chars_encode_utf8;

verus! {

/// The directory of a script: the one that its path lies in, or else the path itself.
pub open spec fn document_root(path: Seq<u8>) -> Seq<u8> {
    match parent(path) {
        Some(dir) => dir,
        None => path,
    }
}

/// What the path of a script holds behind its directory.
pub open spec fn script_name(path: Seq<u8>) -> Seq<u8> {
    path.skip(document_root(path).len() as int)
}

/// Settings as given on the command line.
#[derive(Debug)]
pub struct Cli {
    /// Address to bind the HTTP server to.
    pub bind: SocketAddr,
    /// Path of the PHP front controller.
    pub entrypoint: Vec<u8>,
    /// Number of PHP workers.
    pub workers: usize,
    /// Networks whose peers may report a client address.
    pub trusted_proxies: Vec<IpNet>,
}

/// What the file system says of an entrypoint path.
#[derive(Debug)]
pub struct EntrypointProbe {
    /// Whether the path leads to anything.
    pub exists: bool,
    /// Whether it leads to a regular file.
    pub is_file: bool,
    /// The canonical path, if it could be determined.
    pub canonical: Option<Vec<u8>>,
}

/// Checked settings.
#[derive(Debug, Clone)]
pub struct Config {
    /// Address to bind the HTTP server to.
    pub bind: SocketAddr,
    /// Canonical path of the PHP front controller.
    pub entrypoint: Vec<u8>,
    /// Number of PHP workers.
    pub workers: usize,
    /// Networks whose peers may report a client address.
    pub trusted_proxies: Vec<IpNet>,
}

/// Why settings were turned down.
#[derive(Debug, Clone, Copy, PartialEq, Eq, Structural)]
pub enum ConfigError {
    /// No workers were asked for.
    NoWorkers,
    /// The entrypoint path leads nowhere.
    EntrypointMissing,
    /// The entrypoint is not a regular file.
    EntrypointNotFile,
    /// The canonical path of the entrypoint could not be determined.
    EntrypointNotCanonical,
    /// The entrypoint does not have the extension `php`.
    EntrypointNotPhp,
}

/// The first objection to the settings, if there is one.
pub open spec fn objection(workers: usize, found: EntrypointProbe) -> Option<ConfigError> {
    if workers == 0 {
        Some(ConfigError::NoWorkers)
    } else if !found.exists {
        Some(ConfigError::EntrypointMissing)
    } else if !found.is_file {
        Some(ConfigError::EntrypointNotFile)
    } else if found.canonical is None {
        Some(ConfigError::EntrypointNotCanonical)
    } else if extension(found.canonical->0@) != Some(utf8("php")) {
        Some(ConfigError::EntrypointNotPhp)
    } else {
        None
    }
}

impl ConfigError {
    /// The message for an error, up to the path that it may end with.
    pub open spec fn prefix(self) -> Seq<char> {
        match self {
            ConfigError::NoWorkers => "workers must be greater than zero"@,
            ConfigError::EntrypointMissing => "entrypoint does not exist: "@,
            ConfigError::EntrypointNotFile => "entrypoint is not a file: "@,
            ConfigError::EntrypointNotCanonical => "failed to canonicalize entrypoint path"@,
            ConfigError::EntrypointNotPhp => "entrypoint must be a PHP file: "@,
        }
    }

    /// Whether the message ends with the path of the entrypoint.
    pub open spec fn names_path(self) -> bool {
        ||| self is EntrypointMissing
        ||| self is EntrypointNotFile
        ||| self is EntrypointNotPhp
    }

    /// The message for an error with the entrypoint at `path`.
    pub fn message(&self, path: &str) -> (text: String)
        ensures
            text@ == self.prefix() + (if self.names_path() {
                path@
            } else {
                Seq::empty()
            }),
    {
        let (prefix, tail): (&str, &str) = match self {
            ConfigError::NoWorkers => ("workers must be greater than zero", ""),
            ConfigError::EntrypointMissing => ("entrypoint does not exist: ", path),
            ConfigError::EntrypointNotFile => ("entrypoint is not a file: ", path),
            ConfigError::EntrypointNotCanonical => ("failed to canonicalize entrypoint path", ""),
            ConfigError::EntrypointNotPhp => ("entrypoint must be a PHP file: ", path),
        };
        proof {
            reveal_strlit("");
            assert(""@ =~= Seq::<char>::empty());
        }
        let mut text: String = String::from_str(prefix);
        text.append(tail);
        text
    }
}

impl Config {
    /// Whether some trusted network holds `ip`.
    pub open spec fn trusts(self, ip: IpAddr) -> bool {
        exists|i: int|
            0 <= i < self.trusted_proxies@.len() && (#[trigger] self.trusted_proxies@[i]).holds(ip)
    }

    /// Whether `peer_ip` belongs to a trusted proxy.
    pub fn is_trusted_proxy(&self, peer_ip: IpAddr) -> (trusted: bool)
        ensures
            trusted == self.trusts(peer_ip),
    {
        let mut i: usize = 0;
        while i < self.trusted_proxies.len()
            invariant
                i <= self.trusted_proxies@.len(),
                forall|j: int| 0 <= j < i ==> !(#[trigger] self.trusted_proxies@[j]).holds(peer_ip),
            decreases self.trusted_proxies@.len() - i,
        {
            if self.trusted_proxies[i].contains(peer_ip) {
                return true;
            }
            i = i + 1;
        }
        false
    }

    /// Whether the front controller lies in a directory.
    pub open spec fn has_directory(self) -> bool {
        parent(self.entrypoint@) is Some
    }

    /// The directory of the front controller.
    pub fn document_root(&self) -> (dir: &[u8])
        ensures
            dir@ == document_root(self.entrypoint@),
    {
        match parent_of(&self.entrypoint) {
            Some(dir) => dir,
            None => &self.entrypoint,
        }
    }

    /// The front controller's path below the document root.
    pub fn script_name(&self) -> (name: &[u8])
        ensures
            name@ == script_name(self.entrypoint@),
    {
        let root: usize = self.document_root().len();
        proof {
            lemma_root_is_prefix(self.entrypoint@);
        }
        slice_subrange(&self.entrypoint, root, self.entrypoint.len())
    }
}

proof fn lemma_root_is_prefix(path: Seq<u8>)
    ensures
        document_root(path).is_prefix_of(path),
{
    if parent(path) is Some {
        law_path_starts_with_its_parent(path);
    }
}

impl Cli {
    /// Checks the settings against what was found at the entrypoint path.
    pub fn validate(self, found: EntrypointProbe) -> (config: Result<Config, ConfigError>)
        ensures
            match objection(self.workers, found) {
                Some(error) => config == Err::<Config, ConfigError>(error),
                None => config matches Ok(c) && c.bind == self.bind && c.entrypoint
                    == found.canonical->0 && c.workers == self.workers && c.trusted_proxies
                    == self.trusted_proxies && c.has_directory(),
            },
    {
        if self.workers == 0 {
            return Err(ConfigError::NoWorkers);
        }
        if !found.exists {
            return Err(ConfigError::EntrypointMissing);
        }
        if !found.is_file {
            return Err(ConfigError::EntrypointNotFile);
        }
        let entrypoint: Vec<u8> = match found.canonical {
            Some(path) => path,
            None => return Err(ConfigError::EntrypointNotCanonical),
        };
        if !is_php_file(&entrypoint) {
            return Err(ConfigError::EntrypointNotPhp);
        }
        proof {
            law_path_with_extension_has_a_parent(entrypoint@);
        }
        Ok(
            Config {
                bind: self.bind,
                entrypoint,
                workers: self.workers,
                trusted_proxies: self.trusted_proxies,
            },
        )
    }
}

/// Without trusted networks nobody is a trusted proxy.
pub proof fn law_no_networks_no_trust(config: Config, ip: IpAddr)
    requires
        config.trusted_proxies@.len() == 0,
    ensures
        !config.trusts(ip),
{
}

/// Adding a network never takes trust away, and gives it to that network's addresses alone.
pub proof fn law_another_network_adds_its_addresses(config: Config, wider: Config, ip: IpAddr)
    requires
        wider.trusted_proxies@.len() == config.trusted_proxies@.len() + 1,
        wider.trusted_proxies@.drop_last() == config.trusted_proxies@,
    ensures
        wider.trusts(ip) <==> config.trusts(ip) || wider.trusted_proxies@.last().holds(ip),
{
    let last = config.trusted_proxies@.len() as int;
    assert forall|i: int| 0 <= i < last implies wider.trusted_proxies@[i]
        == config.trusted_proxies@[i] by {
        assert(wider.trusted_proxies@.drop_last()[i] == wider.trusted_proxies@[i]);
    }
    if config.trusts(ip) {
        let i = choose|i: int|
            0 <= i < last && (#[trigger] config.trusted_proxies@[i]).holds(ip);
        assert(wider.trusted_proxies@[i].holds(ip));
    }
    if wider.trusts(ip) && !wider.trusted_proxies@.last().holds(ip) {
        let i = choose|i: int|
            0 <= i < last + 1 && (#[trigger] wider.trusted_proxies@[i]).holds(ip);
        assert(config.trusted_proxies@[i].holds(ip));
    }
}

/// The document root and the script's name together are the path of the script.
pub proof fn law_root_and_script_name_make_the_path(path: Seq<u8>)
    ensures
        document_root(path) + script_name(path) == path,
{
    lemma_root_is_prefix(path);
    assert(document_root(path) + script_name(path) =~= path);
}

/// Accepted settings have a worker and a front controller with the extension `php`, which lies
/// in a directory.
pub proof fn law_accepted_settings_are_usable(workers: usize, found: EntrypointProbe)
    requires
        objection(workers, found) is None,
    ensures
        workers > 0,
        found.exists && found.is_file,
        found.canonical matches Some(path) && extension(path@) == Some(utf8("php")) && parent(
            path@,
        ) is Some,
{
    law_path_with_extension_has_a_parent(found.canonical->0@);
}

/// Settings that ask for a worker and name an existing file whose canonical path has the
/// extension `php` are accepted as they are. Of any others the first thing that is wrong is
/// objected to, each objection exactly when its ground holds and none before it does.
pub proof fn law_usable_settings_are_accepted(
    cli: Cli,
    found: EntrypointProbe,
    config: Result<Config, ConfigError>,
)
    requires
        call_ensures(Cli::validate, (cli, found), config),
    ensures
        ({
            let php = found.canonical is Some && extension(found.canonical->0@) == Some(
                utf8("php"),
            );
            &&& config is Ok <==> cli.workers > 0 && found.exists && found.is_file && php
            &&& config == Err::<Config, ConfigError>(ConfigError::NoWorkers) <==> cli.workers == 0
            &&& config == Err::<Config, ConfigError>(ConfigError::EntrypointMissing)
                <==> cli.workers > 0 && !found.exists
            &&& config == Err::<Config, ConfigError>(ConfigError::EntrypointNotFile)
                <==> cli.workers > 0 && found.exists && !found.is_file
            &&& config == Err::<Config, ConfigError>(ConfigError::EntrypointNotCanonical)
                <==> cli.workers > 0 && found.exists && found.is_file && found.canonical is None
            &&& config == Err::<Config, ConfigError>(ConfigError::EntrypointNotPhp)
                <==> cli.workers > 0 && found.exists && found.is_file && found.canonical is Some
                && !php
            &&& config matches Ok(checked) ==> {
                &&& checked.workers == cli.workers
                &&& checked.bind == cli.bind
                &&& checked.trusted_proxies == cli.trusted_proxies
                &&& Some(checked.entrypoint) == found.canonical
            }
        }),
{
}

/// A front controller called `stem.php` is accepted, in whatever directory.
pub proof fn law_php_front_controller_is_accepted(
    cli: Cli,
    found: EntrypointProbe,
    config: Result<Config, ConfigError>,
    dir: Seq<u8>,
    stem: Seq<u8>,
)
    requires
        call_ensures(Cli::validate, (cli, found), config),
        cli.workers > 0,
        found.exists,
        found.is_file,
        found.canonical is Some,
        found.canonical->0@ == dir + seq![47u8] + stem + seq![46u8] + utf8("php"),
        stem.len() > 0,
        forall|i: int| 0 <= i < stem.len() ==> #[trigger] stem[i] != 47,
    ensures
        config is Ok,
{
    reveal_strlit("php");
    is_ascii_chars_encode_utf8("php"@);
    let path = found.canonical->0@;
    lemma_extension_follows_the_last_dot(dir + seq![47u8], stem, utf8("php"));
    assert(path =~= dir + seq![47u8] + stem + seq![46u8] + utf8("php"));
}

/// The peers that are trusted are those that lie in one of the networks, in whichever.
pub proof fn law_some_network_holds_a_trusted_peer(config: &Config, ip: IpAddr, trusted: bool)
    requires
        call_ensures(Config::is_trusted_proxy, (config, ip), trusted),
    ensures
        trusted <==> exists|i: int|
            0 <= i < config.trusted_proxies@.len() && in_network(
                (#[trigger] config.trusted_proxies@[i]).addr(),
                config.trusted_proxies@[i].prefix_len(),
                ip,
            ),
{
    if trusted {
        let i = choose|i: int|
            0 <= i < config.trusted_proxies@.len() && (#[trigger] config.trusted_proxies@[i]).holds(
                ip,
            );
        assert(in_network(
            config.trusted_proxies@[i].addr(),
            config.trusted_proxies@[i].prefix_len(),
            ip,
        ));
    } else {
        assert forall|i: int| 0 <= i < config.trusted_proxies@.len() implies !in_network(
            (#[trigger] config.trusted_proxies@[i]).addr(),
            config.trusted_proxies@[i].prefix_len(),
            ip,
        ) by {
            assert(!config.trusted_proxies@[i].holds(ip));
        }
    }
}

/// The document root of `dir/name` is `dir` and the script's name is `/name`; below the root
/// directory the script's name has no slash. Either way the two make the path.
pub proof fn law_script_is_split_at_its_directory(
    config: &Config,
    root: &[u8],
    script: &[u8],
    dir: Seq<u8>,
    name: Seq<u8>,
)
    requires
        call_ensures(Config::document_root, (config,), root),
        call_ensures(Config::script_name, (config,), script),
        config.entrypoint@ == dir + seq![47u8] + name,
        name.len() > 0,
        name != seq![46u8],
        forall|i: int| 0 <= i < name.len() ==> #[trigger] name[i] != 47,
        dir.len() > 0 ==> dir.last() != 47 && dir.last() != 46,
    ensures
        root@ + script@ == config.entrypoint@,
        dir.len() > 0 ==> root@ == dir && script@ == seq![47u8] + name,
        dir.len() == 0 ==> root@ == seq![47u8] && script@ == name,
{
    lemma_split_at_the_directory(dir, name);
}

proof fn lemma_split_at_the_directory(dir: Seq<u8>, name: Seq<u8>)
    requires
        name.len() > 0,
        name != seq![46u8],
        forall|i: int| 0 <= i < name.len() ==> #[trigger] name[i] != 47,
        dir.len() > 0 ==> dir.last() != 47 && dir.last() != 46,
    ensures
        ({
            let path = dir + seq![47u8] + name;
            &&& document_root(path) + script_name(path) == path
            &&& dir.len() > 0 ==> document_root(path) == dir && script_name(path) == seq![47u8]
                + name
            &&& dir.len() == 0 ==> document_root(path) == seq![47u8] && script_name(path) == name
        }),
{
    let path = dir + seq![47u8] + name;
    law_root_and_script_name_make_the_path(path);
    lemma_name_is_taken_off(dir, name);
    if dir.len() > 0 {
        assert(path.skip(dir.len() as int) =~= seq![47u8] + name);
    } else {
        assert(path.skip(1) =~= name);
    }
}

/// What is wrong with the settings is said in words, with the path where a path is to blame.
pub proof fn law_objections_are_put_into_words(error: &ConfigError, path: &str, text: String)
    requires
        call_ensures(ConfigError::message, (error, path), text),
    ensures
        *error is NoWorkers ==> text@ == "workers must be greater than zero"@,
        *error is EntrypointMissing ==> text@ == "entrypoint does not exist: "@ + path@,
        *error is EntrypointNotFile ==> text@ == "entrypoint is not a file: "@ + path@,
        *error is EntrypointNotCanonical ==> text@ == "failed to canonicalize entrypoint path"@,
        *error is EntrypointNotPhp ==> text@ == "entrypoint must be a PHP file: "@ + path@,
{
    if *error is NoWorkers {
        assert(text@ =~= "workers must be greater than zero"@);
    }
    if *error is EntrypointNotCanonical {
        assert(text@ =~= "failed to canonicalize entrypoint path"@);
    }
}

} // verus!
