use vstd::prelude::*;

use crate::number::{decimal, lemma_port_round_trip, parse_u16, parse_u16_spec};
use crate::text::{chars_of, string_from_chars, string_from_range};
use ini::Ini;

verus! {

#[verifier::external_type_specification]
#[verifier::external_body]
pub struct ExIni(Ini);

/// What a parsed INI document answers to lookups: for a section name and a
/// key, the value of the first such key in the first section of that name.
pub uninterp spec fn ini_first_values(doc: Ini) -> Map<(Seq<char>, Seq<char>), Seq<char>>;

/// What `ini::Ini::load_from_str` makes of a text: the lookups of the document
/// it builds, or the line, column and message of the syntax error it reports.
pub uninterp spec fn ini_parse(text: Seq<char>) -> Result<
    Map<(Seq<char>, Seq<char>), Seq<char>>,
    (usize, usize, Seq<char>),
>;

/// A syntax error in the configuration text, as the INI reader reports it.
#[derive(Clone, Debug)]
pub struct IniSyntaxError {
    pub line: usize,
    pub column: usize,
    pub message: String,
}

/// Calls `ini::Ini::load_from_str`. Claimed: it succeeds exactly when
/// `ini_parse` of the text is `Ok`; the document it returns answers lookups
/// as that map says; on failure it hands on the line, column and message
/// that `ini_parse` names. The grammar itself is the crate's and is not
/// restated.
#[verifier::external_body]
fn ini_load_from_str(text: &str) -> (res: Result<Ini, IniSyntaxError>)
    ensures
        res is Ok <==> ini_parse(text@) is Ok,
        res matches Ok(doc) ==> ini_first_values(doc) == ini_parse(text@)->Ok_0,
        res matches Err(e) ==> ini_parse(text@)->Err_0 == (e.line, e.column, e.message@),
{
    match Ini::load_from_str(text) {
        Ok(doc) => Ok(doc),
        Err(e) => Err(IniSyntaxError { line: e.line, column: e.col, message: e.msg.to_string() }),
    }
}

/// Calls `ini::Ini::get_from` with a named section. Claimed: it finds a value
/// exactly when the document's lookups hold the section and key, and then
/// returns that value.
#[verifier::external_body]
fn ini_get_from(doc: &Ini, section: &str, key: &str) -> (res: Option<String>)
    ensures
        res is Some <==> ini_first_values(*doc).contains_key((section@, key@)),
        res matches Some(v) ==> v@ == ini_first_values(*doc)[(section@, key@)],
{
    doc.get_from(Some(section), key).map(|v| v.to_string())
}

/// The port the server listens on when the configuration names none.
pub const DEFAULT_PORT: u16 = 49000;

/// The address the server binds to when the configuration names none.
pub open spec fn default_address() -> Seq<char> {
    "127.0.0.1"@
}

/// Where the server listens.
#[derive(Clone, Debug)]
pub struct ServerConfig {
    pub port: u16,
    pub address: String,
}

/// The plugin's configuration.
#[derive(Debug)]
pub struct Config {
    pub server: ServerConfig,
}

/// The value of `key` in section `server` of a configuration's lookups.
pub open spec fn server_setting(entries: Map<(Seq<char>, Seq<char>), Seq<char>>, key: Seq<char>) -> Option<Seq<char>> {
    if entries.contains_key(("server"@, key)) {
        Some(entries[("server"@, key)])
    } else {
        None
    }
}

/// The port a `port` setting gives: its value when it reads as a `u16`,
/// else the default.
pub open spec fn port_from_setting(v: Option<Seq<char>>) -> u16 {
    match v {
        Some(s) => match parse_u16_spec(s) {
            Some(p) => p,
            None => DEFAULT_PORT,
        },
        None => DEFAULT_PORT,
    }
}

/// The address an `address` setting gives: its value, else the default.
pub open spec fn address_from_setting(v: Option<Seq<char>>) -> Seq<char> {
    match v {
        Some(a) => a,
        None => default_address(),
    }
}

/// The port that the lookups of a configuration give.
pub open spec fn configured_port(entries: Map<(Seq<char>, Seq<char>), Seq<char>>) -> u16 {
    port_from_setting(server_setting(entries, "port"@))
}

/// The address that the lookups of a configuration give.
pub open spec fn configured_address(entries: Map<(Seq<char>, Seq<char>), Seq<char>>) -> Seq<char> {
    address_from_setting(server_setting(entries, "address"@))
}

/// `text` without a leading byte-order mark, which the INI file reader skips.
pub open spec fn without_bom(text: Seq<char>) -> Seq<char> {
    if text.len() > 0 && text[0] == '\u{feff}' {
        text.drop_first()
    } else {
        text
    }
}

impl ServerConfig {
    /// The settings used when the configuration says nothing.
    pub fn defaults() -> (c: ServerConfig)
        ensures
            c.port == DEFAULT_PORT,
            c.address@ == default_address(),
    {
        ServerConfig { port: DEFAULT_PORT, address: "127.0.0.1".to_owned() }
    }

    /// The settings given by the values of `port` and `address` in section
    /// `server`, each absent when the configuration does not name it.
    pub fn from_settings(port: Option<String>, address: Option<String>) -> (c: ServerConfig)
        ensures
            c.port == port_from_setting(
                match port {
                    Some(p) => Some(p@),
                    None => None::<Seq<char>>,
                },
            ),
            c.address@ == address_from_setting(
                match address {
                    Some(a) => Some(a@),
                    None => None::<Seq<char>>,
                },
            ),
    {
        let port = match port {
            Some(v) => {
                let cs = chars_of(v.as_str());
                match parse_u16(&cs) {
                    Some(p) => p,
                    None => DEFAULT_PORT,
                }
            },
            None => DEFAULT_PORT,
        };
        let address = match address {
            Some(v) => v,
            None => "127.0.0.1".to_owned(),
        };
        ServerConfig { port, address }
    }
}

impl Config {
    /// Reads the server settings out of a parsed INI document.
    pub fn from_ini(doc: &Ini) -> (c: Config)
        ensures
            c.server.port == configured_port(ini_first_values(*doc)),
            c.server.address@ == configured_address(ini_first_values(*doc)),
    {
        let port = ini_get_from(doc, "server", "port");
        let address = ini_get_from(doc, "server", "address");
        Config { server: ServerConfig::from_settings(port, address) }
    }

    /// Reads the configuration from the text of `config.ini`: a leading
    /// byte-order mark is skipped, the rest is parsed as INI, and the server
    /// settings are taken from it.
    pub fn from_file_contents(text: &str) -> (res: Result<Config, IniSyntaxError>)
        ensures
            res is Ok <==> ini_parse(without_bom(text@)) is Ok,
            res matches Ok(c) ==> {
                &&& c.server.port == configured_port(ini_parse(without_bom(text@))->Ok_0)
                &&& c.server.address@ == configured_address(ini_parse(without_bom(text@))->Ok_0)
            },
            res matches Err(e) ==> ini_parse(without_bom(text@))->Err_0 == (
                e.line,
                e.column,
                e.message@,
            ),
    {
        let cs = chars_of(text);
        let body: String = if cs.len() > 0 && cs[0] == '\u{feff}' {
            string_from_range(cs.as_slice(), 1, cs.len())
        } else {
            string_from_chars(cs.as_slice())
        };
        proof {
            assert(body@ == without_bom(text@));
        }
        match ini_load_from_str(body.as_str()) {
            Ok(doc) => Ok(Config::from_ini(&doc)),
            Err(e) => Err(e),
        }
    }
}

/// The address is the value of `address` in section `server` when that key
/// is present, and the default otherwise, whatever the other keys hold; the
/// port is likewise read from the `port` key alone.
pub proof fn lemma_settings_are_independent(
    e1: Map<(Seq<char>, Seq<char>), Seq<char>>,
    e2: Map<(Seq<char>, Seq<char>), Seq<char>>,
)
    ensures
        e1.contains_key(("server"@, "address"@)) ==> configured_address(e1) == e1[("server"@, "address"@)],
        !e1.contains_key(("server"@, "address"@)) ==> configured_address(e1) == default_address(),
        server_setting(e1, "address"@) == server_setting(e2, "address"@) ==> configured_address(e1) == configured_address(e2),
        server_setting(e1, "port"@) == server_setting(e2, "port"@) ==> configured_port(e1) == configured_port(e2),
        !e1.contains_key(("server"@, "port"@)) ==> configured_port(e1) == DEFAULT_PORT,
{
}

/// A `port` setting that is a port written in decimal gives that port.
pub proof fn lemma_port_setting_reads_back(p: u16)
    ensures
        port_from_setting(Some(decimal(p as nat))) == p,
{
    lemma_port_round_trip(p);
}

} // verus!
