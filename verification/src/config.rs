//! Service configuration: the listening-socket text and the generator seed,
//! resolved from a JSON document with the fixed defaults, and a verified
//! parser for `a.b.c.d:port` socket text.

use vstd::prelude::*;
use vstd::string::StrSliceExecFns;

verus! {

/// An IPv4 socket address as plain values: four octets and a port.
#[derive(Clone, Copy, PartialEq, Eq, Structural, Debug)]
pub struct SocketSpec {
    pub o1: u8,
    pub o2: u8,
    pub o3: u8,
    pub o4: u8,
    pub port: u16,
}

/// The resolved service configuration.
#[derive(Clone, Copy, PartialEq, Eq, Structural, Debug)]
pub struct Config {
    pub socket: SocketSpec,
    pub seed: u64,
}

/// Why a configuration document was turned away.
#[derive(Clone, Copy, PartialEq, Eq, Structural, Debug)]
pub enum ConfigError {
    /// The document is not JSON.
    BadJson,
    /// The socket field does not parse as an IPv4 socket address.
    BadSocket,
}

pub open spec fn is_digit(c: char) -> bool {
    '0' <= c <= '9'
}

pub open spec fn digit_val(c: char) -> int {
    c as int - '0' as int
}

pub open spec fn all_digits(s: Seq<char>) -> bool {
    forall|j: int| 0 <= j < s.len() ==> is_digit(#[trigger] s[j])
}

/// The value of a decimal digit string.
pub open spec fn dec_value(s: Seq<char>) -> int
    decreases s.len(),
{
    if s.len() == 0 {
        0
    } else {
        dec_value(s.drop_last()) * 10 + digit_val(s.last())
    }
}

pub open spec fn pow10(n: nat) -> int
    decreases n,
{
    if n == 0 {
        1
    } else {
        10 * pow10((n - 1) as nat)
    }
}

/// The first position at or after `i` holding no decimal digit.
pub open spec fn num_end(s: Seq<char>, i: int) -> int
    recommends
        0 <= i <= s.len(),
    decreases s.len() - i,
    when 0 <= i <= s.len()
{
    if i >= s.len() || !is_digit(s[i]) {
        i
    } else {
        num_end(s, i + 1)
    }
}

/// A valid octet text: one to three digits, no leading zero, value at
/// most 255.
pub open spec fn octet_text(s: Seq<char>) -> bool {
    &&& 1 <= s.len() <= 3
    &&& all_digits(s)
    &&& (s.len() == 1 || s[0] != '0')
    &&& dec_value(s) <= 255
}

/// A valid port text: one to five digits, value at most 65535. Unlike an
/// octet, a port tolerates leading zeros.
pub open spec fn port_text(s: Seq<char>) -> bool {
    &&& 1 <= s.len() <= 5
    &&& all_digits(s)
    &&& dec_value(s) <= 65535
}

/// What socket text means: four maximal digit runs joined by dots, a colon,
/// and a digit run reaching the end; each run a valid octet or port text.
pub open spec fn socket_of(s: Seq<char>) -> Option<SocketSpec> {
    let e1 = num_end(s, 0);
    let e2 = num_end(s, e1 + 1);
    let e3 = num_end(s, e2 + 1);
    let e4 = num_end(s, e3 + 1);
    let o1 = s.subrange(0, e1);
    let o2 = s.subrange(e1 + 1, e2);
    let o3 = s.subrange(e2 + 1, e3);
    let o4 = s.subrange(e3 + 1, e4);
    if e1 < s.len() && s[e1] == '.' && e2 < s.len() && s[e2] == '.' && e3 < s.len() && s[e3] == '.'
        && e4 < s.len() && s[e4] == ':' && num_end(s, e4 + 1) == s.len() {
        let p = s.subrange(e4 + 1, s.len() as int);
        if octet_text(o1) && octet_text(o2) && octet_text(o3) && octet_text(o4) && port_text(p) {
            Some(
                SocketSpec {
                    o1: dec_value(o1) as u8,
                    o2: dec_value(o2) as u8,
                    o3: dec_value(o3) as u8,
                    o4: dec_value(o4) as u8,
                    port: dec_value(p) as u16,
                },
            )
        } else {
            None
        }
    } else {
        None
    }
}

proof fn lemma_num_end(s: Seq<char>, i: int)
    requires
        0 <= i <= s.len(),
    ensures
        i <= num_end(s, i) <= s.len(),
        forall|j: int| i <= j < num_end(s, i) ==> is_digit(#[trigger] s[j]),
        num_end(s, i) < s.len() ==> !is_digit(s[num_end(s, i)]),
    decreases s.len() - i,
{
    if i < s.len() && is_digit(s[i]) {
        lemma_num_end(s, i + 1);
    }
}

proof fn lemma_dec_value_bound(s: Seq<char>)
    requires
        all_digits(s),
    ensures
        0 <= dec_value(s) < pow10(s.len()),
    decreases s.len(),
{
    if s.len() > 0 {
        assert(all_digits(s.drop_last()));
        lemma_dec_value_bound(s.drop_last());
    }
}

/// The characters of a string, materialized for indexed scanning.
fn char_seq(s: &str) -> (v: Vec<char>)
    ensures
        v@ == s@,
{
    let n = s.unicode_len();
    let mut v: Vec<char> = Vec::new();
    let mut i: usize = 0;
    while i < n
        invariant
            n == s@.len(),
            i <= n,
            v@ =~= s@.subrange(0, i as int),
        decreases n - i,
    {
        v.push(s.get_char(i));
        assert(v@ =~= s@.subrange(0, i + 1));
        i = i + 1;
    }
    proof {
        assert(v@ =~= s@);
    }
    v
}

/// The first position at or after `start` holding no decimal digit.
fn scan_num_end(v: &Vec<char>, start: usize) -> (e: usize)
    requires
        start <= v@.len(),
    ensures
        e == num_end(v@, start as int),
{
    let mut i: usize = start;
    loop
        invariant
            start <= i <= v@.len(),
            num_end(v@, start as int) == num_end(v@, i as int),
        decreases v@.len() - i,
    {
        if i >= v.len() {
            return i;
        }
        let c = v[i];
        if c < '0' || c > '9' {
            return i;
        }
        i = i + 1;
    }
}

/// The value of the all-digit run `[a, b)`, at most five digits long.
fn dec_value_run(v: &Vec<char>, a: usize, b: usize) -> (val: u32)
    requires
        a <= b <= v@.len(),
        b - a <= 5,
        forall|j: int| a <= j < b ==> is_digit(#[trigger] v@[j]),
    ensures
        val == dec_value(v@.subrange(a as int, b as int)),
        val < pow10((b - a) as nat),
{
    proof {
        lemma_dec_value_bound(v@.subrange(a as int, b as int));
    }
    let mut val: u32 = 0;
    let mut i: usize = a;
    while i < b
        invariant
            a <= i <= b <= v@.len(),
            b - a <= 5,
            forall|j: int| a <= j < b ==> is_digit(#[trigger] v@[j]),
            val == dec_value(v@.subrange(a as int, i as int)),
            val < pow10((i - a) as nat),
        decreases b - i,
    {
        let c = v[i];
        proof {
            assert(v@.subrange(a as int, i + 1).drop_last() =~= v@.subrange(a as int, i as int));
            assert(v@.subrange(a as int, i + 1).last() == v@[i as int]);
            lemma_dec_value_bound(v@.subrange(a as int, i + 1));
            assert(pow10(0nat) == 1);
            assert(pow10(1nat) == 10);
            assert(pow10(2nat) == 100);
            assert(pow10(3nat) == 1000);
            assert(pow10(4nat) == 10000);
            assert(pow10(5nat) == 100000);
            assert(val < 10000);
            assert(is_digit(v@[i as int]));
        }
        val = val * 10 + (c as u32 - '0' as u32);
        i = i + 1;
    }
    val
}

/// Parse socket text of the shape `a.b.c.d:port`; exactly the strings the
/// socket spec accepts are accepted, with the same value.
pub fn parse_socket(s: &str) -> (r: Option<SocketSpec>)
    ensures
        r == socket_of(s@),
{
    let v = char_seq(s);
    let n = v.len();
    proof {
        lemma_num_end(v@, 0);
    }
    let e1 = scan_num_end(&v, 0);
    if e1 >= n || v[e1] != '.' {
        return None;
    }
    proof {
        lemma_num_end(v@, e1 + 1);
    }
    let e2 = scan_num_end(&v, e1 + 1);
    if e2 >= n || v[e2] != '.' {
        return None;
    }
    proof {
        lemma_num_end(v@, e2 + 1);
    }
    let e3 = scan_num_end(&v, e2 + 1);
    if e3 >= n || v[e3] != '.' {
        return None;
    }
    proof {
        lemma_num_end(v@, e3 + 1);
    }
    let e4 = scan_num_end(&v, e3 + 1);
    if e4 >= n || v[e4] != ':' {
        return None;
    }
    proof {
        lemma_num_end(v@, e4 + 1);
    }
    let e5 = scan_num_end(&v, e4 + 1);
    if e5 != n {
        return None;
    }
    let o1 = parse_octet(&v, 0, e1);
    let o2 = parse_octet(&v, e1 + 1, e2);
    let o3 = parse_octet(&v, e2 + 1, e3);
    let o4 = parse_octet(&v, e3 + 1, e4);
    let p = parse_port(&v, e4 + 1, n);
    match (o1, o2, o3, o4, p) {
        (Some(a), Some(b), Some(c), Some(d), Some(port)) => Some(
            SocketSpec { o1: a, o2: b, o3: c, o4: d, port },
        ),
        _ => None,
    }
}

/// Parse the digit run `[a, b)` as an octet.
fn parse_octet(v: &Vec<char>, a: usize, b: usize) -> (r: Option<u8>)
    requires
        a <= b <= v@.len(),
        forall|j: int| a <= j < b ==> is_digit(#[trigger] v@[j]),
    ensures
        r is Some <==> octet_text(v@.subrange(a as int, b as int)),
        (r matches Some(x) ==> x == dec_value(v@.subrange(a as int, b as int))),
{
    if b - a < 1 || b - a > 3 {
        return None;
    }
    if b - a > 1 && v[a] == '0' {
        return None;
    }
    let val = dec_value_run(v, a, b);
    if val > 255 {
        None
    } else {
        Some(val as u8)
    }
}

/// The socket text assumed when the configuration names none.
pub open spec fn default_socket_text() -> Seq<char> {
    "127.0.0.1:8080"@
}

/// What resolving the two recognized configuration fields yields: the named
/// socket text (or the default) must parse, and a missing seed is zero.
pub open spec fn resolve_of(socket_field: Option<Seq<char>>, seed_field: Option<u64>) -> Result<
    Config,
    ConfigError,
> {
    let text = match socket_field {
        Some(t) => t,
        None => default_socket_text(),
    };
    match socket_of(text) {
        Some(socket) => Ok(
            Config {
                socket,
                seed: match seed_field {
                    Some(v) => v,
                    None => 0,
                },
            },
        ),
        None => Err(ConfigError::BadSocket),
    }
}

/// A configuration that names no fields resolves: the default socket text
/// parses to the loopback address with the default port, and the seed is
/// zero.
pub proof fn lemma_default_config_resolves()
    ensures
        resolve_of(None, None) == Ok::<Config, ConfigError>(
            Config { socket: SocketSpec { o1: 127, o2: 0, o3: 0, o4: 1, port: 8080 }, seed: 0 },
        ),
{
    reveal_strlit("127.0.0.1:8080");
    reveal_with_fuel(num_end, 16);
    reveal_with_fuel(dec_value, 6);
    assert(socket_of(default_socket_text()) == Some(
        SocketSpec { o1: 127, o2: 0, o3: 0, o4: 1, port: 8080 },
    ));
}

/// The external JSON document type.
#[verifier::external_type_specification]
#[verifier::external_body]
pub struct ExJsonValue(serde_json::Value);

/// The document a string parses to, where it is JSON at all. Uninterpreted:
/// parsing is deterministic, so the document is a function of the string
/// alone, but the JSON grammar itself is not written out here.
pub uninterp spec fn doc_of(s: Seq<char>) -> Option<serde_json::Value>;

/// The named field of a document, where the document is an object holding
/// it.
pub uninterp spec fn field_of(doc: serde_json::Value, key: Seq<char>) -> Option<serde_json::Value>;

/// The text of a document value, where it is a string.
pub uninterp spec fn str_of(value: serde_json::Value) -> Option<Seq<char>>;

/// The number held by a document value, where it is an unsigned integer.
pub uninterp spec fn u64_of(value: serde_json::Value) -> Option<u64>;

/// Whether a string is a JSON document.
pub open spec fn json_parses(s: Seq<char>) -> bool {
    doc_of(s) is Some
}

/// The socket text a document names, where it has a string `socket` field.
pub open spec fn doc_socket_text(doc: serde_json::Value) -> Option<Seq<char>> {
    match field_of(doc, "socket"@) {
        Some(f) => str_of(f),
        None => None,
    }
}

/// The seed a document names, where it has an unsigned-integer `seed` field.
pub open spec fn doc_seed(doc: serde_json::Value) -> Option<u64> {
    match field_of(doc, "seed"@) {
        Some(f) => u64_of(f),
        None => None,
    }
}

/// Relies on serde_json::from_str for Value: parsing never panics and is
/// deterministic, so the outcome is a function of the string alone.
#[verifier::external_body]
fn parse_json_text(s: &str) -> (r: Option<serde_json::Value>)
    ensures
        r == doc_of(s@),
{
    serde_json::from_str(s).ok()
}

/// Relies on serde_json's Value::get: a deterministic, non-panicking lookup
/// of the named field.
#[verifier::external_body]
fn json_field<'a>(doc: &'a serde_json::Value, key: &str) -> (r: Option<&'a serde_json::Value>)
    ensures
        (match r {
            Some(f) => Some(*f),
            None => None,
        }) == field_of(*doc, key@),
{
    doc.get(key)
}

/// Relies on serde_json's Value::as_str: the value's text exactly when it is
/// a string, deterministically and without panic.
#[verifier::external_body]
fn json_as_str(value: &serde_json::Value) -> (r: Option<String>)
    ensures
        (match r {
            Some(t) => Some(t@),
            None => None,
        }) == str_of(*value),
{
    value.as_str().map(|t| t.to_owned())
}

/// Relies on serde_json's Value::as_u64: the value's number exactly when it
/// is an unsigned integer, deterministically and without panic.
#[verifier::external_body]
fn json_as_u64(value: &serde_json::Value) -> (r: Option<u64>)
    ensures
        r == u64_of(*value),
{
    value.as_u64()
}

impl Config {
    /// Resolve the two recognized fields, already lifted out of their
    /// document: an absent socket text falls back to the default, an absent
    /// seed to zero, and a socket text that does not parse is an error.
    pub fn resolve(socket_field: Option<String>, seed_field: Option<u64>) -> (r: Result<
        Config,
        ConfigError,
    >)
        ensures
            r == resolve_of(
                match socket_field {
                    Some(t) => Some(t@),
                    None => None,
                },
                seed_field,
            ),
    {
        let text: String = match socket_field {
            Some(t) => t,
            None => "127.0.0.1:8080".to_owned(),
        };
        match parse_socket(text.as_str()) {
            Some(socket) => Ok(
                Config {
                    socket,
                    seed: match seed_field {
                        Some(v) => v,
                        None => 0,
                    },
                },
            ),
            None => Err(ConfigError::BadSocket),
        }
    }

    /// Read the recognized fields out of a JSON document and resolve them:
    /// the result is exactly the resolution of the document's `socket` and
    /// `seed` fields.
    pub fn from_json(doc: &serde_json::Value) -> (r: Result<Config, ConfigError>)
        ensures
            r == resolve_of(doc_socket_text(*doc), doc_seed(*doc)),
    {
        let socket_field = match json_field(doc, "socket") {
            Some(f) => json_as_str(f),
            None => None,
        };
        let seed_field = match json_field(doc, "seed") {
            Some(f) => json_as_u64(f),
            None => None,
        };
        Config::resolve(socket_field, seed_field)
    }

    /// Resolve a configuration from JSON text: a string that is not JSON is
    /// an error, and otherwise the parsed document's fields are resolved.
    pub fn from_json_text(text: &str) -> (r: Result<Config, ConfigError>)
        ensures
            !json_parses(text@) ==> r == Err::<Config, ConfigError>(ConfigError::BadJson),
            json_parses(text@) ==> r == resolve_of(
                doc_socket_text(doc_of(text@)->Some_0),
                doc_seed(doc_of(text@)->Some_0),
            ),
    {
        match parse_json_text(text) {
            Some(doc) => Config::from_json(&doc),
            None => Err(ConfigError::BadJson),
        }
    }
}

/// Parse the digit run `[a, b)` as a port.
fn parse_port(v: &Vec<char>, a: usize, b: usize) -> (r: Option<u16>)
    requires
        a <= b <= v@.len(),
        forall|j: int| a <= j < b ==> is_digit(#[trigger] v@[j]),
    ensures
        r is Some <==> port_text(v@.subrange(a as int, b as int)),
        (r matches Some(x) ==> x == dec_value(v@.subrange(a as int, b as int))),
{
    if b - a < 1 || b - a > 5 {
        return None;
    }
    let val = dec_value_run(v, a, b);
    if val > 65535 {
        None
    } else {
        Some(val as u16)
    }
}

} // verus!
