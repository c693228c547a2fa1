//! The node's settings, read from environment variables, and its randomised
//! internal endpoints.
use vstd::prelude::*;
use crate::config::InternalConfig;
use crate::text::{chars_of, concat, str_eq, string_from_chars, views};

verus! {

// ----- integers and flags ------------------------------------------------------

/// Why a text is not a `u16` (std's `IntErrorKind`).
#[derive(Debug, Clone, Copy, PartialEq, Eq, Structural)]
pub enum IntError {
    Empty,
    InvalidDigit,
    PosOverflow,
}

pub open spec fn is_digit(c: char) -> bool {
    '0' <= c && c <= '9'
}

/// Reads decimal digits left to right: the first non-digit, or the first
/// digit that takes the value past 65535, decides the error.
pub open spec fn scan_u16(s: Seq<char>) -> Result<int, IntError>
    decreases s.len(),
{
    if s.len() == 0 {
        Ok(0)
    } else {
        match scan_u16(s.drop_last()) {
            Err(e) => Err(e),
            Ok(v) => if !is_digit(s.last()) {
                Err(IntError::InvalidDigit)
            } else if v * 10 + (s.last() as int - '0' as int) > 65535 {
                Err(IntError::PosOverflow)
            } else {
                Ok(v * 10 + (s.last() as int - '0' as int))
            },
        }
    }
}

/// `s.parse::<u16>()`: an optional `+`, then decimal digits.
pub open spec fn parse_u16_spec(s: Seq<char>) -> Result<u16, IntError> {
    if s.len() == 0 {
        Err(IntError::Empty)
    } else {
        let digits = if s[0] == '+' { s.skip(1) } else { s };
        if digits.len() == 0 {
            Err(IntError::InvalidDigit)
        } else {
            match scan_u16(digits) {
                Ok(v) => Ok(v as u16),
                Err(e) => Err(e),
            }
        }
    }
}

proof fn lemma_scan_bounded(s: Seq<char>)
    ensures
        scan_u16(s) matches Ok(v) ==> 0 <= v <= 65535,
    decreases s.len(),
{
    if s.len() > 0 {
        lemma_scan_bounded(s.drop_last());
    }
}

/// Parses a `u16` as std's `str::parse` does.
pub fn parse_u16(s: &str) -> (r: Result<u16, IntError>)
    ensures
        r == parse_u16_spec(s@),
{
    let cs = chars_of(s);
    if cs.len() == 0 {
        return Err(IntError::Empty);
    }
    let start: usize = if cs[0] == '+' { 1 } else { 0 };
    if start == cs.len() {
        return Err(IntError::InvalidDigit);
    }
    let ghost digits = if s@[0] == '+' { s@.skip(1) } else { s@ };
    assert(digits =~= cs@.skip(start as int));
    let mut v: u32 = 0;
    let mut i: usize = start;
    assert(cs@.skip(start as int).take(0) =~= Seq::<char>::empty());
    while i < cs.len()
        invariant
            start <= i <= cs@.len(),
            cs@ == s@,
            s@.len() > 0,
            start < cs@.len(),
            digits == (if s@[0] == '+' { s@.skip(1) } else { s@ }),
            digits == cs@.skip(start as int),
            scan_u16(digits.take(i - start)) == Ok::<int, IntError>(v as int),
            v <= 65535,
        decreases cs.len() - i,
    {
        let c = cs[i];
        assert(digits.take(i - start + 1).drop_last() =~= digits.take(i - start));
        assert(digits.take(i - start + 1).last() == c);
        if !(c >= '0' && c <= '9') {
            proof { lemma_scan_prefix_err(digits, (i - start + 1) as int, IntError::InvalidDigit); }
            return Err(IntError::InvalidDigit);
        }
        let d = (c as u32) - ('0' as u32);
        if v * 10 + d > 65535 {
            proof { lemma_scan_prefix_err(digits, (i - start + 1) as int, IntError::PosOverflow); }
            return Err(IntError::PosOverflow);
        }
        v = v * 10 + d;
        i += 1;
    }
    assert(digits.take(cs.len() - start) =~= digits);
    Ok(v as u16)
}

/// Once a prefix fails, the whole text fails the same way.
proof fn lemma_scan_prefix_err(s: Seq<char>, n: int, e: IntError)
    requires
        0 <= n <= s.len(),
        scan_u16(s.take(n)) == Err::<int, IntError>(e),
    ensures
        scan_u16(s) == Err::<int, IntError>(e),
    decreases s.len() - n,
{
    if n < s.len() {
        assert(s.take(n + 1).drop_last() =~= s.take(n));
        lemma_scan_prefix_err(s, n + 1, e);
    } else {
        assert(s.take(n) =~= s);
    }
}

/// The text of std's `ParseIntError` for each kind.
pub open spec fn int_error_text(e: IntError) -> Seq<char> {
    match e {
        IntError::Empty => "cannot parse integer from empty string"@,
        IntError::InvalidDigit => "invalid digit found in string"@,
        IntError::PosOverflow => "number too large to fit in target type"@,
    }
}

pub fn int_error_message(e: &IntError) -> (r: &'static str)
    ensures
        r@ == int_error_text(*e),
{
    match e {
        IntError::Empty => "cannot parse integer from empty string",
        IntError::InvalidDigit => "invalid digit found in string",
        IntError::PosOverflow => "number too large to fit in target type",
    }
}

/// The port setting `name`: its value or `default`, parsed as a `u16`; the
/// error reads `Invalid <name>: <reason>`.
pub open spec fn port_setting(name: Seq<char>, value: Option<Seq<char>>, default: Seq<char>) -> Result<u16, Seq<char>> {
    let text = match value {
        Some(v) => v,
        None => default,
    };
    match parse_u16_spec(text) {
        Ok(p) => Ok(p),
        Err(e) => Err("Invalid "@ + name + ": "@ + int_error_text(e)),
    }
}

pub fn parse_port(name: &str, value: Option<&str>, default: &str) -> (r: Result<u16, String>)
    ensures
        match port_setting(name@, match value { Some(v) => Some(v@), None => None }, default@) {
            Ok(p) => r matches Ok(q) && q == p,
            Err(m) => r matches Err(e) && e@ == m,
        },
{
    let text = match value {
        Some(v) => v,
        None => default,
    };
    match parse_u16(text) {
        Ok(p) => Ok(p),
        Err(e) => Err(concat(concat(concat("Invalid ", name).as_str(), ": ").as_str(), int_error_message(&e))),
    }
}

/// `s.parse::<bool>().unwrap_or(false)`: only `true` gives true.
pub fn parse_flag(s: &str) -> (r: bool)
    ensures
        r == (s@ == "true"@),
{
    str_eq(s, "true")
}

// ----- panel addresses -----------------------------------------------------------

/// `char::is_whitespace`: the Unicode White_Space characters.
pub open spec fn is_white(c: char) -> bool {
    let u = c as u32;
    (0x09 <= u && u <= 0x0d) || u == 0x20 || u == 0x85 || u == 0xa0 || u == 0x1680 || (0x2000 <= u && u
        <= 0x200a) || u == 0x2028 || u == 0x2029 || u == 0x202f || u == 0x205f || u == 0x3000
}

fn white(c: char) -> (r: bool)
    ensures
        r == is_white(c),
{
    let u = c as u32;
    (0x09 <= u && u <= 0x0d) || u == 0x20 || u == 0x85 || u == 0xa0 || u == 0x1680 || (0x2000 <= u && u
        <= 0x200a) || u == 0x2028 || u == 0x2029 || u == 0x202f || u == 0x205f || u == 0x3000
}

/// `s` without leading and trailing white space (`str::trim`).
pub open spec fn trim(s: Seq<char>) -> Seq<char>
    decreases s.len(),
{
    if s.len() > 0 && is_white(s[0]) {
        trim(s.drop_first())
    } else if s.len() > 0 && is_white(s.last()) {
        trim(s.drop_last())
    } else {
        s
    }
}

/// The pieces of `s` between commas, kept in order (`str::split(',')`); the
/// last piece is the one being read.
pub open spec fn split_commas(s: Seq<char>) -> Seq<Seq<char>>
    decreases s.len(),
{
    if s.len() == 0 {
        seq![Seq::empty()]
    } else {
        let prev = split_commas(s.drop_last());
        if s.last() == ',' {
            prev.push(Seq::empty())
        } else {
            prev.update(prev.len() - 1, prev.last().push(s.last()))
        }
    }
}

proof fn lemma_split_nonempty(s: Seq<char>)
    ensures
        split_commas(s).len() >= 1,
    decreases s.len(),
{
    if s.len() > 0 {
        lemma_split_nonempty(s.drop_last());
    }
}

fn trim_chars(cs: &[char]) -> (r: String)
    ensures
        r@ == trim(cs@),
    decreases cs@.len(),
{
    let n = cs.len();
    if n > 0 && white(cs[0]) {
        assert(cs@.drop_first() =~= cs@.subrange(1, n as int));
        trim_chars(&cs[1..n])
    } else if n > 0 && white(cs[n - 1]) {
        assert(cs@.drop_last() =~= cs@.subrange(0, n - 1));
        trim_chars(&cs[0..n - 1])
    } else {
        string_from_chars(cs)
    }
}

/// The trimmed comma-separated entries of a `PANEL_IPS` value.
pub fn panel_ip_candidates(s: &str) -> (r: Vec<String>)
    ensures
        views(r@) == split_commas(s@).map_values(|p: Seq<char>| trim(p)),
{
    let cs = chars_of(s);
    let mut pieces: Vec<Vec<char>> = Vec::new();
    let mut cur: Vec<char> = Vec::new();
    let mut i: usize = 0;
    assert(cs@.take(0) =~= Seq::<char>::empty());
    while i < cs.len()
        invariant
            i <= cs@.len(),
            pieces@.map_values(|p: Vec<char>| p@).push(cur@) == split_commas(cs@.take(i as int)),
        decreases cs.len() - i,
    {
        let c = cs[i];
        let ghost prev = split_commas(cs@.take(i as int));
        assert(cs@.take(i + 1).drop_last() =~= cs@.take(i as int));
        proof { lemma_split_nonempty(cs@.take(i as int)); }
        if c == ',' {
            let ghost pv = pieces@.map_values(|p: Vec<char>| p@);
            let done = cur;
            cur = Vec::new();
            pieces.push(done);
            assert(pieces@.map_values(|p: Vec<char>| p@) =~= pv.push(done@));
            assert(pieces@.map_values(|p: Vec<char>| p@).push(cur@) =~= prev.push(Seq::empty()));
        } else {
            let ghost pv = pieces@.map_values(|p: Vec<char>| p@);
            cur.push(c);
            assert(pieces@.map_values(|p: Vec<char>| p@).push(cur@) =~= prev.update(prev.len() - 1, prev.last().push(c)));
        }
        i += 1;
    }
    assert(cs@.take(cs.len() as int) =~= s@);
    pieces.push(cur);
    let ghost all = pieces@.map_values(|p: Vec<char>| p@);
    assert(all == split_commas(s@));
    let mut out: Vec<String> = Vec::new();
    let mut k: usize = 0;
    while k < pieces.len()
        invariant
            k <= pieces@.len(),
            all == pieces@.map_values(|p: Vec<char>| p@),
            views(out@) == all.take(k as int).map_values(|p: Seq<char>| trim(p)),
        decreases pieces.len() - k,
    {
        let t = trim_chars(pieces[k].as_slice());
        let ghost before = views(out@);
        out.push(t);
        assert(views(out@) =~= before.push(t@));
        assert(all.take(k + 1).map_values(|p: Seq<char>| trim(p)) =~= all.take(k as int).map_values(|p: Seq<char>| trim(p)).push(trim(all[k as int])));
        k += 1;
    }
    assert(all.take(pieces.len() as int) =~= all);
    out
}

// ----- internal endpoints ----------------------------------------------------------

/// Characters of `rand`'s `Alphanumeric` distribution.
pub open spec fn is_alphanumeric_ascii(c: char) -> bool {
    ('A' <= c && c <= 'Z') || ('a' <= c && c <= 'z') || ('0' <= c && c <= '9')
}

/// `len` characters drawn from `rand`'s `Alphanumeric` distribution with the
/// thread's generator.
///
/// Trusted: the crate documents the distribution as uniform over `A-Z`,
/// `a-z` and `0-9`; which characters come is left open.
#[verifier::external_body]
fn random_alphanumeric(len: usize) -> (r: String)
    ensures
        r@.len() == len,
        forall|i: int| 0 <= i < r@.len() ==> is_alphanumeric_ascii(#[trigger] r@[i]),
{
    rand::Rng::sample_iter(&mut rand::rng(), rand::distr::Alphanumeric).take(len).map(char::from).collect()
}

/// The internal endpoints named after `rnd`, with the given credentials.
pub open spec fn internal_config_of(c: InternalConfig, rnd: Seq<char>, token: Seq<char>, user: Seq<char>, password: Seq<char>) -> bool {
    &&& c.socket_path@ == "/tmp/remnawave-internal-"@ + rnd + ".sock"@
    &&& c.token@ == token
    &&& c.supervisord_socket_path@ == "/tmp/supervisord-"@ + rnd + ".sock"@
    &&& c.supervisord_pid_path@ == "/tmp/supervisord-"@ + rnd + ".pid"@
    &&& c.supervisord_user@ == user
    &&& c.supervisord_password@ == password
}

/// The internal endpoints for the given random suffix and credentials.
pub fn internal_config_from(rnd: &str, token: String, user: String, password: String) -> (r: InternalConfig)
    ensures
        internal_config_of(r, rnd@, token@, user@, password@),
{
    InternalConfig {
        socket_path: concat(concat("/tmp/remnawave-internal-", rnd).as_str(), ".sock"),
        token,
        supervisord_socket_path: concat(concat("/tmp/supervisord-", rnd).as_str(), ".sock"),
        supervisord_pid_path: concat(concat("/tmp/supervisord-", rnd).as_str(), ".pid"),
        supervisord_user: user,
        supervisord_password: password,
    }
}

pub open spec fn random_text(s: Seq<char>, len: nat) -> bool {
    s.len() == len && forall|i: int| 0 <= i < s.len() ==> is_alphanumeric_ascii(#[trigger] s[i])
}

/// Fresh internal endpoints: an 8-character random suffix for the paths and
/// 64-character random token and supervisor credentials.
pub fn generate_internal_config() -> (r: InternalConfig)
    ensures
        exists|rnd: Seq<char>| #![trigger random_text(rnd, 8)] random_text(rnd, 8)
            && internal_config_of(r, rnd, r.token@, r.supervisord_user@, r.supervisord_password@),
        random_text(r.token@, 64),
        random_text(r.supervisord_user@, 64),
        random_text(r.supervisord_password@, 64),
{
    let rnd = random_alphanumeric(8);
    let token = random_alphanumeric(64);
    let user = random_alphanumeric(64);
    let password = random_alphanumeric(64);
    let r = internal_config_from(rnd.as_str(), token, user, password);
    assert(random_text(rnd@, 8));
    r
}

// ----- settings --------------------------------------------------------------------

/// The environment variables the node reads (`None` when unset).
pub struct EnvVars {
    pub node_port: Option<String>,
    pub secret_key: Option<String>,
    pub api_domain: Option<String>,
    pub xtls_api_port: Option<String>,
    pub xray_proxy_port: Option<String>,
    pub xray_core_version: Option<String>,
    pub disable_hashed_set_check: Option<String>,
    pub panel_ips: Option<String>,
}

/// The node's settings; `panel_ips` holds the trimmed entries of `PANEL_IPS`,
/// which still have to be read as addresses.
pub struct EnvSettings {
    pub node_port: u16,
    pub secret_key: String,
    pub api_domain: String,
    pub xtls_api_port: u16,
    pub xray_proxy_port: u16,
    pub xray_core_version: String,
    pub disable_hashed_set_check: bool,
    pub panel_ips: Vec<String>,
}

pub open spec fn opt_view(o: Option<String>) -> Option<Seq<char>> {
    match o {
        Some(s) => Some(s@),
        None => None,
    }
}

pub open spec fn or_default(o: Option<String>, d: Seq<char>) -> Seq<char> {
    match o {
        Some(s) => s@,
        None => d,
    }
}

/// The first error of the settings, in the order the node checks them.
pub open spec fn env_error(v: EnvVars) -> Option<Seq<char>> {
    if v.node_port is None {
        Some("NODE_PORT is required"@)
    } else if port_setting("NODE_PORT"@, opt_view(v.node_port), ""@) is Err {
        Some(port_setting("NODE_PORT"@, opt_view(v.node_port), ""@)->Err_0)
    } else if v.secret_key is None {
        Some("SECRET_KEY is required"@)
    } else if v.api_domain is None {
        Some("API_DOMAIN is required"@)
    } else if port_setting("XTLS_API_PORT"@, opt_view(v.xtls_api_port), "61000"@) is Err {
        Some(port_setting("XTLS_API_PORT"@, opt_view(v.xtls_api_port), "61000"@)->Err_0)
    } else if port_setting("XRAY_PROXY_PORT"@, opt_view(v.xray_proxy_port), "61001"@) is Err {
        Some(port_setting("XRAY_PROXY_PORT"@, opt_view(v.xray_proxy_port), "61001"@)->Err_0)
    } else {
        None
    }
}

fn opt_str(o: &Option<String>) -> (r: Option<&str>)
    ensures
        match o {
            Some(s) => r matches Some(t) && t@ == s@,
            None => r is None,
        },
{
    match o {
        Some(s) => Some(s.as_str()),
        None => None,
    }
}

/// Reads the settings: `NODE_PORT`, `SECRET_KEY` and `API_DOMAIN` are required; the ports
/// default to 61000 (API) and 61001 (proxy), the xray version to `v26.3.27`,
/// the hashed-set flag to false and the panel addresses to none.
pub fn parse_env(vars: &EnvVars) -> (r: Result<EnvSettings, String>)
    ensures
        match env_error(*vars) {
            Some(e) => r matches Err(m) && m@ == e,
            None => r matches Ok(s) && {
                &&& port_setting("NODE_PORT"@, opt_view(vars.node_port), ""@) matches Ok(p) && p == s.node_port
                &&& s.secret_key@ == vars.secret_key->0@
                &&& s.api_domain@ == vars.api_domain->0@
                &&& port_setting("XTLS_API_PORT"@, opt_view(vars.xtls_api_port), "61000"@) matches Ok(p) && p == s.xtls_api_port
                &&& port_setting("XRAY_PROXY_PORT"@, opt_view(vars.xray_proxy_port), "61001"@) matches Ok(p) && p == s.xray_proxy_port
                &&& s.xray_core_version@ == or_default(vars.xray_core_version, "v26.3.27"@)
                &&& s.disable_hashed_set_check == (or_default(vars.disable_hashed_set_check, "false"@) == "true"@)
                &&& views(s.panel_ips@) == split_commas(or_default(vars.panel_ips, ""@)).map_values(|p: Seq<char>| trim(p))
            },
        },
{
    if vars.node_port.is_none() {
        return Err(String::from_str("NODE_PORT is required"));
    }
    let node_port = match parse_port("NODE_PORT", opt_str(&vars.node_port), "") {
        Ok(p) => p,
        Err(e) => return Err(e),
    };
    let secret_key = match &vars.secret_key {
        Some(s) => String::from_str(s.as_str()),
        None => return Err(String::from_str("SECRET_KEY is required")),
    };
    let api_domain = match &vars.api_domain {
        Some(d) => String::from_str(d.as_str()),
        None => return Err(String::from_str("API_DOMAIN is required")),
    };
    let xtls_api_port = match parse_port("XTLS_API_PORT", opt_str(&vars.xtls_api_port), "61000") {
        Ok(p) => p,
        Err(e) => return Err(e),
    };
    let xray_proxy_port = match parse_port("XRAY_PROXY_PORT", opt_str(&vars.xray_proxy_port), "61001") {
        Ok(p) => p,
        Err(e) => return Err(e),
    };
    let xray_core_version = String::from_str(match opt_str(&vars.xray_core_version) {
        Some(v) => v,
        None => "v26.3.27",
    });
    let disable_hashed_set_check = parse_flag(match opt_str(&vars.disable_hashed_set_check) {
        Some(v) => v,
        None => "false",
    });
    let panel_ips = panel_ip_candidates(match opt_str(&vars.panel_ips) {
        Some(v) => v,
        None => "",
    });
    Ok(EnvSettings {
        node_port,
        secret_key,
        api_domain,
        xtls_api_port,
        xray_proxy_port,
        xray_core_version,
        disable_hashed_set_check,
        panel_ips,
    })
}

} // verus!
