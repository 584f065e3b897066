//! The headless server's command line: environment defaults, then flags.
use crate::auth::generate_token;
use crate::process::{cat, opt_str, own, strs};
use crate::text::{
    all_digits, chars_of, digits_value, is_digit, parse_u32_chars, split, split_char,
    str_eq, texts,
};
use vstd::prelude::*;

verus! {

/// The application identifier that names the data directories.
pub const APP_IDENTIFIER: &'static str = "com.jean.desktop";

/// The usage line printed for `--help`.
pub const USAGE: &'static str = "jean-server [--host IP] [--port PORT] [--token TOKEN] [--no-token] [--data-dir PATH]";

/// The environment variables the server reads (each `None` when unset).
#[derive(Clone, Debug)]
pub struct ServerEnv {
    pub host: Option<String>,
    pub port: Option<String>,
    pub token: Option<String>,
    pub no_token: Option<String>,
    pub data_dir: Option<String>,
}

/// The server's settings.
#[derive(Clone, Debug)]
pub struct CliArgs {
    pub host: String,
    pub port: u16,
    pub token: String,
    pub token_required: bool,
    pub data_dir: Option<String>,
}

/// What the command line asks for.
#[derive(Clone, Debug)]
pub enum CliCommand {
    /// Print [`USAGE`] and exit successfully.
    Help,
    /// Serve with these settings.
    Serve(CliArgs),
}

/// `u16::from_str`: an optional `+`, then decimal digits whose value fits.
pub open spec fn u16_value(s: Seq<char>) -> Option<u16> {
    let body = if s.len() > 0 && s[0] == '+' {
        s.drop_first()
    } else {
        s
    };
    if body.len() > 0 && all_digits(body) && digits_value(body) <= u16::MAX {
        Some(digits_value(body) as u16)
    } else {
        None
    }
}

/// The message of `u16::from_str`'s error for `s`.
pub uninterp spec fn u16_error(s: Seq<char>) -> Seq<char>;

/// `str::parse::<u16>`, the error kept as its message. Claimed: it succeeds
/// exactly on an optional `+` and decimal digits of a value that fits (as std
/// documents `from_str` for integers), and the message depends on the text alone.
#[verifier::external_body]
fn parse_u16(s: &str) -> (r: Result<u16, String>)
    ensures
        match r {
            Ok(n) => u16_value(s@) == Some(n),
            Err(e) => u16_value(s@) is None && e@ == u16_error(s@),
        },
{
    match s.parse::<u16>() {
        Ok(n) => Ok(n),
        Err(e) => Err(e.to_string()),
    }
}

/// The settings before the flags: each from its variable, else the default
/// (`127.0.0.1`, port 3456, no token, a token required unless
/// `JEAN_NO_TOKEN=1`, the system data directory).
pub open spec fn env_defaults(env: ServerEnv) -> Result<(Seq<char>, u16, Seq<char>, bool, Option<Seq<char>>), Seq<char>> {
    let port = match env.port {
        Some(p) => match u16_value(p@) {
            Some(n) => Ok(n),
            None => Err(u16_error(p@)),
        },
        None => Ok(3456u16),
    };
    match port {
        Err(e) => Err(e),
        Ok(port) => Ok(
            (
                match env.host {
                    Some(h) => h@,
                    None => "127.0.0.1"@,
                },
                port,
                match env.token {
                    Some(t) => t@,
                    None => seq![],
                },
                opt_str(env.no_token) != Some("1"@),
                opt_str(env.data_dir),
            ),
        ),
    }
}

/// The settings as the flags from the `i`-th on change them, or the error;
/// `None` for `--help`.
pub open spec fn apply_flags(
    s: (Seq<char>, u16, Seq<char>, bool, Option<Seq<char>>),
    args: Seq<Seq<char>>,
    i: int,
) -> Result<Option<(Seq<char>, u16, Seq<char>, bool, Option<Seq<char>>)>, Seq<char>>
    decreases args.len() - i,
{
    if i < 0 || i >= args.len() {
        Ok(Some(s))
    } else {
        let a = args[i];
        let has_value = i + 1 < args.len();
        if a == "--host"@ {
            if !has_value {
                Err("--host requires a value"@)
            } else {
                apply_flags((args[i + 1], s.1, s.2, s.3, s.4), args, i + 2)
            }
        } else if a == "--port"@ {
            if !has_value {
                Err("--port requires a value"@)
            } else {
                match u16_value(args[i + 1]) {
                    Some(p) => apply_flags((s.0, p, s.2, s.3, s.4), args, i + 2),
                    None => Err("Invalid --port: "@ + u16_error(args[i + 1])),
                }
            }
        } else if a == "--token"@ {
            if !has_value {
                Err("--token requires a value"@)
            } else {
                apply_flags((s.0, s.1, args[i + 1], s.3, s.4), args, i + 2)
            }
        } else if a == "--no-token"@ {
            apply_flags((s.0, s.1, s.2, false, s.4), args, i + 1)
        } else if a == "--data-dir"@ {
            if !has_value {
                Err("--data-dir requires a value"@)
            } else {
                apply_flags((s.0, s.1, s.2, s.3, Some(args[i + 1])), args, i + 2)
            }
        } else if a == "--help"@ || a == "-h"@ {
            Ok(None)
        } else {
            Err("Unknown argument: "@ + a)
        }
    }
}

/// The settings of a command line before a token is generated: environment
/// defaults, then the flags (`args` excludes the program name).
pub open spec fn cli_settings(env: ServerEnv, args: Seq<Seq<char>>) -> Result<
    Option<(Seq<char>, u16, Seq<char>, bool, Option<Seq<char>>)>,
    Seq<char>,
> {
    match env_defaults(env) {
        Err(e) => Err(e),
        Ok(s) => apply_flags(s, args, 0),
    }
}

fn env_settings(env: &ServerEnv) -> (r: Result<(String, u16, String, bool, Option<String>), String>)
    ensures
        match r {
            Ok((h, p, t, req, d)) => env_defaults(*env) == Ok::<(Seq<char>, u16, Seq<char>, bool, Option<Seq<char>>), Seq<char>>(
                (h@, p, t@, req, opt_str(d)),
            ),
            Err(e) => env_defaults(*env) == Err::<(Seq<char>, u16, Seq<char>, bool, Option<Seq<char>>), Seq<char>>(e@),
        },
{
    let port = match &env.port {
        Some(p) => match parse_u16(p.as_str()) {
            Ok(n) => n,
            Err(e) => {
                return Err(e);
            },
        },
        None => 3456,
    };
    let host = match &env.host {
        Some(h) => h.clone(),
        None => own("127.0.0.1"),
    };
    let token = match &env.token {
        Some(t) => t.clone(),
        None => String::new(),
    };
    let required = match &env.no_token {
        Some(v) => !str_eq(v.as_str(), "1"),
        None => true,
    };
    let data_dir = match &env.data_dir {
        Some(d) => Some(d.clone()),
        None => None,
    };
    Ok((host, port, token, required, data_dir))
}

/// A part of a dotted IPv4 address: one to three digits without a leading
/// zero, at most 255; its value.
pub open spec fn ipv4_octet(p: Seq<char>) -> Option<nat> {
    if 1 <= p.len() <= 3 && all_digits(p) && (p.len() == 1 || p[0] != '0') && digits_value(p)
        <= 255 {
        Some(digits_value(p))
    } else {
        None
    }
}

/// A dotted IPv4 address in `127.0.0.0/8`.
pub open spec fn ipv4_loopback(h: Seq<char>) -> bool {
    let parts = split(h, '.');
    &&& parts.len() == 4
    &&& ipv4_octet(parts[0]) == Some(127nat)
    &&& ipv4_octet(parts[1]) is Some
    &&& ipv4_octet(parts[2]) is Some
    &&& ipv4_octet(parts[3]) is Some
}

/// A host that binds to the loopback interface only: `localhost`, the IPv6
/// address `::1`, or a dotted IPv4 address in `127.0.0.0/8`.
pub open spec fn loopback_host(h: Seq<char>) -> bool {
    h == "localhost"@ || h == "::1"@ || ipv4_loopback(h)
}

/// The refusal of `--no-token` (or `JEAN_NO_TOKEN=1`) on another host.
pub open spec fn no_token_refusal(host: Seq<char>) -> Seq<char> {
    "--no-token is only allowed on a loopback host, not "@ + host
}

fn octet(p: &[char]) -> (r: Option<u32>)
    ensures
        match r {
            Some(v) => ipv4_octet(p@) == Some(v as nat),
            None => ipv4_octet(p@) is None,
        },
{
    if p.len() < 1 || p.len() > 3 || (p.len() > 1 && p[0] == '0') {
        return None;
    }
    let mut i: usize = 0;
    while i < p.len()
        invariant
            i <= p@.len(),
            forall|k: int| 0 <= k < i ==> is_digit(#[trigger] p@[k]),
        decreases p.len() - i,
    {
        if !('0' <= p[i] && p[i] <= '9') {
            assert(!all_digits(p@)) by {
                assert(!is_digit(p@[i as int]));
            }
            return None;
        }
        i = i + 1;
    }
    assert(all_digits(p@));
    match parse_u32_chars(p) {
        Some(v) => {
            if v <= 255 {
                Some(v)
            } else {
                None
            }
        },
        None => None,
    }
}

fn is_loopback_host(host: &str) -> (r: bool)
    ensures
        r == loopback_host(host@),
{
    proof {
        reveal_strlit("localhost");
        reveal_strlit("::1");
    }
    if str_eq(host, "localhost") || str_eq(host, "::1") {
        return true;
    }
    let parts = split_char(chars_of(host).as_slice(), '.');
    assert(texts(parts@) == split(host@, '.'));
    if parts.len() != 4 {
        return false;
    }
    assert(forall|k: int| 0 <= k < 4 ==> #[trigger] texts(parts@)[k] == parts@[k]@);
    match (
        octet(parts[0].as_slice()),
        octet(parts[1].as_slice()),
        octet(parts[2].as_slice()),
        octet(parts[3].as_slice()),
    ) {
        (Some(a), Some(_), Some(_), Some(_)) => a == 127,
        _ => false,
    }
}

/// Reads the command line (`args` without the program name) over the
/// environment's settings. A required token that is still empty is
/// generated; going without a token is refused on a host other than a
/// loopback one.
pub fn parse_cli_args(env: &ServerEnv, args: &Vec<String>) -> (r: Result<CliCommand, String>)
    ensures
        match cli_settings(*env, strs(args@)) {
            Err(e) => r matches Err(x) && x@ == e,
            Ok(None) => r matches Ok(CliCommand::Help),
            Ok(Some((host, port, token, required, data_dir))) => if !required && !loopback_host(
                host,
            ) {
                r matches Err(x) && x@ == no_token_refusal(host)
            } else {
                r matches Ok(CliCommand::Serve(a)) && a.host@ == host && a.port == port
                    && a.token_required == required && opt_str(a.data_dir) == data_dir && (
                if required && token.len() == 0 {
                    a.token@.len() == 43
                } else {
                    a.token@ == token
                })
            },
        },
{
    let (mut host, mut port, mut token, mut required, mut data_dir) = match env_settings(env) {
        Ok(s) => s,
        Err(e) => {
            return Err(e);
        },
    };
    let ghost a = strs(args@);
    let mut i: usize = 0;
    while i < args.len()
        invariant
            i <= args@.len(),
            a == strs(args@),
            cli_settings(*env, a) == apply_flags((host@, port, token@, required, opt_str(data_dir)), a, i as int),
        decreases args.len() - i,
    {
        let arg = args[i].as_str();
        assert(a[i as int] == arg@);
        let has_value = i + 1 < args.len();
        if has_value {
            assert(a[i + 1] == args@[i + 1]@);
        }
        if str_eq(arg, "--host") {
            if !has_value {
                return Err(own("--host requires a value"));
            }
            host = args[i + 1].clone();
            i = i + 2;
        } else if str_eq(arg, "--port") {
            if !has_value {
                return Err(own("--port requires a value"));
            }
            match parse_u16(args[i + 1].as_str()) {
                Ok(p) => {
                    port = p;
                },
                Err(e) => {
                    return Err(cat("Invalid --port: ", e.as_str()));
                },
            }
            i = i + 2;
        } else if str_eq(arg, "--token") {
            if !has_value {
                return Err(own("--token requires a value"));
            }
            token = args[i + 1].clone();
            i = i + 2;
        } else if str_eq(arg, "--no-token") {
            required = false;
            i = i + 1;
        } else if str_eq(arg, "--data-dir") {
            if !has_value {
                return Err(own("--data-dir requires a value"));
            }
            data_dir = Some(args[i + 1].clone());
            i = i + 2;
        } else if str_eq(arg, "--help") || str_eq(arg, "-h") {
            return Ok(CliCommand::Help);
        } else {
            return Err(cat("Unknown argument: ", arg));
        }
    }
    if !required && !is_loopback_host(host.as_str()) {
        return Err(cat("--no-token is only allowed on a loopback host, not ", host.as_str()));
    }
    if required && token.as_str().is_empty() {
        token = generate_token();
    }
    Ok(CliCommand::Serve(CliArgs { host, port, token, token_required: required, data_dir }))
}

} // verus!
