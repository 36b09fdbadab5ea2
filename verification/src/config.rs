//! The constants of the proxy, and what it takes from its environment.

use vstd::prelude::*;

use crate::headers::{can_be_header, is_value, is_value_char};
use crate::json::Json;
use crate::text::{chars_of, concat, concat3, is_empty, opt_str_view, opt_view, parse_u64, trim, trimmed, u64_text};

verus! {

/// The client that the proxy signs in as.
pub const CLIENT_ID: &'static str = "app_EMoamEEZ73f0CkXaXp7hrann";

pub const AUTH_URL: &'static str = "https://auth.openai.com/oauth/authorize";

pub const TOKEN_URL: &'static str = "https://auth.openai.com/oauth/token";

pub const REVOKE_URL: &'static str = "https://auth.openai.com/oauth/revoke";

pub const REDIRECT_URI: &'static str = "http://localhost:1455/auth/callback";

pub const UPSTREAM_BASE: &'static str = "https://chatgpt.com/backend-api/codex";

pub const SCOPES: &'static str =
    "openid profile email offline_access api.connectors.read api.connectors.invoke";

/// The name of the auth file in the home directory.
pub const AUTH_FILE: &'static str = "auth.json";

/// The environment variable that names another auth file.
pub const AUTH_FILE_ENV: &'static str = "CODEX_AUTH_FILE";

/// The client version that is used where the newest cannot be found out.
pub const FALLBACK_CLIENT_VERSION: &'static str = "0.125.0";

/// Seconds between two looks at the newest client version.
pub const VERSION_REFRESH_SECS: u64 = 21600;

/// Seconds before a token's expiry from which on it counts as expired.
pub const REFRESH_MARGIN_SECS: i64 = 300;

/// Seconds for which a list of models is kept.
pub const MODELS_CACHE_TTL_SECS: u64 = 300;

/// The reasoning efforts that a model's name may end in.
pub const REASONING_EFFORTS: [&'static str; 6] = [
    "none",
    "minimal",
    "low",
    "medium",
    "high",
    "xhigh",
];

/// The models that are listed though the upstream does not list them.
pub const BUILTIN_MODELS: [&'static str; 4] = [
    "gpt-image-2",
    "gpt-image-1.5",
    "gpt-image-1",
    "gpt-image-1-mini",
];

/// The originator that the upstream is told.
pub const ORIGINATOR: &'static str = "codex_cli_rs";

// ---- the auth file ----------------------------------------------------

/// Where the auth file is.
#[derive(Debug)]
pub enum AuthPath {
    /// At this path.
    At(String),
    /// At this path below the home directory.
    Below { home: String, path: String },
}

/// Where the auth file is.
#[verifier::ext_equal]
pub enum PathSpec {
    At(Seq<char>),
    Below { home: Seq<char>, path: Seq<char> },
}

impl View for AuthPath {
    type V = PathSpec;

    open spec fn view(&self) -> PathSpec {
        match *self {
            AuthPath::At(p) => PathSpec::At(p@),
            AuthPath::Below { home, path } => PathSpec::Below { home: home@, path: path@ },
        }
    }
}

/// Where the auth file is, given the path that the environment names, whether
/// that is absolute, and the home directory: a relative path and the default lie
/// below the home directory, or below `~` where there is none.
pub open spec fn auth_path_of(
    configured: Option<Seq<char>>,
    is_absolute: bool,
    home: Option<Seq<char>>,
) -> PathSpec {
    let home = match home {
        Some(h) => h,
        None => "~"@,
    };
    match configured {
        Some(p) => if is_absolute {
            PathSpec::At(p)
        } else {
            PathSpec::Below { home, path: p }
        },
        None => PathSpec::Below { home, path: AUTH_FILE@ },
    }
}

/// The home directory, or `~` where there is none.
pub fn dirs_home(home: Option<&str>) -> (r: String)
    ensures
        r@ == match home {
            Some(h) => h@,
            None => "~"@,
        },
{
    match home {
        Some(h) => h.to_owned(),
        None => "~".to_owned(),
    }
}

/// Where the auth file is.
pub fn auth_file_path(configured: Option<&str>, is_absolute: bool, home: Option<&str>) -> (r:
    AuthPath)
    ensures
        r@ == auth_path_of(opt_str_view(configured), is_absolute, opt_str_view(home)),
{
    match configured {
        Some(p) => if is_absolute {
            AuthPath::At(p.to_owned())
        } else {
            AuthPath::Below { home: dirs_home(home), path: p.to_owned() }
        },
        None => AuthPath::Below { home: dirs_home(home), path: AUTH_FILE.to_owned() },
    }
}

// ---- the user agent ---------------------------------------------------

/// A character that a header token keeps.
pub open spec fn token_char(c: char) -> char {
    if ' ' <= c <= '~' {
        c
    } else {
        '_'
    }
}

/// A text with an underscore for each character that is no visible ASCII
/// character and no space.
pub open spec fn header_token(s: Seq<char>) -> Seq<char> {
    s.map_values(|c: char| token_char(c))
}

/// A text with an underscore for each character that a header token cannot hold.
pub fn sanitize_header_token(value: &str) -> (r: String)
    ensures
        r@ == header_token(value@),
{
    let v = chars_of(value);
    let mut out = String::new();
    let mut i: usize = 0;
    proof {
        assert(out@ =~= header_token(value@).take(0));
    }
    while i < v.len()
        invariant
            v@ == value@,
            i <= v@.len(),
            out@ == header_token(value@).take(i as int),
        decreases v@.len() - i,
    {
        let c = v[i];
        let kept = if ' ' <= c && c <= '~' {
            c
        } else {
            '_'
        };
        out.push(kept);
        proof {
            assert(out@ =~= header_token(value@).take(i + 1));
        }
        i = i + 1;
    }
    proof {
        assert(header_token(value@).take(value@.len() as int) =~= header_token(value@));
    }
    out
}

/// A user agent that can be a header value.
pub open spec fn user_agent_of(candidate: Seq<char>) -> Seq<char> {
    if is_value(candidate) {
        candidate
    } else {
        header_token(candidate)
    }
}

/// Header tokens can be header values.
proof fn lemma_token_is_value(s: Seq<char>)
    ensures
        is_value(header_token(s)),
{
    assert forall|i: int| 0 <= i < header_token(s).len() implies is_value_char(
        #[trigger] header_token(s)[i],
    ) by {
        assert(header_token(s)[i] == token_char(s[i]));
    }
}

/// A user agent that can be a header value.
pub fn sanitize_user_agent(candidate: String) -> (r: String)
    ensures
        r@ == user_agent_of(candidate@),
        is_value(r@),
{
    if can_be_header(candidate.as_str()) {
        return candidate;
    }
    let sanitized = sanitize_header_token(candidate.as_str());
    proof {
        lemma_token_is_value(candidate@);
    }
    if can_be_header(sanitized.as_str()) {
        sanitized
    } else {
        ORIGINATOR.to_owned()
    }
}

/// What the environment says of the terminal.
#[derive(Debug)]
pub struct TerminalEnv {
    pub term_program: Option<String>,
    pub term_program_version: Option<String>,
    pub wezterm_version: Option<String>,
    pub term: Option<String>,
}

/// A text that is there and is not blank.
pub open spec fn not_blank(s: Option<Seq<char>>) -> bool {
    s matches Some(t) && trim(t).len() > 0
}

/// The terminal's part of the user agent.
pub open spec fn terminal_token(
    program: Option<Seq<char>>,
    program_version: Option<Seq<char>>,
    wezterm_version: Option<Seq<char>>,
    term: Option<Seq<char>>,
) -> Seq<char> {
    if not_blank(program) {
        if not_blank(program_version) {
            header_token(program->0 + "/"@ + program_version->0)
        } else {
            header_token(program->0)
        }
    } else if not_blank(wezterm_version) {
        header_token("WezTerm/"@ + wezterm_version->0)
    } else if not_blank(term) {
        header_token(term->0)
    } else {
        "unknown"@
    }
}

/// The text, where it is there and is not blank.
fn get_filled(s: &Option<String>) -> (r: Option<&str>)
    ensures
        match r {
            Some(t) => not_blank(opt_view(*s)) && opt_view(*s) == Some(t@),
            None => !not_blank(opt_view(*s)),
        },
{
    match s {
        Some(t) => {
            let x = trimmed(t.as_str());
            if is_empty(x.as_str()) {
                None
            } else {
                Some(t.as_str())
            }
        },
        None => None,
    }
}

/// The terminal's part of the user agent.
pub fn terminal_user_agent_token(env: &TerminalEnv) -> (r: String)
    ensures
        r@ == terminal_token(
            opt_view(env.term_program),
            opt_view(env.term_program_version),
            opt_view(env.wezterm_version),
            opt_view(env.term),
        ),
{
    match get_filled(&env.term_program) {
        Some(program) => {
            return match get_filled(&env.term_program_version) {
                Some(version) => sanitize_header_token(concat3(program, "/", version).as_str()),
                None => sanitize_header_token(program),
            };
        },
        None => {},
    }
    match get_filled(&env.wezterm_version) {
        Some(version) => {
            return sanitize_header_token(concat("WezTerm/", version).as_str());
        },
        None => {},
    }
    match get_filled(&env.term) {
        Some(term) => sanitize_header_token(term),
        None => "unknown".to_owned(),
    }
}

/// The user agent before it is made fit for a header.
pub open spec fn user_agent_candidate(
    version: Seq<char>,
    os_type: Seq<char>,
    os_version: Seq<char>,
    arch: Option<Seq<char>>,
    terminal: Seq<char>,
) -> Seq<char> {
    let arch = match arch {
        Some(a) => a,
        None => "unknown"@,
    };
    ORIGINATOR@ + "/"@ + version + " ("@ + os_type + " "@ + os_version + "; "@ + arch + ") "@
        + terminal
}

/// The user agent that the upstream is told, for a client version on a system.
pub fn codex_user_agent_for_version(
    version: &str,
    os_type: &str,
    os_version: &str,
    arch: Option<&str>,
    terminal: &str,
) -> (r: String)
    ensures
        r@ == user_agent_of(
            user_agent_candidate(
                version@,
                os_type@,
                os_version@,
                opt_str_view(arch),
                terminal@,
            ),
        ),
        is_value(r@),
{
    let arch = match arch {
        Some(a) => a,
        None => "unknown",
    };
    let mut out = concat3(ORIGINATOR, "/", version);
    out.append(" (");
    out.append(os_type);
    out.append(" ");
    out.append(os_version);
    out.append("; ");
    out.append(arch);
    out.append(") ");
    out.append(terminal);
    sanitize_user_agent(out)
}

// ---- versions and ports -----------------------------------------------

/// The newest client version, given whether the registry answered with success
/// and what it answered.
pub fn latest_version(success: bool, answer: Option<&Json>) -> (r: String)
    ensures
        r@ == match answer {
            Some(j) => match j@.get_str("version"@) {
                Some(v) => if success {
                    v
                } else {
                    FALLBACK_CLIENT_VERSION@
                },
                None => FALLBACK_CLIENT_VERSION@,
            },
            None => FALLBACK_CLIENT_VERSION@,
        },
{
    if !success {
        return FALLBACK_CLIENT_VERSION.to_owned();
    }
    match answer {
        Some(j) => match j.get_str("version") {
            Some(v) => v.to_owned(),
            None => FALLBACK_CLIENT_VERSION.to_owned(),
        },
        None => FALLBACK_CLIENT_VERSION.to_owned(),
    }
}

/// The client version that is pinned: by the command line, else by the
/// environment.
pub fn pinned_version(version_override: Option<String>, environment: Option<String>) -> (r: Option<
    String,
>)
    ensures
        r == match version_override {
            Some(v) => Some(v),
            None => environment,
        },
{
    match version_override {
        Some(v) => Some(v),
        None => environment,
    }
}

/// The port that the environment names, else the default.
pub open spec fn port_of(value: Option<Seq<char>>) -> u16 {
    match value {
        Some(s) => match u64_text(s) {
            Some(n) => if n <= 65535 {
                n as u16
            } else {
                8080
            },
            None => 8080,
        },
        None => 8080,
    }
}

/// The port that the environment names, else the default.
pub fn default_port(value: Option<&str>) -> (r: u16)
    ensures
        r == port_of(opt_str_view(value)),
{
    match value {
        Some(s) => match parse_u64(s) {
            Some(n) => if n <= 65535 {
                n as u16
            } else {
                8080
            },
            None => 8080,
        },
        None => 8080,
    }
}

// ---- laws -------------------------------------------------------------

/// A user agent can always be sent, and one that could be sent stays as it is.
pub proof fn law_user_agent_can_be_sent(candidate: Seq<char>)
    ensures
        is_value(user_agent_of(candidate)),
        is_value(candidate) ==> user_agent_of(candidate) == candidate,
        user_agent_of(candidate).len() == candidate.len(),
{
    lemma_token_is_value(candidate);
}

} // verus!
