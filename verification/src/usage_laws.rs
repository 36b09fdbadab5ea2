//! What holds of the usage endpoint and of the list of models as a whole.

use vstd::prelude::*;

use crate::config::{
    auth_path_of, header_token, port_of, terminal_token, user_agent_candidate, PathSpec,
};
use crate::headers::header_str;
use crate::json::{JsonSpec, NumberSpec};
use crate::json_codec::float_text;
use crate::models::{has_model, listed, merged_models, ModelSpec, UpstreamModel};
use crate::sse::{line_item, StreamItemSpec};
use crate::text::{ascii_lower, i64_text, opt_view, trim, u64_text};
use crate::usage::{
    all_snapshots, event_snapshot, limit_id_of, limit_snapshot, limit_snapshots, line_snapshots,
    name_limit, usage_request, SnapshotSpec, WindowSpec,
};

verus! {

// ---- limits in headers ------------------------------------------------

/// The number in a header, where there is one.
pub open spec fn told_number(m: Map<Seq<char>, Seq<Seq<u8>>>, name: Seq<char>) -> Option<u64> {
    match header_str(m, name) {
        Some(s) => float_text(s),
        None => None,
    }
}

/// The integer in a header, where there is one.
pub open spec fn told_integer(m: Map<Seq<char>, Seq<Seq<u8>>>, name: Seq<char>) -> Option<i64> {
    match header_str(m, name) {
        Some(s) => i64_text(s),
        None => None,
    }
}

/// The window is what three headers tell, each its own: none where the first is not
/// there, or where all of them tell nothing.
pub open spec fn is_window(
    w: Option<WindowSpec>,
    used: Option<u64>,
    minutes: Option<i64>,
    reset: Option<i64>,
) -> bool {
    match used {
        None => w is None,
        Some(bits) => {
            let nothing = (bits == 0 || bits == 0x8000_0000_0000_0000) && (minutes is None
                || minutes == Some(0i64)) && reset is None;
            &&& nothing <==> w is None
            &&& w matches Some(x) ==> {
                &&& x.used_percent == NumberSpec::Float(bits)
                &&& x.window_minutes == minutes
                &&& x.resets_at == reset
            }
        },
    }
}

/// The text in a header, white space around it apart, where anything is left.
pub open spec fn told_text(m: Map<Seq<char>, Seq<Seq<u8>>>, name: Seq<char>) -> Option<Seq<char>> {
    match header_str(m, name) {
        Some(s) => if trim(s).len() > 0 {
            Some(trim(s))
        } else {
            None
        },
        None => None,
    }
}

/// The flag is what a text says: `true` or `1`, `false` or `0`, in any case.
pub open spec fn says(s: Option<Seq<char>>, b: bool) -> bool {
    s matches Some(t) && if b {
        ascii_lower(t) == ascii_lower("true"@) || t == "1"@
    } else {
        ascii_lower(t) == ascii_lower("false"@) || t == "0"@
    }
}

/// What the headers tell of a limit: the primary window from the headers named
/// `primary`, the secondary from those named `secondary`, each value from its own, and
/// the credits from those about credits.
pub proof fn law_headers_tell_a_limit(
    m: Map<Seq<char>, Seq<Seq<u8>>>,
    limit: Option<Seq<char>>,
)
    ensures
        ({
            let s = limit_snapshot(m, limit);
            let p = "x-"@ + crate::usage::header_limit(limit);
            &&& is_window(
                s.primary,
                told_number(m, p + "-primary-used-percent"@),
                told_integer(m, p + "-primary-window-minutes"@),
                told_integer(m, p + "-primary-reset-at"@),
            )
            &&& is_window(
                s.secondary,
                told_number(m, p + "-secondary-used-percent"@),
                told_integer(m, p + "-secondary-window-minutes"@),
                told_integer(m, p + "-secondary-reset-at"@),
            )
            &&& s.limit_name == told_text(m, p + "-limit-name"@)
            &&& s.limit_id == limit_id_of(crate::usage::header_limit(limit))
            &&& s.credits matches Some(c) ==> {
                &&& says(header_str(m, "x-codex-credits-has-credits"@), c.has_credits)
                &&& says(header_str(m, "x-codex-credits-unlimited"@), c.unlimited)
                &&& c.balance == told_text(m, "x-codex-credits-balance"@)
            }
        }),
{
}

/// Headers that say both whether there are credits and whether they are unlimited tell of
/// credits.
pub proof fn law_headers_tell_credits(
    m: Map<Seq<char>, Seq<Seq<u8>>>,
    limit: Option<Seq<char>>,
    has: bool,
    unlimited: bool,
)
    requires
        says(header_str(m, "x-codex-credits-has-credits"@), has),
        says(header_str(m, "x-codex-credits-unlimited"@), unlimited),
    ensures
        limit_snapshot(m, limit).credits is Some,
{
}

/// The name of a limit in headers, and its identifier: the general limit is `codex`,
/// capitals do not count, and an underscore is a dash in headers.
pub proof fn law_names_of_limits(limit: Seq<char>, i: int)
    ensures
        crate::usage::header_limit(None) == ({
            Seq::new("codex"@.len(), |i: int| "codex"@[i])
        }),
        trim(limit).len() > 0 ==> crate::usage::header_limit(Some(limit)).len() == trim(limit).len(),
        trim(limit).len() > 0 && 0 <= i < trim(limit).len() ==> ({
            let c = trim(limit)[i];
            let h = crate::usage::header_limit(Some(limit))[i];
            &&& c == '_' ==> h == '-'
            &&& 'a' <= c <= 'z' || '0' <= c <= '9' || c == '-' ==> h == c
            &&& 'A' <= c <= 'Z' ==> h as u32 == c as u32 + 32
        }),
        limit_id_of(limit).len() == trim(limit).len(),
        0 <= i < trim(limit).len() ==> ({
            let c = trim(limit)[i];
            let h = limit_id_of(limit)[i];
            &&& c == '-' ==> h == '_'
            &&& 'a' <= c <= 'z' || '0' <= c <= '9' || c == '_' ==> h == c
            &&& 'A' <= c <= 'Z' ==> h as u32 == c as u32 + 32
        }),
{
    reveal_strlit("codex");
    let general = crate::usage::header_limit(None);
    assert(general =~= Seq::new("codex"@.len(), |i: int| "codex"@[i]));
}

/// A header that reports the use of a limit is named `x-`, the limit, and
/// `-primary-used-percent`.
pub proof fn law_header_names_a_limit(limit: Seq<char>)
    ensures
        name_limit("x-"@ + limit + "-primary-used-percent"@) == Some(limit_id_of(limit)),
{
    let suffix = "-primary-used-percent"@;
    let front = "x-"@ + limit;
    let whole = front + suffix;
    reveal_strlit("x-");
    assert(whole.skip(whole.len() - suffix.len()) =~= suffix);
    assert(whole.take(whole.len() - suffix.len()) =~= front);
    assert(front.take(2) =~= "x-"@);
    assert(front.skip(2) =~= limit);
}

/// A limit is listed where the headers tell anything of it, in the order of the
/// identifiers.
pub proof fn law_limits_that_are_told(
    m: Map<Seq<char>, Seq<Seq<u8>>>,
    ids: Seq<Seq<char>>,
    id: Seq<char>,
)
    ensures
        limit_snapshots(m, Seq::empty()) == Seq::<SnapshotSpec>::empty(),
        ({
            let s = limit_snapshot(m, Some(id));
            let all = limit_snapshots(m, ids.push(id));
            if s.primary is None && s.secondary is None && s.credits is None {
                all == limit_snapshots(m, ids)
            } else {
                all == limit_snapshots(m, ids).push(s)
            }
        }),
{
    assert(ids.push(id).drop_last() =~= ids);
}

/// The general limit comes first, and is there though the headers tell nothing of it.
pub proof fn law_general_limit_comes_first(
    m: Map<Seq<char>, Seq<Seq<u8>>>,
    ids: Seq<Seq<char>>,
)
    ensures
        all_snapshots(m, ids).len() == 1 + limit_snapshots(m, ids).len(),
        all_snapshots(m, ids)[0] == limit_snapshot(m, None),
        all_snapshots(m, ids).skip(1) == limit_snapshots(m, ids),
{
    assert(all_snapshots(m, ids).skip(1) =~= limit_snapshots(m, ids));
}

// ---- limits in events -------------------------------------------------

/// The window is what an event tells of it.
pub open spec fn is_told_window(w: Option<WindowSpec>, v: Option<JsonSpec>) -> bool {
    match v {
        Some(x) => match x.get("used_percent"@) {
            Some(JsonSpec::Number(n)) => w matches Some(y) && {
                &&& y.used_percent == n
                &&& y.window_minutes == x.get_i64("window_minutes"@)
                &&& y.resets_at == x.get_i64("reset_at"@)
            },
            _ => w is None,
        },
        None => w is None,
    }
}

/// What an event tells of a limit, each value from its own place.
pub proof fn law_event_tells_a_limit(e: JsonSpec)
    ensures
        e.get("type"@) != Some(JsonSpec::Str("codex.rate_limits"@)) ==> event_snapshot(e) is None,
        e.get("type"@) == Some(JsonSpec::Str("codex.rate_limits"@)) ==> (event_snapshot(
            e,
        ) matches Some(s) && {
            &&& is_told_window(s.primary, e.get2("rate_limits"@, "primary"@))
            &&& is_told_window(s.secondary, e.get2("rate_limits"@, "secondary"@))
            &&& s.limit_name is None
            &&& match e.get("metered_limit_name"@) {
                Some(JsonSpec::Str(n)) => s.limit_id == limit_id_of(n),
                Some(_) => s.limit_id == "codex"@,
                None => match e.get("limit_name"@) {
                    Some(JsonSpec::Str(n)) => s.limit_id == limit_id_of(n),
                    _ => s.limit_id == "codex"@,
                },
            }
            &&& s.credits is Some <==> (e.get2("credits"@, "has_credits"@) matches Some(
                JsonSpec::Bool(_),
            )) && (e.get2("credits"@, "unlimited"@) matches Some(JsonSpec::Bool(_)))
            &&& s.credits matches Some(c) ==> {
                &&& e.get2("credits"@, "has_credits"@) == Some(JsonSpec::Bool(c.has_credits))
                &&& e.get2("credits"@, "unlimited"@) == Some(JsonSpec::Bool(c.unlimited))
                &&& e.get("credits"@) matches Some(v) && c.balance == v.get_str("balance"@)
            }
        }),
{
}

/// The events on lines tell of limits in the order of the lines.
pub proof fn law_events_tell_in_order(ls: Seq<Seq<char>>, line: Seq<char>)
    ensures
        line_snapshots(Seq::empty()) == Seq::<SnapshotSpec>::empty(),
        ({
            let told = match line_item(line) {
                Some(StreamItemSpec::Event(e)) => event_snapshot(e),
                _ => None,
            };
            line_snapshots(ls.push(line)) == match told {
                Some(s) => line_snapshots(ls).push(s),
                None => line_snapshots(ls),
            }
        }),
{
    assert(ls.push(line).drop_last() =~= ls);
}

/// The request that makes the upstream report the usage streams, is not stored, and says
/// one short thing.
pub proof fn law_usage_request()
    ensures
        usage_request().get_str("model"@) == Some("gpt-5.5"@),
        usage_request().get_bool("stream"@) == Some(true),
        usage_request().get_bool("store"@) == Some(false),
        usage_request().get_str("instructions"@) == Some(Seq::<char>::empty()),
        usage_request().get("input"@) matches Some(JsonSpec::Array(v)) && v.len() == 1
            && v[0].get_str("role"@) == Some("user"@),
{
    reveal_strlit("model");
    reveal_strlit("instructions");
    reveal_strlit("input");
    reveal_strlit("store");
    reveal_strlit("stream");
    reveal_strlit("type");
    reveal_strlit("role");
    reveal_strlit("content");
    assert("model"@.len() == 5 && "model"@[0] == 'm');
    assert("input"@.len() == 5 && "input"@[0] == 'i');
    assert("store"@.len() == 5 && "store"@[0] == 's');
    assert("instructions"@.len() == 12 && "stream"@.len() == 6);
    assert("type"@.len() == 4 && "type"@[0] == 't');
    assert("role"@.len() == 4 && "role"@[0] == 'r');
    assert("content"@.len() == 7);
}

/// The model of a snapshot holds its fields.
pub proof fn law_snapshot_is_modelled(s: crate::usage::RateLimitSnapshot)
    ensures
        s@.limit_id == s.limit_id@,
        s@.limit_name == opt_view(s.limit_name),
        s@.primary is Some == s.primary is Some,
        s.primary matches Some(w) ==> s@.primary->0.used_percent == w.used_percent@
            && s@.primary->0.window_minutes == w.window_minutes && s@.primary->0.resets_at
            == w.resets_at,
        s@.secondary is Some == s.secondary is Some,
        s.secondary matches Some(w) ==> s@.secondary->0.used_percent == w.used_percent@
            && s@.secondary->0.window_minutes == w.window_minutes && s@.secondary->0.resets_at
            == w.resets_at,
        s@.credits is Some == s.credits is Some,
        s.credits matches Some(c) ==> s@.credits->0.has_credits == c.has_credits
            && s@.credits->0.unlimited == c.unlimited && s@.credits->0.balance == opt_view(
            c.balance,
        ),
{
}

// ---- models -----------------------------------------------------------

/// Each model of the upstream is listed at its place, under its own name and with its own
/// limits; the ones that are added are built in, and have no limits.
pub proof fn law_listed_models(v: Seq<UpstreamModel>, i: int)
    requires
        0 <= i < merged_models(v).len(),
    ensures
        ({
            let m = merged_models(v)[i];
            &&& m.object == "model"@
            &&& m.owned_by == "openai"@
            &&& m.created == 1_700_000_000
            &&& i < v.len() ==> {
                &&& m.id == v[i].slug@
                &&& m.context_window == v[i].context_window
                &&& m.max_output_tokens == v[i].max_output_tokens
            }
            &&& i >= v.len() ==> {
                &&& m.context_window is None
                &&& m.max_output_tokens is None
                &&& m.id == "gpt-image-2"@ || m.id == "gpt-image-1.5"@ || m.id == "gpt-image-1"@
                    || m.id == "gpt-image-1-mini"@
            }
        }),
{
    if i >= v.len() {
        lemma_added(crate::models::upstream_models(v), 4, i - v.len());
    }
}

/// The models that are added are built in.
proof fn lemma_added(models: Seq<ModelSpec>, n: int, i: int)
    requires
        0 <= n <= 4,
        0 <= i < crate::models::missing_builtins(models, n).len(),
    ensures
        ({
            let m = crate::models::missing_builtins(models, n)[i];
            &&& m == listed(m.id, None, None)
            &&& m.id == "gpt-image-2"@ || m.id == "gpt-image-1.5"@ || m.id == "gpt-image-1"@ || m.id
                == "gpt-image-1-mini"@
        }),
    decreases n,
{
    if n > 0 {
        let rest = crate::models::missing_builtins(models, n - 1);
        let b = crate::config::BUILTIN_MODELS@;
        assert(b[0]@ == "gpt-image-2"@ && b[1]@ == "gpt-image-1.5"@ && b[2]@ == "gpt-image-1"@
            && b[3]@ == "gpt-image-1-mini"@);
        if i < rest.len() {
            lemma_added(models, n - 1, i);
        }
    }
}

/// Each of the four image models is listed, whatever the upstream lists.
pub proof fn law_image_models_are_listed(v: Seq<UpstreamModel>)
    ensures
        has_model(merged_models(v), "gpt-image-2"@),
        has_model(merged_models(v), "gpt-image-1.5"@),
        has_model(merged_models(v), "gpt-image-1"@),
        has_model(merged_models(v), "gpt-image-1-mini"@),
{
    crate::models::law_builtins_are_listed(v, 0);
    crate::models::law_builtins_are_listed(v, 1);
    crate::models::law_builtins_are_listed(v, 2);
    crate::models::law_builtins_are_listed(v, 3);
}

// ---- the environment --------------------------------------------------

/// The auth file is where the environment says, below the home directory unless the path
/// is absolute, and in `auth.json` where it says nothing.
pub proof fn law_auth_file_place(path: Seq<char>, home: Seq<char>)
    ensures
        auth_path_of(Some(path), true, Some(home)) == PathSpec::At(path),
        auth_path_of(Some(path), true, None) == PathSpec::At(path),
        auth_path_of(Some(path), false, Some(home)) == (PathSpec::Below { home, path }),
        auth_path_of(None, false, Some(home)) == (PathSpec::Below { home, path: "auth.json"@ }),
        auth_path_of(Some(path), false, None) == (PathSpec::Below { home: "~"@, path }),
{
}

/// The port is the one that the environment names, where it is one, else 8080.
pub proof fn law_port(s: Seq<char>)
    ensures
        port_of(None) == 8080,
        u64_text(s) matches Some(n) ==> (n <= 65535 ==> port_of(Some(s)) == n),
        u64_text(s) matches Some(n) ==> (n > 65535 ==> port_of(Some(s)) == 8080),
        u64_text(s) is None ==> port_of(Some(s)) == 8080,
{
}

/// A header token keeps each visible ASCII character and each space at its place, and has
/// an underscore for each other.
pub proof fn law_header_token(s: Seq<char>, i: int)
    requires
        0 <= i < s.len(),
    ensures
        header_token(s).len() == s.len(),
        ' ' <= s[i] <= '~' ==> header_token(s)[i] == s[i],
        !(' ' <= s[i] <= '~') ==> header_token(s)[i] == '_',
{
}

/// The user agent names the proxy's originator and version, the system, and the terminal.
pub proof fn law_user_agent(
    version: Seq<char>,
    os: Seq<char>,
    os_version: Seq<char>,
    arch: Seq<char>,
    terminal: Seq<char>,
)
    ensures
        user_agent_candidate(version, os, os_version, Some(arch), terminal) == "codex_cli_rs"@ + "/"@
            + version + " ("@ + os + " "@ + os_version + "; "@ + arch + ") "@ + terminal,
        user_agent_candidate(version, os, os_version, None, terminal) == user_agent_candidate(
            version,
            os,
            os_version,
            Some("unknown"@),
            terminal,
        ),
{
}

/// The terminal is the program that the environment names, with its version where it
/// gives one, else WezTerm, else the kind of terminal, else unknown.
pub proof fn law_terminal(p: Seq<char>, v: Seq<char>, w: Option<Seq<char>>, t: Option<Seq<char>>)
    requires
        trim(p).len() > 0,
        trim(v).len() > 0,
    ensures
        terminal_token(Some(p), Some(v), w, t) == header_token(p + "/"@ + v),
        terminal_token(Some(p), None, w, t) == header_token(p),
        terminal_token(None, Some(v), Some(p), t) == header_token("WezTerm/"@ + p),
        terminal_token(None, Some(v), None, Some(p)) == header_token(p),
        terminal_token(None, Some(v), None, None) == "unknown"@,
{
}

} // verus!
