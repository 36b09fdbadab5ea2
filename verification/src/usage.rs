//! Usage: the rate limits and credits that the upstream reports in headers and
//! events.

use vstd::prelude::*;

use crate::config::UPSTREAM_BASE;
use crate::headers::{header_map, header_names, header_str, parse_header_str};
use crate::json::{
    array_of, items_view, opt_json, put, FloatNumber, Json, JsonNumber, JsonSpec, NumberSpec,
};
use crate::json_codec::{float_text, opt_bits, read_float};
use crate::sse::{line_item, read_line_item, StreamItem, StreamItemSpec};
use crate::text::{
    after_prefix, ascending, ascii_lower, before_suffix, concat, concat3, eq_ignore_ascii_case,
    i64_text, insert_in_order, is_empty, lines, lines_of, opt_str_view, opt_view, parse_i64,
    replace_char, replaced, str_eq, strip_prefix, strip_suffix, texts, to_ascii_lower, trim,
    trimmed,
};

verus! {

// ---- snapshots --------------------------------------------------------

/// The answer of the usage endpoint.
#[derive(Debug)]
pub struct UsageResponse {
    pub object: &'static str,
    pub rate_limits: Vec<RateLimitSnapshot>,
}

/// What is known of one limit.
#[derive(Debug)]
pub struct RateLimitSnapshot {
    pub limit_id: String,
    pub limit_name: Option<String>,
    pub primary: Option<RateLimitWindow>,
    pub secondary: Option<RateLimitWindow>,
    pub credits: Option<CreditsSnapshot>,
}

/// How far a window of a limit is used up.
#[derive(Debug)]
pub struct RateLimitWindow {
    pub used_percent: JsonNumber,
    pub window_minutes: Option<i64>,
    pub resets_at: Option<i64>,
}

/// What is known of the credits.
#[derive(Debug)]
pub struct CreditsSnapshot {
    pub has_credits: bool,
    pub unlimited: bool,
    pub balance: Option<String>,
}

/// What a window is.
#[verifier::ext_equal]
pub struct WindowSpec {
    pub used_percent: NumberSpec,
    pub window_minutes: Option<i64>,
    pub resets_at: Option<i64>,
}

/// What credits are.
#[verifier::ext_equal]
pub struct CreditsSpec {
    pub has_credits: bool,
    pub unlimited: bool,
    pub balance: Option<Seq<char>>,
}

/// What a snapshot is.
#[verifier::ext_equal]
pub struct SnapshotSpec {
    pub limit_id: Seq<char>,
    pub limit_name: Option<Seq<char>>,
    pub primary: Option<WindowSpec>,
    pub secondary: Option<WindowSpec>,
    pub credits: Option<CreditsSpec>,
}

impl View for RateLimitWindow {
    type V = WindowSpec;

    open spec fn view(&self) -> WindowSpec {
        WindowSpec {
            used_percent: self.used_percent@,
            window_minutes: self.window_minutes,
            resets_at: self.resets_at,
        }
    }
}

impl View for CreditsSnapshot {
    type V = CreditsSpec;

    open spec fn view(&self) -> CreditsSpec {
        CreditsSpec {
            has_credits: self.has_credits,
            unlimited: self.unlimited,
            balance: opt_view(self.balance),
        }
    }
}

/// A window that may be absent.
pub open spec fn opt_window(w: Option<RateLimitWindow>) -> Option<WindowSpec> {
    match w {
        Some(x) => Some(x@),
        None => None,
    }
}

/// Credits that may be absent.
pub open spec fn opt_credits(c: Option<CreditsSnapshot>) -> Option<CreditsSpec> {
    match c {
        Some(x) => Some(x@),
        None => None,
    }
}

impl View for RateLimitSnapshot {
    type V = SnapshotSpec;

    open spec fn view(&self) -> SnapshotSpec {
        SnapshotSpec {
            limit_id: self.limit_id@,
            limit_name: opt_view(self.limit_name),
            primary: opt_window(self.primary),
            secondary: opt_window(self.secondary),
            credits: opt_credits(self.credits),
        }
    }
}

/// A snapshot that may be absent.
pub open spec fn opt_snapshot(s: Option<RateLimitSnapshot>) -> Option<SnapshotSpec> {
    match s {
        Some(x) => Some(x@),
        None => None,
    }
}

/// What several snapshots are.
pub open spec fn snapshots_view(v: Seq<RateLimitSnapshot>) -> Seq<SnapshotSpec> {
    v.map_values(|s: RateLimitSnapshot| s@)
}

// ---- numbers and flags in headers -------------------------------------

/// The bits of the number that a header holds.
pub open spec fn header_number(m: Map<Seq<char>, Seq<Seq<u8>>>, name: Seq<char>) -> Option<u64> {
    match header_str(m, name) {
        Some(s) => float_text(s),
        None => None,
    }
}

/// The integer that a header holds.
pub open spec fn header_i64(m: Map<Seq<char>, Seq<Seq<u8>>>, name: Seq<char>) -> Option<i64> {
    match header_str(m, name) {
        Some(s) => i64_text(s),
        None => None,
    }
}

/// The flag that a text holds: `true` or `false` in any case, or `1` or `0`.
pub open spec fn flag_text(s: Seq<char>) -> Option<bool> {
    if ascii_lower(s) == ascii_lower("true"@) || s == "1"@ {
        Some(true)
    } else if ascii_lower(s) == ascii_lower("false"@) || s == "0"@ {
        Some(false)
    } else {
        None
    }
}

/// The flag that a header holds.
pub open spec fn header_flag(m: Map<Seq<char>, Seq<Seq<u8>>>, name: Seq<char>) -> Option<bool> {
    match header_str(m, name) {
        Some(s) => flag_text(s),
        None => None,
    }
}

/// The number that a header holds: any finite one that `str::parse` reads.
pub fn parse_header_f64(
    headers: &axum::http::HeaderMap<axum::http::HeaderValue>,
    name: &str,
) -> (r: Option<FloatNumber>)
    ensures
        opt_bits(r) == header_number(header_map(*headers), name@),
{
    match parse_header_str(headers, name) {
        Some(s) => read_float(s.as_str()),
        None => None,
    }
}

/// The integer that a header holds.
pub fn parse_header_i64(
    headers: &axum::http::HeaderMap<axum::http::HeaderValue>,
    name: &str,
) -> (r: Option<i64>)
    ensures
        r == header_i64(header_map(*headers), name@),
{
    match parse_header_str(headers, name) {
        Some(s) => parse_i64(s.as_str()),
        None => None,
    }
}

/// The flag that a text holds.
pub fn parse_flag(s: &str) -> (r: Option<bool>)
    ensures
        r == flag_text(s@),
{
    if eq_ignore_ascii_case(s, "true") || str_eq(s, "1") {
        Some(true)
    } else if eq_ignore_ascii_case(s, "false") || str_eq(s, "0") {
        Some(false)
    } else {
        None
    }
}

/// The flag that a header holds.
pub fn parse_header_bool(
    headers: &axum::http::HeaderMap<axum::http::HeaderValue>,
    name: &str,
) -> (r: Option<bool>)
    ensures
        r == header_flag(header_map(*headers), name@),
{
    match parse_header_str(headers, name) {
        Some(s) => parse_flag(s.as_str()),
        None => None,
    }
}

// ---- limits -----------------------------------------------------------

/// A limit's name as its identifier.
pub open spec fn limit_id_of(name: Seq<char>) -> Seq<char> {
    replace_char(ascii_lower(trim(name)), '-', '_')
}

/// The limit that a header name reports the use of.
pub open spec fn name_limit(header_name: Seq<char>) -> Option<Seq<char>> {
    match before_suffix(header_name, "-primary-used-percent"@) {
        Some(prefix) => match after_prefix(prefix, "x-"@) {
            Some(limit) => Some(limit_id_of(limit)),
            None => None,
        },
        None => None,
    }
}

/// A limit's name as its identifier.
pub fn normalize_limit_id(name: &str) -> (r: String)
    ensures
        r@ == limit_id_of(name@),
{
    let t = trimmed(name);
    let l = to_ascii_lower(t.as_str());
    replaced(l.as_str(), '-', '_')
}

/// The limit that a header name reports the use of.
pub fn header_name_to_limit_id(header_name: &str) -> (r: Option<String>)
    ensures
        opt_view(r) == name_limit(header_name@),
{
    match strip_suffix(header_name, "-primary-used-percent") {
        Some(prefix) => match strip_prefix(prefix.as_str(), "x-") {
            Some(limit) => Some(normalize_limit_id(limit.as_str())),
            None => None,
        },
        None => None,
    }
}

/// Whether a number is zero, of either sign.
pub open spec fn is_zero(bits: u64) -> bool {
    bits == 0 || bits == 0x8000_0000_0000_0000
}

/// The window that a used share, a length and a reset time tell of; none where
/// they tell nothing.
pub open spec fn window_of(used: Option<u64>, minutes: Option<i64>, reset: Option<i64>) -> Option<WindowSpec> {
    match used {
        Some(f) => if !is_zero(f) || (minutes matches Some(n) && n != 0) || reset is Some {
            Some(
                WindowSpec {
                    used_percent: NumberSpec::Float(f),
                    window_minutes: minutes,
                    resets_at: reset,
                },
            )
        } else {
            None
        },
        None => None,
    }
}

/// The window that three headers tell of.
pub open spec fn header_window(
    m: Map<Seq<char>, Seq<Seq<u8>>>,
    used: Seq<char>,
    minutes: Seq<char>,
    reset: Seq<char>,
) -> Option<WindowSpec> {
    window_of(header_number(m, used), header_i64(m, minutes), header_i64(m, reset))
}

/// The text without white space around it, where anything is left.
pub open spec fn filled(s: Option<Seq<char>>) -> Option<Seq<char>> {
    match s {
        Some(t) => if trim(t).len() > 0 {
            Some(trim(t))
        } else {
            None
        },
        None => None,
    }
}

/// The credits that the headers tell of.
pub open spec fn header_credits(m: Map<Seq<char>, Seq<Seq<u8>>>) -> Option<CreditsSpec> {
    match (
        header_flag(m, "x-codex-credits-has-credits"@),
        header_flag(m, "x-codex-credits-unlimited"@),
    ) {
        (Some(has_credits), Some(unlimited)) => Some(
            CreditsSpec {
                has_credits,
                unlimited,
                balance: filled(header_str(m, "x-codex-credits-balance"@)),
            },
        ),
        _ => None,
    }
}

/// A limit's name as it stands in header names.
pub open spec fn header_limit(limit: Option<Seq<char>>) -> Seq<char> {
    let name = match filled(limit) {
        Some(l) => l,
        None => "codex"@,
    };
    replace_char(ascii_lower(name), '_', '-')
}

/// What the headers tell of a limit.
pub open spec fn limit_snapshot(m: Map<Seq<char>, Seq<Seq<u8>>>, limit: Option<Seq<char>>) -> SnapshotSpec {
    let name = header_limit(limit);
    let p = "x-"@ + name;
    SnapshotSpec {
        limit_id: limit_id_of(name),
        limit_name: filled(header_str(m, p + "-limit-name"@)),
        primary: header_window(
            m,
            p + "-primary-used-percent"@,
            p + "-primary-window-minutes"@,
            p + "-primary-reset-at"@,
        ),
        secondary: header_window(
            m,
            p + "-secondary-used-percent"@,
            p + "-secondary-window-minutes"@,
            p + "-secondary-reset-at"@,
        ),
        credits: header_credits(m),
    }
}

/// Whether a snapshot tells anything.
pub open spec fn tells(s: SnapshotSpec) -> bool {
    s.primary is Some || s.secondary is Some || s.credits is Some
}

/// The window that a used share, a length and a reset time tell of.
pub fn make_window(used: Option<FloatNumber>, minutes: Option<i64>, reset: Option<i64>) -> (r:
    Option<RateLimitWindow>)
    ensures
        opt_window(r) == window_of(opt_bits(used), minutes, reset),
{
    match used {
        Some(f) => {
            let bits = f.to_bits();
            let zero = bits == 0 || bits == 0x8000_0000_0000_0000;
            let long = match minutes {
                Some(n) => n != 0,
                None => false,
            };
            if !zero || long || reset.is_some() {
                Some(
                    RateLimitWindow {
                        used_percent: JsonNumber::Float(f),
                        window_minutes: minutes,
                        resets_at: reset,
                    },
                )
            } else {
                None
            }
        },
        None => None,
    }
}

/// The window that three headers tell of.
pub fn parse_rate_limit_window(
    headers: &axum::http::HeaderMap<axum::http::HeaderValue>,
    used_percent_header: &str,
    window_minutes_header: &str,
    resets_at_header: &str,
) -> (r: Option<RateLimitWindow>)
    ensures
        opt_window(r) == header_window(
            header_map(*headers),
            used_percent_header@,
            window_minutes_header@,
            resets_at_header@,
        ),
{
    let used = parse_header_f64(headers, used_percent_header);
    let minutes = parse_header_i64(headers, window_minutes_header);
    let reset = parse_header_i64(headers, resets_at_header);
    make_window(used, minutes, reset)
}

/// The text without white space around it, where anything is left.
fn fill(s: Option<String>) -> (r: Option<String>)
    ensures
        opt_view(r) == filled(opt_view(s)),
{
    match s {
        Some(t) => {
            let x = trimmed(t.as_str());
            if is_empty(x.as_str()) {
                None
            } else {
                Some(x)
            }
        },
        None => None,
    }
}

/// The credits that the headers tell of.
pub fn parse_credits_snapshot(
    headers: &axum::http::HeaderMap<axum::http::HeaderValue>,
) -> (r: Option<CreditsSnapshot>)
    ensures
        opt_credits(r) == header_credits(header_map(*headers)),
{
    let has = parse_header_bool(headers, "x-codex-credits-has-credits");
    let unl = parse_header_bool(headers, "x-codex-credits-unlimited");
    match (has, unl) {
        (Some(has_credits), Some(unlimited)) => {
            let balance = fill(parse_header_str(headers, "x-codex-credits-balance"));
            Some(CreditsSnapshot { has_credits, unlimited, balance })
        },
        _ => None,
    }
}

/// A limit's name as it stands in header names.
fn make_header_limit(limit_id: Option<&str>) -> (r: String)
    ensures
        r@ == header_limit(opt_str_view(limit_id)),
{
    let owned = match limit_id {
        Some(l) => Some(l.to_owned()),
        None => None,
    };
    let name = match fill(owned) {
        Some(l) => l,
        None => "codex".to_owned(),
    };
    let l = to_ascii_lower(name.as_str());
    replaced(l.as_str(), '_', '-')
}

/// What the headers tell of a limit.
pub fn parse_rate_limit_for_limit(
    headers: &axum::http::HeaderMap<axum::http::HeaderValue>,
    limit_id: Option<&str>,
) -> (r: RateLimitSnapshot)
    ensures
        r@ == limit_snapshot(header_map(*headers), opt_str_view(limit_id)),
{
    let name = make_header_limit(limit_id);
    let p = concat("x-", name.as_str());
    let primary = parse_rate_limit_window(
        headers,
        concat(p.as_str(), "-primary-used-percent").as_str(),
        concat(p.as_str(), "-primary-window-minutes").as_str(),
        concat(p.as_str(), "-primary-reset-at").as_str(),
    );
    let secondary = parse_rate_limit_window(
        headers,
        concat(p.as_str(), "-secondary-used-percent").as_str(),
        concat(p.as_str(), "-secondary-window-minutes").as_str(),
        concat(p.as_str(), "-secondary-reset-at").as_str(),
    );
    let credits = parse_credits_snapshot(headers);
    let limit_name = fill(
        parse_header_str(headers, concat(p.as_str(), "-limit-name").as_str()),
    );
    RateLimitSnapshot {
        limit_id: normalize_limit_id(name.as_str()),
        limit_name,
        primary,
        secondary,
        credits,
    }
}

/// Whether a snapshot tells anything.
pub fn has_rate_limit_data(snapshot: &RateLimitSnapshot) -> (r: bool)
    ensures
        r == tells(snapshot@),
{
    snapshot.primary.is_some() || snapshot.secondary.is_some() || snapshot.credits.is_some()
}

// ---- all limits -------------------------------------------------------

/// Whether the headers report the use of a limit other than the general one.
pub open spec fn reports(m: Map<Seq<char>, Seq<Seq<u8>>>, id: Seq<char>) -> bool {
    id != "codex"@ && exists|name: Seq<char>|
        #[trigger] m.contains_key(name) && name_limit(ascii_lower(name)) == Some(id)
}

/// The limits that the headers report the use of, in order.
pub open spec fn are_reported(m: Map<Seq<char>, Seq<Seq<u8>>>, ids: Seq<Seq<char>>) -> bool {
    ascending(ids) && forall|id: Seq<char>| ids.contains(id) <==> #[trigger] reports(m, id)
}

/// What the headers tell of several limits, where they tell anything.
pub open spec fn limit_snapshots(m: Map<Seq<char>, Seq<Seq<u8>>>, ids: Seq<Seq<char>>) -> Seq<
    SnapshotSpec,
>
    decreases ids.len(),
{
    if ids.len() == 0 {
        seq![]
    } else {
        let rest = limit_snapshots(m, ids.drop_last());
        let s = limit_snapshot(m, Some(ids.last()));
        if tells(s) {
            rest.push(s)
        } else {
            rest
        }
    }
}

/// What the headers tell of all limits: the general one first, then the others in
/// the order of their identifiers.
pub open spec fn all_snapshots(m: Map<Seq<char>, Seq<Seq<u8>>>, ids: Seq<Seq<char>>) -> Seq<
    SnapshotSpec,
> {
    seq![limit_snapshot(m, None)] + limit_snapshots(m, ids)
}

/// Whether one of the first `n` header names reports the use of a limit other
/// than the general one.
spec fn named(names: Seq<Seq<char>>, n: int, id: Seq<char>) -> bool {
    id != "codex"@ && exists|k: int|
        0 <= k < n && name_limit(ascii_lower(#[trigger] names[k])) == Some(id)
}

/// One more header name.
proof fn lemma_named_step(names: Seq<Seq<char>>, n: int, id: Seq<char>)
    requires
        0 <= n < names.len(),
    ensures
        named(names, n + 1, id) <==> (named(names, n, id) || (id != "codex"@ && name_limit(
            ascii_lower(names[n]),
        ) == Some(id))),
{
    if named(names, n, id) {
        let k = choose|k: int|
            0 <= k < n && name_limit(ascii_lower(#[trigger] names[k])) == Some(id);
        assert(name_limit(ascii_lower(names[k])) == Some(id));
    }
    if name_limit(ascii_lower(names[n])) == Some(id) {
        assert(name_limit(ascii_lower(names[n])) == Some(id));
    }
}

/// The limits that the headers report the use of.
fn reported_limits(headers: &axum::http::HeaderMap<axum::http::HeaderValue>) -> (r: Vec<String>)
    ensures
        are_reported(header_map(*headers), texts(r@)),
{
    let names = header_names(headers);
    let ghost m = header_map(*headers);
    let ghost all = texts(names@);
    let mut ids: Vec<String> = Vec::new();
    let mut i: usize = 0;
    while i < names.len()
        invariant
            i <= names@.len(),
            all == texts(names@),
            ascending(texts(ids@)),
            forall|id: Seq<char>|
                texts(ids@).contains(id) <==> #[trigger] named(all, i as int, id),
        decreases names@.len() - i,
    {
        let ghost before = texts(ids@);
        let lower = to_ascii_lower(names[i].as_str());
        proof {
            assert(all[i as int] == names@[i as int]@);
        }
        match header_name_to_limit_id(lower.as_str()) {
            Some(id) => {
                if !str_eq(id.as_str(), "codex") {
                    insert_in_order(&mut ids, id);
                }
            },
            None => {},
        }
        proof {
            assert forall|x: Seq<char>|
                texts(ids@).contains(x) <==> #[trigger] named(all, i + 1, x) by {
                lemma_named_step(all, i as int, x);
                assert(before.contains(x) <==> named(all, i as int, x));
            }
        }
        i = i + 1;
    }
    proof {
        assert forall|id: Seq<char>| texts(ids@).contains(id) <==> #[trigger] reports(m, id) by {
            assert(texts(ids@).contains(id) <==> named(all, i as int, id));
            if named(all, i as int, id) {
                let k = choose|k: int|
                    0 <= k < i && name_limit(ascii_lower(#[trigger] all[k])) == Some(id);
                assert(all.contains(all[k]));
                assert(m.contains_key(all[k]));
            }
            if reports(m, id) {
                let name = choose|name: Seq<char>|
                    #[trigger] m.contains_key(name) && name_limit(ascii_lower(name)) == Some(id);
                assert(all.contains(name));
                let k = choose|k: int| 0 <= k < all.len() && all[k] == name;
                assert(name_limit(ascii_lower(all[k])) == Some(id));
            }
        }
    }
    ids
}

/// What the headers tell of all limits.
pub fn parse_all_rate_limits(
    headers: &axum::http::HeaderMap<axum::http::HeaderValue>,
) -> (r: Vec<RateLimitSnapshot>)
    ensures
        exists|ids: Seq<Seq<char>>| #[trigger]
            are_reported(header_map(*headers), ids) && snapshots_view(r@) == all_snapshots(
                header_map(*headers),
                ids,
            ),
{
    let ghost m = header_map(*headers);
    let ids = reported_limits(headers);
    let ghost all = texts(ids@);
    let mut out: Vec<RateLimitSnapshot> = Vec::new();
    let first = parse_rate_limit_for_limit(headers, None);
    let ghost f = first@;
    out.push(first);
    proof {
        assert(snapshots_view(out@) =~= seq![f] + limit_snapshots(m, all.take(0)));
    }
    let mut i: usize = 0;
    while i < ids.len()
        invariant
            i <= ids@.len(),
            all == texts(ids@),
            m == header_map(*headers),
            snapshots_view(out@) == seq![f] + limit_snapshots(m, all.take(i as int)),
        decreases ids@.len() - i,
    {
        proof {
            assert(all.take(i + 1).drop_last() =~= all.take(i as int));
            assert(all.take(i + 1).last() == ids@[i as int]@);
        }
        let s = parse_rate_limit_for_limit(headers, Some(ids[i].as_str()));
        if has_rate_limit_data(&s) {
            let ghost before = out@;
            out.push(s);
            proof {
                assert(snapshots_view(out@) =~= snapshots_view(before).push(s@));
                assert(snapshots_view(out@) =~= seq![f] + limit_snapshots(m, all.take(i + 1)));
            }
        }
        i = i + 1;
    }
    proof {
        assert(all.take(all.len() as int) =~= all);
    }
    out
}

// ---- events -----------------------------------------------------------

/// The window that an event tells of.
pub open spec fn event_window(window: Option<JsonSpec>) -> Option<WindowSpec> {
    match window {
        Some(w) => match w.get("used_percent"@) {
            Some(JsonSpec::Number(n)) => Some(
                WindowSpec {
                    used_percent: n,
                    window_minutes: w.get_i64("window_minutes"@),
                    resets_at: w.get_i64("reset_at"@),
                },
            ),
            _ => None,
        },
        None => None,
    }
}

/// The credits that an event tells of.
pub open spec fn event_credits(event: JsonSpec) -> Option<CreditsSpec> {
    match event.get("credits"@) {
        Some(c) => match (c.get_bool("has_credits"@), c.get_bool("unlimited"@)) {
            (Some(has_credits), Some(unlimited)) => Some(
                CreditsSpec { has_credits, unlimited, balance: c.get_str("balance"@) },
            ),
            _ => None,
        },
        None => None,
    }
}

/// The limit that an event is about.
pub open spec fn event_limit(event: JsonSpec) -> Seq<char> {
    let name = match event.get("metered_limit_name"@) {
        Some(v) => Some(v),
        None => event.get("limit_name"@),
    };
    match name {
        Some(JsonSpec::Str(s)) => limit_id_of(s),
        _ => "codex"@,
    }
}

/// What an event tells of a limit.
pub open spec fn event_snapshot(event: JsonSpec) -> Option<SnapshotSpec> {
    if event.get_str("type"@) == Some("codex.rate_limits"@) {
        Some(
            SnapshotSpec {
                limit_id: event_limit(event),
                limit_name: None,
                primary: event_window(event.get2("rate_limits"@, "primary"@)),
                secondary: event_window(event.get2("rate_limits"@, "secondary"@)),
                credits: event_credits(event),
            },
        )
    } else {
        None
    }
}

/// What the event on a line tells of a limit.
pub open spec fn line_snapshot(line: Seq<char>) -> Option<SnapshotSpec> {
    match line_item(line) {
        Some(StreamItemSpec::Event(event)) => event_snapshot(event),
        _ => None,
    }
}

/// What the events on several lines tell of limits.
pub open spec fn line_snapshots(ls: Seq<Seq<char>>) -> Seq<SnapshotSpec>
    decreases ls.len(),
{
    if ls.len() == 0 {
        seq![]
    } else {
        match line_snapshot(ls.last()) {
            Some(s) => line_snapshots(ls.drop_last()).push(s),
            None => line_snapshots(ls.drop_last()),
        }
    }
}

/// The window that an event tells of.
pub fn map_event_window(window: Option<&Json>) -> (r: Option<RateLimitWindow>)
    ensures
        opt_window(r) == event_window(opt_json(window)),
{
    match window {
        Some(w) => match w.get("used_percent") {
            Some(Json::Number(n)) => Some(
                RateLimitWindow {
                    used_percent: n.clone(),
                    window_minutes: w.get_i64("window_minutes"),
                    resets_at: w.get_i64("reset_at"),
                },
            ),
            _ => None,
        },
        None => None,
    }
}

/// The credits that an event tells of.
fn read_event_credits(event: &Json) -> (r: Option<CreditsSnapshot>)
    ensures
        opt_credits(r) == event_credits(event@),
{
    match event.get("credits") {
        Some(c) => match (c.get_bool("has_credits"), c.get_bool("unlimited")) {
            (Some(has_credits), Some(unlimited)) => {
                let balance = match c.get_str("balance") {
                    Some(b) => Some(b.to_owned()),
                    None => None,
                };
                Some(CreditsSnapshot { has_credits, unlimited, balance })
            },
            _ => None,
        },
        None => None,
    }
}

/// The limit that an event is about.
fn read_event_limit(event: &Json) -> (r: String)
    ensures
        r@ == event_limit(event@),
{
    let name = match event.get("metered_limit_name") {
        Some(v) => Some(v),
        None => event.get("limit_name"),
    };
    match name {
        Some(Json::Str(s)) => normalize_limit_id(s.as_str()),
        _ => "codex".to_owned(),
    }
}

/// What an event tells of a limit.
pub fn parse_rate_limit_event(event: &Json) -> (r: Option<RateLimitSnapshot>)
    ensures
        opt_snapshot(r) == event_snapshot(event@),
{
    if !event.has_str("type", "codex.rate_limits") {
        return None;
    }
    Some(
        RateLimitSnapshot {
            limit_id: read_event_limit(event),
            limit_name: None,
            primary: map_event_window(event.get2("rate_limits", "primary")),
            secondary: map_event_window(event.get2("rate_limits", "secondary")),
            credits: read_event_credits(event),
        },
    )
}

/// What the event on a line tells of a limit.
fn read_line_snapshot(line: &str) -> (r: Option<RateLimitSnapshot>)
    ensures
        opt_snapshot(r) == line_snapshot(line@),
{
    match read_line_item(line) {
        Some(StreamItem::Event(event)) => parse_rate_limit_event(&event),
        _ => None,
    }
}

/// What the events in a text tell of limits.
pub fn parse_rate_limit_events(raw: &str) -> (r: Vec<RateLimitSnapshot>)
    ensures
        snapshots_view(r@) == line_snapshots(lines(raw@)),
{
    let ls = lines_of(raw);
    let ghost all = texts(ls@);
    let mut out: Vec<RateLimitSnapshot> = Vec::new();
    let mut i: usize = 0;
    proof {
        assert(snapshots_view(out@) =~= line_snapshots(all.take(0)));
    }
    while i < ls.len()
        invariant
            i <= ls@.len(),
            all == texts(ls@),
            snapshots_view(out@) == line_snapshots(all.take(i as int)),
        decreases ls@.len() - i,
    {
        proof {
            assert(all.take(i + 1).drop_last() =~= all.take(i as int));
            assert(all.take(i + 1).last() == ls@[i as int]@);
        }
        match read_line_snapshot(ls[i].as_str()) {
            Some(s) => {
                let ghost before = out@;
                out.push(s);
                proof {
                    assert(snapshots_view(out@) =~= snapshots_view(before).push(s@));
                }
            },
            None => {},
        }
        i = i + 1;
    }
    proof {
        assert(all.take(all.len() as int) =~= all);
    }
    out
}

// ---- one snapshot per limit -------------------------------------------

/// Whether a limit is among several snapshots.
pub open spec fn has_limit(v: Seq<SnapshotSpec>, id: Seq<char>) -> bool {
    exists|i: int| 0 <= i < v.len() && (#[trigger] v[i]).limit_id == id
}

/// The first snapshot of each limit.
pub open spec fn deduped(v: Seq<SnapshotSpec>) -> Seq<SnapshotSpec>
    decreases v.len(),
{
    if v.len() == 0 {
        seq![]
    } else {
        let rest = deduped(v.drop_last());
        if has_limit(rest, v.last().limit_id) {
            rest
        } else {
            rest.push(v.last())
        }
    }
}

/// Whether a limit is among several snapshots.
fn find_limit(v: &Vec<RateLimitSnapshot>, id: &str) -> (r: bool)
    ensures
        r == has_limit(snapshots_view(v@), id@),
{
    let ghost all = snapshots_view(v@);
    let mut i: usize = 0;
    while i < v.len()
        invariant
            i <= v@.len(),
            all == snapshots_view(v@),
            forall|k: int| 0 <= k < i ==> (#[trigger] all[k]).limit_id != id@,
        decreases v@.len() - i,
    {
        proof {
            assert(all[i as int].limit_id == v@[i as int].limit_id@);
        }
        if str_eq(v[i].limit_id.as_str(), id) {
            return true;
        }
        i = i + 1;
    }
    false
}

/// Keeps the first snapshot of each limit.
pub fn dedupe_rate_limits(rate_limits: &mut Vec<RateLimitSnapshot>)
    ensures
        snapshots_view(final(rate_limits)@) == deduped(snapshots_view(old(rate_limits)@)),
{
    let mut given: Vec<RateLimitSnapshot> = Vec::new();
    std::mem::swap(rate_limits, &mut given);
    let ghost items = given@;
    let ghost all = snapshots_view(given@);
    proof {
        assert(snapshots_view(rate_limits@) =~= deduped(all.take(0)));
    }
    for s in it: given
        invariant
            it.seq() == items,
            all == snapshots_view(items),
            snapshots_view(rate_limits@) == deduped(all.take(it.index() as int)),
    {
        let ghost k = it.index() as int;
        proof {
            assert(all.take(k + 1).drop_last() =~= all.take(k));
            assert(all.take(k + 1).last() == s@);
        }
        if !find_limit(rate_limits, s.limit_id.as_str()) {
            let ghost before = rate_limits@;
            rate_limits.push(s);
            proof {
                assert(snapshots_view(rate_limits@) =~= snapshots_view(before).push(s@));
            }
        }
    }
    proof {
        assert(all.take(all.len() as int) =~= all);
    }
}

/// What the headers told, without the snapshots that tell nothing of a limit which
/// the events report.
pub open spec fn told_by_headers(headers: Seq<SnapshotSpec>, events: Seq<SnapshotSpec>) -> Seq<
    SnapshotSpec,
>
    decreases headers.len(),
{
    if headers.len() == 0 {
        seq![]
    } else {
        let rest = told_by_headers(headers.drop_last(), events);
        let s = headers.last();
        if !tells(s) && has_limit(events, s.limit_id) {
            rest
        } else {
            rest.push(s)
        }
    }
}

/// The snapshots that the usage endpoint answers with.
pub open spec fn usage_snapshots(headers: Seq<SnapshotSpec>, events: Seq<SnapshotSpec>) -> Seq<
    SnapshotSpec,
> {
    deduped(told_by_headers(headers, events) + events)
}

/// The answer of the usage endpoint: what the headers told, then what the events
/// tell, the first snapshot of each limit. A header snapshot that tells nothing
/// gives way to what the events report of its limit.
pub fn build_usage(header_limits: Vec<RateLimitSnapshot>, raw: &str) -> (r: UsageResponse)
    ensures
        r.object@ == "codex.usage"@,
        snapshots_view(r.rate_limits@) == usage_snapshots(
            snapshots_view(header_limits@),
            line_snapshots(lines(raw@)),
        ),
{
    let mut more = parse_rate_limit_events(raw);
    let ghost items = header_limits@;
    let ghost all = snapshots_view(header_limits@);
    let ghost b = more@;
    let ghost events = snapshots_view(b);
    let mut limits: Vec<RateLimitSnapshot> = Vec::new();
    proof {
        assert(snapshots_view(limits@) =~= told_by_headers(all.take(0), events));
    }
    for s in it: header_limits
        invariant
            it.seq() == items,
            all == snapshots_view(items),
            more@ == b,
            events == snapshots_view(b),
            snapshots_view(limits@) == told_by_headers(all.take(it.index() as int), events),
    {
        let ghost k = it.index() as int;
        proof {
            assert(all.take(k + 1).drop_last() =~= all.take(k));
            assert(all.take(k + 1).last() == s@);
        }
        if has_rate_limit_data(&s) || !find_limit(&more, s.limit_id.as_str()) {
            let ghost before = limits@;
            limits.push(s);
            proof {
                assert(snapshots_view(limits@) =~= snapshots_view(before).push(s@));
            }
        }
    }
    let ghost a = limits@;
    limits.append(&mut more);
    proof {
        assert(all.take(all.len() as int) =~= all);
        assert(snapshots_view(limits@) =~= snapshots_view(a) + events);
    }
    dedupe_rate_limits(&mut limits);
    UsageResponse { object: "codex.usage", rate_limits: limits }
}

/// The address that usage is asked at.
pub fn usage_url(version: &str) -> (r: String)
    ensures
        r@ == UPSTREAM_BASE@ + "/responses?client_version="@ + version@,
{
    concat3(UPSTREAM_BASE, "/responses?client_version=", version)
}

/// The shortest request that makes the upstream report the usage.
pub open spec fn usage_request() -> JsonSpec {
    JsonSpec::Object(
        map![
            "model"@ => JsonSpec::Str("gpt-5.5"@),
            "instructions"@ => JsonSpec::Str(seq![]),
            "input"@ => JsonSpec::Array(seq![
                JsonSpec::Object(map![
                    "type"@ => JsonSpec::Str("message"@),
                    "role"@ => JsonSpec::Str("user"@),
                    "content"@ => JsonSpec::Array(seq![
                        JsonSpec::Object(map![
                            "type"@ => JsonSpec::Str("input_text"@),
                            "text"@ => JsonSpec::Str("hi"@),
                        ]),
                    ]),
                ]),
            ]),
            "store"@ => JsonSpec::Bool(false),
            "stream"@ => JsonSpec::Bool(true),
        ],
    )
}

/// The shortest request that makes the upstream report the usage.
pub fn usage_body() -> (r: Json)
    ensures
        r@ == usage_request(),
{
    proof {
        reveal_strlit("");
        assert(""@ =~= seq![]);
    }
    let mut part: Vec<(String, Json)> = Vec::new();
    put(&mut part, "type", Json::text("input_text"));
    put(&mut part, "text", Json::text("hi"));
    let mut message: Vec<(String, Json)> = Vec::new();
    put(&mut message, "type", Json::text("message"));
    put(&mut message, "role", Json::text("user"));
    put(&mut message, "content", array_of(Json::Object(part)));
    let mut body: Vec<(String, Json)> = Vec::new();
    put(&mut body, "model", Json::text("gpt-5.5"));
    put(&mut body, "instructions", Json::text(""));
    put(&mut body, "input", array_of(Json::Object(message)));
    put(&mut body, "store", Json::Bool(false));
    put(&mut body, "stream", Json::Bool(true));
    Json::Object(body)
}

// ---- laws -------------------------------------------------------------

/// The usage names each limit at most once.
pub proof fn law_each_limit_once(v: Seq<SnapshotSpec>, i: int, j: int)
    requires
        0 <= i < j < deduped(v).len(),
    ensures
        deduped(v)[i].limit_id != deduped(v)[j].limit_id,
    decreases v.len(),
{
    if v.len() > 0 {
        let rest = deduped(v.drop_last());
        if j < rest.len() {
            law_each_limit_once(v.drop_last(), i, j);
        } else {
            assert(rest[i] == deduped(v)[i]);
        }
    }
}

/// No limit is lost: each that was reported is among the snapshots that are kept.
pub proof fn law_no_limit_is_lost(v: Seq<SnapshotSpec>, id: Seq<char>)
    ensures
        has_limit(deduped(v), id) <==> has_limit(v, id),
    decreases v.len(),
{
    if v.len() > 0 {
        let front = v.drop_last();
        let rest = deduped(front);
        law_no_limit_is_lost(front, id);
        let all = deduped(v);
        if has_limit(v, id) {
            let i = choose|i: int| 0 <= i < v.len() && (#[trigger] v[i]).limit_id == id;
            if i < front.len() {
                assert(front[i].limit_id == id);
                let k = choose|k: int| 0 <= k < rest.len() && (#[trigger] rest[k]).limit_id == id;
                assert(all[k].limit_id == id);
            } else if !has_limit(rest, id) {
                assert(all[all.len() - 1].limit_id == id);
            } else {
                let k = choose|k: int| 0 <= k < rest.len() && (#[trigger] rest[k]).limit_id == id;
                assert(all[k].limit_id == id);
            }
        }
        if has_limit(all, id) {
            let k = choose|k: int| 0 <= k < all.len() && (#[trigger] all[k]).limit_id == id;
            if k < rest.len() {
                assert(rest[k].limit_id == id);
                let i = choose|i: int| 0 <= i < front.len() && (#[trigger] front[i]).limit_id == id;
                assert(v[i].limit_id == id);
            } else {
                assert(v[v.len() - 1].limit_id == id);
            }
        }
    }
}

/// Keeping the first snapshot of each limit twice is keeping it once.
pub proof fn law_dedupe_twice(v: Seq<SnapshotSpec>)
    ensures
        deduped(deduped(v)) == deduped(v),
    decreases v.len(),
{
    lemma_distinct_stays(deduped(v), v);
}

/// Snapshots of different limits all stay.
proof fn lemma_distinct_stays(d: Seq<SnapshotSpec>, v: Seq<SnapshotSpec>)
    requires
        d == deduped(v),
    ensures
        deduped(d) == d,
    decreases v.len(),
{
    if v.len() > 0 {
        let rest = deduped(v.drop_last());
        lemma_distinct_stays(rest, v.drop_last());
        if d.len() > rest.len() {
            assert(d.drop_last() =~= rest);
        }
    }
}

/// What headers tell of a limit is kept before what events tell of it.
pub proof fn law_first_snapshot_is_kept(v: Seq<SnapshotSpec>, w: Seq<SnapshotSpec>)
    ensures
        deduped(v + w).len() >= deduped(v).len(),
        deduped(v + w).take(deduped(v).len() as int) == deduped(v),
    decreases w.len(),
{
    if w.len() == 0 {
        assert(v + w =~= v);
        assert(deduped(v).take(deduped(v).len() as int) =~= deduped(v));
    } else {
        law_first_snapshot_is_kept(v, w.drop_last());
        assert((v + w).drop_last() =~= v + w.drop_last());
        let n = deduped(v).len() as int;
        assert(deduped(v + w).take(n) =~= deduped(v + w.drop_last()).take(n));
    }
}

/// The first snapshot of a limit.
pub open spec fn first_of(v: Seq<SnapshotSpec>, id: Seq<char>) -> Option<SnapshotSpec>
    decreases v.len(),
{
    if v.len() == 0 {
        None
    } else {
        match first_of(v.drop_last(), id) {
            Some(s) => Some(s),
            None => if v.last().limit_id == id {
                Some(v.last())
            } else {
                None
            },
        }
    }
}

/// There is a first snapshot of a limit exactly where the limit is among the
/// snapshots.
proof fn lemma_first_of(v: Seq<SnapshotSpec>, id: Seq<char>)
    ensures
        first_of(v, id) is Some <==> has_limit(v, id),
        first_of(v, id) matches Some(s) ==> s.limit_id == id,
    decreases v.len(),
{
    if v.len() > 0 {
        let front = v.drop_last();
        lemma_first_of(front, id);
        if has_limit(front, id) {
            let i = choose|i: int| 0 <= i < front.len() && (#[trigger] front[i]).limit_id == id;
            assert(v[i].limit_id == id);
        }
        if v.last().limit_id == id {
            assert(v[v.len() - 1].limit_id == id);
        }
        if has_limit(v, id) {
            let i = choose|i: int| 0 <= i < v.len() && (#[trigger] v[i]).limit_id == id;
            if i < front.len() {
                assert(front[i].limit_id == id);
            }
        }
    }
}

/// What is kept of a limit is its first snapshot.
pub proof fn law_kept_is_the_first(v: Seq<SnapshotSpec>, id: Seq<char>)
    ensures
        first_of(deduped(v), id) == first_of(v, id),
    decreases v.len(),
{
    if v.len() > 0 {
        let front = v.drop_last();
        law_kept_is_the_first(front, id);
        let rest = deduped(front);
        lemma_first_of(rest, v.last().limit_id);
        lemma_first_of(rest, id);
        if !has_limit(rest, v.last().limit_id) {
            assert(deduped(v).drop_last() =~= rest);
        }
    }
}

/// The first snapshot of a limit in two parts.
proof fn lemma_first_of_add(a: Seq<SnapshotSpec>, b: Seq<SnapshotSpec>, id: Seq<char>)
    ensures
        first_of(a + b, id) == match first_of(a, id) {
            Some(s) => Some(s),
            None => first_of(b, id),
        },
    decreases b.len(),
{
    if b.len() == 0 {
        assert(a + b =~= a);
    } else {
        lemma_first_of_add(a, b.drop_last(), id);
        assert((a + b).drop_last() =~= a + b.drop_last());
        assert((a + b).last() == b.last());
    }
}

/// Header snapshots of a limit that all tell nothing give way to the events.
proof fn lemma_nothing_told(headers: Seq<SnapshotSpec>, events: Seq<SnapshotSpec>, id: Seq<char>)
    requires
        has_limit(events, id),
        forall|i: int|
            0 <= i < headers.len() && (#[trigger] headers[i]).limit_id == id ==> !tells(headers[i]),
    ensures
        first_of(told_by_headers(headers, events), id) is None,
    decreases headers.len(),
{
    if headers.len() > 0 {
        let front = headers.drop_last();
        assert forall|i: int| 0 <= i < front.len() && (#[trigger] front[i]).limit_id == id implies
            !tells(front[i]) by {
            assert(front[i] == headers[i]);
        }
        lemma_nothing_told(front, events, id);
        let rest = told_by_headers(front, events);
        let s = headers.last();
        assert(s == headers[headers.len() - 1]);
        if tells(s) || !has_limit(events, s.limit_id) {
            assert(told_by_headers(headers, events).drop_last() =~= rest);
        }
    }
}

/// What the events report of a limit is never hidden by headers that tell nothing
/// of it: the answer then has the first snapshot that an event gives.
pub proof fn law_events_are_not_hidden(
    headers: Seq<SnapshotSpec>,
    events: Seq<SnapshotSpec>,
    id: Seq<char>,
)
    requires
        has_limit(events, id),
        forall|i: int|
            0 <= i < headers.len() && (#[trigger] headers[i]).limit_id == id ==> !tells(headers[i]),
    ensures
        first_of(usage_snapshots(headers, events), id) == first_of(events, id),
        first_of(events, id) is Some,
{
    let told = told_by_headers(headers, events);
    lemma_nothing_told(headers, events, id);
    lemma_first_of_add(told, events, id);
    law_kept_is_the_first(told + events, id);
    lemma_first_of(events, id);
}

/// What is kept of the headers' snapshots.
proof fn lemma_told_limits(headers: Seq<SnapshotSpec>, events: Seq<SnapshotSpec>, id: Seq<char>)
    ensures
        first_of(told_by_headers(headers, events), id) is Some ==> first_of(headers, id) is Some,
        first_of(headers, id) is Some ==> first_of(told_by_headers(headers, events), id) is Some
            || has_limit(events, id),
    decreases headers.len(),
{
    if headers.len() > 0 {
        lemma_told_limits(headers.drop_last(), events, id);
        let s = headers.last();
        if tells(s) || !has_limit(events, s.limit_id) {
            assert(told_by_headers(headers, events).drop_last() =~= told_by_headers(
                headers.drop_last(),
                events,
            ));
        }
    }
}

/// The answer names exactly the limits that the headers or the events name.
pub proof fn law_usage_names_every_limit(
    headers: Seq<SnapshotSpec>,
    events: Seq<SnapshotSpec>,
    id: Seq<char>,
)
    ensures
        has_limit(usage_snapshots(headers, events), id) <==> has_limit(headers, id) || has_limit(
            events,
            id,
        ),
{
    let told = told_by_headers(headers, events);
    lemma_told_limits(headers, events, id);
    lemma_first_of_add(told, events, id);
    law_kept_is_the_first(told + events, id);
    lemma_first_of(usage_snapshots(headers, events), id);
    lemma_first_of(headers, id);
    lemma_first_of(events, id);
}

/// What the headers tell of a limit is what the answer has of it, whatever the events
/// report.
pub proof fn law_told_headers_are_kept(
    headers: Seq<SnapshotSpec>,
    events: Seq<SnapshotSpec>,
    id: Seq<char>,
)
    requires
        first_of(headers, id) matches Some(s) && tells(s),
    ensures
        first_of(usage_snapshots(headers, events), id) == first_of(headers, id),
{
    let told = told_by_headers(headers, events);
    lemma_told_first(headers, events, id);
    lemma_first_of_add(told, events, id);
    law_kept_is_the_first(told + events, id);
}

/// The first snapshot of a limit stays the first where it tells something.
proof fn lemma_told_first(headers: Seq<SnapshotSpec>, events: Seq<SnapshotSpec>, id: Seq<char>)
    ensures
        first_of(headers, id) is None ==> first_of(told_by_headers(headers, events), id) is None,
        first_of(headers, id) matches Some(s) ==> (tells(s) ==> first_of(
            told_by_headers(headers, events),
            id,
        ) == Some(s)),
    decreases headers.len(),
{
    if headers.len() > 0 {
        lemma_told_first(headers.drop_last(), events, id);
        let s = headers.last();
        if tells(s) || !has_limit(events, s.limit_id) {
            assert(told_by_headers(headers, events).drop_last() =~= told_by_headers(
                headers.drop_last(),
                events,
            ));
        }
    }
}

} // verus!
