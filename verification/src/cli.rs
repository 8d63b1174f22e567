use vstd::prelude::*;
use crate::config::{active_profile, profile_upstream, AppConfig, ConfigView, TokenProfile, TokenView};
use crate::effort::{reasoning_efforts, ReasoningEffort};
use crate::text::str_eq;

verus! {

/// Why a command line was refused.
#[derive(Debug)]
pub enum CliError {
    /// Something other than `--label <label>` follows the address.
    UnexpectedAfterAddress,
    /// Something other than `--label <label>` follows the token.
    UnexpectedAfterToken,
}

impl CliError {
    /// The message shown to the user.
    pub fn message(&self) -> (r: &'static str)
        ensures
            r@ == cli_error_message(*self),
    {
        match self {
            CliError::UnexpectedAfterAddress => "unexpected args after provider address; use `[token] [--label <label>]`",
            CliError::UnexpectedAfterToken => "unexpected args after provider token; use `[token] [--label <label>]`",
        }
    }
}

pub open spec fn cli_error_message(e: CliError) -> Seq<char> {
    match e {
        CliError::UnexpectedAfterAddress => "unexpected args after provider address; use `[token] [--label <label>]`"@,
        CliError::UnexpectedAfterToken => "unexpected args after provider token; use `[token] [--label <label>]`"@,
    }
}

pub open spec fn arg_views(args: Seq<String>) -> Seq<Seq<char>> {
    args.map_values(|a: String| a@)
}

/// What `[token] [--label <label>]` reads as: the token and the label, or the
/// reason it is refused.
pub open spec fn provider_tail(args: Seq<Seq<char>>) -> Result<(Option<Seq<char>>, Option<Seq<char>>), CliError> {
    if args.len() == 0 {
        Ok((None, None))
    } else if args[0] == "--label"@ {
        if args.len() == 2 {
            Ok((None, Some(args[1])))
        } else {
            Err(CliError::UnexpectedAfterAddress)
        }
    } else if args.len() == 1 {
        Ok((Some(args[0]), None))
    } else if args.len() == 3 && args[1] == "--label"@ {
        Ok((Some(args[0]), Some(args[2])))
    } else {
        Err(CliError::UnexpectedAfterToken)
    }
}

pub open spec fn opt_view(o: Option<String>) -> Option<Seq<char>> {
    match o {
        Some(s) => Some(s@),
        None => None,
    }
}

/// Reads the arguments after a provider's address: an optional token, then
/// an optional `--label <label>`.
pub fn parse_provider_add_tail(args: &[String]) -> (r: Result<(Option<String>, Option<String>), CliError>)
    ensures
        match r {
            Ok((token, label)) => provider_tail(arg_views(args@)) == Ok::<
                (Option<Seq<char>>, Option<Seq<char>>),
                CliError,
            >((opt_view(token), opt_view(label))),
            Err(e) => provider_tail(arg_views(args@)) == Err::<
                (Option<Seq<char>>, Option<Seq<char>>),
                CliError,
            >(e),
        },
{
    let ghost v = arg_views(args@);
    if args.len() == 0 {
        return Ok((None, None));
    }
    assert(v[0] == args@[0]@);
    if str_eq(args[0].as_str(), "--label") {
        if args.len() == 2 {
            assert(v[1] == args@[1]@);
            return Ok((None, Some(args[1].clone())));
        }
        return Err(CliError::UnexpectedAfterAddress);
    }
    let token = Some(args[0].clone());
    if args.len() == 1 {
        return Ok((token, None));
    }
    assert(v[1] == args@[1]@);
    if args.len() == 3 && str_eq(args[1].as_str(), "--label") {
        assert(v[2] == args@[2]@);
        return Ok((token, Some(args[2].clone())));
    }
    Err(CliError::UnexpectedAfterToken)
}

/// `label (id)`.
pub open spec fn profile_title(t: TokenView) -> Seq<char> {
    t.label + " ("@ + t.id + ")"@
}

/// How the active profile is named to the user: `label (id)`, or `<none>`.
pub open spec fn active_label_text(c: ConfigView) -> Seq<char> {
    match active_profile(c) {
        Some(t) => profile_title(t),
        None => "<none>"@,
    }
}

fn title(t: &TokenProfile) -> (r: String)
    ensures
        r@ == profile_title(t@),
{
    let mut s = t.label.clone();
    s.append(" (");
    s.append(t.id.as_str());
    s.append(")");
    s
}

/// How the active profile is named to the user: `label (id)`, or `<none>`.
pub fn active_provider_label(config: &AppConfig) -> (r: String)
    ensures
        r@ == active_label_text(config@),
{
    match config.active_token_profile() {
        Some(t) => title(t),
        None => String::from_str("<none>"),
    }
}

/// `token` when the profile's value is not empty, else `pass-through`.
pub open spec fn auth_kind(t: TokenView) -> Seq<char> {
    if t.value.len() > 0 {
        "token"@
    } else {
        "pass-through"@
    }
}

/// `label (id) [auth]`, as listings and menus show a profile.
pub open spec fn profile_entry(t: TokenView) -> Seq<char> {
    profile_title(t) + " ["@ + auth_kind(t) + "]"@
}

/// `*` for the selected entry, a space otherwise.
pub open spec fn marker(selected: bool) -> Seq<char> {
    if selected {
        "*"@
    } else {
        " "@
    }
}

/// Whether the profile is the active one.
pub open spec fn is_active(c: ConfigView, t: TokenView) -> bool {
    c.active_token == Some(t.id)
}

/// One line of `provider list`: `* label (id) [auth] upstream`.
pub open spec fn provider_line(c: ConfigView, t: TokenView) -> Seq<char> {
    marker(is_active(c, t)) + " "@ + profile_entry(t) + " "@ + profile_upstream(c, t)
}

/// The lines of `provider list`.
pub open spec fn provider_lines(c: ConfigView) -> Seq<Seq<char>> {
    if c.tokens.len() == 0 {
        seq!["No provider profiles configured."@]
    } else {
        c.tokens.map_values(|t: TokenView| provider_line(c, t))
    }
}

/// `label (id) [auth]`, as listings and menus show a profile.
pub fn profile_entry_text(t: &TokenProfile) -> (r: String)
    ensures
        r@ == profile_entry(t@),
{
    let mut s = title(t);
    s.append(" [");
    if t.value.unicode_len() > 0 {
        s.append("token");
    } else {
        s.append("pass-through");
    }
    s.append("]");
    s
}

fn marker_str(selected: bool) -> (r: &'static str)
    ensures
        r@ == marker(selected),
{
    if selected {
        "*"
    } else {
        " "
    }
}

/// Where requests go while the profile is active: its address, or the
/// configuration's `upstream_url` when it names none.
pub fn profile_upstream_url<'a>(config: &'a AppConfig, t: &'a TokenProfile) -> (r: &'a str)
    ensures
        r@ == profile_upstream(config@, t@),
{
    match &t.address {
        Some(a) => a.as_str(),
        None => config.upstream_url.as_str(),
    }
}

/// Whether the profile is the active one.
pub fn profile_is_active(config: &AppConfig, t: &TokenProfile) -> (r: bool)
    ensures
        r == is_active(config@, t@),
{
    match &config.active_token {
        Some(a) => str_eq(a.as_str(), t.id.as_str()),
        None => false,
    }
}

/// The lines of `provider list`: one per profile, the active one marked.
pub fn provider_list_lines(config: &AppConfig) -> (r: Vec<String>)
    ensures
        r@.map_values(|s: String| s@) == provider_lines(config@),
{
    let mut lines: Vec<String> = Vec::new();
    if config.tokens.len() == 0 {
        lines.push(String::from_str("No provider profiles configured."));
        assert(lines@.map_values(|s: String| s@) =~= provider_lines(config@));
        return lines;
    }
    let mut i: usize = 0;
    while i < config.tokens.len()
        invariant
            i <= config.tokens@.len(),
            config.tokens@.len() > 0,
            lines@.len() == i,
            forall|j: int|
                0 <= j < i ==> (#[trigger] lines@[j])@ == provider_line(config@, config.tokens@[j]@),
        decreases config.tokens@.len() - i,
    {
        let t = &config.tokens[i];
        let mut line = String::from_str(marker_str(profile_is_active(config, t)));
        line.append(" ");
        let e = profile_entry_text(t);
        line.append(e.as_str());
        line.append(" ");
        line.append(profile_upstream_url(config, t));
        lines.push(line);
        i = i + 1;
    }
    assert(lines@.map_values(|s: String| s@) =~= provider_lines(config@));
    lines
}

/// The lines of `reasoning list`: pass-through first, then every effort, the
/// current choice marked.
pub open spec fn reasoning_lines(c: ConfigView) -> Seq<Seq<char>> {
    seq![marker(c.reasoning_effort is None) + " pass-through"@] + seq![
        ReasoningEffort::Minimal,
        ReasoningEffort::Low,
        ReasoningEffort::Medium,
        ReasoningEffort::High,
        ReasoningEffort::XHigh,
    ].map_values(|e: ReasoningEffort| marker(c.reasoning_effort == Some(e)) + " "@ + e.name())
}

/// The lines of `reasoning list`.
pub fn reasoning_list_lines(config: &AppConfig) -> (r: Vec<String>)
    ensures
        r@.map_values(|s: String| s@) == reasoning_lines(config@),
{
    let mut lines: Vec<String> = Vec::new();
    let mut first = String::from_str(marker_str(config.reasoning_effort.is_none()));
    first.append(" pass-through");
    lines.push(first);
    let efforts = reasoning_efforts();
    let mut i: usize = 0;
    while i < efforts.len()
        invariant
            efforts@ == seq![
                ReasoningEffort::Minimal,
                ReasoningEffort::Low,
                ReasoningEffort::Medium,
                ReasoningEffort::High,
                ReasoningEffort::XHigh,
            ],
            i <= efforts@.len(),
            lines@.len() == i + 1,
            lines@[0]@ == marker(config@.reasoning_effort is None) + " pass-through"@,
            forall|j: int|
                0 <= j < i ==> (#[trigger] lines@[j + 1])@ == marker(
                    config@.reasoning_effort == Some(efforts@[j]),
                ) + " "@ + efforts@[j].name(),
        decreases efforts@.len() - i,
    {
        let e = efforts[i];
        let selected = match config.reasoning_effort {
            Some(c) => c == e,
            None => false,
        };
        let mut line = String::from_str(marker_str(selected));
        line.append(" ");
        line.append(e.as_str());
        lines.push(line);
        i = i + 1;
    }
    proof {
        let target = reasoning_lines(config@);
        let got = lines@.map_values(|s: String| s@);
        assert forall|k: int| 0 <= k < target.len() implies got[k] == target[k] by {
            if k > 0 {
                assert(lines@[(k - 1) + 1]@ == marker(config@.reasoning_effort == Some(efforts@[k - 1]))
                    + " "@ + efforts@[k - 1].name());
            }
        }
        assert(got =~= target);
    }
    lines
}

} // verus!
