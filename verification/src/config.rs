use vstd::prelude::*;
use crate::address::{address_host, address_problem, normalize_with_host, normalized};
use crate::effort::ReasoningEffort;
use crate::error::{ConfigError, ConfigErrorView};
use crate::seqs::{any_match, first_match, lemma_any_match_first, lemma_first_match_bounds, lemma_first_match_is};
use crate::text::{chars_of, decimal, decimal_string, is_blank, str_eq, str_is_blank, trim, trim_str};

verus! {

pub const APP_NAME: &'static str = "copilot-responses-proxy";

pub const DEFAULT_UPSTREAM_URL: &'static str = "https://api.freshid.top/v1/responses";

/// A named provider profile: the credential the proxy injects into upstream
/// requests (none when the value is blank, so that the client's own
/// `Authorization` passes through), and the upstream URL it sends them to
/// (the configuration's `upstream_url` when the profile names none).
#[derive(Debug, Clone)]
pub struct TokenProfile {
    pub id: String,
    pub label: String,
    pub value: String,
    pub address: Option<String>,
}

/// [`TokenProfile`] with its texts taken as character sequences.
pub struct TokenView {
    pub id: Seq<char>,
    pub label: Seq<char>,
    pub value: Seq<char>,
    pub address: Option<Seq<char>>,
}

impl TokenProfile {
    /// A copy of the profile.
    pub fn duplicate(&self) -> (r: TokenProfile)
        ensures
            r@ == self@,
    {
        let address = match &self.address {
            Some(a) => Some(a.clone()),
            None => None,
        };
        TokenProfile { id: self.id.clone(), label: self.label.clone(), value: self.value.clone(), address }
    }
}

impl View for TokenProfile {
    type V = TokenView;

    open spec fn view(&self) -> TokenView {
        TokenView { id: self.id@, label: self.label@, value: self.value@, address: opt_str_view(self.address) }
    }
}

/// The proxy's settings, as stored in its configuration file.
#[derive(Debug, Clone)]
pub struct AppConfig {
    pub listen_host: String,
    pub listen_port: u16,
    pub upstream_url: String,
    pub drop_truncation: bool,
    pub reasoning_effort: Option<ReasoningEffort>,
    pub active_token: Option<String>,
    pub tokens: Vec<TokenProfile>,
    pub log_requests: bool,
}

/// [`AppConfig`] with its texts taken as character sequences.
pub struct ConfigView {
    pub listen_host: Seq<char>,
    pub listen_port: u16,
    pub upstream_url: Seq<char>,
    pub drop_truncation: bool,
    pub reasoning_effort: Option<ReasoningEffort>,
    pub active_token: Option<Seq<char>>,
    pub tokens: Seq<TokenView>,
    pub log_requests: bool,
}

/// The views of a sequence of profiles.
pub open spec fn token_views(v: Seq<TokenProfile>) -> Seq<TokenView> {
    v.map_values(|t: TokenProfile| t@)
}

pub open spec fn opt_str_view(o: Option<String>) -> Option<Seq<char>> {
    match o {
        Some(s) => Some(s@),
        None => None,
    }
}

impl View for AppConfig {
    type V = ConfigView;

    open spec fn view(&self) -> ConfigView {
        ConfigView {
            listen_host: self.listen_host@,
            listen_port: self.listen_port,
            upstream_url: self.upstream_url@,
            drop_truncation: self.drop_truncation,
            reasoning_effort: self.reasoning_effort,
            active_token: opt_str_view(self.active_token),
            tokens: token_views(self.tokens@),
            log_requests: self.log_requests,
        }
    }
}

/// Whether a profile carries the id `id`.
pub open spec fn has_id(id: Seq<char>) -> spec_fn(TokenView) -> bool {
    |t: TokenView| t.id == id
}

/// Whether a profile carries an id other than `id`.
pub open spec fn lacks_id(id: Seq<char>) -> spec_fn(TokenView) -> bool {
    |t: TokenView| t.id != id
}

/// The index of the first profile with id `id`, or the number of profiles.
pub open spec fn token_index(tokens: Seq<TokenView>, id: Seq<char>) -> int {
    first_match(tokens, has_id(id))
}

/// Whether some profile has id `id`.
pub open spec fn has_token(tokens: Seq<TokenView>, id: Seq<char>) -> bool {
    any_match(tokens, has_id(id))
}

/// The first profile with id `id`, if any.
pub open spec fn token_with_id(tokens: Seq<TokenView>, id: Seq<char>) -> Option<TokenView> {
    let i = token_index(tokens, id);
    if i < tokens.len() {
        Some(tokens[i])
    } else {
        None
    }
}

/// The profile that the active id names, if both exist.
pub open spec fn active_profile(c: ConfigView) -> Option<TokenView> {
    match c.active_token {
        Some(id) => token_with_id(c.tokens, id),
        None => None,
    }
}

/// The trimmed value of the active profile, when that is not empty.
pub open spec fn active_value(c: ConfigView) -> Option<Seq<char>> {
    match active_profile(c) {
        Some(t) => if trim(t.value).len() > 0 {
            Some(trim(t.value))
        } else {
            None
        },
        None => None,
    }
}

/// Where requests go while profile `t` is active: its address, or the
/// configuration's `upstream_url` when it names none.
pub open spec fn profile_upstream(c: ConfigView, t: TokenView) -> Seq<char> {
    match t.address {
        Some(a) => a,
        None => c.upstream_url,
    }
}

/// Where requests go: the active profile's upstream, or the configuration's
/// `upstream_url` when no profile is active.
pub open spec fn active_upstream(c: ConfigView) -> Seq<char> {
    match active_profile(c) {
        Some(t) => profile_upstream(c, t),
        None => c.upstream_url,
    }
}

/// Whether `c` is an ASCII letter, an ASCII digit, `-`, `_` or `.`.
pub open spec fn is_id_char(c: char) -> bool {
    ||| ('a' <= c && c <= 'z')
    ||| ('A' <= c && c <= 'Z')
    ||| ('0' <= c && c <= '9')
    ||| c == '-'
    ||| c == '_'
    ||| c == '.'
}

/// What is wrong with a profile id, if anything.
pub open spec fn token_id_error(id: Seq<char>) -> Option<ConfigErrorView> {
    if is_blank(id) {
        Some(ConfigErrorView::EmptyTokenId)
    } else if !(forall|i: int| 0 <= i < id.len() ==> is_id_char(#[trigger] id[i])) {
        Some(ConfigErrorView::InvalidTokenId(id))
    } else {
        None
    }
}

/// The profiles after inserting or updating the profile `id`. An update
/// keeps the profile's address when no new one is given.
pub open spec fn upserted_tokens(
    tokens: Seq<TokenView>,
    id: Seq<char>,
    label: Seq<char>,
    value: Seq<char>,
    address: Option<Seq<char>>,
) -> Seq<TokenView> {
    let i = token_index(tokens, id);
    if i < tokens.len() {
        tokens.update(
            i,
            TokenView {
                id: tokens[i].id,
                label,
                value,
                address: if address is Some {
                    address
                } else {
                    tokens[i].address
                },
            },
        )
    } else {
        tokens.push(TokenView { id, label, value, address })
    }
}

/// The configuration after a successful `upsert_token` or `upsert_provider`.
pub open spec fn upserted(
    c: ConfigView,
    id: Seq<char>,
    label: Seq<char>,
    value: Seq<char>,
    address: Option<Seq<char>>,
) -> ConfigView {
    ConfigView {
        tokens: upserted_tokens(c.tokens, id, label, value, address),
        active_token: if c.active_token is None {
            Some(id)
        } else {
            c.active_token
        },
        ..c
    }
}

/// The profiles whose id is not `id`.
pub open spec fn tokens_without(tokens: Seq<TokenView>, id: Seq<char>) -> Seq<TokenView> {
    tokens.filter(lacks_id(id))
}

/// The configuration after a successful `remove_token`.
pub open spec fn removed(c: ConfigView, id: Seq<char>) -> ConfigView {
    let rest = tokens_without(c.tokens, id);
    ConfigView {
        tokens: rest,
        active_token: if c.active_token == Some(id) {
            if rest.len() > 0 {
                Some(rest[0].id)
            } else {
                None
            }
        } else {
            c.active_token
        },
        ..c
    }
}

/// The local address that Copilot is configured with.
pub open spec fn endpoint_text(c: ConfigView) -> Seq<char> {
    "http://"@ + c.listen_host + ":"@ + decimal(c.listen_port as nat) + "/v1/responses"@
}

/// The address of the proxy's health report.
pub open spec fn health_url_text(c: ConfigView) -> Seq<char> {
    "http://"@ + c.listen_host + ":"@ + decimal(c.listen_port as nat) + "/health"@
}

/// A configuration is coherent when its profile ids are distinct and its
/// active id, if any, names one of its profiles.
pub open spec fn coherent(c: ConfigView) -> bool {
    &&& forall|i: int, j: int|
        0 <= i < j < c.tokens.len() ==> (#[trigger] c.tokens[i]).id != (#[trigger] c.tokens[j]).id
    &&& match c.active_token {
        Some(id) => has_token(c.tokens, id),
        None => true,
    }
}

fn id_char_ok(c: char) -> (r: bool)
    ensures
        r == is_id_char(c),
{
    ('a' <= c && c <= 'z') || ('A' <= c && c <= 'Z') || ('0' <= c && c <= '9') || c == '-' || c
        == '_' || c == '.'
}

/// Checks a profile id: not blank, and made of ASCII letters, digits, `-`, `_`, `.`.
pub fn validate_token_id(id: &str) -> (r: Result<(), ConfigError>)
    ensures
        match r {
            Ok(_) => token_id_error(id@) is None,
            Err(e) => token_id_error(id@) == Some(e@),
        },
{
    if str_is_blank(id) {
        return Err(ConfigError::EmptyTokenId);
    }
    let cs = chars_of(id);
    let mut i: usize = 0;
    while i < cs.len()
        invariant
            cs@ == id@,
            !is_blank(id@),
            i <= cs@.len(),
            forall|j: int| 0 <= j < i ==> is_id_char(#[trigger] id@[j]),
        decreases cs@.len() - i,
    {
        if !id_char_ok(cs[i]) {
            assert(!is_id_char(id@[i as int]));
            assert(!(forall|j: int| 0 <= j < id@.len() ==> is_id_char(#[trigger] id@[j])));
            let e = ConfigError::InvalidTokenId(String::from_str(id));
            assert(e@ == ConfigErrorView::InvalidTokenId(id@));
            return Err(e);
        }
        i = i + 1;
    }
    Ok(())
}

/// The index of the first profile with id `id`, or the number of profiles.
fn find_token(tokens: &Vec<TokenProfile>, id: &str) -> (r: usize)
    ensures
        r as int == token_index(token_views(tokens@), id@),
{
    let ghost views = token_views(tokens@);
    let mut i: usize = 0;
    while i < tokens.len()
        invariant
            views == token_views(tokens@),
            i <= tokens.len(),
            forall|j: int| 0 <= j < i ==> !has_id(id@)(#[trigger] views[j]),
        decreases tokens.len() - i,
    {
        if str_eq(tokens[i].id.as_str(), id) {
            proof {
                lemma_first_match_is(views, has_id(id@), i as int);
            }
            return i;
        }
        i = i + 1;
    }
    proof {
        lemma_first_match_is(views, has_id(id@), i as int);
    }
    i
}

impl AppConfig {
    /// The local address that Copilot is configured with.
    pub fn endpoint(&self) -> (r: String)
        ensures
            r@ == endpoint_text(self@),
    {
        let mut s = String::from_str("http://");
        s.append(self.listen_host.as_str());
        s.append(":");
        let port = decimal_string(self.listen_port as u128);
        s.append(port.as_str());
        s.append("/v1/responses");
        s
    }

    /// The address of the proxy's health report.
    pub fn health_url(&self) -> (r: String)
        ensures
            r@ == health_url_text(self@),
    {
        let mut s = String::from_str("http://");
        s.append(self.listen_host.as_str());
        s.append(":");
        let port = decimal_string(self.listen_port as u128);
        s.append(port.as_str());
        s.append("/health");
        s
    }

    /// The profile that the active id names, if any.
    pub fn active_token_profile(&self) -> (r: Option<&TokenProfile>)
        ensures
            match r {
                Some(t) => active_profile(self@) == Some(t@),
                None => active_profile(self@) is None,
            },
    {
        match &self.active_token {
            None => None,
            Some(active_id) => {
                let i = find_token(&self.tokens, active_id.as_str());
                proof {
                    lemma_first_match_bounds(self@.tokens, has_id(active_id@));
                }
                if i < self.tokens.len() {
                    Some(&self.tokens[i])
                } else {
                    None
                }
            },
        }
    }

    /// The trimmed value of the active profile, unless it is empty.
    pub fn active_token_value(&self) -> (r: Option<&str>)
        ensures
            match r {
                Some(v) => active_value(self@) == Some(v@),
                None => active_value(self@) is None,
            },
    {
        match self.active_token_profile() {
            None => None,
            Some(t) => {
                let v = trim_str(t.value.as_str());
                if v.unicode_len() == 0 {
                    None
                } else {
                    Some(v)
                }
            },
        }
    }

    /// Inserts or updates the profile `id`; it becomes active when none is.
    fn put_profile(&mut self, id: String, label: String, value: String, address: Option<String>)
        ensures
            final(self)@ == upserted(
                old(self)@,
                id@,
                label@,
                value@,
                opt_str_view(address),
            ),
    {
        let ghost old_views = self@.tokens;
        let ghost address_view = opt_str_view(address);
        let i = find_token(&self.tokens, id.as_str());
        proof {
            lemma_first_match_bounds(old_views, has_id(id@));
        }
        if i < self.tokens.len() {
            let existing_id = self.tokens[i].id.clone();
            let kept_address = match address {
                Some(a) => Some(a),
                None => match &self.tokens[i].address {
                    Some(a) => Some(a.clone()),
                    None => None,
                },
            };
            self.tokens[i] = TokenProfile { id: existing_id, label, value, address: kept_address };
            assert(self@.tokens =~= upserted_tokens(old_views, id@, label@, value@, address_view));
        } else {
            self.tokens.push(TokenProfile { id: id.clone(), label, value, address });
            assert(self@.tokens =~= upserted_tokens(old_views, id@, label@, value@, address_view));
        }
        if self.active_token.is_none() {
            self.active_token = Some(id);
        }
    }

    /// Adds the profile `id`, or updates its label and value when it exists
    /// (an existing profile keeps its address); the profile becomes active
    /// when none is.
    pub fn upsert_token(&mut self, id: String, label: Option<String>, value: String) -> (r: Result<(), ConfigError>)
        ensures
            token_id_error(id@) is Some ==> r is Err && r->Err_0@ == token_id_error(id@)->Some_0
                && final(self)@ == old(self)@,
            token_id_error(id@) is None && is_blank(value@) ==> r is Err && r->Err_0@
                == ConfigErrorView::EmptyTokenValue && final(self)@ == old(self)@,
            token_id_error(id@) is None && !is_blank(value@) ==> r is Ok && final(self)@ == upserted(
                old(self)@,
                id@,
                label_or_id(opt_str_view(label), id@),
                value@,
                None,
            ),
    {
        match validate_token_id(id.as_str()) {
            Err(e) => {
                return Err(e);
            },
            Ok(_) => {},
        }
        if str_is_blank(value.as_str()) {
            return Err(ConfigError::EmptyTokenValue);
        }
        let label = match label {
            Some(l) => l,
            None => id.clone(),
        };
        self.put_profile(id, label, value, None);
        Ok(())
    }

    /// Adds the provider `id` with the upstream that `address` names, or
    /// replaces its label, address and token when it exists; it becomes active
    /// when none is. The label defaults to the address's host; without a
    /// token the proxy injects none and passes the client's `Authorization`
    /// through.
    pub fn upsert_provider(
        &mut self,
        id: String,
        label: Option<String>,
        address: String,
        token: Option<String>,
    ) -> (r: Result<(), ConfigError>)
        ensures
            token_id_error(id@) is Some ==> r is Err && r->Err_0@ == token_id_error(id@)->Some_0
                && final(self)@ == old(self)@,
            token_id_error(id@) is None && address_problem(address@) is Some ==> r is Err
                && r->Err_0@ == address_problem(address@)->Some_0 && final(self)@ == old(self)@,
            token_id_error(id@) is None && address_problem(address@) is None ==> r is Ok
                && final(self)@ == upserted(
                old(self)@,
                id@,
                label_or_id(opt_str_view(label), address_host(address@)),
                token_or_empty(opt_str_view(token)),
                Some(normalized(address@)),
            ),
    {
        match validate_token_id(id.as_str()) {
            Err(e) => {
                return Err(e);
            },
            Ok(_) => {},
        }
        let (url, host) = match normalize_with_host(address.as_str()) {
            Err(e) => {
                return Err(e);
            },
            Ok(p) => p,
        };
        let label = match label {
            Some(l) => l,
            None => host,
        };
        let value = match token {
            Some(t) => t,
            None => String::new(),
        };
        self.put_profile(id, label, value, Some(url));
        Ok(())
    }

    /// Where requests go: the active profile's address, or `upstream_url`
    /// when no profile is active or the active one names no address.
    pub fn active_upstream_url(&self) -> (r: &str)
        ensures
            r@ == active_upstream(self@),
    {
        match self.active_token_profile() {
            Some(t) => match &t.address {
                Some(a) => a.as_str(),
                None => self.upstream_url.as_str(),
            },
            None => self.upstream_url.as_str(),
        }
    }

    /// Makes the profile `id` the active one.
    pub fn use_token(&mut self, id: &str) -> (r: Result<(), ConfigError>)
        ensures
            has_token(old(self)@.tokens, id@) ==> r is Ok && final(self)@ == (ConfigView {
                active_token: Some(id@),
                ..old(self)@
            }),
            !has_token(old(self)@.tokens, id@) ==> r is Err && r->Err_0@
                == ConfigErrorView::UnknownToken(id@) && final(self)@ == old(self)@,
    {
        let i = find_token(&self.tokens, id);
        proof {
            lemma_any_match_first(self@.tokens, has_id(id@));
        }
        if i >= self.tokens.len() {
            return Err(ConfigError::UnknownToken(String::from_str(id)));
        }
        self.active_token = Some(String::from_str(id));
        Ok(())
    }

    /// Leaves no profile active.
    pub fn clear_active_token(&mut self)
        ensures
            final(self)@ == (ConfigView { active_token: None, ..old(self)@ }),
    {
        self.active_token = None;
    }

    /// Makes the proxy inject `effort` into requests.
    pub fn set_reasoning_effort(&mut self, effort: ReasoningEffort)
        ensures
            final(self)@ == (ConfigView { reasoning_effort: Some(effort), ..old(self)@ }),
    {
        self.reasoning_effort = Some(effort);
    }

    /// Makes the proxy leave `reasoning` in requests as it is.
    pub fn clear_reasoning_effort(&mut self)
        ensures
            final(self)@ == (ConfigView { reasoning_effort: None, ..old(self)@ }),
    {
        self.reasoning_effort = None;
    }

    /// Removes every profile with id `id`; when it was the active one, the
    /// first remaining profile, if any, becomes active.
    pub fn remove_token(&mut self, id: &str) -> (r: Result<(), ConfigError>)
        ensures
            has_token(old(self)@.tokens, id@) ==> r is Ok && final(self)@ == removed(old(self)@, id@),
            !has_token(old(self)@.tokens, id@) ==> r is Err && r->Err_0@
                == ConfigErrorView::UnknownToken(id@) && final(self)@ == old(self)@,
    {
        let ghost views = self@.tokens;
        let mut kept: Vec<TokenProfile> = Vec::new();
        let mut i: usize = 0;
        while i < self.tokens.len()
            invariant
                views == self@.tokens,
                i <= self.tokens.len(),
                token_views(kept@) =~= views.take(i as int).filter(lacks_id(id@)),
                kept@.len() <= i,
                kept@.len() == i <==> forall|j: int| 0 <= j < i ==> !has_id(id@)(#[trigger] views[j]),
            decreases self.tokens.len() - i,
        {
            let ghost prev = kept@;
            proof {
                reveal_with_fuel(Seq::<_>::filter, 1);
                assert(views.take(i + 1).drop_last() =~= views.take(i as int));
                assert(views.take(i + 1).last() == views[i as int]);
                assert(views[i as int] == self.tokens@[i as int]@);
            }
            if !str_eq(self.tokens[i].id.as_str(), id) {
                kept.push(self.tokens[i].duplicate());
                assert(token_views(kept@) =~= token_views(prev).push(views[i as int]));
                assert(lacks_id(id@)(views[i as int]));
                assert(views.take(i + 1).filter(lacks_id(id@)) == views.take(i as int).filter(lacks_id(id@)).push(views[i as int]));
            } else {
                assert(!lacks_id(id@)(views[i as int]));
                assert(views.take(i + 1).filter(lacks_id(id@)) == views.take(i as int).filter(lacks_id(id@)));
                assert(!(forall|j: int| 0 <= j < i + 1 ==> !has_id(id@)(#[trigger] views[j])));
            }
            i = i + 1;
        }
        proof {
            assert(views.take(views.len() as int) =~= views);
        }
        if kept.len() == self.tokens.len() {
            proof {
                assert(!has_token(views, id@));
            }
            return Err(ConfigError::UnknownToken(String::from_str(id)));
        }
        self.tokens = kept;
        let is_active = match &self.active_token {
            Some(a) => str_eq(a.as_str(), id),
            None => false,
        };
        if is_active {
            if self.tokens.len() > 0 {
                self.active_token = Some(self.tokens[0].id.clone());
            } else {
                self.active_token = None;
            }
        }
        Ok(())
    }
}

/// The token given, or the empty text when none is.
pub open spec fn token_or_empty(token: Option<Seq<char>>) -> Seq<char> {
    match token {
        Some(t) => t,
        None => Seq::empty(),
    }
}

/// The label given, or the fallback when none is.
pub open spec fn label_or_id(label: Option<Seq<char>>, id: Seq<char>) -> Seq<char> {
    match label {
        Some(l) => l,
        None => id,
    }
}


/// Whether `reqwest::Url::parse` accepts `text` as an absolute URL.
pub uninterp spec fn url_parses(text: Seq<char>) -> bool;

/// The message of the error that `reqwest::Url::parse` gives for `text`, by
/// its `Display`.
pub uninterp spec fn url_parse_message(text: Seq<char>) -> Seq<char>;

/// Calls `reqwest::Url::parse`; the contract claims that it succeeds exactly
/// when `url_parses` holds of the text, and that on failure it gives the
/// message that `url_parse_message` names for the text.
#[verifier::external_body]
pub(crate) fn parse_url(text: &str) -> (r: Result<(), String>)
    ensures
        r is Ok == url_parses(text@),
        r matches Err(m) ==> m@ == url_parse_message(text@),
{
    reqwest::Url::parse(text).map(|_| ()).map_err(|e| e.to_string())
}

/// The first problem among the profiles, in their order: a bad id, then a
/// blank label, then an address that is not a URL.
pub open spec fn token_problem(tokens: Seq<TokenView>) -> Option<ConfigErrorView>
    decreases tokens.len(),
{
    if tokens.len() == 0 {
        None
    } else {
        let t = tokens[0];
        match token_id_error(t.id) {
            Some(e) => Some(e),
            None => if is_blank(t.label) {
                Some(ConfigErrorView::EmptyTokenLabel(t.id))
            } else {
                match t.address {
                    Some(a) => if !url_parses(a) {
                        Some(ConfigErrorView::InvalidProviderAddress(a))
                    } else {
                        token_problem(tokens.drop_first())
                    },
                    None => token_problem(tokens.drop_first()),
                }
            },
        }
    }
}

/// The first problem of a configuration, in the order `validate` checks them.
pub open spec fn config_problem(c: ConfigView) -> Option<ConfigErrorView> {
    if is_blank(c.listen_host) {
        Some(ConfigErrorView::EmptyListenHost)
    } else if c.listen_port == 0 {
        Some(ConfigErrorView::ZeroListenPort)
    } else if !url_parses(c.upstream_url) {
        Some(ConfigErrorView::InvalidUpstreamUrl(c.upstream_url, url_parse_message(c.upstream_url)))
    } else {
        token_problem(c.tokens)
    }
}

impl AppConfig {
    /// Checks the configuration before it is used or saved.
    pub fn validate(&self) -> (r: Result<(), ConfigError>)
        ensures
            match r {
                Ok(_) => config_problem(self@) is None,
                Err(e) => config_problem(self@) == Some(e@),
            },
    {
        if str_is_blank(self.listen_host.as_str()) {
            return Err(ConfigError::EmptyListenHost);
        }
        if self.listen_port == 0 {
            return Err(ConfigError::ZeroListenPort);
        }
        match parse_url(self.upstream_url.as_str()) {
            Err(reason) => {
                return Err(ConfigError::InvalidUpstreamUrl { url: self.upstream_url.clone(), reason });
            },
            Ok(_) => {},
        }
        let ghost views = self@.tokens;
        assert(views.skip(0) =~= views);
        let mut i: usize = 0;
        while i < self.tokens.len()
            invariant
                views == self@.tokens,
                config_problem(self@) == token_problem(views),
                i <= views.len(),
                token_problem(views) == token_problem(views.skip(i as int)),
            decreases views.len() - i,
        {
            let t = &self.tokens[i];
            assert(views.skip(i as int)[0] == t@);
            assert(views.skip(i as int).drop_first() =~= views.skip(i + 1));
            match validate_token_id(t.id.as_str()) {
                Err(e) => {
                    return Err(e);
                },
                Ok(_) => {},
            }
            if str_is_blank(t.label.as_str()) {
                return Err(ConfigError::EmptyTokenLabel(t.id.clone()));
            }
            match &t.address {
                Some(a) => {
                    match parse_url(a.as_str()) {
                        Err(_) => {
                            return Err(ConfigError::InvalidProviderAddress(a.clone()));
                        },
                        Ok(_) => {},
                    }
                },
                None => {},
            }
            i = i + 1;
        }
        assert(views.skip(i as int).len() == 0);
        Ok(())
    }
}

/// The settings of a fresh installation.
pub open spec fn default_config() -> ConfigView {
    ConfigView {
        listen_host: "127.0.0.1"@,
        listen_port: 8787,
        upstream_url: DEFAULT_UPSTREAM_URL@,
        drop_truncation: true,
        reasoning_effort: None,
        active_token: None,
        tokens: Seq::empty(),
        log_requests: true,
    }
}

impl Default for AppConfig {
    fn default() -> (r: AppConfig)
        ensures
            r@ == default_config(),
    {
        let c = AppConfig {
            listen_host: String::from_str("127.0.0.1"),
            listen_port: 8787,
            upstream_url: String::from_str(DEFAULT_UPSTREAM_URL),
            drop_truncation: true,
            reasoning_effort: None,
            active_token: None,
            tokens: Vec::new(),
            log_requests: true,
        };
        assert(c@.tokens =~= Seq::<TokenView>::empty());
        c
    }
}


proof fn lemma_filter_all_kept(s: Seq<TokenView>, p: spec_fn(TokenView) -> bool)
    requires
        forall|i: int| 0 <= i < s.len() ==> p(#[trigger] s[i]),
    ensures
        s.filter(p) == s,
    decreases s.len(),
{
    reveal_with_fuel(Seq::<_>::filter, 1);
    if s.len() > 0 {
        let t = s.drop_last();
        assert forall|i: int| 0 <= i < t.len() implies p(#[trigger] t[i]) by {
            assert(t[i] == s[i]);
        }
        lemma_filter_all_kept(t, p);
        assert(p(s.last()));
        assert(t.push(s.last()) =~= s);
    }
}

proof fn lemma_filter_keeps_ids_distinct(s: Seq<TokenView>, p: spec_fn(TokenView) -> bool)
    requires
        forall|i: int, j: int| 0 <= i < j < s.len() ==> (#[trigger] s[i]).id != (#[trigger] s[j]).id,
    ensures
        forall|i: int, j: int|
            0 <= i < j < s.filter(p).len() ==> (#[trigger] s.filter(p)[i]).id != (
            #[trigger] s.filter(p)[j]).id,
        forall|i: int| 0 <= i < s.filter(p).len() ==> s.contains(#[trigger] s.filter(p)[i]),
    decreases s.len(),
{
    reveal_with_fuel(Seq::<_>::filter, 1);
    s.filter_lemma(p);
    if s.len() > 0 {
        let t = s.drop_last();
        lemma_filter_keeps_ids_distinct(t, p);
        let f = t.filter(p);
        if p(s.last()) {
            assert(s.filter(p) == f.push(s.last()));
            assert forall|i: int, j: int| 0 <= i < j < s.filter(p).len() implies (
            #[trigger] s.filter(p)[i]).id != (#[trigger] s.filter(p)[j]).id by {
                if j == f.len() {
                    assert(t.contains(f[i]));
                    let k = choose|k: int| 0 <= k < t.len() && t[k] == f[i];
                    assert(s[k] == t[k]);
                    assert(s[s.len() - 1] == s.last());
                } else {
                    assert(s.filter(p)[i] == f[i]);
                    assert(s.filter(p)[j] == f[j]);
                }
            }
        }
    }
}

/// A fresh configuration is coherent.
pub proof fn lemma_default_coherent()
    ensures
        coherent(default_config()),
{
}

/// A successful `upsert_token` or `upsert_provider` keeps a configuration
/// coherent, and afterwards the profile `id` holds the given label and value,
/// and the given address when there is one; it is the active profile when
/// none was.
pub proof fn lemma_upsert_keeps_coherent(
    c: ConfigView,
    id: Seq<char>,
    label: Seq<char>,
    value: Seq<char>,
    address: Option<Seq<char>>,
)
    requires
        coherent(c),
    ensures
        coherent(upserted(c, id, label, value, address)),
        token_with_id(upserted(c, id, label, value, address).tokens, id) matches Some(t) && t.id
            == id && t.label == label && t.value == value && (address is Some ==> t.address
            == address),
        c.active_token is None ==> active_profile(upserted(c, id, label, value, address))
            == token_with_id(upserted(c, id, label, value, address).tokens, id),
{
    let ts = c.tokens;
    let n = upserted_tokens(ts, id, label, value, address);
    let i = token_index(ts, id);
    lemma_first_match_bounds(ts, has_id(id));
    if i < ts.len() {
        assert(n.len() == ts.len());
        assert forall|a: int, b: int| 0 <= a < b < n.len() implies (#[trigger] n[a]).id != (
        #[trigger] n[b]).id by {
            assert(n[a].id == ts[a].id);
            assert(n[b].id == ts[b].id);
        }
        lemma_first_match_is(n, has_id(id), i);
    } else {
        assert forall|a: int, b: int| 0 <= a < b < n.len() implies (#[trigger] n[a]).id != (
        #[trigger] n[b]).id by {
            if b == ts.len() {
                assert(!has_id(id)(ts[a]));
            } else {
                assert(n[a] == ts[a]);
                assert(n[b] == ts[b]);
            }
        }
        assert forall|j: int| 0 <= j < i implies !has_id(id)(#[trigger] n[j]) by {
            assert(n[j] == ts[j]);
        }
        lemma_first_match_is(n, has_id(id), i);
    }
    lemma_any_match_first(n, has_id(id));
    match c.active_token {
        Some(a) => {
            lemma_any_match_first(ts, has_id(a));
            let k = token_index(ts, a);
            lemma_first_match_bounds(ts, has_id(a));
            assert(n[k].id == a);
            assert(has_id(a)(n[k]));
        },
        None => {},
    }
}

/// Once a provider added by `upsert_provider` is active, whether it became so
/// on being added or through `use_token`, requests go to its normalized
/// address.
pub proof fn lemma_provider_routes_to_address(
    c: ConfigView,
    id: Seq<char>,
    label: Seq<char>,
    value: Seq<char>,
    address: Seq<char>,
)
    requires
        coherent(c),
    ensures
        has_token(upserted(c, id, label, value, Some(normalized(address))).tokens, id),
        active_upstream(
            ConfigView {
                active_token: Some(id),
                ..upserted(c, id, label, value, Some(normalized(address)))
            },
        ) == normalized(address),
        c.active_token is None ==> active_upstream(
            upserted(c, id, label, value, Some(normalized(address))),
        ) == normalized(address),
{
    let a = Some(normalized(address));
    lemma_upsert_keeps_coherent(c, id, label, value, a);
    let u = upserted(c, id, label, value, a);
    lemma_any_match_first(u.tokens, has_id(id));
    lemma_first_match_bounds(u.tokens, has_id(id));
}

/// After a successful `use_token`, the active profile is the one named `id`.
pub proof fn lemma_use_token_activates(c: ConfigView, id: Seq<char>)
    requires
        coherent(c),
        has_token(c.tokens, id),
    ensures
        coherent(ConfigView { active_token: Some(id), ..c }),
        active_profile(ConfigView { active_token: Some(id), ..c }) matches Some(t) && t.id == id,
{
    lemma_any_match_first(c.tokens, has_id(id));
    lemma_first_match_bounds(c.tokens, has_id(id));
}

/// A successful `remove_token` keeps a configuration coherent and leaves no
/// profile named `id`.
pub proof fn lemma_remove_keeps_coherent(c: ConfigView, id: Seq<char>)
    requires
        coherent(c),
        has_token(c.tokens, id),
    ensures
        coherent(removed(c, id)),
        !has_token(removed(c, id).tokens, id),
{
    let ts = c.tokens;
    let f = tokens_without(ts, id);
    lemma_filter_keeps_ids_distinct(ts, lacks_id(id));
    ts.filter_lemma(lacks_id(id));
    if has_token(f, id) {
        let j = choose|j: int| 0 <= j < f.len() && has_id(id)(#[trigger] f[j]);
        assert(lacks_id(id)(f[j]));
    }
    match c.active_token {
        Some(a) => {
            if a != id {
                let k = choose|k: int| 0 <= k < ts.len() && has_id(a)(#[trigger] ts[k]);
                assert(lacks_id(id)(ts[k]));
                assert(f.contains(ts[k]));
                let m = choose|m: int| 0 <= m < f.len() && f[m] == ts[k];
                assert(has_id(a)(f[m]));
            } else if f.len() > 0 {
                assert(has_id(f[0].id)(f[0]));
            }
        },
        None => {},
    }
}

/// Removing a profile that `upsert_token` or `upsert_provider` has just added gives back the
/// profiles as they were; the whole configuration comes back when another
/// profile was active before.
pub proof fn lemma_remove_undoes_upsert(
    c: ConfigView,
    id: Seq<char>,
    label: Seq<char>,
    value: Seq<char>,
    address: Option<Seq<char>>,
)
    requires
        !has_token(c.tokens, id),
    ensures
        removed(upserted(c, id, label, value, address), id).tokens == c.tokens,
        c.active_token is Some && c.active_token != Some(id) ==> removed(
            upserted(c, id, label, value, address),
            id,
        ) == c,
{
    let ts = c.tokens;
    lemma_any_match_first(ts, has_id(id));
    let t = TokenView { id, label, value, address };
    let n = ts.push(t);
    assert(upserted_tokens(ts, id, label, value, address) == n);
    reveal_with_fuel(Seq::<_>::filter, 1);
    assert(n.drop_last() =~= ts);
    assert forall|i: int| 0 <= i < ts.len() implies lacks_id(id)(#[trigger] ts[i]) by {
        assert(!has_id(id)(ts[i]));
    }
    lemma_filter_all_kept(ts, lacks_id(id));
    assert(tokens_without(n, id) == ts);
    match c.active_token {
        Some(a) => {
            if a == id {
                lemma_any_match_first(ts, has_id(a));
            }
        },
        None => {},
    }
}

proof fn lemma_filter_first(s: Seq<TokenView>, p: spec_fn(TokenView) -> bool)
    requires
        s.filter(p).len() > 0,
    ensures
        first_match(s, p) < s.len(),
        s.filter(p)[0] == s[first_match(s, p)],
    decreases s.len(),
{
    reveal_with_fuel(Seq::<_>::filter, 1);
    let init = s.drop_last();
    init.filter_lemma(p);
    if init.filter(p).len() > 0 {
        lemma_filter_first(init, p);
        let k = first_match(init, p);
        lemma_first_match_bounds(init, p);
        assert forall|j: int| 0 <= j < k implies !p(#[trigger] s[j]) by {
            assert(s[j] == init[j]);
        }
        assert(s[k] == init[k]);
        lemma_first_match_is(s, p, k);
    } else {
        assert(p(s.last()));
        assert forall|j: int| 0 <= j < s.len() - 1 implies !p(#[trigger] s[j]) by {
            assert(s[j] == init[j]);
            if p(init[j]) {
                assert(init.filter(p).contains(init[j]));
            }
        }
        lemma_first_match_is(s, p, s.len() - 1);
    }
}

/// Removing the active profile while others remain makes the first remaining
/// profile active: the first, in the original order, whose id is not `id`.
/// Removing it when none remain leaves no profile active, and removing any
/// other profile leaves the active one as it was.
pub proof fn lemma_remove_active_falls_to_first(c: ConfigView, id: Seq<char>)
    ensures
        c.active_token == Some(id) && removed(c, id).tokens.len() > 0 ==> {
            let k = first_match(c.tokens, lacks_id(id));
            &&& k < c.tokens.len()
            &&& c.tokens[k].id != id
            &&& forall|j: int| 0 <= j < k ==> (#[trigger] c.tokens[j]).id == id
            &&& removed(c, id).tokens[0] == c.tokens[k]
            &&& removed(c, id).active_token == Some(c.tokens[k].id)
        },
        c.active_token == Some(id) && removed(c, id).tokens.len() == 0 ==> removed(
            c,
            id,
        ).active_token is None,
        c.active_token != Some(id) ==> removed(c, id).active_token == c.active_token,
{
    if c.active_token == Some(id) && removed(c, id).tokens.len() > 0 {
        lemma_filter_first(c.tokens, lacks_id(id));
        lemma_first_match_bounds(c.tokens, lacks_id(id));
    }
}

} // verus!
