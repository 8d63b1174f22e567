use vstd::prelude::*;

verus! {

/// Why a configuration value or a configuration change was refused.
#[derive(Debug)]
pub enum ConfigError {
    InvalidReasoningEffort(String),
    EmptyTokenId,
    InvalidTokenId(String),
    EmptyTokenValue,
    UnknownToken(String),
    EmptyListenHost,
    ZeroListenPort,
    InvalidUpstreamUrl { url: String, reason: String },
    EmptyTokenLabel(String),
    EmptyProviderAddress,
    InvalidProviderAddress(String),
}

/// [`ConfigError`] with its texts taken as character sequences.
pub enum ConfigErrorView {
    InvalidReasoningEffort(Seq<char>),
    EmptyTokenId,
    InvalidTokenId(Seq<char>),
    EmptyTokenValue,
    UnknownToken(Seq<char>),
    EmptyListenHost,
    ZeroListenPort,
    /// The URL, and the parser's message.
    InvalidUpstreamUrl(Seq<char>, Seq<char>),
    EmptyTokenLabel(Seq<char>),
    EmptyProviderAddress,
    InvalidProviderAddress(Seq<char>),
}

impl View for ConfigError {
    type V = ConfigErrorView;

    open spec fn view(&self) -> ConfigErrorView {
        match self {
            ConfigError::InvalidReasoningEffort(v) => ConfigErrorView::InvalidReasoningEffort(v@),
            ConfigError::EmptyTokenId => ConfigErrorView::EmptyTokenId,
            ConfigError::InvalidTokenId(id) => ConfigErrorView::InvalidTokenId(id@),
            ConfigError::EmptyTokenValue => ConfigErrorView::EmptyTokenValue,
            ConfigError::UnknownToken(id) => ConfigErrorView::UnknownToken(id@),
            ConfigError::EmptyListenHost => ConfigErrorView::EmptyListenHost,
            ConfigError::ZeroListenPort => ConfigErrorView::ZeroListenPort,
            ConfigError::InvalidUpstreamUrl { url, reason } => ConfigErrorView::InvalidUpstreamUrl(
                url@,
                reason@,
            ),
            ConfigError::EmptyTokenLabel(id) => ConfigErrorView::EmptyTokenLabel(id@),
            ConfigError::EmptyProviderAddress => ConfigErrorView::EmptyProviderAddress,
            ConfigError::InvalidProviderAddress(a) => ConfigErrorView::InvalidProviderAddress(a@),
        }
    }
}

/// The message shown to the user for an error.
pub open spec fn error_message(e: ConfigErrorView) -> Seq<char> {
    match e {
        ConfigErrorView::InvalidReasoningEffort(v) => "invalid reasoning effort `"@ + v
            + "`; expected one of: minimal, low, medium, high, xhigh"@,
        ConfigErrorView::EmptyTokenId => "token id cannot be empty"@,
        ConfigErrorView::InvalidTokenId(id) => "token id `"@ + id
            + "` may only contain ASCII letters, digits, dash, underscore, or dot"@,
        ConfigErrorView::EmptyTokenValue => "token value cannot be empty"@,
        ConfigErrorView::UnknownToken(id) => "token profile `"@ + id + "` does not exist"@,
        ConfigErrorView::EmptyListenHost => "listen_host cannot be empty"@,
        ConfigErrorView::ZeroListenPort => "listen_port cannot be 0"@,
        ConfigErrorView::InvalidUpstreamUrl(url, reason) => "invalid upstream_url `"@ + url + "`: "@
            + reason,
        ConfigErrorView::EmptyTokenLabel(id) => "token `"@ + id + "` label cannot be empty"@,
        ConfigErrorView::EmptyProviderAddress => "provider address cannot be empty"@,
        ConfigErrorView::InvalidProviderAddress(a) => "invalid provider address `"@ + a + "`"@,
    }
}

fn wrapped(before: &str, middle: &String, after: &str) -> (r: String)
    ensures
        r@ == before@ + middle@ + after@,
{
    let mut s = String::from_str(before);
    s.append(middle.as_str());
    s.append(after);
    s
}

impl ConfigError {
    /// The message shown to the user, as the error's `Display` would give it.
    pub fn message(&self) -> (r: String)
        ensures
            r@ == error_message(self@),
    {
        match self {
            ConfigError::InvalidReasoningEffort(v) => wrapped(
                "invalid reasoning effort `",
                v,
                "`; expected one of: minimal, low, medium, high, xhigh",
            ),
            ConfigError::EmptyTokenId => String::from_str("token id cannot be empty"),
            ConfigError::InvalidTokenId(id) => wrapped(
                "token id `",
                id,
                "` may only contain ASCII letters, digits, dash, underscore, or dot",
            ),
            ConfigError::EmptyTokenValue => String::from_str("token value cannot be empty"),
            ConfigError::UnknownToken(id) => wrapped("token profile `", id, "` does not exist"),
            ConfigError::EmptyListenHost => String::from_str("listen_host cannot be empty"),
            ConfigError::ZeroListenPort => String::from_str("listen_port cannot be 0"),
            ConfigError::InvalidUpstreamUrl { url, reason } => {
                let mut s = wrapped("invalid upstream_url `", url, "`: ");
                s.append(reason.as_str());
                s
            },
            ConfigError::EmptyTokenLabel(id) => wrapped("token `", id, "` label cannot be empty"),
            ConfigError::EmptyProviderAddress => String::from_str("provider address cannot be empty"),
            ConfigError::InvalidProviderAddress(a) => wrapped("invalid provider address `", a, "`"),
        }
    }
}

} // verus!
