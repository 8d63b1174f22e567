use vstd::prelude::*;
use crate::cli::{is_active, profile_entry};
use crate::config::{active_upstream, endpoint_text, is_id_char, token_id_error, AppConfig, ConfigView, TokenView};
use crate::effort::{parse_effort, ReasoningEffort};
use crate::error::{ConfigError, ConfigErrorView};
use crate::text::{chars_of, decimal, decimal_string, str_eq};

verus! {

/// What a tray menu item asks for.
#[derive(Debug)]
pub enum MenuAction {
    OpenConfig,
    OpenLogs,
    OpenHealth,
    CopyEndpoint,
    ReloadConfig,
    ToggleDropTruncation,
    /// A `reasoning:` item, with what follows the prefix.
    Reasoning(String),
    Quit,
    /// A `provider:` item, with what follows the prefix.
    Provider(String),
    Ignore,
}

/// [`MenuAction`] with its texts taken as character sequences.
pub enum MenuActionView {
    OpenConfig,
    OpenLogs,
    OpenHealth,
    CopyEndpoint,
    ReloadConfig,
    ToggleDropTruncation,
    Reasoning(Seq<char>),
    Quit,
    Provider(Seq<char>),
    Ignore,
}

impl View for MenuAction {
    type V = MenuActionView;

    open spec fn view(&self) -> MenuActionView {
        match self {
            MenuAction::OpenConfig => MenuActionView::OpenConfig,
            MenuAction::OpenLogs => MenuActionView::OpenLogs,
            MenuAction::OpenHealth => MenuActionView::OpenHealth,
            MenuAction::CopyEndpoint => MenuActionView::CopyEndpoint,
            MenuAction::ReloadConfig => MenuActionView::ReloadConfig,
            MenuAction::ToggleDropTruncation => MenuActionView::ToggleDropTruncation,
            MenuAction::Reasoning(v) => MenuActionView::Reasoning(v@),
            MenuAction::Quit => MenuActionView::Quit,
            MenuAction::Provider(v) => MenuActionView::Provider(v@),
            MenuAction::Ignore => MenuActionView::Ignore,
        }
    }
}

/// Whether `s` begins with `p`.
pub open spec fn has_prefix(s: Seq<char>, p: Seq<char>) -> bool {
    p.len() <= s.len() && s.take(p.len() as int) == p
}

/// `s` with every leading repetition of `p` removed, as `str::trim_start_matches`.
pub open spec fn strip_prefixes(s: Seq<char>, p: Seq<char>) -> Seq<char>
    decreases s.len(),
{
    if p.len() > 0 && has_prefix(s, p) {
        strip_prefixes(s.skip(p.len() as int), p)
    } else {
        s
    }
}

/// The action of the menu item with id `id`.
pub open spec fn menu_action_of(id: Seq<char>) -> MenuActionView {
    if id == "open_config"@ {
        MenuActionView::OpenConfig
    } else if id == "open_logs"@ {
        MenuActionView::OpenLogs
    } else if id == "open_health"@ {
        MenuActionView::OpenHealth
    } else if id == "copy_endpoint"@ {
        MenuActionView::CopyEndpoint
    } else if id == "reload_config"@ {
        MenuActionView::ReloadConfig
    } else if id == "toggle_drop_truncation"@ {
        MenuActionView::ToggleDropTruncation
    } else if has_prefix(id, "reasoning:"@) {
        MenuActionView::Reasoning(strip_prefixes(id, "reasoning:"@))
    } else if id == "quit"@ {
        MenuActionView::Quit
    } else if has_prefix(id, "provider:"@) {
        MenuActionView::Provider(strip_prefixes(id, "provider:"@))
    } else {
        MenuActionView::Ignore
    }
}

/// Whether `cs` holds `ps` at position `at`.
fn holds_at(cs: &Vec<char>, at: usize, ps: &Vec<char>) -> (r: bool)
    requires
        at <= cs@.len(),
    ensures
        r == has_prefix(cs@.skip(at as int), ps@),
{
    let cl = cs.len();
    if ps.len() > cl - at {
        return false;
    }
    let mut i: usize = 0;
    while i < ps.len()
        invariant
            cl == cs@.len(),
            at <= cs@.len(),
            ps@.len() <= cs@.len() - at,
            i <= ps@.len(),
            forall|j: int| 0 <= j < i ==> cs@[at + j] == ps@[j],
        decreases ps@.len() - i,
    {
        if cs[at + i] != ps[i] {
            assert(cs@.skip(at as int).take(ps@.len() as int)[i as int] != ps@[i as int]);
            return false;
        }
        i = i + 1;
    }
    assert(cs@.skip(at as int).take(ps@.len() as int) =~= ps@);
    true
}

/// Whether `s` begins with `p`, as `str::starts_with`.
pub fn starts_with(s: &str, p: &str) -> (r: bool)
    ensures
        r == has_prefix(s@, p@),
{
    let cs = chars_of(s);
    let ps = chars_of(p);
    assert(cs@.skip(0) =~= cs@);
    holds_at(&cs, 0, &ps)
}

/// `s` with every leading repetition of `p` removed, as `str::trim_start_matches`.
pub fn trim_start_matches<'a>(s: &'a str, p: &str) -> (r: &'a str)
    ensures
        r@ == strip_prefixes(s@, p@),
{
    let cs = chars_of(s);
    let ps = chars_of(p);
    let n = cs.len();
    let mut at: usize = 0;
    assert(cs@.skip(0) =~= cs@);
    if ps.len() > 0 {
        while holds_at(&cs, at, &ps)
            invariant
                cs@ == s@,
                ps@ == p@,
                n == cs@.len(),
                ps@.len() > 0,
                at <= n,
                strip_prefixes(s@, p@) == strip_prefixes(s@.skip(at as int), p@),
            decreases n - at,
        {
            assert(s@.skip(at as int).skip(ps@.len() as int) =~= s@.skip(at + ps@.len()));
            at = at + ps.len();
        }
    }
    assert(s@.skip(at as int) =~= s@.subrange(at as int, n as int));
    s.substring_char(at, n)
}

/// The action of the tray menu item with id `id`.
pub fn menu_action(id: &str) -> (r: MenuAction)
    ensures
        r@ == menu_action_of(id@),
{
    if str_eq(id, "open_config") {
        MenuAction::OpenConfig
    } else if str_eq(id, "open_logs") {
        MenuAction::OpenLogs
    } else if str_eq(id, "open_health") {
        MenuAction::OpenHealth
    } else if str_eq(id, "copy_endpoint") {
        MenuAction::CopyEndpoint
    } else if str_eq(id, "reload_config") {
        MenuAction::ReloadConfig
    } else if str_eq(id, "toggle_drop_truncation") {
        MenuAction::ToggleDropTruncation
    } else if starts_with(id, "reasoning:") {
        MenuAction::Reasoning(String::from_str(trim_start_matches(id, "reasoning:")))
    } else if str_eq(id, "quit") {
        MenuAction::Quit
    } else if starts_with(id, "provider:") {
        MenuAction::Provider(String::from_str(trim_start_matches(id, "provider:")))
    } else {
        MenuAction::Ignore
    }
}

impl AppConfig {
    /// Turns dropping `truncation` on or off.
    pub fn toggle_drop_truncation(&mut self)
        ensures
            final(self)@ == (ConfigView { drop_truncation: !old(self)@.drop_truncation, ..old(self)@ }),
    {
        self.drop_truncation = !self.drop_truncation;
    }

    /// Applies a reasoning menu choice: `clear`, or the name of an effort.
    pub fn apply_reasoning_choice(&mut self, value: &str) -> (r: Result<(), ConfigError>)
        ensures
            value@ == "clear"@ ==> r is Ok && final(self)@ == (ConfigView {
                reasoning_effort: None,
                ..old(self)@
            }),
            value@ != "clear"@ ==> match parse_effort(value@) {
                Some(e) => r is Ok && final(self)@ == (ConfigView {
                    reasoning_effort: Some(e),
                    ..old(self)@
                }),
                None => r is Err && r->Err_0@ == ConfigErrorView::InvalidReasoningEffort(value@)
                    && final(self)@ == old(self)@,
            },
    {
        if str_eq(value, "clear") {
            self.clear_reasoning_effort();
            return Ok(());
        }
        match ReasoningEffort::from_name(value) {
            Ok(e) => {
                self.set_reasoning_effort(e);
                Ok(())
            },
            Err(err) => Err(err),
        }
    }
}

/// A checkable menu entry: its id, its text, and whether it is checked.
pub struct MenuEntry {
    pub id: String,
    pub text: String,
    pub checked: bool,
}

/// The id, text and check mark of a profile's menu entry.
pub open spec fn profile_menu_entry(c: ConfigView, t: TokenView) -> (Seq<char>, Seq<char>, bool) {
    ("provider:"@ + t.id, profile_entry(t), is_active(c, t))
}

/// The id, text and check mark of an effort's menu entry.
pub open spec fn effort_menu_entry(c: ConfigView, e: ReasoningEffort) -> (Seq<char>, Seq<char>, bool) {
    ("reasoning:"@ + e.name(), e.name(), c.reasoning_effort == Some(e))
}

pub open spec fn entry_views(s: Seq<MenuEntry>) -> Seq<(Seq<char>, Seq<char>, bool)> {
    s.map_values(|m: MenuEntry| (m.id@, m.text@, m.checked))
}

/// The entries of the provider submenu, one per profile.
pub fn provider_menu_entries(config: &AppConfig) -> (r: Vec<MenuEntry>)
    ensures
        entry_views(r@) == config@.tokens.map_values(|t: TokenView| profile_menu_entry(config@, t)),
{
    let mut out: Vec<MenuEntry> = Vec::new();
    let mut i: usize = 0;
    while i < config.tokens.len()
        invariant
            i <= config.tokens@.len(),
            out@.len() == i,
            forall|j: int|
                0 <= j < i ==> ((#[trigger] out@[j]).id@, out@[j].text@, out@[j].checked)
                    == profile_menu_entry(config@, config.tokens@[j]@),
        decreases config.tokens@.len() - i,
    {
        let t = &config.tokens[i];
        let mut id = String::from_str("provider:");
        id.append(t.id.as_str());
        let text = crate::cli::profile_entry_text(t);
        let checked = crate::cli::profile_is_active(config, t);
        out.push(MenuEntry { id, text, checked });
        i = i + 1;
    }
    assert(entry_views(out@) =~= config@.tokens.map_values(
        |t: TokenView| profile_menu_entry(config@, t),
    ));
    out
}

/// The entries of the reasoning submenu after its `Clear` item, one per effort.
pub fn reasoning_menu_entries(config: &AppConfig) -> (r: Vec<MenuEntry>)
    ensures
        entry_views(r@) == seq![
            ReasoningEffort::Minimal,
            ReasoningEffort::Low,
            ReasoningEffort::Medium,
            ReasoningEffort::High,
            ReasoningEffort::XHigh,
        ].map_values(|e: ReasoningEffort| effort_menu_entry(config@, e)),
{
    let efforts = crate::effort::reasoning_efforts();
    let mut out: Vec<MenuEntry> = Vec::new();
    let mut i: usize = 0;
    while i < efforts.len()
        invariant
            i <= efforts@.len(),
            out@.len() == i,
            forall|j: int|
                0 <= j < i ==> ((#[trigger] out@[j]).id@, out@[j].text@, out@[j].checked)
                    == effort_menu_entry(config@, efforts@[j]),
        decreases efforts@.len() - i,
    {
        let e = efforts[i];
        let mut id = String::from_str("reasoning:");
        id.append(e.as_str());
        let checked = match config.reasoning_effort {
            Some(c) => c == e,
            None => false,
        };
        out.push(MenuEntry { id, text: String::from_str(e.as_str()), checked });
        i = i + 1;
    }
    assert(entry_views(out@) =~= efforts@.map_values(|e: ReasoningEffort| effort_menu_entry(config@, e)));
    out
}


/// The tray's status line: `Running: host:port`.
pub open spec fn status_text(c: ConfigView) -> Seq<char> {
    "Running: "@ + c.listen_host + ":"@ + decimal(c.listen_port as nat)
}

/// The tray's upstream line: `Upstream: url`, where requests go.
pub open spec fn upstream_text(c: ConfigView) -> Seq<char> {
    "Upstream: "@ + active_upstream(c)
}

/// The tray's status line.
pub fn status_label(config: &AppConfig) -> (r: String)
    ensures
        r@ == status_text(config@),
{
    let mut s = String::from_str("Running: ");
    s.append(config.listen_host.as_str());
    s.append(":");
    let port = decimal_string(config.listen_port as u128);
    s.append(port.as_str());
    s
}

/// The tray's upstream line.
pub fn upstream_label(config: &AppConfig) -> (r: String)
    ensures
        r@ == upstream_text(config@),
{
    let mut s = String::from_str("Upstream: ");
    s.append(config.active_upstream_url());
    s
}

/// What a line of the tray menu is.
#[derive(Debug, Clone, Copy)]
pub enum MenuItemKind {
    /// A line that shows text and does nothing.
    Text,
    /// A line that acts when chosen.
    Action,
    /// A line with a check mark, checked or not, that acts when chosen.
    Check(bool),
    Separator,
    /// The reasoning-effort submenu, of [`reasoning_menu_entries`].
    ReasoningSubmenu,
    /// The provider submenu, of [`provider_menu_entries`].
    ProviderSubmenu,
}

/// One line of the tray menu: its id, its text and what it is.
pub struct MenuItemPlan {
    pub id: String,
    pub text: String,
    pub kind: MenuItemKind,
}

pub open spec fn plan_views(s: Seq<MenuItemPlan>) -> Seq<(Seq<char>, Seq<char>, MenuItemKind)> {
    s.map_values(|m: MenuItemPlan| (m.id@, m.text@, m.kind))
}

/// The lines of the tray menu, top to bottom.
pub open spec fn menu_lines(c: ConfigView) -> Seq<(Seq<char>, Seq<char>, MenuItemKind)> {
    seq![
        ("status"@, status_text(c), MenuItemKind::Text),
        ("endpoint_label"@, "代理地址"@, MenuItemKind::Text),
        ("copy_endpoint"@, endpoint_text(c), MenuItemKind::Action),
        ("upstream"@, upstream_text(c), MenuItemKind::Text),
        (Seq::empty(), Seq::empty(), MenuItemKind::Separator),
        ("toggle_drop_truncation"@, "Drop truncation"@, MenuItemKind::Check(c.drop_truncation)),
        (Seq::empty(), "Reasoning Effort"@, MenuItemKind::ReasoningSubmenu),
        (Seq::empty(), "Provider"@, MenuItemKind::ProviderSubmenu),
        (Seq::empty(), Seq::empty(), MenuItemKind::Separator),
        ("reload_config"@, "Reload Config"@, MenuItemKind::Action),
        ("open_config"@, "Open Config"@, MenuItemKind::Action),
        ("open_logs"@, "Open Logs"@, MenuItemKind::Action),
        ("open_health"@, "Open Health"@, MenuItemKind::Action),
        (Seq::empty(), Seq::empty(), MenuItemKind::Separator),
        ("quit"@, "Quit"@, MenuItemKind::Action),
    ]
}

fn line(id: &str, text: String, kind: MenuItemKind) -> (r: MenuItemPlan)
    ensures
        r.id@ == id@,
        r.text@ == text@,
        r.kind == kind,
{
    MenuItemPlan { id: String::from_str(id), text, kind }
}

fn separator() -> (r: MenuItemPlan)
    ensures
        r.id@ == Seq::<char>::empty(),
        r.text@ == Seq::<char>::empty(),
        r.kind == MenuItemKind::Separator,
{
    MenuItemPlan { id: String::new(), text: String::new(), kind: MenuItemKind::Separator }
}

fn submenu(title: &str, kind: MenuItemKind) -> (r: MenuItemPlan)
    ensures
        r.id@ == Seq::<char>::empty(),
        r.text@ == title@,
        r.kind == kind,
{
    MenuItemPlan { id: String::new(), text: String::from_str(title), kind }
}

/// The lines of the tray menu: status, endpoint and upstream, the truncation
/// switch and the two submenus, then the file and health actions and `Quit`.
pub fn menu_layout(config: &AppConfig) -> (r: Vec<MenuItemPlan>)
    ensures
        plan_views(r@) == menu_lines(config@),
{
    let items = vec![
        line("status", status_label(config), MenuItemKind::Text),
        line("endpoint_label", String::from_str("代理地址"), MenuItemKind::Text),
        line("copy_endpoint", config.endpoint(), MenuItemKind::Action),
        line("upstream", upstream_label(config), MenuItemKind::Text),
        separator(),
        line(
            "toggle_drop_truncation",
            String::from_str("Drop truncation"),
            MenuItemKind::Check(config.drop_truncation),
        ),
        submenu("Reasoning Effort", MenuItemKind::ReasoningSubmenu),
        submenu("Provider", MenuItemKind::ProviderSubmenu),
        separator(),
        line("reload_config", String::from_str("Reload Config"), MenuItemKind::Action),
        line("open_config", String::from_str("Open Config"), MenuItemKind::Action),
        line("open_logs", String::from_str("Open Logs"), MenuItemKind::Action),
        line("open_health", String::from_str("Open Health"), MenuItemKind::Action),
        separator(),
        line("quit", String::from_str("Quit"), MenuItemKind::Action),
    ];
    assert(plan_views(items@) =~= menu_lines(config@));
    items
}

/// The disabled line the provider submenu shows in place of profiles when
/// there are none: `No providers configured`.
pub fn provider_placeholder(config: &AppConfig) -> (r: Option<MenuItemPlan>)
    ensures
        match r {
            Some(p) => config@.tokens.len() == 0 && p.id@ == "provider_empty"@ && p.text@
                == "No providers configured"@ && p.kind == MenuItemKind::Text,
            None => config@.tokens.len() > 0,
        },
{
    if config.tokens.len() == 0 {
        Some(line("provider_empty", String::from_str("No providers configured"), MenuItemKind::Text))
    } else {
        None
    }
}

/// Whether a menu line acts when chosen.
pub open spec fn is_actionable(k: MenuItemKind) -> bool {
    k is Action || k is Check
}

/// Choosing `Copy Endpoint`, the truncation switch, `Reload Config`, `Open
/// Config`, `Open Logs`, `Open Health` or `Quit` asks for that action.
pub proof fn lemma_fixed_menu_ids()
    ensures
        menu_action_of("copy_endpoint"@) == MenuActionView::CopyEndpoint,
        menu_action_of("toggle_drop_truncation"@) == MenuActionView::ToggleDropTruncation,
        menu_action_of("reload_config"@) == MenuActionView::ReloadConfig,
        menu_action_of("open_config"@) == MenuActionView::OpenConfig,
        menu_action_of("open_logs"@) == MenuActionView::OpenLogs,
        menu_action_of("open_health"@) == MenuActionView::OpenHealth,
        menu_action_of("quit"@) == MenuActionView::Quit,
{
    reveal_strlit("open_config");
    reveal_strlit("open_logs");
    reveal_strlit("open_health");
    reveal_strlit("copy_endpoint");
    reveal_strlit("reload_config");
    reveal_strlit("toggle_drop_truncation");
    reveal_strlit("reasoning:");
    reveal_strlit("quit");
    assert("open_config"@[5] != "open_health"@[5]);
    assert("copy_endpoint"@[0] != "reload_config"@[0]);
    assert("copy_endpoint"@[0] != "open_config"@[0]);
    assert("reload_config"@[0] != "open_config"@[0]);
    assert("reload_config"@[0] != "open_health"@[0]);
    assert("copy_endpoint"@[0] != "open_health"@[0]);
    assert("toggle_drop_truncation"@.len() == 22);
    assert("toggle_drop_truncation"@ != "open_config"@);
    assert("toggle_drop_truncation"@ != "open_logs"@);
    assert("toggle_drop_truncation"@ != "open_health"@);
    assert("toggle_drop_truncation"@ != "copy_endpoint"@);
    assert("toggle_drop_truncation"@ != "reload_config"@);
    assert("reload_config"@.take(10)[2] != "reasoning:"@[2]);
    assert("reload_config"@.take(10) != "reasoning:"@);
}

/// Every line of the tray menu that acts when chosen asks for an action of
/// its own: none falls through to `Ignore`, and no two ask for the same one.
pub proof fn lemma_menu_lines_have_actions(c: ConfigView)
    ensures
        forall|i: int|
            0 <= i < menu_lines(c).len() && is_actionable(#[trigger] menu_lines(c)[i].2)
                ==> !(menu_action_of(menu_lines(c)[i].0) is Ignore),
        forall|i: int, j: int|
            0 <= i < j < menu_lines(c).len() && is_actionable(#[trigger] menu_lines(c)[i].2)
                && is_actionable(#[trigger] menu_lines(c)[j].2) ==> menu_action_of(
                menu_lines(c)[i].0,
            ) != menu_action_of(menu_lines(c)[j].0),
{
    lemma_fixed_menu_ids();
    let l = menu_lines(c);
    assert forall|i: int| 0 <= i < l.len() && is_actionable(#[trigger] l[i].2) implies
        i == 2 || i == 5 || i == 9 || i == 10 || i == 11 || i == 12 || i == 14 by {
    }
}

/// Choosing a profile's entry of the provider submenu asks to switch to that
/// profile, and choosing an effort's entry of the reasoning submenu asks for
/// that effort.
pub proof fn lemma_submenu_entries_dispatch(c: ConfigView, t: TokenView, e: ReasoningEffort)
    requires
        token_id_error(t.id) is None,
    ensures
        menu_action_of(profile_menu_entry(c, t).0) == MenuActionView::Provider(t.id),
        menu_action_of(effort_menu_entry(c, e).0) == MenuActionView::Reasoning(e.name()),
{
    reveal_strlit("open_config");
    reveal_strlit("open_logs");
    reveal_strlit("open_health");
    reveal_strlit("copy_endpoint");
    reveal_strlit("reload_config");
    reveal_strlit("toggle_drop_truncation");
    reveal_strlit("reasoning:");
    reveal_strlit("provider:");
    reveal_strlit("quit");
    reveal_strlit("minimal");
    reveal_strlit("low");
    reveal_strlit("medium");
    reveal_strlit("high");
    reveal_strlit("xhigh");
    let pp = "provider:"@;
    let p = pp + t.id;
    assert(p.take(9) =~= pp);
    assert(p[0] == 'p');
    assert(p != "open_config"@ && p != "open_logs"@ && p != "open_health"@);
    assert(p != "copy_endpoint"@ && p != "reload_config"@ && p != "toggle_drop_truncation"@);
    assert(p != "quit"@);
    assert(!has_prefix(p, "reasoning:"@)) by {
        if p.len() >= 10 {
            assert(p.take(10)[0] != "reasoning:"@[0]);
        }
    }
    assert(p.skip(9) =~= t.id);
    assert(!has_prefix(t.id, pp)) by {
        if t.id.len() >= 9 {
            assert(!is_id_char(':'));
            assert(t.id.take(9)[8] != pp[8]);
        }
    }
    reveal_with_fuel(strip_prefixes, 2);
    let rp = "reasoning:"@;
    let q = rp + e.name();
    assert(q.take(10) =~= rp);
    assert(q[0] == 'r' && q[2] == 'a');
    assert(q != "open_config"@ && q != "open_logs"@ && q != "open_health"@);
    assert(q != "copy_endpoint"@ && q != "toggle_drop_truncation"@);
    assert(q != "reload_config"@) by {
        assert("reload_config"@[2] == 'l');
    }
    assert(q.skip(10) =~= e.name());
    assert(!has_prefix(e.name(), rp));
}

} // verus!
