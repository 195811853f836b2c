//! The state of the user interface and how key presses and finished
//! background work change it. Work with the outside world (processes,
//! HTTP, files) is named by an `Action` and performed by the caller, which
//! hands the outcome back to one of the `on_*` methods.

use vstd::prelude::*;
use crate::config::mihomo_config::{MihomoConfig, ProviderView, string_views};
use crate::config::node::{Node, ProxyReport};
use crate::config::providers::{shift_remove_key, upsert, key_position, keys_unique, lemma_key_position, lemma_shift_remove_len};
use crate::config::mihomo_config::http_provider;
use crate::settings::Settings;
use crate::log::{LogType, Logs};
use crate::text::{decimal, push_decimal, chars_to_string, str_chars};

verus! {

/// Which pop-up window is open.
#[derive(Debug, Clone, Copy, PartialEq, Eq, Structural)]
pub enum PopupMode {
    /// No pop-up is open.
    Closed,
    UrlInput,
    AgencySelect,
    HelpKey,
}

/// A key press, as far as the interface tells keys apart.
#[derive(Debug, Clone, Copy, PartialEq, Eq, Structural)]
pub enum Key {
    Esc,
    Enter,
    Backspace,
    Up,
    Down,
    Char(char),
    Other,
}

/// Work with the outside world that a key press asks for.
#[derive(Debug)]
pub enum Action {
    Nothing,
    /// Name the subscription at this URL, add it to the configuration and reload.
    SubmitSubscription(String),
    /// Make the kernel use the provider stored under this key.
    SwitchProvider(String),
    /// Write the configuration file and make the kernel reload it.
    SaveConfigAndReload,
    /// Stop the kernel when it runs, else start it and list its nodes.
    ToggleMihomo,
    /// Turn the system proxy off when it is on, else on.
    ToggleSystemProxy,
    /// Turn the kernel's TUN mode over.
    ToggleTun,
    /// Measure the delay of every node.
    MeasureDelays,
    /// Ask the kernel for its nodes again.
    RefreshNodes,
    /// Make the kernel use the node of this name.
    SwitchNode(String),
    /// Download the kernel unless it is already installed.
    InstallMihomo,
}

/// The abstract value of an `Action`.
pub ghost enum ActionView {
    Nothing,
    SubmitSubscription(Seq<char>),
    SwitchProvider(Seq<char>),
    SaveConfigAndReload,
    ToggleMihomo,
    ToggleSystemProxy,
    ToggleTun,
    MeasureDelays,
    RefreshNodes,
    SwitchNode(Seq<char>),
    InstallMihomo,
}

impl View for Action {
    type V = ActionView;

    open spec fn view(&self) -> ActionView {
        match self {
            Action::Nothing => ActionView::Nothing,
            Action::SubmitSubscription(u) => ActionView::SubmitSubscription(u@),
            Action::SwitchProvider(n) => ActionView::SwitchProvider(n@),
            Action::SaveConfigAndReload => ActionView::SaveConfigAndReload,
            Action::ToggleMihomo => ActionView::ToggleMihomo,
            Action::ToggleSystemProxy => ActionView::ToggleSystemProxy,
            Action::ToggleTun => ActionView::ToggleTun,
            Action::MeasureDelays => ActionView::MeasureDelays,
            Action::RefreshNodes => ActionView::RefreshNodes,
            Action::SwitchNode(n) => ActionView::SwitchNode(n@),
            Action::InstallMihomo => ActionView::InstallMihomo,
        }
    }
}

/// The abstract state of the interface.
pub ghost struct AppView {
    pub select_node: usize,
    pub select_provider: usize,
    pub proxy_running: bool,
    pub tun_enabled: bool,
    pub active_node: Option<usize>,
    pub nodes: Seq<(Seq<char>, Seq<char>)>,
    pub should_quit: bool,
    pub logs: Seq<(LogType, Seq<char>)>,
    pub url_input: Seq<char>,
    pub popup_mode: PopupMode,
    pub is_test_delay: bool,
    pub mihomo_running: bool,
    pub is_downloading: bool,
    pub providers: Option<Seq<(Seq<char>, ProviderView)>>,
}

/// The state of the interface.
#[derive(Debug)]
pub struct App {
    pub select_node: usize,
    pub select_provider: usize,
    pub proxy_running: bool,
    pub tun_enabled: bool,
    pub active_node: Option<usize>,
    pub current_nodes: Vec<Node>,
    pub should_quit: bool,
    pub logs: Logs,
    pub url_input: String,
    pub popup_mode: PopupMode,
    pub is_test_delay: bool,
    pub mihomo_running: bool,
    pub is_downloading: bool,
    pub config: MihomoConfig,
}

/// The views of a sequence of nodes.
pub open spec fn node_views(v: Seq<Node>) -> Seq<(Seq<char>, Seq<char>)> {
    v.map_values(|n: Node| n@)
}

impl View for App {
    type V = AppView;

    open spec fn view(&self) -> AppView {
        AppView {
            select_node: self.select_node,
            select_provider: self.select_provider,
            proxy_running: self.proxy_running,
            tun_enabled: self.tun_enabled,
            active_node: self.active_node,
            nodes: node_views(self.current_nodes@),
            should_quit: self.should_quit,
            logs: self.logs@,
            url_input: self.url_input@,
            popup_mode: self.popup_mode,
            is_test_delay: self.is_test_delay,
            mihomo_running: self.mihomo_running,
            is_downloading: self.is_downloading,
            providers: self.config.providers(),
        }
    }
}

/// `s` with one more log entry.
pub open spec fn with_log(s: AppView, t: LogType, m: Seq<char>) -> AppView {
    AppView { logs: s.logs.push((t, m)), ..s }
}

/// The provider entries, none when there is no table.
pub open spec fn provider_list_of(s: AppView) -> Seq<(Seq<char>, ProviderView)> {
    match s.providers {
        Some(e) => e,
        None => Seq::empty(),
    }
}

/// Moving a selection `sel` by `step` in a list of `len` entries, wrapping around
/// at both ends (`rem_euclid`).
pub open spec fn wrap_index(sel: usize, step: int, len: nat) -> usize {
    ((sel as int + step) % (len as int)) as usize
}

/// The outcome of a finished operation in the outside world: success or its error text.
pub open spec fn outcome_view(r: Result<(), String>) -> Result<(), Seq<char>> {
    match r {
        Ok(()) => Ok(()),
        Err(e) => Err(e@),
    }
}

/// `s` after an operation's outcome: on success `ok` with the info entry `msg`,
/// on failure `s` with the error text logged.
pub open spec fn after_outcome(s: AppView, ok: AppView, msg: Seq<char>, r: Result<(), Seq<char>>) -> AppView {
    match r {
        Ok(()) => with_log(ok, LogType::Info, msg),
        Err(e) => with_log(s, LogType::Error, e),
    }
}

/// The address that the system proxy is pointed at: the mixed port on the loopback.
pub open spec fn system_proxy_address_spec(mixed_port: u16) -> Seq<char> {
    "127.0.0.1:"@ + decimal(mixed_port as nat)
}

/// `String::push` (std): appends one character.
#[verifier::external_body]
fn string_push(s: &mut String, c: char)
    ensures
        final(s)@ == old(s)@.push(c),
{
    s.push(c)
}

/// `String::pop` (std): removes the last character, if any.
#[verifier::external_body]
fn string_pop(s: &mut String)
    ensures
        old(s)@.len() > 0 ==> final(s)@ == old(s)@.drop_last(),
        old(s)@.len() == 0 ==> final(s)@ == old(s)@,
{
    s.pop();
}

/// The address that the system proxy is pointed at: `127.0.0.1:` and the mixed port
/// of `settings`.
pub fn system_proxy_address(settings: &Settings) -> (res: String)
    ensures
        res@ == system_proxy_address_spec(settings.mixed_port),
{
    let mut out = str_chars("127.0.0.1:");
    push_decimal(&mut out, settings.mixed_port as u64);
    chars_to_string(out.as_slice())
}

proof fn lemma_negative_wrap(v: int, m: int, a: int, r: int)
    requires
        m > 0,
        v < 0,
        a == -v,
        r == a % m,
    ensures
        r == 0 ==> v % m == 0,
        r != 0 ==> v % m == m - r,
{
    let q = a / m;
    vstd::arithmetic::div_mod::lemma_fundamental_div_mod(a, m);
    assert(0 <= r < m);
    assert(a == m * q + r);
    if r == 0 {
        assert(v == (-q) * m + 0) by (nonlinear_arith)
            requires
                a == m * q + r,
                r == 0,
                a == -v,
        ;
        vstd::arithmetic::div_mod::lemma_fundamental_div_mod_converse(v, m, -q, 0);
    } else {
        assert(v == (-q - 1) * m + (m - r)) by (nonlinear_arith)
            requires
                a == m * q + r,
                a == -v,
        ;
        vstd::arithmetic::div_mod::lemma_fundamental_div_mod_converse(v, m, -q - 1, m - r);
    }
}

/// `(sel as i32 + step).rem_euclid(len as i32) as usize`.
fn wrap_step(sel: usize, step: i32, len: usize) -> (r: usize)
    requires
        0 < len <= i32::MAX,
        sel <= i32::MAX,
        i32::MIN <= sel + step <= i32::MAX,
    ensures
        r == wrap_index(sel, step as int, len as nat),
        r < len,
{
    let v: i64 = sel as i64 + step as i64;
    let m: u64 = len as u64;
    if v >= 0 {
        let r = (v as u64) % m;
        r as usize
    } else {
        let a: u64 = (0 - v) as u64;
        let r = a % m;
        proof {
            lemma_negative_wrap(v as int, m as int, a as int, r as int);
        }
        if r == 0 {
            0
        } else {
            (m - r) as usize
        }
    }
}

/// Selection after moving through the node list by `step`; an empty list keeps it.
pub open spec fn navigate_node_spec(s: AppView, step: int) -> AppView {
    if s.nodes.len() == 0 {
        s
    } else {
        AppView { select_node: wrap_index(s.select_node, step, s.nodes.len()), ..s }
    }
}

/// Selection after moving through the provider list by `step`; an empty list keeps it.
pub open spec fn navigate_provider_spec(s: AppView, step: int) -> AppView {
    let n = provider_list_of(s).len();
    if n == 0 {
        s
    } else {
        AppView { select_provider: wrap_index(s.select_provider, step, n), ..s }
    }
}

/// Starting a delay measurement: refused with a warning while one runs; else every
/// node's speed shows `wait` and the measurement is asked for.
pub open spec fn start_delay_test_spec(s: AppView) -> (AppView, ActionView) {
    if s.is_test_delay {
        (with_log(s, LogType::Warn, "已经在测速了!"@), ActionView::Nothing)
    } else {
        (
            AppView {
                is_test_delay: true,
                nodes: s.nodes.map_values(|n: (Seq<char>, Seq<char>)| (n.0, "wait"@)),
                ..s
            },
            ActionView::MeasureDelays,
        )
    }
}

/// Deleting the selected provider: when the selection names an entry, that key leaves
/// the table (an emptied table stays) and the file is to be saved and reloaded.
pub open spec fn delete_current_provider_spec(s: AppView) -> (AppView, ActionView) {
    match s.providers {
        Some(e) => if s.select_provider < e.len() {
            (
                AppView { providers: Some(shift_remove_key(e, e[s.select_provider as int].0)), ..s },
                ActionView::SaveConfigAndReload,
            )
        } else {
            (s, ActionView::Nothing)
        },
        None => (s, ActionView::Nothing),
    }
}

/// Submitting the typed URL: nothing when it is empty; else the pop-up closes, the input
/// is cleared, an info entry is logged and the subscription is to be added.
pub open spec fn submit_url_spec(s: AppView) -> (AppView, ActionView) {
    if s.url_input.len() == 0 {
        (s, ActionView::Nothing)
    } else {
        (
            with_log(
                AppView { popup_mode: PopupMode::Closed, url_input: Seq::empty(), ..s },
                LogType::Info,
                "正在验证URL..."@,
            ),
            ActionView::SubmitSubscription(s.url_input),
        )
    }
}

/// How a key press changes the interface and what outside work it asks for.
/// In the URL pop-up keys edit the input (Enter submits, Esc cancels); in the
/// provider pop-up they move the selection, delete (`d`) or pick (Enter) a provider;
/// the help pop-up only closes on Esc; without a pop-up, letters run commands and
/// the arrows and Enter move through and pick nodes.
pub open spec fn key_step(s: AppView, key: Key) -> (AppView, ActionView) {
    match s.popup_mode {
        PopupMode::UrlInput => match key {
            Key::Esc => (
                AppView { popup_mode: PopupMode::Closed, url_input: Seq::empty(), ..s },
                ActionView::Nothing,
            ),
            Key::Enter => submit_url_spec(s),
            Key::Backspace => (
                AppView {
                    url_input: if s.url_input.len() > 0 {
                        s.url_input.drop_last()
                    } else {
                        s.url_input
                    },
                    ..s
                },
                ActionView::Nothing,
            ),
            Key::Char(c) => (AppView { url_input: s.url_input.push(c), ..s }, ActionView::Nothing),
            _ => (s, ActionView::Nothing),
        },
        PopupMode::AgencySelect => match key {
            Key::Esc => (AppView { popup_mode: PopupMode::Closed, ..s }, ActionView::Nothing),
            Key::Up => (navigate_provider_spec(s, -1), ActionView::Nothing),
            Key::Down => (navigate_provider_spec(s, 1), ActionView::Nothing),
            Key::Char(c) => if c == 'd' {
                delete_current_provider_spec(s)
            } else {
                (s, ActionView::Nothing)
            },
            Key::Enter => if s.select_provider < provider_list_of(s).len() {
                (s, ActionView::SwitchProvider(provider_list_of(s)[s.select_provider as int].0))
            } else {
                (s, ActionView::Nothing)
            },
            _ => (s, ActionView::Nothing),
        },
        PopupMode::HelpKey => match key {
            Key::Esc => (AppView { popup_mode: PopupMode::Closed, ..s }, ActionView::Nothing),
            _ => (s, ActionView::Nothing),
        },
        PopupMode::Closed => match key {
            Key::Char(c) => if c == 'q' {
                (AppView { should_quit: true, ..s }, ActionView::Nothing)
            } else if c == 's' {
                (s, ActionView::ToggleMihomo)
            } else if c == 'p' {
                (s, ActionView::ToggleSystemProxy)
            } else if c == 'T' {
                (s, ActionView::ToggleTun)
            } else if c == 'c' {
                (AppView { popup_mode: PopupMode::AgencySelect, ..s }, ActionView::Nothing)
            } else if c == 't' {
                start_delay_test_spec(s)
            } else if c == 'r' {
                (s, ActionView::RefreshNodes)
            } else if c == 'u' {
                (AppView { popup_mode: PopupMode::UrlInput, ..s }, ActionView::Nothing)
            } else if c == 'd' {
                (s, ActionView::InstallMihomo)
            } else if c == '?' {
                (AppView { popup_mode: PopupMode::HelpKey, ..s }, ActionView::Nothing)
            } else {
                (s, ActionView::Nothing)
            },
            Key::Up => (navigate_node_spec(s, -1), ActionView::Nothing),
            Key::Down => (navigate_node_spec(s, 1), ActionView::Nothing),
            Key::Enter => if s.nodes.len() > 0 {
                (
                    AppView { active_node: Some(s.select_node), ..s },
                    ActionView::SwitchNode(s.nodes[s.select_node as int].0),
                )
            } else {
                (s, ActionView::Nothing)
            },
            _ => (s, ActionView::Nothing),
        },
    }
}

/// The speed text for the node `name` after a measurement.
fn speed_for(delays: &Vec<(String, u32)>, name: &String) -> (res: String)
    ensures
        res@ == speed_text(delay_lookup(delay_views(delays@), name@)),
{
    let n = delays.len();
    let mut i: usize = 0;
    assert(delay_views(delays@).skip(0) =~= delay_views(delays@));
    while i < n
        invariant
            i <= n,
            n == delays@.len(),
            delay_lookup(delay_views(delays@), name@) == delay_lookup(
                delay_views(delays@).skip(i as int),
                name@,
            ),
        decreases n - i,
    {
        let ghost rest = delay_views(delays@).skip(i as int);
        assert(rest.drop_first() =~= delay_views(delays@).skip(i + 1));
        assert(rest[0] == (delays@[i as int].0@, delays@[i as int].1));
        if delays[i].0 == *name {
            let mut out: Vec<char> = Vec::new();
            push_decimal(&mut out, delays[i].1 as u64);
            let ms = str_chars("ms");
            let mut j: usize = 0;
            let ghost digits = out@;
            while j < ms.len()
                invariant
                    j <= ms@.len(),
                    out@ == digits + ms@.take(j as int),
                decreases ms@.len() - j,
            {
                out.push(ms[j]);
                j = j + 1;
                assert(out@ =~= digits + ms@.take(j as int));
            }
            assert(ms@.take(ms@.len() as int) =~= ms@);
            return chars_to_string(out.as_slice());
        }
        i = i + 1;
    }
    "-".to_owned()
}

/// Moving a selection keeps it inside a non-empty list.
pub proof fn law_navigation_in_range(s: AppView, step: int)
    ensures
        s.nodes.len() > 0 ==> navigate_node_spec(s, step).select_node < s.nodes.len(),
        provider_list_of(s).len() > 0 ==> navigate_provider_spec(s, step).select_provider
            < provider_list_of(s).len(),
{
}

/// Moving down and then up returns to the same selection (the lists are not empty and
/// the selection is inside them).
pub proof fn law_navigation_inverse(s: AppView)
    ensures
        0 < s.nodes.len() <= usize::MAX && s.select_node < s.nodes.len() ==> navigate_node_spec(
            navigate_node_spec(s, 1),
            -1,
        ) == s,
        0 < provider_list_of(s).len() <= usize::MAX && s.select_provider < provider_list_of(
            s,
        ).len() ==> navigate_provider_spec(navigate_provider_spec(s, 1), -1) == s,
{
    let n = s.nodes.len();
    if 0 < n <= usize::MAX && s.select_node < n {
        lemma_wrap_inverse(s.select_node, n);
        let s1 = navigate_node_spec(s, 1);
        assert(s1.nodes == s.nodes);
        let s2 = navigate_node_spec(s1, -1);
        assert(s2.select_node == s.select_node);
        assert(s2 == s);
    }
    let m = provider_list_of(s).len();
    if 0 < m <= usize::MAX && s.select_provider < m {
        lemma_wrap_inverse(s.select_provider, m);
        let s1 = navigate_provider_spec(s, 1);
        assert(s1.providers == s.providers);
        let s2 = navigate_provider_spec(s1, -1);
        assert(s2.select_provider == s.select_provider);
        assert(s2 == s);
    }
}

proof fn lemma_wrap_inverse(sel: usize, len: nat)
    requires
        0 < len <= usize::MAX,
        sel < len,
    ensures
        wrap_index(wrap_index(sel, 1, len), -1, len) == sel,
{
    let n = len as int;
    let a = sel as int;
    if a + 1 < n {
        assert((a + 1) % n == a + 1) by (nonlinear_arith)
            requires
                0 <= a + 1 < n,
        ;
        assert(wrap_index(sel, 1, len) as int == a + 1);
        assert((a + 1 + -1) % n == a) by (nonlinear_arith)
            requires
                0 <= a < n,
        ;
    } else {
        assert((a + 1) % n == 0) by (nonlinear_arith)
            requires
                a + 1 == n,
                n > 0,
        ;
        assert(wrap_index(sel, 1, len) as int == 0);
        assert((0 + -1) % n == n - 1) by (nonlinear_arith)
            requires
                n > 0,
        ;
    }
}

/// After a node report the selection is inside the new list (or at the top of an empty
/// one) and, when the current node is listed, it is that node and the active one.
pub proof fn law_report_selection(s: AppView, all: Seq<Seq<char>>, now: Seq<char>)
    requires
        all.len() <= usize::MAX,
    ensures
        ({
            let t = apply_proxy_report_spec(s, Ok((all, now)));
            &&& all.len() > 0 ==> t.select_node < all.len()
            &&& all.len() == 0 ==> t.select_node == 0
            &&& t.nodes.len() == all.len()
            &&& (exists|i: int| 0 <= i < all.len() && all[i] == now) ==> (t.active_node == Some(
                t.select_node,
            ) && all[t.select_node as int] == now)
        }),
{
    lemma_last_match(all, now);
}

proof fn lemma_last_match(all: Seq<Seq<char>>, now: Seq<char>)
    ensures
        last_match(all, now) matches Some(i) ==> 0 <= i < all.len() && all[i] == now,
        last_match(all, now) is None ==> forall|i: int| 0 <= i < all.len() ==> all[i] != now,
    decreases all.len(),
{
    if all.len() > 0 {
        lemma_last_match(all.drop_last(), now);
        if all.last() != now {
            assert forall|i: int| 0 <= i < all.len() - 1 implies all[i] == all.drop_last()[i] by {}
        }
    }
}

/// Esc closes whichever pop-up is open and asks for nothing.
pub proof fn law_escape_closes_popup(s: AppView)
    requires
        s.popup_mode != PopupMode::Closed,
    ensures
        key_step(s, Key::Esc).0.popup_mode == PopupMode::Closed,
        key_step(s, Key::Esc).1 == ActionView::Nothing,
        key_step(s, Key::Esc).0.logs == s.logs,
{
}

/// `q` quits only when no pop-up is open; inside a pop-up it is typed or ignored.
pub proof fn law_quit_only_without_popup(s: AppView)
    ensures
        key_step(s, Key::Char('q')).0.should_quit == (s.should_quit || s.popup_mode
            == PopupMode::Closed),
{
}

/// In the URL pop-up, typing a character and erasing it leaves the interface as it was.
pub proof fn law_type_then_erase(s: AppView, c: char)
    requires
        s.popup_mode == PopupMode::UrlInput,
    ensures
        key_step(key_step(s, Key::Char(c)).0, Key::Backspace).0 == s,
{
    assert(s.url_input.push(c).drop_last() =~= s.url_input);
}

/// A delay measurement is never started twice: a second request while one runs only
/// logs a warning.
pub proof fn law_single_delay_measurement(s: AppView)
    ensures
        ({
            let first = start_delay_test_spec(s).0;
            &&& first.is_test_delay
            &&& start_delay_test_spec(first).1 == ActionView::Nothing
            &&& start_delay_test_spec(first).0 == with_log(first, LogType::Warn, "已经在测速了!"@)
        }),
{
}

proof fn lemma_wrap_steps(sel: usize, len: nat)
    requires
        0 < len <= usize::MAX,
        sel < len,
    ensures
        wrap_index(sel, -1, len) as int == (if sel == 0 { len - 1 } else { sel - 1 }),
        wrap_index(sel, 1, len) as int == (if sel + 1 == len { 0 } else { sel + 1 }),
{
    let n = len as int;
    let a = sel as int;
    if a == 0 {
        assert((a + -1) % n == n - 1) by (nonlinear_arith)
            requires
                a == 0,
                n > 0,
        ;
    } else {
        assert((a + -1) % n == a - 1) by (nonlinear_arith)
            requires
                0 <= a - 1 < n,
        ;
    }
    if a + 1 == n {
        assert((a + 1) % n == 0) by (nonlinear_arith)
            requires
                a + 1 == n,
                n > 0,
        ;
    } else {
        assert((a + 1) % n == a + 1) by (nonlinear_arith)
            requires
                0 <= a + 1 < n,
        ;
    }
}

/// The arrow keys move the selection by one, wrapping around: Up to the entry above
/// (from the first to the last), Down to the entry below (from the last to the
/// first). In the provider pop-up they move the provider selection, with no pop-up
/// open the node selection; the other selection stays, and nothing is asked for.
pub proof fn law_arrow_keys(s: AppView)
    ensures
        ({
            let n = provider_list_of(s).len();
            let p = s.select_provider as int;
            s.popup_mode == PopupMode::AgencySelect && 0 < n <= usize::MAX && p < n ==> {
                &&& key_step(s, Key::Up).0.select_provider as int == (if p == 0 { n - 1 } else { p - 1 })
                &&& key_step(s, Key::Down).0.select_provider as int == (if p + 1 == n { 0 } else { p + 1 })
                &&& key_step(s, Key::Up).0.select_node == s.select_node
                &&& key_step(s, Key::Down).0.select_node == s.select_node
                &&& key_step(s, Key::Up).1 == ActionView::Nothing
                &&& key_step(s, Key::Down).1 == ActionView::Nothing
            }
        }),
        ({
            let n = s.nodes.len();
            let k = s.select_node as int;
            s.popup_mode == PopupMode::Closed && 0 < n <= usize::MAX && k < n ==> {
                &&& key_step(s, Key::Up).0.select_node as int == (if k == 0 { n - 1 } else { k - 1 })
                &&& key_step(s, Key::Down).0.select_node as int == (if k + 1 == n { 0 } else { k + 1 })
                &&& key_step(s, Key::Up).0.select_provider == s.select_provider
                &&& key_step(s, Key::Down).0.select_provider == s.select_provider
                &&& key_step(s, Key::Up).1 == ActionView::Nothing
                &&& key_step(s, Key::Down).1 == ActionView::Nothing
            }
        }),
{
    let n = provider_list_of(s).len();
    if s.popup_mode == PopupMode::AgencySelect && 0 < n <= usize::MAX && s.select_provider < n {
        lemma_wrap_steps(s.select_provider, n);
    }
    let m = s.nodes.len();
    if s.popup_mode == PopupMode::Closed && 0 < m <= usize::MAX && s.select_node < m {
        lemma_wrap_steps(s.select_node, m);
    }
}

/// With no pop-up open, each command key asks for its own work and leaves the interface
/// as it is: `s` the kernel, `p` the system proxy, `T` TUN, `r` the node list, `d` the
/// kernel download; `c`, `u` and `?` open the provider, URL and help pop-ups and ask for
/// nothing; Enter on a listed node makes it active and asks to switch to it.
pub proof fn law_command_keys(s: AppView)
    requires
        s.popup_mode == PopupMode::Closed,
    ensures
        key_step(s, Key::Char('s')) == (s, ActionView::ToggleMihomo),
        key_step(s, Key::Char('p')) == (s, ActionView::ToggleSystemProxy),
        key_step(s, Key::Char('T')) == (s, ActionView::ToggleTun),
        key_step(s, Key::Char('r')) == (s, ActionView::RefreshNodes),
        key_step(s, Key::Char('d')) == (s, ActionView::InstallMihomo),
        key_step(s, Key::Char('c')) == (AppView { popup_mode: PopupMode::AgencySelect, ..s }, ActionView::Nothing),
        key_step(s, Key::Char('u')) == (AppView { popup_mode: PopupMode::UrlInput, ..s }, ActionView::Nothing),
        key_step(s, Key::Char('?')) == (AppView { popup_mode: PopupMode::HelpKey, ..s }, ActionView::Nothing),
        s.select_node < s.nodes.len() ==> key_step(s, Key::Enter) == (
            AppView { active_node: Some(s.select_node), ..s },
            ActionView::SwitchNode(s.nodes[s.select_node as int].0),
        ),
        s.nodes.len() == 0 ==> key_step(s, Key::Enter) == (s, ActionView::Nothing),
{
}

/// In the provider pop-up, Enter asks to switch to the selected provider's key and
/// changes nothing; in the URL pop-up, a typed character is appended to the input.
pub proof fn law_popup_keys(s: AppView, c: char)
    ensures
        s.popup_mode == PopupMode::AgencySelect && s.select_provider < provider_list_of(s).len()
            ==> key_step(s, Key::Enter) == (
            s,
            ActionView::SwitchProvider(provider_list_of(s)[s.select_provider as int].0),
        ),
        s.popup_mode == PopupMode::UrlInput ==> key_step(s, Key::Char(c)) == (
            AppView { url_input: s.url_input.push(c), ..s },
            ActionView::Nothing,
        ),
        s.popup_mode == PopupMode::HelpKey ==> key_step(s, Key::Char(c)) == (s, ActionView::Nothing),
{
}

/// A delay measurement that is not running is always asked for when started (by the
/// call or by `t` with no pop-up open): the flag goes up and every node shows `wait`.
/// One that runs is not asked for again and leaves the nodes as they are. The answer,
/// whatever it is, lowers the flag, so the next start asks again.
pub proof fn law_delay_measurement_cycle(s: AppView, r: Result<Seq<(Seq<char>, u32)>, Seq<char>>)
    ensures
        !s.is_test_delay ==> {
            &&& start_delay_test_spec(s).1 == ActionView::MeasureDelays
            &&& start_delay_test_spec(s).0.is_test_delay
            &&& start_delay_test_spec(s).0.nodes.len() == s.nodes.len()
            &&& forall|i: int| 0 <= i < s.nodes.len() ==> #[trigger] start_delay_test_spec(s).0.nodes[i]
                == (s.nodes[i].0, "wait"@)
        },
        s.popup_mode == PopupMode::Closed && !s.is_test_delay ==> key_step(s, Key::Char('t')).1
            == ActionView::MeasureDelays,
        s.is_test_delay ==> start_delay_test_spec(s).1 == ActionView::Nothing
            && start_delay_test_spec(s).0.nodes == s.nodes
            && start_delay_test_spec(s).0.is_test_delay,
        !apply_delays_spec(s, r).is_test_delay,
        start_delay_test_spec(apply_delays_spec(s, r)).1 == ActionView::MeasureDelays,
{
}

impl App {
    /// Handles one key press (see `key_step`); the returned action is the outside
    /// work the caller is to perform.
    pub fn handle_key(&mut self, key: Key) -> (action: Action)
        requires
            old(self).ready(),
        ensures
            (final(self)@, action@) == key_step(old(self)@, key),
            final(self).config.same_except_providers(&old(self).config),
            final(self).ready(),
            action@ == ActionView::SaveConfigAndReload ==> key_position(
                final(self).config.provider_list(),
                old(self).config.provider_list()[old(self).select_provider as int].0,
            ) is None && keys_unique(final(self).config.provider_list()),
    {
        match self.popup_mode {
            PopupMode::UrlInput => {
                match key {
                    Key::Esc => {
                        self.popup_mode = PopupMode::Closed;
                        self.url_input = String::new();
                        Action::Nothing
                    },
                    Key::Enter => self.submit_url(),
                    Key::Backspace => {
                        string_pop(&mut self.url_input);
                        Action::Nothing
                    },
                    Key::Char(c) => {
                        string_push(&mut self.url_input, c);
                        Action::Nothing
                    },
                    _ => Action::Nothing,
                }
            },
            PopupMode::AgencySelect => {
                match key {
                    Key::Esc => {
                        self.popup_mode = PopupMode::Closed;
                        Action::Nothing
                    },
                    Key::Up => {
                        self.navigate_provider(-1);
                        Action::Nothing
                    },
                    Key::Down => {
                        self.navigate_provider(1);
                        Action::Nothing
                    },
                    Key::Char(c) => if c == 'd' {
                        self.delete_current_provider()
                    } else {
                        Action::Nothing
                    },
                    Key::Enter => match self.config.provider_key_by_index(self.select_provider) {
                        Some(name) => Action::SwitchProvider(name),
                        None => Action::Nothing,
                    },
                    _ => Action::Nothing,
                }
            },
            PopupMode::HelpKey => match key {
                Key::Esc => {
                    self.popup_mode = PopupMode::Closed;
                    Action::Nothing
                },
                _ => Action::Nothing,
            },
            PopupMode::Closed => match key {
                Key::Char(c) => if c == 'q' {
                    self.should_quit = true;
                    Action::Nothing
                } else if c == 's' {
                    Action::ToggleMihomo
                } else if c == 'p' {
                    Action::ToggleSystemProxy
                } else if c == 'T' {
                    Action::ToggleTun
                } else if c == 'c' {
                    self.popup_mode = PopupMode::AgencySelect;
                    Action::Nothing
                } else if c == 't' {
                    self.start_delay_test()
                } else if c == 'r' {
                    Action::RefreshNodes
                } else if c == 'u' {
                    self.popup_mode = PopupMode::UrlInput;
                    Action::Nothing
                } else if c == 'd' {
                    Action::InstallMihomo
                } else if c == '?' {
                    self.popup_mode = PopupMode::HelpKey;
                    Action::Nothing
                } else {
                    Action::Nothing
                },
                Key::Up => {
                    self.navigate_node(-1);
                    Action::Nothing
                },
                Key::Down => {
                    self.navigate_node(1);
                    Action::Nothing
                },
                Key::Enter => {
                    if self.current_nodes.len() != 0 {
                        self.active_node = Some(self.select_node);
                        let name = self.current_nodes[self.select_node].name.clone();
                        Action::SwitchNode(name)
                    } else {
                        Action::Nothing
                    }
                },
                _ => Action::Nothing,
            },
        }
    }
}

/// The delay measured for `name`: the first entry of that name.
pub open spec fn delay_lookup(delays: Seq<(Seq<char>, u32)>, name: Seq<char>) -> Option<u32>
    decreases delays.len(),
{
    if delays.len() == 0 {
        None
    } else if delays[0].0 == name {
        Some(delays[0].1)
    } else {
        delay_lookup(delays.drop_first(), name)
    }
}

/// The speed column for a measured delay: `<ms>ms`, or `-` when unmeasured.
pub open spec fn speed_text(d: Option<u32>) -> Seq<char> {
    match d {
        Some(v) => decimal(v as nat) + "ms"@,
        None => "-"@,
    }
}

/// The views of delay measurements.
pub open spec fn delay_views(v: Seq<(String, u32)>) -> Seq<(Seq<char>, u32)> {
    v.map_values(|e: (String, u32)| (e.0@, e.1))
}

/// The interface after a delay measurement finished: on success every node shows its
/// delay and an info entry is logged; on failure the error is logged. Either way the
/// measurement no longer runs.
pub open spec fn apply_delays_spec(s: AppView, r: Result<Seq<(Seq<char>, u32)>, Seq<char>>) -> AppView {
    match r {
        Ok(ds) => with_log(
            AppView {
                nodes: s.nodes.map_values(
                    |n: (Seq<char>, Seq<char>)| (n.0, speed_text(delay_lookup(ds, n.0))),
                ),
                is_test_delay: false,
                ..s
            },
            LogType::Info,
            "测速完成"@,
        ),
        Err(e) => with_log(AppView { is_test_delay: false, ..s }, LogType::Error, e),
    }
}

/// Position of the last name in `all` equal to `now`.
pub open spec fn last_match(all: Seq<Seq<char>>, now: Seq<char>) -> Option<int>
    decreases all.len(),
{
    if all.len() == 0 {
        None
    } else if all.last() == now {
        Some(all.len() - 1)
    } else {
        last_match(all.drop_last(), now)
    }
}

/// The interface after the kernel reported its nodes: the list is replaced by the
/// reported names (unmeasured); the selection goes to the last node named like the
/// current one, which also becomes the active node, else to the top with the active
/// node kept; an info entry is logged. A failed request only logs its error.
pub open spec fn apply_proxy_report_spec(s: AppView, r: Result<(Seq<Seq<char>>, Seq<char>), Seq<char>>) -> AppView {
    match r {
        Ok((all, now)) => {
            let m = last_match(all, now);
            with_log(
                AppView {
                    nodes: all.map_values(|n: Seq<char>| (n, "-"@)),
                    select_node: match m {
                        Some(i) => i as usize,
                        None => 0,
                    },
                    active_node: match m {
                        Some(i) => Some(i as usize),
                        None => s.active_node,
                    },
                    ..s
                },
                LogType::Info,
                "更新代理信息"@,
            )
        },
        Err(e) => with_log(s, LogType::Error, e),
    }
}

/// The provider selected when the interface starts: the position of the first
/// provider that the first proxy group uses, else the top.
pub open spec fn initial_provider(c: &MihomoConfig) -> usize {
    if c.proxy_groups@.len() > 0 && c.proxy_groups@[0].use_list@.len() > 0 {
        match key_position(c.provider_list(), c.proxy_groups@[0].use_list@[0]@) {
            Some(i) => i as usize,
            None => 0,
        }
    } else {
        0
    }
}

/// The name a new subscription gets when the fetched name is missing: `订阅<n>`,
/// `n` being one more than the number of subscriptions.
pub open spec fn fallback_provider_name(count: nat) -> Seq<char> {
    "订阅"@ + decimal(count + 1)
}

impl App {
    /// The interface on start: nothing selected, no nodes, no pop-up, an empty log, the
    /// given configuration and the probed states of the system proxy and the kernel.
    /// TUN starts off: the configuration file that the front end writes has no TUN
    /// section, so there is no TUN setting to read from it.
    pub fn new(config: MihomoConfig, proxy_running: bool, mihomo_running: bool) -> (res: Self)
        ensures
            res@ == (AppView {
                select_node: 0,
                select_provider: initial_provider(&config),
                proxy_running: proxy_running,
                tun_enabled: false,
                active_node: None,
                nodes: Seq::empty(),
                should_quit: false,
                logs: Seq::empty(),
                url_input: Seq::empty(),
                popup_mode: PopupMode::Closed,
                is_test_delay: false,
                mihomo_running: mihomo_running,
                is_downloading: false,
                providers: config.providers(),
            }),
            res.config == config,
            config.provider_list().len() <= i32::MAX ==> res.ready(),
    {
        let mut select_provider: usize = 0;
        if config.proxy_groups.len() > 0 && config.proxy_groups[0].use_list.len() > 0 {
            let idx = config.provider_index_by_key(config.proxy_groups[0].use_list[0].as_str());
            if let Some(i) = idx {
                select_provider = i;
            }
            proof {
                lemma_key_position(config.provider_list(), config.proxy_groups@[0].use_list@[0]@);
            }
        }
        let res = Self {
            select_node: 0,
            select_provider: select_provider,
            proxy_running: proxy_running,
            tun_enabled: false,
            active_node: None,
            current_nodes: Vec::new(),
            should_quit: false,
            logs: Logs::new(),
            url_input: String::new(),
            popup_mode: PopupMode::Closed,
            is_test_delay: false,
            mihomo_running: mihomo_running,
            is_downloading: false,
            config: config,
        };
        assert(node_views(res.current_nodes@) =~= Seq::empty());
        res
    }

    /// Records the outcome of starting the kernel.
    pub fn on_mihomo_started(&mut self, result: Result<(), String>)
        ensures
            final(self)@ == after_outcome(
                old(self)@,
                AppView { mihomo_running: true, ..old(self)@ },
                "mihomo启动"@,
                outcome_view(result),
            ),
            final(self).config == old(self).config,
            final(self).current_nodes == old(self).current_nodes,
    {
        match result {
            Ok(()) => {
                self.mihomo_running = true;
                self.log(LogType::Info, "mihomo启动".to_owned());
            },
            Err(e) => self.log(LogType::Error, e),
        }
    }

    /// Records the outcome of stopping the kernel.
    pub fn on_mihomo_stopped(&mut self, result: Result<(), String>)
        ensures
            final(self)@ == after_outcome(
                old(self)@,
                AppView { mihomo_running: false, ..old(self)@ },
                "已停止mihomo"@,
                outcome_view(result),
            ),
            final(self).config == old(self).config,
            final(self).current_nodes == old(self).current_nodes,
    {
        match result {
            Ok(()) => {
                self.mihomo_running = false;
                self.log(LogType::Info, "已停止mihomo".to_owned());
            },
            Err(e) => self.log(LogType::Error, e),
        }
    }

    /// Records the outcome of turning the system proxy over, `was_enabled` being its
    /// state before: the shown state flips whatever the outcome.
    pub fn on_system_proxy_toggled(&mut self, was_enabled: bool, result: Result<(), String>)
        ensures
            final(self)@ == after_outcome(
                AppView { proxy_running: !was_enabled, ..old(self)@ },
                AppView { proxy_running: !was_enabled, ..old(self)@ },
                if was_enabled {
                    "关闭系统代理"@
                } else {
                    "开启系统代理"@
                },
                outcome_view(result),
            ),
            final(self).config == old(self).config,
            final(self).current_nodes == old(self).current_nodes,
    {
        self.proxy_running = !was_enabled;
        match result {
            Ok(()) => if was_enabled {
                self.log(LogType::Info, "关闭系统代理".to_owned());
            } else {
                self.log(LogType::Info, "开启系统代理".to_owned());
            },
            Err(e) => self.log(LogType::Error, e),
        }
    }

    /// Records the outcome of turning TUN mode over; `warning` is logged after turning it
    /// on. Returns whether the kernel is to reload its configuration.
    pub fn on_tun_toggled(&mut self, result: Result<(), String>, warning: Option<String>) -> (reload:
        bool)
        ensures
            reload == (result is Ok),
            match result {
                Ok(()) => {
                    let on = !old(self).tun_enabled;
                    let s1 = with_log(
                        AppView { tun_enabled: on, ..old(self)@ },
                        LogType::Info,
                        if on {
                            "TUN已开启"@
                        } else {
                            "TUN已关闭"@
                        },
                    );
                    final(self)@ == match warning {
                        Some(w) => if on {
                            with_log(s1, LogType::Warn, w@)
                        } else {
                            s1
                        },
                        None => s1,
                    }
                },
                Err(e) => final(self)@ == with_log(old(self)@, LogType::Error, e@),
            },
            final(self).config == old(self).config,
            final(self).current_nodes == old(self).current_nodes,
    {
        match result {
            Ok(()) => {
                let on = !self.tun_enabled;
                self.tun_enabled = on;
                if on {
                    self.log(LogType::Info, "TUN已开启".to_owned());
                    if let Some(w) = warning {
                        self.log(LogType::Warn, w);
                    }
                } else {
                    self.log(LogType::Info, "TUN已关闭".to_owned());
                }
                true
            },
            Err(e) => {
                self.log(LogType::Error, e);
                false
            },
        }
    }

    /// Records a finished delay measurement (see `apply_delays_spec`).
    pub fn apply_delays(&mut self, result: Result<Vec<(String, u32)>, String>)
        ensures
            final(self)@ == apply_delays_spec(
                old(self)@,
                match result {
                    Ok(ds) => Ok(delay_views(ds@)),
                    Err(e) => Err(e@),
                },
            ),
            final(self).config == old(self).config,
            final(self).current_nodes@.len() == old(self).current_nodes@.len(),
    {
        match result {
            Ok(delays) => {
                let ghost ds = delay_views(delays@);
                let mut measured: Vec<Node> = Vec::new();
                let n = self.current_nodes.len();
                let mut i: usize = 0;
                while i < n
                    invariant
                        i <= n,
                        n == self.current_nodes@.len(),
                        ds == delay_views(delays@),
                        node_views(measured@) == node_views(self.current_nodes@).take(
                            i as int,
                        ).map_values(
                            |v: (Seq<char>, Seq<char>)| (v.0, speed_text(delay_lookup(ds, v.0))),
                        ),
                    decreases n - i,
                {
                    let ghost before = measured@;
                    let name = self.current_nodes[i].name.clone();
                    let speed = speed_for(&delays, &name);
                    measured.push(Node { name: name, speed: speed });
                    assert(node_views(self.current_nodes@)[i as int] == self.current_nodes@[i as int]@);
                    assert(node_views(measured@) =~= node_views(before).push(measured@[i as int]@));
                    assert(node_views(measured@) =~= node_views(self.current_nodes@).take(
                        i + 1,
                    ).map_values(
                        |v: (Seq<char>, Seq<char>)| (v.0, speed_text(delay_lookup(ds, v.0))),
                    ));
                    i = i + 1;
                }
                assert(node_views(self.current_nodes@).take(n as int) =~= node_views(
                    self.current_nodes@,
                ));
                self.current_nodes = measured;
                self.is_test_delay = false;
                self.log(LogType::Info, "测速完成".to_owned());
            },
            Err(e) => {
                self.is_test_delay = false;
                self.log(LogType::Error, e);
            },
        }
    }

    /// Records the kernel's report about its nodes (see `apply_proxy_report_spec`).
    pub fn apply_proxy_report(&mut self, result: Result<ProxyReport, String>)
        ensures
            final(self)@ == apply_proxy_report_spec(
                old(self)@,
                match result {
                    Ok(p) => Ok((string_views(p.all@), p.now@)),
                    Err(e) => Err(e@),
                },
            ),
            final(self).config == old(self).config,
            old(self).ready() && (result matches Ok(p) ==> p.all@.len() <= i32::MAX)
                ==> final(self).ready(),
    {
        match result {
            Ok(report) => {
                let ghost all = string_views(report.all@);
                let mut nodes: Vec<Node> = Vec::new();
                let mut select: usize = 0;
                let mut active = self.active_node;
                let n = report.all.len();
                let mut i: usize = 0;
                while i < n
                    invariant
                        i <= n,
                        n == report.all@.len(),
                        all == string_views(report.all@),
                        node_views(nodes@) == all.take(i as int).map_values(
                            |v: Seq<char>| (v, "-"@),
                        ),
                        select == match last_match(all.take(i as int), report.now@) {
                            Some(j) => j as usize,
                            None => 0usize,
                        },
                        active == match last_match(all.take(i as int), report.now@) {
                            Some(j) => Some(j as usize),
                            None => old(self).active_node,
                        },
                        last_match(all.take(i as int), report.now@) matches Some(j) ==> 0 <= j < i,
                    decreases n - i,
                {
                    let ghost before = nodes@;
                    let name = report.all[i].clone();
                    assert(all.take(i + 1).drop_last() =~= all.take(i as int));
                    assert(all.take(i + 1).last() == report.all@[i as int]@);
                    if name == report.now {
                        select = i;
                        active = Some(i);
                    }
                    nodes.push(Node::new(name));
                    assert(node_views(nodes@) =~= node_views(before).push(nodes@[i as int]@));
                    assert(node_views(nodes@) =~= all.take(i + 1).map_values(|v: Seq<char>| (v, "-"@)));
                    i = i + 1;
                }
                assert(all.take(n as int) =~= all);
                self.current_nodes = nodes;
                self.select_node = select;
                self.active_node = active;
                self.log(LogType::Info, "更新代理信息".to_owned());
            },
            Err(e) => self.log(LogType::Error, e),
        }
    }

    /// Records the outcome of switching to the node `name`.
    pub fn on_node_switched(&mut self, name: String, result: Result<(), String>)
        ensures
            final(self)@ == after_outcome(
                old(self)@,
                old(self)@,
                "切换节点："@ + name@,
                outcome_view(result),
            ),
            final(self).config == old(self).config,
            final(self).current_nodes == old(self).current_nodes,
    {
        match result {
            Ok(()) => {
                let mut msg = "切换节点：".to_owned();
                msg.append(name.as_str());
                self.log(LogType::Info, msg);
            },
            Err(e) => self.log(LogType::Error, e),
        }
    }

    /// Records the outcome of a configuration reload: on success the pop-up closes.
    /// Returns whether the nodes are to be listed again.
    pub fn on_config_reloaded(&mut self, result: Result<(), String>) -> (refresh: bool)
        ensures
            refresh == (result is Ok),
            final(self)@ == after_outcome(
                old(self)@,
                AppView { popup_mode: PopupMode::Closed, ..old(self)@ },
                "重置配置成功"@,
                outcome_view(result),
            ),
            final(self).config == old(self).config,
            final(self).current_nodes == old(self).current_nodes,
    {
        match result {
            Ok(()) => {
                self.popup_mode = PopupMode::Closed;
                self.log(LogType::Info, "重置配置成功".to_owned());
                true
            },
            Err(e) => {
                self.log(LogType::Error, e);
                false
            },
        }
    }

    /// Records the outcome of preparing the switch to another provider.
    /// Returns whether the kernel is to reload its configuration.
    pub fn on_provider_prepared(&mut self, result: Result<(), String>) -> (reload: bool)
        ensures
            reload == (result is Ok),
            final(self)@ == after_outcome(old(self)@, old(self)@, "正在切换代理商..."@, outcome_view(result)),
            final(self).config == old(self).config,
            final(self).current_nodes == old(self).current_nodes,
    {
        match result {
            Ok(()) => {
                self.log(LogType::Info, "正在切换代理商...".to_owned());
                true
            },
            Err(e) => {
                self.log(LogType::Error, e);
                false
            },
        }
    }

    /// Adds the subscription `url` to the configuration under the fetched name, or under
    /// `订阅<n>` with a warning when naming failed; closes the pop-up. Returns the name.
    /// Writing the file is left to the caller.
    pub fn begin_subscription(
        &mut self,
        url: String,
        name_result: Result<String, String>,
    ) -> (name: String)
        requires
            old(self).config.provider_list().len() < u64::MAX,
        ensures
            name@ == match name_result {
                Ok(n) => n@,
                Err(_) => fallback_provider_name(old(self).config.provider_list().len()),
            },
            final(self)@ == (AppView {
                popup_mode: PopupMode::Closed,
                providers: Some(upsert(old(self).config.provider_list(), name@, http_provider(url@))),
                logs: match name_result {
                    Ok(_) => old(self)@.logs,
                    Err(e) => old(self)@.logs.push(
                        (LogType::Warn, e@ + "，使用默认名称 "@ + name@),
                    ),
                },
                ..old(self)@
            }),
            final(self).config.same_except_providers(&old(self).config),
            final(self).current_nodes == old(self).current_nodes,
    {
        let name = match name_result {
            Ok(n) => n,
            Err(e) => {
                let count = self.config.provider_count();
                let mut chars = str_chars("订阅");
                push_decimal(&mut chars, count as u64 + 1);
                let fallback = chars_to_string(chars.as_slice());
                let mut msg = e;
                msg.append("，使用默认名称 ");
                msg.append(fallback.as_str());
                self.log(LogType::Warn, msg);
                fallback
            },
        };
        self.popup_mode = PopupMode::Closed;
        self.config.insert_named_sub(url, name.clone());
        name
    }

    /// Records the outcome of saving a new subscription named `name`.
    /// Returns whether the kernel is to reload its configuration.
    pub fn on_subscription_saved(&mut self, name: String, result: Result<(), String>) -> (reload:
        bool)
        ensures
            reload == (result is Ok),
            final(self)@ == after_outcome(
                old(self)@,
                old(self)@,
                "插入代理商："@ + name@,
                outcome_view(result),
            ),
            final(self).config == old(self).config,
            final(self).current_nodes == old(self).current_nodes,
    {
        match result {
            Ok(()) => {
                let mut msg = "插入代理商：".to_owned();
                msg.append(name.as_str());
                self.log(LogType::Info, msg);
                true
            },
            Err(e) => {
                self.log(LogType::Error, e);
                false
            },
        }
    }

    /// Notes that the kernel is already installed.
    pub fn note_already_installed(&mut self)
        ensures
            final(self)@ == with_log(old(self)@, LogType::Warn, "mihomo已经安装过了"@),
            final(self).config == old(self).config,
            final(self).current_nodes == old(self).current_nodes,
    {
        self.log(LogType::Warn, "mihomo已经安装过了".to_owned());
    }

    /// Starts a download of the kernel unless one runs. Returns whether it started.
    pub fn begin_download(&mut self) -> (started: bool)
        ensures
            started == !old(self).is_downloading,
            final(self)@ == if old(self).is_downloading {
                with_log(old(self)@, LogType::Warn, "正在安装mihomo"@)
            } else {
                with_log(
                    AppView { is_downloading: true, ..old(self)@ },
                    LogType::Info,
                    "正在安装mihomo"@,
                )
            },
            final(self).config == old(self).config,
            final(self).current_nodes == old(self).current_nodes,
    {
        if self.is_downloading {
            self.log(LogType::Warn, "正在安装mihomo".to_owned());
            return false;
        }
        self.is_downloading = true;
        self.log(LogType::Info, "正在安装mihomo".to_owned());
        true
    }

    /// Records the outcome of a download of the kernel.
    pub fn on_download_finished(&mut self, result: Result<(), String>)
        ensures
            final(self)@ == after_outcome(
                AppView { is_downloading: false, ..old(self)@ },
                AppView { is_downloading: false, ..old(self)@ },
                "下载mihomo成功"@,
                outcome_view(result),
            ),
            final(self).config == old(self).config,
            final(self).current_nodes == old(self).current_nodes,
    {
        match result {
            Ok(()) => {
                self.log(LogType::Info, "下载mihomo成功".to_owned());
            },
            Err(e) => self.log(LogType::Error, e),
        }
        self.is_downloading = false;
    }

    /// Keys can be handled: list lengths and selections fit the `i32` arithmetic of
    /// the navigation, and a non-empty node list has the selection inside it.
    pub open spec fn ready(&self) -> bool {
        &&& self.current_nodes@.len() <= i32::MAX
        &&& self.config.provider_list().len() <= i32::MAX
        &&& self.current_nodes@.len() > 0 ==> self.select_node < self.current_nodes@.len()
        &&& self.config.provider_list().len() > 0 ==> self.select_provider < i32::MAX
    }

    pub fn is_ready(&self) -> (res: bool)
        ensures
            res == self.ready(),
    {
        let n = self.current_nodes.len();
        let p = self.config.provider_count();
        n <= 0x7fff_ffff && p <= 0x7fff_ffff && (n == 0 || self.select_node < n) && (p == 0
            || self.select_provider < 0x7fff_ffff)
    }

    /// Moves the node selection by `step`, wrapping around at both ends.
    pub fn navigate_node(&mut self, step: i32)
        requires
            old(self).current_nodes@.len() <= i32::MAX,
            old(self).current_nodes@.len() > 0 ==> old(self).select_node <= i32::MAX && i32::MIN
                <= old(self).select_node + step <= i32::MAX,
        ensures
            final(self)@ == navigate_node_spec(old(self)@, step as int),
            final(self).config == old(self).config,
            final(self).current_nodes == old(self).current_nodes,
    {
        let len = self.current_nodes.len();
        if len == 0 {
            return ;
        }
        self.select_node = wrap_step(self.select_node, step, len);
    }

    /// Moves the provider selection by `step`, wrapping around at both ends.
    pub fn navigate_provider(&mut self, step: i32)
        requires
            old(self).config.provider_list().len() <= i32::MAX,
            old(self).config.provider_list().len() > 0 ==> old(self).select_provider <= i32::MAX
                && i32::MIN <= old(self).select_provider + step <= i32::MAX,
        ensures
            final(self)@ == navigate_provider_spec(old(self)@, step as int),
            final(self).config == old(self).config,
            final(self).current_nodes == old(self).current_nodes,
    {
        let len = self.config.provider_count();
        if len == 0 {
            return ;
        }
        self.select_provider = wrap_step(self.select_provider, step, len);
    }

    /// Starts a delay measurement unless one runs (see `start_delay_test_spec`).
    pub fn start_delay_test(&mut self) -> (action: Action)
        ensures
            (final(self)@, action@) == start_delay_test_spec(old(self)@),
            final(self).config == old(self).config,
            final(self).current_nodes@.len() == old(self).current_nodes@.len(),
    {
        if self.is_test_delay {
            self.log(LogType::Warn, "已经在测速了!".to_owned());
            return Action::Nothing;
        }
        self.is_test_delay = true;
        let mut waiting: Vec<Node> = Vec::new();
        let n = self.current_nodes.len();
        let mut i: usize = 0;
        while i < n
            invariant
                i <= n,
                n == self.current_nodes@.len(),
                node_views(waiting@) == node_views(self.current_nodes@).take(i as int).map_values(
                    |v: (Seq<char>, Seq<char>)| (v.0, "wait"@),
                ),
            decreases n - i,
        {
            let ghost before = waiting@;
            let name = self.current_nodes[i].name.clone();
            waiting.push(Node { name: name, speed: "wait".to_owned() });
            assert(node_views(self.current_nodes@)[i as int] == self.current_nodes@[i as int]@);
            assert(node_views(waiting@) =~= node_views(before).push(waiting@[i as int]@));
            assert(node_views(waiting@) =~= node_views(self.current_nodes@).take(i + 1).map_values(
                |v: (Seq<char>, Seq<char>)| (v.0, "wait"@),
            ));
            i = i + 1;
        }
        assert(node_views(self.current_nodes@).take(n as int) =~= node_views(self.current_nodes@));
        self.current_nodes = waiting;
        Action::MeasureDelays
    }

    /// Deletes the selected provider from the table (see `delete_current_provider_spec`).
    pub fn delete_current_provider(&mut self) -> (action: Action)
        ensures
            (final(self)@, action@) == delete_current_provider_spec(old(self)@),
            final(self).config.same_except_providers(&old(self).config),
            final(self).config.provider_list().len() <= old(self).config.provider_list().len(),
            action@ == ActionView::SaveConfigAndReload ==> key_position(
                final(self).config.provider_list(),
                old(self).config.provider_list()[old(self).select_provider as int].0,
            ) is None && keys_unique(final(self).config.provider_list()),
            final(self).current_nodes == old(self).current_nodes,
    {
        let name = match self.config.provider_key_by_index(self.select_provider) {
            Some(n) => n,
            None => return Action::Nothing,
        };
        self.config.remove_provider_entry(name.as_str());
        proof {
            lemma_shift_remove_len(old(self).config.provider_list(), name@);
        }
        Action::SaveConfigAndReload
    }

    /// Submits the typed subscription URL (see `submit_url_spec`).
    pub fn submit_url(&mut self) -> (action: Action)
        ensures
            (final(self)@, action@) == submit_url_spec(old(self)@),
            final(self).config == old(self).config,
            final(self).current_nodes == old(self).current_nodes,
    {
        if self.url_input.as_str().is_empty() {
            return Action::Nothing;
        }
        let url = self.url_input.clone();
        self.popup_mode = PopupMode::Closed;
        self.url_input = String::new();
        self.log(LogType::Info, "正在验证URL...".to_owned());
        Action::SubmitSubscription(url)
    }

    fn log(&mut self, t: LogType, msg: String)
        ensures
            final(self)@ == with_log(old(self)@, t, msg@),
            final(self).config == old(self).config,
            final(self).current_nodes == old(self).current_nodes,
    {
        self.logs.add_log(t, msg);
    }
}

} // verus!
