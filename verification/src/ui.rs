//! Texts that the interface shows, computed from the state.

use vstd::prelude::*;
use crate::app::App;
use crate::config::mihomo_config::{MihomoConfig, ProviderView};
use crate::settings::Settings;
use crate::text::{decimal, push_decimal, chars_to_string, str_chars, copy_range};

verus! {

/// `text` cut into lines of `width` characters (the last one shorter), joined by `\n`.
pub open spec fn wrap_spec(text: Seq<char>, width: nat) -> Seq<char>
    decreases text.len(),
{
    if width == 0 || text.len() <= width {
        text
    } else {
        text.take(width as int).push('\n') + wrap_spec(text.skip(width as int), width)
    }
}

/// `s` without its line breaks.
pub open spec fn without_breaks(s: Seq<char>) -> Seq<char> {
    s.filter(|c: char| c != '\n')
}

proof fn lemma_no_breaks_identity(s: Seq<char>)
    requires
        forall|i: int| 0 <= i < s.len() ==> s[i] != '\n',
    ensures
        without_breaks(s) == s,
    decreases s.len(),
{
    reveal(Seq::filter);
    if s.len() > 0 {
        let init = s.drop_last();
        assert forall|i: int| 0 <= i < init.len() implies init[i] != '\n' by {
            assert(init[i] == s[i]);
        }
        lemma_no_breaks_identity(init);
        assert(init.push(s.last()) =~= s);
    }
}

/// Wrapping only inserts line breaks: removing them from the wrapped text of a text
/// without line breaks gives the text back.
pub proof fn law_wrap_only_breaks(text: Seq<char>, width: nat)
    requires
        forall|i: int| 0 <= i < text.len() ==> text[i] != '\n',
    ensures
        without_breaks(wrap_spec(text, width)) == text,
    decreases text.len(),
{
    if width == 0 || text.len() <= width {
        lemma_no_breaks_identity(text);
    } else {
        let head = text.take(width as int);
        let tail = text.skip(width as int);
        assert forall|i: int| 0 <= i < head.len() implies head[i] != '\n' by {
            assert(head[i] == text[i]);
        }
        assert forall|i: int| 0 <= i < tail.len() implies tail[i] != '\n' by {
            assert(tail[i] == text[i + width]);
        }
        law_wrap_only_breaks(tail, width);
        lemma_no_breaks_identity(head);
        let p = |c: char| c != '\n';
        Seq::filter_distributes_over_add(head.push('\n'), wrap_spec(tail, width), p);
        reveal(Seq::filter);
        assert(head.push('\n').drop_last() =~= head);
        assert(head + tail =~= text);
    }
}

/// Wraps `text` into lines of at most `width` characters.
pub fn wrap_text(text: &str, width: usize) -> (res: String)
    requires
        width > 0,
    ensures
        res@ == wrap_spec(text@, width as nat),
{
    let chars = str_chars(text);
    let n = chars.len();
    let mut out: Vec<char> = Vec::new();
    let mut start: usize = 0;
    assert(chars@.skip(0) =~= chars@);
    while n - start > width
        invariant
            start <= n,
            n == chars@.len(),
            width > 0,
            wrap_spec(chars@, width as nat) == out@ + wrap_spec(chars@.skip(start as int), width as nat),
        decreases n - start,
    {
        let ghost rest = chars@.skip(start as int);
        let ghost before = out@;
        let mut k: usize = 0;
        while k < width
            invariant
                k <= width,
                start + width < n,
                n == chars@.len(),
                out@ == before + chars@.subrange(start as int, start + k),
            decreases width - k,
        {
            out.push(chars[start + k]);
            k = k + 1;
            assert(out@ =~= before + chars@.subrange(start as int, start + k));
        }
        out.push('\n');
        assert(rest.take(width as int) =~= chars@.subrange(start as int, start + width));
        assert(rest.skip(width as int) =~= chars@.skip(start + width));
        assert(out@ + wrap_spec(chars@.skip(start + width), width as nat) =~= before + wrap_spec(rest, width as nat));
        start = start + width;
    }
    let tail = copy_range(chars.as_slice(), start, n);
    assert(tail@ =~= chars@.skip(start as int));
    let mut j: usize = 0;
    let ghost before = out@;
    while j < tail.len()
        invariant
            j <= tail@.len(),
            out@ == before + tail@.take(j as int),
        decreases tail@.len() - j,
    {
        out.push(tail[j]);
        j = j + 1;
        assert(out@ =~= before + tail@.take(j as int));
    }
    assert(tail@.take(tail@.len() as int) =~= tail@);
    chars_to_string(out.as_slice())
}


/// The pieces joined with `sep` between neighbours.
pub open spec fn join(parts: Seq<Seq<char>>, sep: Seq<char>) -> Seq<char>
    decreases parts.len(),
{
    if parts.len() == 0 {
        Seq::empty()
    } else if parts.len() == 1 {
        parts[0]
    } else {
        join(parts.drop_last(), sep) + sep + parts.last()
    }
}

/// The views of a sequence of strings.
pub open spec fn texts(v: Seq<String>) -> Seq<Seq<char>> {
    v.map_values(|s: String| s@)
}

/// Joins the texts with `sep` between neighbours.
pub fn join_texts(parts: &Vec<String>, sep: &str) -> (res: String)
    ensures
        res@ == join(texts(parts@), sep@),
{
    let mut out = String::new();
    let n = parts.len();
    let mut i: usize = 0;
    while i < n
        invariant
            i <= n,
            n == parts@.len(),
            out@ == join(texts(parts@).take(i as int), sep@),
        decreases n - i,
    {
        let ghost t = texts(parts@);
        assert(t.take(i + 1).drop_last() =~= t.take(i as int));
        assert(t.take(i + 1).last() == parts@[i as int]@);
        if i > 0 {
            out.append(sep);
        }
        out.append(parts[i].as_str());
        if i == 0 {
            assert(t.take(1).len() == 1);
            assert(out@ =~= t.take(1)[0]);
        }
        i = i + 1;
    }
    assert(texts(parts@).take(n as int) =~= texts(parts@));
    out
}

/// The parts of the status line, the proxy listening on `mixed_port`.
pub open spec fn status_parts(app: &App, mixed_port: u16) -> Seq<Seq<char>> {
    let node = match app.active_node {
        Some(i) => "\u{1f7e2} 代理运行中 (127.0.0.1:"@ + decimal(mixed_port as nat) + ") - "@
            + app.current_nodes@[i as int].name@,
        None => "\u{1f534} 代理已停止"@,
    };
    let kernel = if app.mihomo_running {
        "\u{1f7e2} mihomo内核(运行中)"@
    } else {
        "\u{1f534} mihomo内核(已停止)"@
    };
    let proxy = if app.proxy_running {
        "系统代理（开启）"@
    } else {
        "系统代理（关闭）"@
    };
    let tun = if app.tun_enabled {
        "TUN（开启）"@
    } else {
        "TUN（关闭）"@
    };
    let base = seq![node, kernel, proxy, tun];
    if app.current_nodes@.len() > 0 {
        base.push("共"@ + decimal(app.current_nodes@.len() as nat) + "个节点"@)
    } else {
        base
    }
}

/// The one-line status shown above the log: active node, kernel, system proxy, TUN
/// and the number of nodes, separated by ` | `; the address is that of the mixed
/// port of `settings`.
pub fn status_line(app: &App, settings: &Settings) -> (res: String)
    requires
        app.active_node matches Some(i) ==> i < app.current_nodes@.len(),
    ensures
        res@ == join(status_parts(app, settings.mixed_port), " | "@),
{
    let mut parts: Vec<String> = Vec::new();
    match app.active_node {
        Some(i) => {
            let mut head = str_chars("\u{1f7e2} 代理运行中 (127.0.0.1:");
            push_decimal(&mut head, settings.mixed_port as u64);
            let mut line = chars_to_string(head.as_slice());
            line.append(") - ");
            line.append(app.current_nodes[i].name.as_str());
            parts.push(line);
        },
        None => parts.push("\u{1f534} 代理已停止".to_owned()),
    }
    if app.mihomo_running {
        parts.push("\u{1f7e2} mihomo内核(运行中)".to_owned());
    } else {
        parts.push("\u{1f534} mihomo内核(已停止)".to_owned());
    }
    if app.proxy_running {
        parts.push("系统代理（开启）".to_owned());
    } else {
        parts.push("系统代理（关闭）".to_owned());
    }
    if app.tun_enabled {
        parts.push("TUN（开启）".to_owned());
    } else {
        parts.push("TUN（关闭）".to_owned());
    }
    if app.current_nodes.len() > 0 {
        let mut count = str_chars("共");
        push_decimal(&mut count, app.current_nodes.len() as u64);
        let mut line = chars_to_string(count.as_slice());
        line.append("个节点");
        parts.push(line);
    }
    assert(texts(parts@) =~= status_parts(app, settings.mixed_port));
    join_texts(&parts, " | ")
}

/// Share (in percent) of the space left on each side of a centred pop-up that takes
/// `percent` of it: half of the rest, rounded down.
pub fn popup_margin(percent: u16) -> (res: u16)
    requires
        percent <= 100,
    ensures
        res == (100 - percent) / 2,
{
    (100 - percent) / 2
}

/// `开启` or `关闭` for an on/off state.
pub open spec fn on_off(b: bool) -> Seq<char> {
    if b {
        "开启"@
    } else {
        "关闭"@
    }
}

fn on_off_text(b: bool) -> (res: String)
    ensures
        res@ == on_off(b),
{
    if b {
        "开启".to_owned()
    } else {
        "关闭".to_owned()
    }
}

/// The rows of the status table: proxy address (on `mixed_port`), active node,
/// kernel, system proxy, TUN.
pub open spec fn status_rows_spec(app: &App, mixed_port: u16) -> Seq<(Seq<char>, Seq<char>)> {
    seq![
        ("代理"@, "127.0.0.1:"@ + decimal(mixed_port as nat)),
        ("节点"@, match app.active_node {
            Some(i) => app.current_nodes@[i as int].name@,
            None => "无"@,
        }),
        ("mihomo内核"@, if app.mihomo_running {
            "运行中"@
        } else {
            "已停止"@
        }),
        ("系统代理"@, on_off(app.proxy_running)),
        ("TUN"@, on_off(app.tun_enabled)),
    ]
}

/// The views of label and value pairs.
pub open spec fn pair_texts(v: Seq<(String, String)>) -> Seq<(Seq<char>, Seq<char>)> {
    v.map_values(|p: (String, String)| (p.0@, p.1@))
}

/// The rows of the status table (see `status_rows_spec`), the proxy address on the
/// mixed port of `settings`.
pub fn status_rows(app: &App, settings: &Settings) -> (res: Vec<(String, String)>)
    requires
        app.active_node matches Some(i) ==> i < app.current_nodes@.len(),
    ensures
        pair_texts(res@) == status_rows_spec(app, settings.mixed_port),
{
    let mut addr = str_chars("127.0.0.1:");
    push_decimal(&mut addr, settings.mixed_port as u64);
    let node = match app.active_node {
        Some(i) => app.current_nodes[i].name.clone(),
        None => "无".to_owned(),
    };
    let kernel = if app.mihomo_running {
        "运行中".to_owned()
    } else {
        "已停止".to_owned()
    };
    let rows = vec![
        ("代理".to_owned(), chars_to_string(addr.as_slice())),
        ("节点".to_owned(), node),
        ("mihomo内核".to_owned(), kernel),
        ("系统代理".to_owned(), on_off_text(app.proxy_running)),
        ("TUN".to_owned(), on_off_text(app.tun_enabled)),
    ];
    assert(pair_texts(rows@) =~= status_rows_spec(app, settings.mixed_port));
    rows
}

/// Each part of the status line follows its own state: the first shows whether a node
/// is active (and which, on the mixed port), the second whether the kernel runs, the
/// third whether the system proxy is on, the fourth whether TUN is on, and a fifth
/// (the node count) is there exactly when nodes are listed.
pub proof fn law_status_parts_follow_state(app: &App, mixed_port: u16)
    ensures
        ({
            let p = status_parts(app, mixed_port);
            &&& p.len() == (if app.current_nodes@.len() > 0 { 5int } else { 4int })
            &&& app.active_node is None ==> p[0] == "\u{1f534} 代理已停止"@
            &&& app.active_node matches Some(i) ==> p[0] == "\u{1f7e2} 代理运行中 (127.0.0.1:"@
                + decimal(mixed_port as nat) + ") - "@ + app.current_nodes@[i as int].name@
            &&& p[1] == (if app.mihomo_running {
                "\u{1f7e2} mihomo内核(运行中)"@
            } else {
                "\u{1f534} mihomo内核(已停止)"@
            })
            &&& p[2] == (if app.proxy_running {
                "系统代理（开启）"@
            } else {
                "系统代理（关闭）"@
            })
            &&& p[3] == (if app.tun_enabled {
                "TUN（开启）"@
            } else {
                "TUN（关闭）"@
            })
            &&& app.current_nodes@.len() > 0 ==> p[4] == "共"@ + decimal(app.current_nodes@.len() as nat)
                + "个节点"@
        }),
{
}

/// Each row of the status table follows its own state: the proxy address on the
/// mixed port, the active node (or `无`), the kernel, the system proxy and TUN.
pub proof fn law_status_rows_follow_state(app: &App, mixed_port: u16)
    ensures
        ({
            let r = status_rows_spec(app, mixed_port);
            &&& r.len() == 5
            &&& r[0] == ("代理"@, "127.0.0.1:"@ + decimal(mixed_port as nat))
            &&& app.active_node is None ==> r[1] == ("节点"@, "无"@)
            &&& app.active_node matches Some(i) ==> r[1] == ("节点"@, app.current_nodes@[i as int].name@)
            &&& r[2] == ("mihomo内核"@, if app.mihomo_running { "运行中"@ } else { "已停止"@ })
            &&& r[3] == ("系统代理"@, if app.proxy_running { "开启"@ } else { "关闭"@ })
            &&& r[4] == ("TUN"@, if app.tun_enabled { "开启"@ } else { "关闭"@ })
        }),
{
}

/// The help rows show the current states: system proxy under `p`, TUN under `T`, the
/// kernel under `s`, each as `开启` or `关闭`.
pub proof fn law_help_rows_follow_state(app: &App)
    ensures
        ({
            let r = help_rows_spec(app);
            &&& r.len() == 10
            &&& r[7] == ("p"@, "系统代理("@ + (if app.proxy_running { "开启"@ } else { "关闭"@ }) + ")"@)
            &&& r[8] == ("T"@, "TUN("@ + (if app.tun_enabled { "开启"@ } else { "关闭"@ }) + ")"@)
            &&& r[9] == ("s"@, "mihomo("@ + (if app.mihomo_running { "开启"@ } else { "关闭"@ }) + ")"@)
        }),
{
}

/// The rows of the help pop-up: key and what it does, with the current on/off states.
pub open spec fn help_rows_spec(app: &App) -> Seq<(Seq<char>, Seq<char>)> {
    seq![
        ("q"@, "退出"@),
        ("↑↓"@, "导航"@),
        ("Enter"@, "选中节点"@),
        ("r"@, "刷新节点"@),
        ("u"@, "添加订阅"@),
        ("c"@, "切换代理商"@),
        ("t"@, "测速"@),
        ("p"@, "系统代理("@ + on_off(app.proxy_running) + ")"@),
        ("T"@, "TUN("@ + on_off(app.tun_enabled) + ")"@),
        ("s"@, "mihomo("@ + on_off(app.mihomo_running) + ")"@),
    ]
}

fn labelled(head: &str, b: bool) -> (res: String)
    ensures
        res@ == head@ + on_off(b) + ")"@,
{
    let mut s = head.to_owned();
    let w = on_off_text(b);
    s.append(w.as_str());
    s.append(")");
    s
}

/// The rows of the help pop-up (see `help_rows_spec`).
pub fn help_rows(app: &App) -> (res: Vec<(String, String)>)
    ensures
        pair_texts(res@) == help_rows_spec(app),
{
    let rows = vec![
        ("q".to_owned(), "退出".to_owned()),
        ("↑↓".to_owned(), "导航".to_owned()),
        ("Enter".to_owned(), "选中节点".to_owned()),
        ("r".to_owned(), "刷新节点".to_owned()),
        ("u".to_owned(), "添加订阅".to_owned()),
        ("c".to_owned(), "切换代理商".to_owned()),
        ("t".to_owned(), "测速".to_owned()),
        ("p".to_owned(), labelled("系统代理(", app.proxy_running)),
        ("T".to_owned(), labelled("TUN(", app.tun_enabled)),
        ("s".to_owned(), labelled("mihomo(", app.mihomo_running)),
    ];
    assert(pair_texts(rows@) =~= help_rows_spec(app));
    rows
}

/// The lines of the provider pop-up: each provider key, the selected one marked `>> `
/// and the others indented by three spaces.
pub open spec fn provider_lines_spec(keys: Seq<Seq<char>>, select: usize) -> Seq<Seq<char>> {
    Seq::new(
        keys.len(),
        |i: int|
            if i == select {
                ">> "@ + keys[i]
            } else {
                "   "@ + keys[i]
            },
    )
}

/// The lines of the provider pop-up (see `provider_lines_spec`).
pub fn provider_lines(config: &MihomoConfig, select: usize) -> (res: Vec<String>)
    ensures
        texts(res@) == provider_lines_spec(
            config.provider_list().map_values(|e: (Seq<char>, ProviderView)| e.0),
            select,
        ),
{
    let ghost keys = config.provider_list().map_values(
        |e: (Seq<char>, ProviderView)| e.0,
    );
    let n = config.provider_count();
    let mut out: Vec<String> = Vec::new();
    let mut i: usize = 0;
    while i < n
        invariant
            i <= n,
            n == config.provider_list().len(),
            keys == config.provider_list().map_values(
                |e: (Seq<char>, ProviderView)| e.0,
            ),
            texts(out@) == provider_lines_spec(keys, select).take(i as int),
        decreases n - i,
    {
        let key = match config.provider_key_by_index(i) {
            Some(k) => k,
            None => String::new(),
        };
        let mut line = if i == select {
            ">> ".to_owned()
        } else {
            "   ".to_owned()
        };
        line.append(key.as_str());
        let ghost before = out@;
        out.push(line);
        assert(texts(out@) =~= texts(before).push(out@[i as int]@));
        assert(texts(out@) =~= provider_lines_spec(keys, select).take(i + 1));
        i = i + 1;
    }
    assert(provider_lines_spec(keys, select).take(n as int) =~= provider_lines_spec(keys, select));
    out
}

} // verus!
