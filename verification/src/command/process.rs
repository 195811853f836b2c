//! Decisions about the kernel's process: which image to stop, how a stop went,
//! which `/proc` entries belong to the kernel and whether it may run TUN mode.

use vstd::prelude::*;
use crate::settings::Settings;
use crate::text::{
    contains_chars, contains_ignore_case, contains_ignore_case_chars, contains_seq, parse_unsigned,
    parse_unsigned_chars, split, split_chars, char_views, str_chars, trim, trim_chars,
    chars_to_string, copy_range, push_decimal, decimal,
};

verus! {

/// Message when no kernel process was found to stop.
pub open spec fn not_found_message() -> Seq<char> {
    "未找到 mihomo 进程"@
}

/// Whether `s` is a file name that every platform reads as one ordinary path
/// component: not empty, no `/` or `\`, and neither `.` nor `..`.
pub open spec fn is_file_name(s: Seq<char>) -> bool {
    &&& s.len() > 0
    &&& !s.contains('/')
    &&& !s.contains('\\')
    &&& s != "."@
    &&& s != ".."@
}

/// The text after the last `/` of `s` (all of `s` when it has none).
pub open spec fn final_segment(s: Seq<char>) -> Seq<char>
    decreases s.len(),
{
    if s.len() == 0 {
        s
    } else if s.last() == '/' {
        Seq::empty()
    } else {
        final_segment(s.drop_last()).push(s.last())
    }
}

/// Whether `s` begins with two slashes (a network or device path on some platforms).
pub open spec fn starts_with_two_slashes(s: Seq<char>) -> bool {
    s.len() >= 2 && s[0] == '/' && s[1] == '/'
}

/// Whether the last `/`-separated segment of `p` is `.`.
pub open spec fn ends_with_dot_segment(p: Seq<char>) -> bool {
    &&& p.len() >= 1
    &&& p.last() == '.'
    &&& (p.len() == 1 || p[p.len() - 2] == '/')
}

/// Whether the last `/`-separated segment of `p` is `..`.
pub open spec fn ends_with_dotdot_segment(p: Seq<char>) -> bool {
    &&& p.len() >= 2
    &&& p.last() == '.'
    &&& p[p.len() - 2] == '.'
    &&& (p.len() == 2 || p[p.len() - 3] == '/')
}

/// The last component of a `/`-separated path read as `Path::file_name` reads it:
/// trailing `/` and `.` segments are passed over; a last segment `..` or none at all
/// (the empty path, `/`, `.`) gives `None`; otherwise the last segment.
pub open spec fn last_component(p: Seq<char>) -> Option<Seq<char>>
    decreases p.len(),
{
    if p.len() == 0 {
        None
    } else if p.last() == '/' || ends_with_dot_segment(p) {
        last_component(p.drop_last())
    } else if ends_with_dotdot_segment(p) {
        None
    } else {
        Some(final_segment(p))
    }
}

/// Paths in which `/` is the only separator on every platform: no `\` and no
/// leading `//`.
pub open spec fn slash_separated(path: Seq<char>) -> bool {
    !path.contains('\\') && !starts_with_two_slashes(path)
}

/// Whether `p` could begin with a drive prefix (`C:`) on some platform.
pub open spec fn drive_at_start(p: Seq<char>) -> bool {
    p.len() >= 2 && p[1] == ':'
}

/// Paths whose last component is the same on every platform: `/` is the only
/// separator, and where the path could begin with a drive prefix, reading the path
/// with or without that prefix gives the same last component.
pub open spec fn platform_independent(path: Seq<char>) -> bool {
    &&& slash_separated(path)
    &&& drive_at_start(path) ==> last_component(path) == last_component(path.skip(2))
}

/// What holds on every platform of a last component `n` found in `path`: it is a
/// non-empty piece of `path`, and holds no `/` where `/` is the only separator.
pub open spec fn found_component(path: Seq<char>, n: Seq<char>) -> bool {
    &&& n.len() > 0
    &&& contains_seq(path, n)
    &&& slash_separated(path) ==> !n.contains('/')
}

/// The text of an optional string.
pub open spec fn text_option(s: Option<String>) -> Option<Seq<char>> {
    match s {
        Some(t) => Some(t@),
        None => None,
    }
}

/// `Path::file_name` (std), converted to text: the last component of `path`, if any.
/// Claimed on every platform: a component found is a non-empty piece of `path`, with
/// no `/` where `/` is the only separator; and for a path whose reading does not
/// depend on the platform (see `platform_independent`), the result is
/// `last_component(path)` (in particular `None` for the empty path, the root, and
/// paths ending in `..`). Paths with backslashes, a leading `//`, or a drive prefix
/// that changes the reading are left unsaid: their last component depends on the
/// platform.
#[verifier::external_body]
fn path_file_name(path: &str) -> (res: Option<String>)
    ensures
        res is Some ==> found_component(path@, res->0@),
        platform_independent(path@) ==> text_option(res) == last_component(path@),
{
    std::path::Path::new(path).file_name().map(|s| s.to_string_lossy().to_string())
}

/// The image name to stop given the path's last component: that component, or the
/// whole path when it has none.
pub fn image_name_from(path: &str, file_name: Option<String>) -> (res: String)
    ensures
        res@ == match file_name {
            Some(n) => n@,
            None => path@,
        },
{
    match file_name {
        Some(n) => n,
        None => path.to_owned(),
    }
}

/// The image name of the kernel at `path` where it does not depend on the platform:
/// the last component, or the whole path when it has none.
pub open spec fn known_image_name(path: Seq<char>) -> Option<Seq<char>> {
    if platform_independent(path) {
        Some(
            match last_component(path) {
                Some(n) => n,
                None => path,
            },
        )
    } else {
        None
    }
}

/// What holds of the image name `name` chosen for the kernel at `path` on every
/// platform: `known_image_name` where it is known; else the whole path, or a
/// non-empty piece of it that holds no `/` where `/` is the only separator.
pub open spec fn image_name_of(path: Seq<char>, name: Seq<char>) -> bool {
    &&& known_image_name(path) matches Some(n) ==> name == n
    &&& name == path || found_component(path, name)
}

/// The process image name of the kernel executable at `mihomo_path`: its last path
/// component, or the whole path when it has none.
pub fn mihomo_image_name(mihomo_path: &str) -> (res: String)
    ensures
        image_name_of(mihomo_path@, res@),
{
    let f = path_file_name(mihomo_path);
    image_name_from(mihomo_path, f)
}

/// The image name under which the configured kernel is stopped: that of
/// `settings.mihomo_exe`. Stopping itself signals processes and is left to the caller.
pub fn stop_mihomo(settings: &Settings) -> (res: String)
    ensures
        image_name_of(settings.mihomo_exe@, res@),
{
    mihomo_image_name(settings.mihomo_exe.as_str())
}

proof fn lemma_final_segment_after_slash(d: Seq<char>, n: Seq<char>)
    requires
        !n.contains('/'),
    ensures
        final_segment(d + "/"@ + n) == n,
    decreases n.len(),
{
    reveal_strlit("/");
    let p = d + "/"@ + n;
    if n.len() == 0 {
        assert(p.last() == '/');
    } else {
        assert(p.last() == n.last());
        assert(n.last() != '/') by {
            assert(n.contains(n[n.len() - 1]));
        }
        assert(!n.drop_last().contains('/')) by {
            if n.drop_last().contains('/') {
                let k = choose|k: int| 0 <= k < n.drop_last().len() && n.drop_last()[k] == '/';
                assert(n[k] == '/');
            }
        }
        lemma_final_segment_after_slash(d, n.drop_last());
        assert(p.drop_last() =~= d + "/"@ + n.drop_last());
        assert(n.drop_last().push(n.last()) =~= n);
    }
}

proof fn lemma_last_component_after_slash(d: Seq<char>, n: Seq<char>)
    requires
        is_file_name(n),
    ensures
        last_component(d + "/"@ + n) == Some(n),
{
    reveal_strlit("/");
    reveal_strlit(".");
    reveal_strlit("..");
    lemma_final_segment_after_slash(d, n);
    let p = d + "/"@ + n;
    let l = p.len();
    assert(p.last() == n.last());
    assert(n.last() != '/') by {
        assert(n.contains(n[n.len() - 1]));
    }
    if n.len() >= 2 {
        assert(p[l - 2] == n[n.len() - 2]);
        assert(n[n.len() - 2] != '/') by {
            assert(n.contains(n[n.len() - 2]));
        }
    } else {
        assert(p[l - 2] == '/');
    }
    if ends_with_dot_segment(p) {
        assert(n.len() == 1);
        assert(n =~= "."@);
    }
    if ends_with_dotdot_segment(p) {
        if n.len() >= 3 {
            assert(p[l - 3] == n[n.len() - 3]);
            assert(n.contains(n[n.len() - 3]));
        } else if n.len() == 1 {
            assert(p[l - 2] == '/');
        }
        assert(n.len() == 2);
        assert(n =~= ".."@);
    }
}

/// Only the file name matters: the kernel at `d/n`, for a file name `n` (see
/// `is_file_name`) and a directory `d` without backslashes, has image name `n`,
/// whatever `d` is. Left out: a `d` that makes the path begin with `//` (a network
/// path on some platforms), and an empty `d` with an `n` that begins with `:`.
pub proof fn law_image_name_ignores_directory(d: Seq<char>, n: Seq<char>)
    requires
        !d.contains('\\'),
        is_file_name(n),
        !starts_with_two_slashes(d + "/"@),
        d.len() == 0 ==> n[0] != ':',
    ensures
        known_image_name(d + "/"@ + n) == Some(n),
{
    reveal_strlit("/");
    lemma_last_component_after_slash(d, n);
    let p = d + "/"@ + n;
    assert(!p.contains('\\')) by {
        if p.contains('\\') {
            let k = choose|k: int| 0 <= k < p.len() && p[k] == '\\';
            if k < d.len() {
                assert(d[k] == '\\');
            } else if k > d.len() {
                assert(n.contains(n[k - d.len() - 1]));
            }
        }
    }
    assert(!starts_with_two_slashes(p)) by {
        if d.len() == 0 {
            assert(n.contains(n[0]));
        } else if d.len() == 1 {
        } else {
            assert(p[0] == d[0] && p[1] == d[1]);
            assert((d + "/"@)[1] == d[1]);
        }
    }
    if drive_at_start(p) {
        assert(d.len() >= 2);
        let d2 = d.skip(2);
        assert(p.skip(2) =~= d2 + "/"@ + n);
        lemma_last_component_after_slash(d2, n);
    }
}

/// Outcome of signalling every kernel process: success when at least one was signalled.
pub fn kill_outcome(killed: u32) -> (res: Result<(), String>)
    ensures
        killed == 0 ==> (res matches Err(e) && e@ == not_found_message()),
        killed != 0 ==> res is Ok,
{
    if killed == 0 {
        Err("未找到 mihomo 进程".to_owned())
    } else {
        Ok(())
    }
}

/// Outcome of `taskkill` from its combined output text and exit status: output that
/// mentions "not found" (any ASCII case) means no process; else the exit status decides.
pub open spec fn taskkill_outcome_spec(output: Seq<char>, success: bool, image: Seq<char>) -> Result<(), Seq<char>> {
    if contains_ignore_case(output, "not found"@) {
        Err(not_found_message())
    } else if success {
        Ok(())
    } else {
        Err("停止mihomo进程("@ + image + ")失败: "@ + output)
    }
}

/// Outcome of `taskkill` (see `taskkill_outcome_spec`).
pub fn taskkill_outcome(output: &str, success: bool, image_name: &str) -> (res: Result<(), String>)
    ensures
        match (res, taskkill_outcome_spec(output@, success, image_name@)) {
            (Ok(()), Ok(())) => true,
            (Err(a), Err(b)) => a@ == b,
            _ => false,
        },
{
    let text = str_chars(output);
    let pat = str_chars("not found");
    if contains_ignore_case_chars(text.as_slice(), pat.as_slice()) {
        return Err("未找到 mihomo 进程".to_owned());
    }
    if success {
        Ok(())
    } else {
        let mut msg = "停止mihomo进程(".to_owned();
        msg.append(image_name);
        msg.append(")失败: ");
        msg.append(output);
        Err(msg)
    }
}

/// The process id that a `/proc` entry name spells (`str::parse::<u32>`).
pub fn proc_pid(name: &str) -> (res: Option<u32>)
    ensures
        res matches Some(p) ==> parse_unsigned(name@, 10, u32::MAX as nat) == Some(p as nat),
        res is None ==> parse_unsigned(name@, 10, u32::MAX as nat) is None,
{
    let chars = str_chars(name);
    match parse_unsigned_chars(chars.as_slice(), 10, 0xffff_ffff) {
        Some(v) => Some(v as u32),
        None => None,
    }
}

/// A process's `comm` names the kernel: trimmed, it is `mihomo`.
pub fn is_mihomo_comm(comm: &str) -> (res: bool)
    ensures
        res == (trim(comm@, None) == "mihomo"@),
{
    let chars = str_chars(comm);
    let t = trim_chars(chars.as_slice(), None);
    let name = str_chars("mihomo");
    if t.len() != name.len() {
        return false;
    }
    let mut i: usize = 0;
    while i < t.len()
        invariant
            t@.len() == name@.len(),
            t@ == trim(comm@, None),
            name@ == "mihomo"@,
            i <= t@.len(),
            forall|k: int| 0 <= k < i ==> t@[k] == name@[k],
        decreases t@.len() - i,
    {
        if t[i] != name[i] {
            assert(t@[i as int] != name@[i as int]);
            return false;
        }
        i = i + 1;
    }
    assert(t@ =~= name@);
    true
}

/// A process's command line (read lossily) mentions the configuration directory.
pub fn cmdline_mentions(cmdline: &str, config_dir: &str) -> (res: bool)
    ensures
        res == contains_seq(cmdline@, config_dir@),
{
    let hay = str_chars(cmdline);
    let needle = str_chars(config_dir);
    contains_chars(hay.as_slice(), needle.as_slice())
}

/// `str::lines`: pieces between `\n`, a final `\n` ending the last line rather than
/// opening an empty one, and the `\r` before a `\n` dropped.
pub open spec fn lines(s: Seq<char>) -> Seq<Seq<char>> {
    let parts = split(s, '\n');
    let body = if s.len() > 0 && s.last() == '\n' {
        parts.drop_last()
    } else if s.len() == 0 {
        Seq::empty()
    } else {
        parts
    };
    Seq::new(
        body.len(),
        |i: int|
            if i < parts.len() - 1 && body[i].len() > 0 && body[i].last() == '\r' {
                body[i].drop_last()
            } else {
                body[i]
            },
    )
}

/// The effective capability mask in a `/proc/<pid>/status` text: the value of the first
/// line that starts with `CapEff:` and a tab and whose rest, trimmed, reads as base 16.
pub open spec fn cap_eff_in(ls: Seq<Seq<char>>) -> Option<nat>
    decreases ls.len(),
{
    if ls.len() == 0 {
        None
    } else {
        let l = ls[0];
        let prefix = "CapEff:\t"@;
        if l.len() >= prefix.len() && l.take(prefix.len() as int) == prefix && parse_unsigned(
            trim(l.skip(prefix.len() as int), None),
            16,
            u64::MAX as nat,
        ) is Some {
            parse_unsigned(trim(l.skip(prefix.len() as int), None), 16, u64::MAX as nat)
        } else {
            cap_eff_in(ls.drop_first())
        }
    }
}

fn has_prefix(s: &[char], prefix: &[char]) -> (res: bool)
    ensures
        res == (s@.len() >= prefix@.len() && s@.take(prefix@.len() as int) == prefix@),
{
    if s.len() < prefix.len() {
        return false;
    }
    let mut i: usize = 0;
    while i < prefix.len()
        invariant
            prefix@.len() <= s@.len(),
            i <= prefix@.len(),
            forall|k: int| 0 <= k < i ==> s@[k] == prefix@[k],
        decreases prefix@.len() - i,
    {
        if s[i] != prefix[i] {
            assert(s@.take(prefix@.len() as int)[i as int] != prefix@[i as int]);
            return false;
        }
        i = i + 1;
    }
    assert(s@.take(prefix@.len() as int) =~= prefix@);
    true
}

/// The effective capability mask recorded in a process status text, if any.
pub fn cap_eff_of_status(status: &str) -> (res: Option<u64>)
    ensures
        res matches Some(v) ==> cap_eff_in(lines(status@)) == Some(v as nat),
        res is None ==> cap_eff_in(lines(status@)) is None,
{
    let chars = str_chars(status);
    let parts = split_chars(chars.as_slice(), '\n');
    let ghost ps = char_views(parts@);
    let n = chars.len();
    let np = parts.len();
    assert(ps.len() == np);
    let body_len: usize = if n > 0 && chars[n - 1] == '\n' {
        if np > 0 { np - 1 } else { 0 }
    } else if n == 0 {
        0
    } else {
        np
    };
    proof {
        lemma_split_nonempty(chars@, '\n');
    }
    let ghost ls = lines(status@);
    assert(ls.len() == body_len);
    let prefix = str_chars("CapEff:\t");
    let mut i: usize = 0;
    assert(ls.skip(0) =~= ls);
    while i < body_len
        invariant
            i <= body_len,
            body_len <= np,
            np == parts@.len(),
            ps == char_views(parts@),
            ps == split(status@, '\n'),
            ls == lines(status@),
            ls.len() == body_len,
            prefix@ == "CapEff:\t"@,
            cap_eff_in(ls) == cap_eff_in(ls.skip(i as int)),
            forall|k: int| 0 <= k < body_len ==> #[trigger] ls[k] == (if k < np - 1 && ps[k].len() > 0 && ps[k].last() == '\r' {
                ps[k].drop_last()
            } else {
                ps[k]
            }),
        decreases body_len - i,
    {
        let ghost rest = ls.skip(i as int);
        assert(rest.drop_first() =~= ls.skip(i + 1));
        assert(rest[0] == ls[i as int]);
        let part = &parts[i];
        assert(part@ == ps[i as int]);
        let plen = part.len();
        let line = if i + 1 < np && plen > 0 && part[plen - 1] == '\r' {
            copy_range(part.as_slice(), 0, plen - 1)
        } else {
            copy_range(part.as_slice(), 0, plen)
        };
        assert(line@ =~= ls[i as int]);
        if has_prefix(line.as_slice(), prefix.as_slice()) {
            let value = copy_range(line.as_slice(), prefix.len(), line.len());
            assert(value@ =~= line@.skip(prefix@.len() as int));
            let t = trim_chars(value.as_slice(), None);
            let parsed = parse_unsigned_chars(t.as_slice(), 16, 0xffff_ffff_ffff_ffff);
            if parsed.is_some() {
                return parsed;
            }
        }
        i = i + 1;
    }
    None
}

proof fn lemma_split_nonempty(s: Seq<char>, sep: char)
    ensures
        split(s, sep).len() >= 1,
        s.len() > 0 && s.last() == sep ==> split(s, sep).last() == Seq::<char>::empty(),
{
    crate::text::lemma_split_from_props(s, sep, Seq::empty());
}

/// Capabilities that TUN mode needs: `CAP_NET_ADMIN` (bit 12) and `CAP_NET_RAW` (bit 13).
pub open spec fn tun_capable(cap_eff: u64) -> bool {
    cap_eff & 0x3000u64 == 0x3000u64
}

/// TUN mode needs both network capabilities: `cap_eff` qualifies exactly when bit 12
/// (`CAP_NET_ADMIN`) and bit 13 (`CAP_NET_RAW`) are both set.
pub proof fn law_tun_needs_both_capabilities(cap_eff: u64)
    ensures
        tun_capable(cap_eff) <==> (cap_eff & (1u64 << 12u64) != 0 && cap_eff & (1u64 << 13u64) != 0),
        tun_capable(cap_eff) <==> (cap_eff & 0x1000u64 != 0 && cap_eff & 0x2000u64 != 0),
{
    assert((cap_eff & 0x3000u64 == 0x3000u64) <==> (cap_eff & (1u64 << 12u64) != 0 && cap_eff & (1u64
        << 13u64) != 0)) by (bit_vector);
    assert((cap_eff & 0x3000u64 == 0x3000u64) <==> (cap_eff & 0x1000u64 != 0 && cap_eff & 0x2000u64
        != 0)) by (bit_vector);
}

/// The warning shown when the kernel process `pid` lacks the capabilities TUN mode needs.
pub open spec fn tun_warning_text(pid: u32) -> Seq<char> {
    "mihomo(PID="@ + decimal(pid as nat)
        + ")缺少CAP_NET_ADMIN/CAP_NET_RAW，TUN可能起不来。请用NixOS security.wrappers或setcap授权"@
}

/// The warning for the kernel process `pid` with effective capabilities `cap_eff`:
/// none when both TUN capabilities are present.
pub fn tun_capability_message(pid: u32, cap_eff: u64) -> (res: Option<String>)
    ensures
        tun_capable(cap_eff) ==> res is None,
        !tun_capable(cap_eff) ==> (res matches Some(m) && m@ == tun_warning_text(pid)),
        res is None <==> (cap_eff & 0x1000u64 != 0 && cap_eff & 0x2000u64 != 0),
{
    proof {
        law_tun_needs_both_capabilities(cap_eff);
    }
    if cap_eff & 0x3000u64 == 0x3000u64 {
        None
    } else {
        let mut chars = str_chars("mihomo(PID=");
        push_decimal(&mut chars, pid as u64);
        let mut msg = chars_to_string(chars.as_slice());
        msg.append(")缺少CAP_NET_ADMIN/CAP_NET_RAW，TUN可能起不来。请用NixOS security.wrappers或setcap授权");
        Some(msg)
    }
}

} // verus!
