//! Addresses of the kernel's REST interface that the front end calls.

use vstd::prelude::*;
use crate::settings::Settings;
use crate::text::{decimal, push_decimal, chars_to_string};
use crate::app::{delay_lookup, delay_views};
use std::collections::HashMap;

verus! {

/// `GET` address of a delay test of the `Proxy` group.
pub open spec fn delay_url_spec(api: Seq<char>, timeout_ms: u64, test_url: Seq<char>) -> Seq<char> {
    api + "/group/Proxy/delay?timeout="@ + decimal(timeout_ms as nat) + "&url="@ + test_url
}

/// Address of the delay test of every node of the `Proxy` group.
pub fn delay_url(settings: &Settings) -> (res: String)
    ensures
        res@ == delay_url_spec(settings.mihomo_api@, settings.delay_timeout_ms, settings.test_url@),
{
    let mut digits: Vec<char> = Vec::new();
    push_decimal(&mut digits, settings.delay_timeout_ms);
    let timeout = chars_to_string(digits.as_slice());
    let mut url = settings.mihomo_api.clone();
    url.append("/group/Proxy/delay?timeout=");
    url.append(timeout.as_str());
    url.append("&url=");
    url.append(settings.test_url.as_str());
    url
}

/// Address of the `Proxy` selector group (read its nodes, choose one).
pub fn proxy_group_url(settings: &Settings) -> (res: String)
    ensures
        res@ == settings.mihomo_api@ + "/proxies/Proxy"@,
{
    let mut url = settings.mihomo_api.clone();
    url.append("/proxies/Proxy");
    url
}

/// Address that makes the kernel reload its configuration file.
pub fn reload_config_url(settings: &Settings) -> (res: String)
    ensures
        res@ == settings.mihomo_api@ + "/configs?force=true"@,
{
    let mut url = settings.mihomo_api.clone();
    url.append("/configs?force=true");
    url
}

/// What `serde_json` reads from a delay reply as a map from node name to delay:
/// the map, or `None` where the text is not a JSON object of that shape.
pub uninterp spec fn delay_report(body: Seq<char>) -> Option<Map<Seq<char>, u32>>;

/// The pairs `v` list the map `m` exactly, in some order: no name twice, each pair an
/// entry of `m`, and every entry of `m` listed.
pub open spec fn lists_map(v: Seq<(Seq<char>, u32)>, m: Map<Seq<char>, u32>) -> bool {
    &&& forall|i: int, j: int| 0 <= i < j < v.len() ==> #[trigger] v[i].0 != #[trigger] v[j].0
    &&& forall|i: int| 0 <= i < v.len() ==> #[trigger] m.contains_key(v[i].0) && m[v[i].0] == v[i].1
    &&& forall|k: Seq<char>| #[trigger] m.contains_key(k) ==> exists|i: int| 0 <= i < v.len() && v[i].0 == k
    &&& m.dom().finite()
    &&& v.len() == m.dom().len()
}

/// How a parse of a delay reply relates to `delay_report`: the pairs of the map it
/// reads, or an error where it reads none.
pub open spec fn delay_parse_agrees(
    res: Result<Vec<(String, u32)>, String>,
    report: Option<Map<Seq<char>, u32>>,
) -> bool {
    match res {
        Ok(v) => report matches Some(m) && lists_map(delay_views(v@), m),
        Err(_) => report is None,
    }
}

/// `serde_json::from_str` into a `HashMap<String, u32>`, its entries handed out as
/// pairs in the map's walking order (which is left unsaid), its error as the error's
/// text (whose wording is left unsaid).
#[verifier::external_body]
fn parse_delay_json(body: &str) -> (res: Result<Vec<(String, u32)>, String>)
    ensures
        delay_parse_agrees(res, delay_report(body@)),
{
    match serde_json::from_str::<HashMap<String, u32>>(body) {
        Ok(m) => Ok(m.into_iter().collect()),
        Err(e) => Err(e.to_string()),
    }
}

/// Prefix of the error when a delay reply cannot be read.
pub open spec fn delay_parse_error_prefix() -> Seq<char> {
    "解析延迟失败: "@
}

/// The delays in a reply of the kernel's delay test: the name and delay of every
/// entry of the JSON object, each name once; or, where the text is no such object,
/// an error that starts with `解析延迟失败: `.
pub fn parse_delays(body: &str) -> (res: Result<Vec<(String, u32)>, String>)
    ensures
        match res {
            Ok(v) => delay_report(body@) matches Some(m) && lists_map(delay_views(v@), m),
            Err(e) => delay_report(body@) is None
                && e@.len() >= delay_parse_error_prefix().len()
                && e@.subrange(0, delay_parse_error_prefix().len() as int) == delay_parse_error_prefix(),
        },
{
    match parse_delay_json(body) {
        Ok(v) => Ok(v),
        Err(detail) => {
            let mut msg = "解析延迟失败: ".to_owned();
            msg.append(detail.as_str());
            proof {
                reveal_strlit("解析延迟失败: ");
            }
            assert(msg@.subrange(0, delay_parse_error_prefix().len() as int) =~= delay_parse_error_prefix());
            Err(msg)
        },
    }
}

proof fn lemma_lookup_in_map(v: Seq<(Seq<char>, u32)>, m: Map<Seq<char>, u32>, k: Seq<char>)
    requires
        forall|i: int| 0 <= i < v.len() ==> #[trigger] m.contains_key(v[i].0) && m[v[i].0] == v[i].1,
    ensures
        delay_lookup(v, k) matches Some(d) ==> m.contains_key(k) && m[k] == d,
        (exists|i: int| 0 <= i < v.len() && v[i].0 == k) ==> delay_lookup(v, k) is Some,
    decreases v.len(),
{
    if v.len() > 0 {
        assert(m.contains_key(v[0].0));
        let t = v.drop_first();
        assert forall|i: int| 0 <= i < t.len() implies #[trigger] m.contains_key(t[i].0) && m[t[i].0] == t[i].1 by {
            assert(t[i] == v[i + 1]);
            assert(m.contains_key(v[i + 1].0));
        }
        lemma_lookup_in_map(t, m, k);
        if v[0].0 != k && exists|i: int| 0 <= i < v.len() && v[i].0 == k {
            let i = choose|i: int| 0 <= i < v.len() && v[i].0 == k;
            assert(i > 0);
            assert(t[i - 1].0 == k);
        }
    }
}

/// Reading a node's delay from the parsed pairs is a lookup in the reply's map: the
/// node's entry where the map has one, none where it has not.
pub proof fn law_delay_lookup_reads_map(v: Seq<(Seq<char>, u32)>, m: Map<Seq<char>, u32>, name: Seq<char>)
    requires
        lists_map(v, m),
    ensures
        delay_lookup(v, name) == (if m.contains_key(name) { Some(m[name]) } else { None::<u32> }),
{
    lemma_lookup_in_map(v, m, name);
    if m.contains_key(name) {
        assert(exists|i: int| 0 <= i < v.len() && v[i].0 == name);
    }
}

} // verus!
