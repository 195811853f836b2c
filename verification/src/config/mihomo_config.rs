//! The mihomo configuration file, as the front end writes it.

use vstd::prelude::*;
use vstd::utf8::encode_utf8;
use indexmap::IndexMap;
use crate::config::providers::{
    provider_entries, upsert, shift_remove_key, table_new, table_len, table_insert,
    table_shift_remove, table_key_at, table_index_of, key_position, keys_unique,
};
use crate::settings::Settings;
use crate::text::{hex_lower, to_hex_lower};

verus! {

/// The views of a sequence of strings.
pub open spec fn string_views(v: Seq<String>) -> Seq<Seq<char>> {
    v.map_values(|s: String| s@)
}

#[derive(Debug)]
pub struct ClashForAndroid {
    pub append_system_dns: bool,
}

#[derive(Debug)]
pub struct PortConfig {
    pub ports: Vec<String>,
    pub override_destination: bool,
}

#[derive(Debug)]
pub struct SniffConfig {
    pub tls: PortConfig,
    pub http: PortConfig,
}

#[derive(Debug)]
pub struct Sniffer {
    pub sniff: SniffConfig,
    pub enable: bool,
    pub force_domain: Vec<String>,
    pub skip_domain: Vec<String>,
    pub parse_pure_ip: bool,
    pub force_dns_mapping: bool,
    pub override_destination: bool,
}

#[derive(Debug)]
pub struct ProxyGroup {
    pub name: String,
    pub group_type: String,
    pub proxies: Vec<String>,
    pub use_list: Vec<String>,
}

/// A subscription entry of the configuration file.
#[derive(Debug)]
pub struct ProxyProvider {
    pub provider_type: String,
    pub url: String,
    pub interval: u32,
}

/// The abstract value of a `ProxyProvider`.
pub ghost struct ProviderView {
    pub provider_type: Seq<char>,
    pub url: Seq<char>,
    pub interval: u32,
}

impl View for ProxyProvider {
    type V = ProviderView;

    open spec fn view(&self) -> ProviderView {
        ProviderView { provider_type: self.provider_type@, url: self.url@, interval: self.interval }
    }
}

/// The whole configuration file.
#[derive(Debug)]
pub struct MihomoConfig {
    pub port: u16,
    pub socks_port: u16,
    pub allow_lan: bool,
    pub mode: String,
    pub log_level: String,
    pub external_controller: String,
    pub unified_delay: bool,
    pub keep_alive_interval: u32,
    pub clash_for_android: ClashForAndroid,
    pub sniffer: Sniffer,
    pub proxy_groups: Vec<ProxyGroup>,
    pub proxy_providers: Option<IndexMap<String, ProxyProvider>>,
    pub rules: Vec<String>,
}

/// Key under which a subscription URL is stored: the lower-case hex MD5 of its UTF-8 text.
pub open spec fn subscription_key(url: Seq<char>) -> Seq<char> {
    hex_lower(md5_digest(encode_utf8(url)))
}

/// What the `md5` crate computes for `data`.
pub uninterp spec fn md5_digest(data: Seq<u8>) -> Seq<u8>;

/// `md5::compute`: the digest of `data`, as its 16 bytes.
#[verifier::external_body]
fn md5_bytes(data: &[u8]) -> (res: Vec<u8>)
    ensures
        res@ == md5_digest(data@),
        res@.len() == 16,
{
    md5::compute(data).0.to_vec()
}

/// The provider entry that a subscription URL gets.
pub open spec fn http_provider(url: Seq<char>) -> ProviderView {
    ProviderView { provider_type: "http"@, url: url, interval: 3600 }
}

/// Removing a subscription right after adding it under a new key gives back the
/// provider table as it was, when there was none or a non-empty one.
pub proof fn law_remove_sub_undoes_insert_sub(
    before: Option<Seq<(Seq<char>, ProviderView)>>,
    key: Seq<char>,
    v: ProviderView,
)
    requires
        match before {
            Some(e) => e.len() > 0 && key_position(e, key) is None,
            None => true,
        },
    ensures
        ({
            let list = match before {
                Some(e) => e,
                None => Seq::empty(),
            };
            let rest = shift_remove_key(upsert(list, key, v), key);
            (if rest.len() == 0 {
                None
            } else {
                Some(rest)
            }) == before
        }),
{
    let list = match before {
        Some(e) => e,
        None => Seq::<(Seq<char>, ProviderView)>::empty(),
    };
    crate::config::providers::law_remove_undoes_insert(list, key, v);
}

impl MihomoConfig {
    /// The configuration written on first start: the mixed and SOCKS ports and the
    /// controller address of the settings, rule mode, a sniffer on every port, one
    /// selector group `Proxy` and a fixed rule list.
    pub fn default_config(settings: &Settings) -> (res: Self)
        ensures
            res.port == settings.mixed_port,
            res.socks_port == settings.socks_port,
            res.allow_lan,
            res.mode@ == "Rule"@,
            res.log_level@ == "info"@,
            res.external_controller@ == settings.external_controller@,
            res.unified_delay,
            res.keep_alive_interval == 360,
            !res.clash_for_android.append_system_dns,
            string_views(res.sniffer.sniff.tls.ports@) == seq!["1-65535"@],
            res.sniffer.sniff.tls.override_destination,
            string_views(res.sniffer.sniff.http.ports@) == seq!["1-65535"@],
            res.sniffer.sniff.http.override_destination,
            res.sniffer.enable,
            string_views(res.sniffer.force_domain@) == seq!["+.netflix.com"@],
            string_views(res.sniffer.skip_domain@) == seq!["Mijia Cloud"@, "dlg.io.mi.com"@],
            res.sniffer.parse_pure_ip,
            res.sniffer.force_dns_mapping,
            res.sniffer.override_destination,
            res.proxy_groups@.len() == 1,
            res.proxy_groups@[0].name@ == "Proxy"@,
            res.proxy_groups@[0].group_type@ == "select"@,
            string_views(res.proxy_groups@[0].proxies@) == seq!["DIRECT"@],
            res.proxy_groups@[0].use_list@.len() == 0,
            res.proxy_providers is None,
            string_views(res.rules@) == seq![
                "GEOSITE,category-ads-all,REJECT"@,
                "GEOSITE,google,Proxy"@,
                "GEOSITE,github,Proxy"@,
                "GEOSITE,telegram,Proxy"@,
                "GEOSITE,twitter,Proxy"@,
                "GEOSITE,facebook,Proxy"@,
                "GEOSITE,youtube,Proxy"@,
                "GEOSITE,netflix,Proxy"@,
                "GEOSITE,openai,Proxy"@,
                "GEOIP,LAN,DIRECT"@,
                "GEOIP,CN,DIRECT"@,
                "MATCH,Proxy"@,
            ],
    {
        let res = Self {
            port: settings.mixed_port,
            socks_port: settings.socks_port,
            allow_lan: true,
            mode: "Rule".to_owned(),
            log_level: "info".to_owned(),
            external_controller: settings.external_controller.clone(),
            unified_delay: true,
            keep_alive_interval: 360,
            clash_for_android: ClashForAndroid { append_system_dns: false },
            sniffer: Sniffer {
                sniff: SniffConfig {
                    tls: PortConfig {
                        ports: vec!["1-65535".to_owned()],
                        override_destination: true,
                    },
                    http: PortConfig {
                        ports: vec!["1-65535".to_owned()],
                        override_destination: true,
                    },
                },
                enable: true,
                force_domain: vec!["+.netflix.com".to_owned()],
                skip_domain: vec!["Mijia Cloud".to_owned(), "dlg.io.mi.com".to_owned()],
                parse_pure_ip: true,
                force_dns_mapping: true,
                override_destination: true,
            },
            proxy_groups: vec![
                ProxyGroup {
                    name: "Proxy".to_owned(),
                    group_type: "select".to_owned(),
                    proxies: vec!["DIRECT".to_owned()],
                    use_list: Vec::new(),
                },
            ],
            proxy_providers: None,
            rules: vec![
                "GEOSITE,category-ads-all,REJECT".to_owned(),
                "GEOSITE,google,Proxy".to_owned(),
                "GEOSITE,github,Proxy".to_owned(),
                "GEOSITE,telegram,Proxy".to_owned(),
                "GEOSITE,twitter,Proxy".to_owned(),
                "GEOSITE,facebook,Proxy".to_owned(),
                "GEOSITE,youtube,Proxy".to_owned(),
                "GEOSITE,netflix,Proxy".to_owned(),
                "GEOSITE,openai,Proxy".to_owned(),
                "GEOIP,LAN,DIRECT".to_owned(),
                "GEOIP,CN,DIRECT".to_owned(),
                "MATCH,Proxy".to_owned(),
            ],
        };
        assert(string_views(res.sniffer.sniff.tls.ports@) =~= seq!["1-65535"@]);
        assert(string_views(res.sniffer.sniff.http.ports@) =~= seq!["1-65535"@]);
        assert(string_views(res.sniffer.force_domain@) =~= seq!["+.netflix.com"@]);
        assert(string_views(res.sniffer.skip_domain@) =~= seq!["Mijia Cloud"@, "dlg.io.mi.com"@]);
        assert(string_views(res.proxy_groups@[0].proxies@) =~= seq!["DIRECT"@]);
        assert(string_views(res.rules@) =~= seq![
            "GEOSITE,category-ads-all,REJECT"@,
            "GEOSITE,google,Proxy"@,
            "GEOSITE,github,Proxy"@,
            "GEOSITE,telegram,Proxy"@,
            "GEOSITE,twitter,Proxy"@,
            "GEOSITE,facebook,Proxy"@,
            "GEOSITE,youtube,Proxy"@,
            "GEOSITE,netflix,Proxy"@,
            "GEOSITE,openai,Proxy"@,
            "GEOIP,LAN,DIRECT"@,
            "GEOIP,CN,DIRECT"@,
            "MATCH,Proxy"@,
        ]);
        res
    }

    /// The provider table's entries, or `None` when the file has no table.
    pub open spec fn providers(&self) -> Option<Seq<(Seq<char>, ProviderView)>> {
        match self.proxy_providers {
            Some(m) => Some(provider_entries(m)),
            None => None,
        }
    }

    /// The provider table's entries, none when there is no table.
    pub open spec fn provider_list(&self) -> Seq<(Seq<char>, ProviderView)> {
        match self.proxy_providers {
            Some(m) => provider_entries(m),
            None => Seq::empty(),
        }
    }

    /// Every part of the configuration but the provider table is the same.
    pub open spec fn same_except_providers(&self, other: &MihomoConfig) -> bool {
        &&& self.port == other.port
        &&& self.socks_port == other.socks_port
        &&& self.allow_lan == other.allow_lan
        &&& self.mode == other.mode
        &&& self.log_level == other.log_level
        &&& self.external_controller == other.external_controller
        &&& self.unified_delay == other.unified_delay
        &&& self.keep_alive_interval == other.keep_alive_interval
        &&& self.clash_for_android == other.clash_for_android
        &&& self.sniffer == other.sniffer
        &&& self.proxy_groups == other.proxy_groups
        &&& self.rules == other.rules
    }

    /// Every part of the configuration but the proxy groups is the same.
    pub open spec fn same_except_groups(&self, other: &MihomoConfig) -> bool {
        &&& self.port == other.port
        &&& self.socks_port == other.socks_port
        &&& self.allow_lan == other.allow_lan
        &&& self.mode == other.mode
        &&& self.log_level == other.log_level
        &&& self.external_controller == other.external_controller
        &&& self.unified_delay == other.unified_delay
        &&& self.keep_alive_interval == other.keep_alive_interval
        &&& self.clash_for_android == other.clash_for_android
        &&& self.sniffer == other.sniffer
        &&& self.proxy_providers == other.proxy_providers
        &&& self.rules == other.rules
    }

    /// Adds (or refreshes) the subscription `url` under its MD5 key and returns the key.
    /// Writing the file is left to the caller.
    pub fn insert_sub(&mut self, url: String) -> (hash: String)
        ensures
            hash@ == subscription_key(url@),
            final(self).providers() == Some(
                upsert(old(self).provider_list(), hash@, http_provider(url@)),
            ),
            keys_unique(final(self).provider_list()),
            final(self).same_except_providers(old(self)),
    {
        let digest = md5_bytes(url.as_str().as_bytes());
        let hash = to_hex_lower(digest.as_slice());
        let key = hash.clone();
        self.insert_named_sub(url, key);
        hash
    }

    /// Adds (or refreshes) the subscription `url` under the key `name`.
    pub fn insert_named_sub(&mut self, url: String, name: String)
        ensures
            final(self).providers() == Some(
                upsert(old(self).provider_list(), name@, http_provider(url@)),
            ),
            keys_unique(final(self).provider_list()),
            final(self).same_except_providers(old(self)),
    {
        let mut table = match self.proxy_providers.take() {
            Some(m) => m,
            None => table_new(),
        };
        let provider = ProxyProvider { provider_type: "http".to_owned(), url: url, interval: 3600 };
        table_insert(&mut table, name, provider);
        self.proxy_providers = Some(table);
    }

    /// Removes the subscription stored under `sub_name`; a table left empty is dropped.
    /// Writing the file is left to the caller.
    pub fn remove_sub(&mut self, sub_name: &str)
        ensures
            match old(self).providers() {
                None => final(self).providers() is None,
                Some(e) => {
                    let rest = shift_remove_key(e, sub_name@);
                    final(self).providers() == if rest.len() == 0 {
                        None
                    } else {
                        Some(rest)
                    }
                },
            },
            key_position(final(self).provider_list(), sub_name@) is None,
            old(self).providers() is Some ==> keys_unique(final(self).provider_list()),
            final(self).same_except_providers(old(self)),
    {
        match self.proxy_providers.take() {
            None => {},
            Some(mut table) => {
                table_shift_remove(&mut table, sub_name);
                if table_len(&table) != 0 {
                    self.proxy_providers = Some(table);
                }
            },
        }
    }

    /// Removes the entry stored under `key` from the table, if there is a table;
    /// an emptied table stays.
    pub fn remove_provider_entry(&mut self, key: &str)
        ensures
            final(self).providers() == match old(self).providers() {
                Some(e) => Some(shift_remove_key(e, key@)),
                None => None,
            },
            key_position(final(self).provider_list(), key@) is None,
            old(self).providers() is Some ==> keys_unique(final(self).provider_list()),
            final(self).same_except_providers(old(self)),
    {
        match self.proxy_providers.take() {
            None => {},
            Some(mut table) => {
                table_shift_remove(&mut table, key);
                self.proxy_providers = Some(table);
            },
        }
    }

    /// Makes the first proxy group draw its nodes from the provider `name` alone, the
    /// group whose `use` list also decides the provider selected on start. Fails when
    /// the configuration has no proxy group. Writing the file is left to the caller.
    pub fn prepare_switch_provider(&mut self, name: &str) -> (res: Result<(), String>)
        ensures
            old(self).proxy_groups@.len() == 0 ==> (res matches Err(e) && e@ == "配置中没有代理组"@
                && final(self).proxy_groups@ == old(self).proxy_groups@),
            old(self).proxy_groups@.len() > 0 ==> res is Ok && final(self).proxy_groups@.len()
                == old(self).proxy_groups@.len() && string_views(
                final(self).proxy_groups@[0].use_list@,
            ) == seq![name@] && final(self).proxy_groups@[0].name == old(
                self,
            ).proxy_groups@[0].name && final(self).proxy_groups@[0].group_type == old(
                self,
            ).proxy_groups@[0].group_type && final(self).proxy_groups@[0].proxies == old(
                self,
            ).proxy_groups@[0].proxies && (forall|i: int|
                1 <= i < old(self).proxy_groups@.len() ==> final(self).proxy_groups@[i] == old(
                    self,
                ).proxy_groups@[i]),
            final(self).same_except_groups(old(self)),
    {
        if self.proxy_groups.len() == 0 {
            return Err("配置中没有代理组".to_owned());
        }
        let mut groups: Vec<ProxyGroup> = Vec::new();
        std::mem::swap(&mut groups, &mut self.proxy_groups);
        let ghost before = groups@;
        let first = groups.remove(0);
        let updated = ProxyGroup {
            name: first.name,
            group_type: first.group_type,
            proxies: first.proxies,
            use_list: vec![name.to_owned()],
        };
        groups.insert(0, updated);
        assert(string_views(groups@[0].use_list@) =~= seq![name@]);
        assert forall|i: int| 1 <= i < before.len() implies groups@[i] == before[i] by {}
        self.proxy_groups = groups;
        Ok(())
    }

    /// Number of subscriptions.
    pub fn provider_count(&self) -> (n: usize)
        ensures
            n == self.provider_list().len(),
    {
        match &self.proxy_providers {
            Some(m) => table_len(m),
            None => 0,
        }
    }

    /// Key of the subscription at `index`, if there is one.
    pub fn provider_key_by_index(&self, index: usize) -> (res: Option<String>)
        ensures
            index < self.provider_list().len() ==> res is Some && res.unwrap()@
                == self.provider_list()[index as int].0,
            index >= self.provider_list().len() ==> res is None,
    {
        match &self.proxy_providers {
            Some(m) => table_key_at(m, index),
            None => None,
        }
    }

    /// Position of the subscription stored under `key`, if there is one.
    pub fn provider_index_by_key(&self, key: &str) -> (res: Option<usize>)
        ensures
            res matches Some(i) ==> key_position(self.provider_list(), key@) == Some(i as int),
            res is None ==> key_position(self.provider_list(), key@) is None,
    {
        match &self.proxy_providers {
            Some(m) => table_index_of(m, key),
            None => None,
        }
    }
}

} // verus!
