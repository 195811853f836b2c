//! Proxy nodes as listed in the user interface and as the kernel reports them.

use vstd::prelude::*;

verus! {

/// A selectable node and the last measured delay text.
#[derive(Debug)]
pub struct Node {
    pub name: String,
    pub speed: String,
}

impl View for Node {
    type V = (Seq<char>, Seq<char>);

    open spec fn view(&self) -> (Seq<char>, Seq<char>) {
        (self.name@, self.speed@)
    }
}

impl Node {
    /// A node that has not been measured yet (speed `-`).
    pub fn new(name: String) -> (res: Self)
        ensures
            res.name@ == name@,
            res.speed@ == "-"@,
    {
        Self { name: name, speed: "-".to_owned() }
    }
}

/// The kernel's answer about the `Proxy` selector group.
#[derive(Debug)]
pub struct ProxyReport {
    pub alive: bool,
    pub all: Vec<String>,
    pub dialer_proxy: String,
    pub hidden: bool,
    pub icon: String,
    pub interface: String,
    pub name: String,
    pub now: String,
    pub node_type: String,
}

/// One proxy of a provider, as the kernel reports it.
#[derive(Debug)]
pub struct ProxyItem {
    pub name: String,
    pub proxy_type: String,
    pub server: Option<String>,
    pub port: Option<u16>,
}

} // verus!
