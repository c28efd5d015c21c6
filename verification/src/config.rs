//! The configuration that drives a run, and the rules that normalize it
//! after it has been parsed: a disabled proxy switch clears the proxy list,
//! and the thread count is capped at what the machine recommends.
//!
//! Reading and parsing the configuration file is the surrounding program's
//! work; it hands the parsed values to [`Config::normalize`].

use vstd::prelude::*;

verus! {

/// A proxy endpoint: a host and a port. Identity is structural equality on
/// the pair. Immutable once constructed.
#[derive(Debug, PartialEq, Eq)]
pub struct Proxy {
    pub ip: String,
    pub port: u16,
}

/// The mathematical value of a [`Proxy`]: its host's characters and its port.
pub ghost struct ProxyView {
    pub ip: Seq<char>,
    pub port: u16,
}

impl View for Proxy {
    type V = ProxyView;

    open spec fn view(&self) -> ProxyView {
        ProxyView { ip: self.ip@, port: self.port }
    }
}

impl Clone for Proxy {
    /// The copy describes the same endpoint.
    fn clone(&self) -> (r: Self)
        ensures
            r@ == self@,
    {
        Proxy { ip: self.ip.clone(), port: self.port }
    }
}

/// The run's configuration, as the loader hands it over.
#[derive(Debug)]
pub struct Config {
    /// Whether requests are routed through proxies at all.
    pub proxy: bool,
    /// How many worker threads scan in parallel.
    pub hilos: u32,
    /// Per-request timeout, in seconds.
    pub timeout: u64,
    /// The configured proxy endpoints, if any.
    pub proxies: Option<Vec<Proxy>>,
    /// The user-agent header sent with every request.
    pub user_agent: String,
}

impl Config {
    /// Applies the loading rules to a freshly parsed configuration: when the
    /// proxy switch is off the proxy list is treated as absent regardless of
    /// its contents, and a thread count above the machine's recommendation is
    /// capped at that recommendation (a lower count is kept as written).
    pub fn normalize(&mut self, recommended_threads: u32)
        ensures
            final(self).proxies == (if old(self).proxy {
                old(self).proxies
            } else {
                None::<Vec<Proxy>>
            }),
            final(self).hilos == (if old(self).hilos > recommended_threads {
                recommended_threads
            } else {
                old(self).hilos
            }),
            final(self).proxy == old(self).proxy,
            final(self).timeout == old(self).timeout,
            final(self).user_agent == old(self).user_agent,
    {
        if !self.proxy {
            self.proxies = None;
        }
        if self.hilos > recommended_threads {
            self.hilos = recommended_threads;
        }
    }
}

} // verus!
