//! Server certificates indexed by host name (the SNI of a TLS handshake).

use vstd::prelude::*;
use crate::text::str_eq;

verus! {

/// A binding of a host name to a certificate and its private key, both in PEM text.
#[derive(Debug, Clone, PartialEq, Eq)]
pub struct CertBinding {
    /// The host name, matched against the SNI.
    pub host: String,
    /// An X.509 server certificate, in PEM.
    pub cert: String,
    /// The certificate's private key, in PEM.
    pub key: String,
}

/// An interface for binding and unbinding certificates of representation `C`.
pub trait CertHolder<C> {
    /// The holder is in a consistent state.
    spec fn holder_wf(&self) -> bool;

    /// The certificate bound to each host.
    spec fn holder_bindings(&self) -> Map<Seq<char>, C>;

    /// Binds `cert` to `host`, replacing any earlier binding.
    fn add_cert(&mut self, host: &str, cert: C)
        requires
            old(self).holder_wf(),
        ensures
            final(self).holder_wf(),
            final(self).holder_bindings() == old(self).holder_bindings().insert(host@, cert),
    ;

    /// Removes the binding of `host`, if any.
    fn delete_cert(&mut self, host: &str)
        requires
            old(self).holder_wf(),
        ensures
            final(self).holder_wf(),
            final(self).holder_bindings() == old(self).holder_bindings().remove(host@),
    ;
}

struct CertEntry<C> {
    host: String,
    cert: C,
}

/// A store of certificates (of any representation `C`) indexed by host name; each host has
/// at most one.
pub struct CertStore<C> {
    entries: Vec<CertEntry<C>>,
}

impl<C> CertStore<C> {
    spec fn has_host(&self, h: Seq<char>) -> bool {
        exists|k: int| 0 <= k < self.entries@.len() && #[trigger] self.entries@[k].host@ == h
    }

    spec fn index_of(&self, h: Seq<char>) -> int {
        choose|k: int| 0 <= k < self.entries@.len() && #[trigger] self.entries@[k].host@ == h
    }

    /// The certificate bound to each host.
    pub closed spec fn view(&self) -> Map<Seq<char>, C> {
        Map::new(|h: Seq<char>| self.has_host(h), |h: Seq<char>| self.entries@[self.index_of(h)].cert)
    }

    /// No host is bound twice.
    pub closed spec fn wf(&self) -> bool {
        forall|k1: int, k2: int|
            0 <= k1 < self.entries@.len() && 0 <= k2 < self.entries@.len()
                && #[trigger] self.entries@[k1].host@ == #[trigger] self.entries@[k2].host@ ==> k1
                == k2
    }

    /// An empty store.
    pub fn new() -> (r: Self)
        ensures
            r.wf(),
            r.view() == Map::<Seq<char>, C>::empty(),
    {
        let r = CertStore { entries: Vec::new() };
        assert(r.view() =~= Map::<Seq<char>, C>::empty());
        r
    }

    fn find(&self, host: &str) -> (r: Option<usize>)
        ensures
            match r {
                Some(k) => k < self.entries@.len() && self.entries@[k as int].host@ == host@,
                None => !self.has_host(host@),
            },
    {
        let mut k: usize = 0;
        while k < self.entries.len()
            invariant
                k <= self.entries@.len(),
                forall|i: int| 0 <= i < k ==> #[trigger] self.entries@[i].host@ != host@,
            decreases self.entries@.len() - k,
        {
            if str_eq(self.entries[k].host.as_str(), host) {
                return Some(k);
            }
            k = k + 1;
        }
        None
    }

    /// The certificate bound to `host`.
    pub fn get_cert(&self, host: &str) -> (r: Option<&C>)
        requires
            self.wf(),
        ensures
            match r {
                Some(c) => self.view().contains_key(host@) && *c == self.view()[host@],
                None => !self.view().contains_key(host@),
            },
    {
        match self.find(host) {
            None => None,
            Some(k) => {
                assert(self.has_host(host@));
                assert(self.index_of(host@) == k);
                Some(&self.entries[k].cert)
            },
        }
    }

    /// Binds `cert` to `host`, replacing any certificate bound to it before.
    pub fn add_cert(&mut self, host: &str, cert: C)
        requires
            old(self).wf(),
        ensures
            final(self).wf(),
            final(self).view() == old(self).view().insert(host@, cert),
    {
        match self.find(host) {
            Some(k) => {
                self.entries[k].cert = cert;
                proof {
                    let o = old(self).entries@;
                    let e = self.entries@;
                    assert(e == o.update(k as int, e[k as int]));
                    assert forall|h: Seq<char>| self.has_host(h) <==> old(self).has_host(h) || h == host@ by {
                        if old(self).has_host(h) {
                            let i = choose|i: int| 0 <= i < o.len() && #[trigger] o[i].host@ == h;
                            assert(e[i].host@ == h);
                        }
                        if self.has_host(h) {
                            let i = choose|i: int| 0 <= i < e.len() && #[trigger] e[i].host@ == h;
                            assert(o[i].host@ == h);
                        }
                    }
                    assert forall|h: Seq<char>| #[trigger] self.has_host(h) && h != host@ implies self.entries@[self.index_of(h)].cert
                        == old(self).entries@[old(self).index_of(h)].cert by {
                        let i = self.index_of(h);
                        let i2 = old(self).index_of(h);
                        assert(o[i2].host@ == h);
                        assert(e[i2].host@ == h);
                    }
                    assert(self.has_host(host@));
                    assert(self.index_of(host@) == k);
                    assert(self.view() =~= old(self).view().insert(host@, cert));
                }
            },
            None => {
                let entry = CertEntry { host: host.to_owned(), cert };
                self.entries.push(entry);
                proof {
                    let o = old(self).entries@;
                    let e = self.entries@;
                    assert forall|h: Seq<char>| self.has_host(h) <==> old(self).has_host(h) || h == host@ by {
                        if old(self).has_host(h) {
                            let i = choose|i: int| 0 <= i < o.len() && #[trigger] o[i].host@ == h;
                            assert(e[i] == o[i]);
                        }
                        if h == host@ {
                            assert(e[o.len() as int].host@ == h);
                        }
                        if self.has_host(h) && h != host@ {
                            let i = choose|i: int| 0 <= i < e.len() && #[trigger] e[i].host@ == h;
                            assert(e[i] == o[i]);
                        }
                    }
                    assert forall|h: Seq<char>| #[trigger] self.has_host(h) && h != host@ implies self.entries@[self.index_of(h)].cert
                        == old(self).entries@[old(self).index_of(h)].cert by {
                        let i = self.index_of(h);
                        let i2 = old(self).index_of(h);
                        assert(e[i2] == o[i2]);
                    }
                    assert(e[o.len() as int].host@ == host@);
                    assert(self.index_of(host@) == o.len());
                    assert(self.view() =~= old(self).view().insert(host@, cert));
                }
            },
        }
    }

    /// Removes the binding of `host`; returns whether there was one.
    pub fn delete_cert(&mut self, host: &str) -> (r: bool)
        requires
            old(self).wf(),
        ensures
            final(self).wf(),
            final(self).view() == old(self).view().remove(host@),
            r == old(self).view().contains_key(host@),
    {
        match self.find(host) {
            None => {
                assert(self.view() =~= old(self).view().remove(host@));
                false
            },
            Some(k) => {
                let _ = self.entries.remove(k);
                proof {
                    let o = old(self).entries@;
                    let e = self.entries@;
                    assert(e == o.remove(k as int));
                    assert forall|h: Seq<char>| self.has_host(h) <==> old(self).has_host(h) && h != host@ by {
                        if old(self).has_host(h) && h != host@ {
                            let i = choose|i: int| 0 <= i < o.len() && #[trigger] o[i].host@ == h;
                            let i2 = if i < k { i } else { i - 1 };
                            assert(e[i2] == o[i]);
                        }
                        if self.has_host(h) {
                            let i = choose|i: int| 0 <= i < e.len() && #[trigger] e[i].host@ == h;
                            let i2 = if i < k { i } else { i + 1 };
                            assert(e[i] == o[i2]);
                        }
                    }
                    assert forall|k1: int, k2: int|
                        0 <= k1 < e.len() && 0 <= k2 < e.len() && #[trigger] e[k1].host@ == #[trigger] e[k2].host@
                            implies k1 == k2 by {
                        let o1 = if k1 < k { k1 } else { k1 + 1 };
                        let o2 = if k2 < k { k2 } else { k2 + 1 };
                        assert(e[k1] == o[o1] && e[k2] == o[o2]);
                    }
                    assert forall|h: Seq<char>| #[trigger] self.has_host(h) implies self.entries@[self.index_of(h)].cert
                        == old(self).entries@[old(self).index_of(h)].cert by {
                        let i = self.index_of(h);
                        let i2 = if i < k { i } else { i + 1 };
                        assert(e[i] == o[i2]);
                        assert(o[i2].host@ == h);
                    }
                    assert(old(self).has_host(host@));
                    assert(self.view() =~= old(self).view().remove(host@));
                }
                true
            },
        }
    }
}

impl<C> CertHolder<C> for CertStore<C> {
    open spec fn holder_wf(&self) -> bool {
        self.wf()
    }

    open spec fn holder_bindings(&self) -> Map<Seq<char>, C> {
        self.view()
    }

    fn add_cert(&mut self, host: &str, cert: C) {
        CertStore::add_cert(self, host, cert)
    }

    fn delete_cert(&mut self, host: &str) {
        let _ = CertStore::delete_cert(self, host);
    }
}

} // verus!
