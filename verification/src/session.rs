//! The session-cookie persistence contract: a session store is a list of
//! plain cookie records; exporting takes a verbatim snapshot sufficient to
//! reconstruct an authenticated session, and importing installs only the
//! entries that are unexpired and match the target host — expired and
//! foreign-domain cookies are dropped, never installed.

use vstd::prelude::*;
use vstd::string::StrSliceExecFns;
use crate::text::str_eq;

verus! {

/// One cookie of the session store, as plain values: the transport's cookie
/// jar owns the live cookies; this record is their persisted shape.
pub struct Cookie {
    /// The domain the cookie is scoped to.
    pub domain: String,
    pub name: String,
    pub value: String,
    /// Expiry in seconds of Unix time; `None` for a session cookie, which
    /// never expires on its own.
    pub expires: Option<i64>,
}

/// The mathematical shape of a [`Cookie`].
pub struct CookieV {
    pub domain: Seq<char>,
    pub name: Seq<char>,
    pub value: Seq<char>,
    pub expires: Option<int>,
}

impl View for Cookie {
    type V = CookieV;

    open spec fn view(&self) -> CookieV {
        CookieV {
            domain: self.domain@,
            name: self.name@,
            value: self.value@,
            expires: match self.expires {
                None => None,
                Some(t) => Some(t as int),
            },
        }
    }
}

/// The views of a sequence of cookies.
pub open spec fn cookies_view(s: Seq<Cookie>) -> Seq<CookieV> {
    s.map_values(|c: Cookie| c@)
}

/// Whether a cookie is still live at time `now`: session cookies always are;
/// a persistent cookie is live strictly before its expiry.
pub open spec fn unexpired(c: CookieV, now: int) -> bool {
    match c.expires {
        None => true,
        Some(t) => t > now,
    }
}

/// Whether a cookie scoped to `domain` may be installed for `host`: either
/// exactly that host, or `domain` is a dot-separated suffix of it.
pub open spec fn domain_matches(host: Seq<char>, domain: Seq<char>) -> bool {
    host == domain || (host.len() > domain.len() && host.skip(host.len() - domain.len()) == domain
        && host[host.len() - domain.len() - 1] == '.')
}

/// Whether an imported cookie is installed at all.
pub open spec fn importable(c: CookieV, host: Seq<char>, now: int) -> bool {
    unexpired(c, now) && domain_matches(host, c.domain)
}

/// The cookies of a snapshot that an import installs, in snapshot order:
/// exactly the unexpired, domain-matching ones.
pub open spec fn import_filter(entries: Seq<CookieV>, host: Seq<char>, now: int) -> Seq<CookieV>
    decreases entries.len(),
{
    if entries.len() == 0 {
        Seq::empty()
    } else if importable(entries[0], host, now) {
        seq![entries[0]] + import_filter(entries.skip(1), host, now)
    } else {
        import_filter(entries.skip(1), host, now)
    }
}

/// The session store: the one owner of the persisted cookie records. The
/// transport's live jar is rebuilt from it, and it is rebuilt from the jar,
/// through the plain snapshots that [`SessionStore::export`] and
/// [`SessionStore::import`] exchange.
pub struct SessionStore {
    cookies: Vec<Cookie>,
}

impl View for SessionStore {
    type V = Seq<CookieV>;

    closed spec fn view(&self) -> Seq<CookieV> {
        cookies_view(self.cookies@)
    }
}

/// Compares a host against a cookie domain: an exact match, or a
/// dot-separated suffix.
fn host_matches(host: &str, domain: &str) -> (r: bool)
    ensures
        r == domain_matches(host@, domain@),
{
    if str_eq(host, domain) {
        return true;
    }
    let hlen = host.unicode_len();
    let dlen = domain.unicode_len();
    if hlen <= dlen {
        return false;
    }
    let tail = host.substring_char(hlen - dlen, hlen);
    proof {
        assert(tail@ =~= host@.skip(host@.len() - domain@.len()));
    }
    str_eq(tail, domain) && host.get_char(hlen - dlen - 1) == '.'
}

impl SessionStore {
    /// An empty store: no session at all.
    pub fn new() -> (r: SessionStore)
        ensures
            r@ == Seq::<CookieV>::empty(),
    {
        let r = SessionStore { cookies: Vec::new() };
        proof {
            assert(r@ =~= Seq::<CookieV>::empty());
        }
        r
    }

    /// A verbatim snapshot of every cookie, in storage order: what the
    /// persisted session file holds.
    pub fn export(&self) -> (r: Vec<Cookie>)
        ensures
            cookies_view(r@) == self@,
    {
        let mut r: Vec<Cookie> = Vec::new();
        let mut i: usize = 0;
        proof {
            assert(cookies_view(r@) =~= self@.take(0));
        }
        while i < self.cookies.len()
            invariant
                i <= self.cookies@.len(),
                self@.len() == self.cookies@.len(),
                cookies_view(r@) == self@.take(i as int),
            decreases self.cookies@.len() - i,
        {
            let ghost prev = r@;
            let c = &self.cookies[i];
            let copy = Cookie {
                domain: c.domain.clone(),
                name: c.name.clone(),
                value: c.value.clone(),
                expires: match &c.expires {
                    None => None,
                    Some(t) => Some(*t),
                },
            };
            r.push(copy);
            proof {
                assert(cookies_view(r@) =~= cookies_view(prev).push(self@[i as int]));
                assert(self@.take(i + 1) =~= self@.take(i as int).push(self@[i as int]));
            }
            i += 1;
        }
        proof {
            assert(self@.take(self@.len() as int) =~= self@);
        }
        r
    }

    /// Installs a snapshot into the store for the given target host at the
    /// given time: exactly the unexpired, domain-matching entries are
    /// appended, in snapshot order; expired and foreign-domain entries are
    /// dropped.
    pub fn import(&mut self, entries: Vec<Cookie>, host: &str, now: i64)
        ensures
            final(self)@ == old(self)@ + import_filter(cookies_view(entries@), host@, now as int),
    {
        let ghost orig = cookies_view(entries@);
        let ghost base = old(self)@;
        let mut rest = entries;
        proof {
            assert(base + import_filter(orig, host@, now as int) =~= self@ + import_filter(
                cookies_view(rest@),
                host@,
                now as int,
            ));
        }
        while rest.len() > 0
            invariant
                base + import_filter(orig, host@, now as int) == self@ + import_filter(
                    cookies_view(rest@),
                    host@,
                    now as int,
                ),
            decreases rest@.len(),
        {
            let ghost pre = cookies_view(rest@);
            let ghost sprev = self@;
            let c = rest.remove(0);
            proof {
                assert(pre[0] == c@);
                assert(cookies_view(rest@) =~= pre.skip(1));
            }
            let live = match &c.expires {
                None => true,
                Some(t) => *t > now,
            };
            if live && host_matches(host, c.domain.as_str()) {
                self.cookies.push(c);
                proof {
                    assert(self@ =~= sprev.push(c@));
                    assert(sprev + (seq![pre[0]] + import_filter(
                        cookies_view(rest@),
                        host@,
                        now as int,
                    )) =~= self@ + import_filter(cookies_view(rest@), host@, now as int));
                }
            } else {
                proof {
                    assert(!importable(pre[0], host@, now as int));
                }
            }
        }
        proof {
            assert(cookies_view(rest@) =~= Seq::<CookieV>::empty());
            assert(self@ + import_filter(cookies_view(rest@), host@, now as int) =~= self@);
        }
    }

    /// Hands over the live cookies for the transport's jar: exactly the
    /// store's contents, in order.
    pub fn cookies(&self) -> (r: Vec<Cookie>)
        ensures
            cookies_view(r@) == self@,
    {
        self.export()
    }
}

/// Exporting a store and importing the snapshot reproduces exactly the
/// originally unexpired, domain-matching cookies: every installed cookie is
/// one of the snapshot's and is live and domain-matching at import time, and
/// every such cookie of the snapshot is installed. Expired and foreign-domain
/// cookies are dropped on import.
pub proof fn lemma_import_round_trip(exported: Seq<CookieV>, host: Seq<char>, now: int)
    ensures
        forall|i: int| 0 <= i < import_filter(exported, host, now).len() ==> exported.contains(
            #[trigger] import_filter(exported, host, now)[i],
        ) && importable(import_filter(exported, host, now)[i], host, now),
        forall|j: int| 0 <= j < exported.len() && importable(#[trigger] exported[j], host, now)
            ==> import_filter(exported, host, now).contains(exported[j]),
    decreases exported.len(),
{
    if exported.len() > 0 {
        let rest = exported.skip(1);
        let sub = import_filter(rest, host, now);
        let whole = import_filter(exported, host, now);
        lemma_import_round_trip(rest, host, now);
        assert forall|i: int| 0 <= i < whole.len() implies exported.contains(#[trigger] whole[i])
            && importable(whole[i], host, now) by {
            if importable(exported[0], host, now) && i == 0 {
                assert(whole[0] == exported[0]);
                assert(exported[0] == exported[0]);
            } else {
                let x = if importable(exported[0], host, now) {
                    sub[i - 1]
                } else {
                    sub[i]
                };
                assert(sub.contains(x) ==> rest.contains(x));
                assert(rest.contains(x));
                let k = choose|k: int| 0 <= k < rest.len() && rest[k] == x;
                assert(exported[k + 1] == x);
            }
        }
        assert forall|j: int|
            0 <= j < exported.len() && importable(#[trigger] exported[j], host, now) implies
            whole.contains(exported[j]) by {
            if j == 0 {
                assert(whole[0] == exported[0]);
            } else {
                assert(rest[j - 1] == exported[j]);
                assert(sub.contains(exported[j]));
                let k = choose|k: int| 0 <= k < sub.len() && sub[k] == exported[j];
                if importable(exported[0], host, now) {
                    assert(whole[k + 1] == exported[j]);
                } else {
                    assert(whole[k] == exported[j]);
                }
            }
        }
    }
}

} // verus!
