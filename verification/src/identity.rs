//! Resolving a numeric owner id to a display name through a cache that is
//! rebuilt wholesale every fixed number of scans, absorbing changes to the
//! system user database. A lookup failure yields a synthetic `uid:<n>` name
//! and never fails the caller.

use crate::digits::spec_decimal;
use crate::digits::u64_to_decimal;
use vstd::prelude::*;
use vstd::string::StrSliceExecFns;
use vstd::string::StringExecFns;

verus! {

/// The synthetic display name used when an owner id has no resolvable
/// account name.
pub open spec fn spec_uid_name(n: u64) -> Seq<char> {
    "uid:"@ + spec_decimal(n as nat)
}

/// Renders the synthetic `uid:<n>` display name.
pub fn uid_fallback_name(n: u64) -> (s: String)
    ensures
        s@ == spec_uid_name(n),
        s@.len() > 0,
{
    proof {
        reveal_strlit("uid:");
    }
    let mut s = String::from_str("uid:");
    s.append(u64_to_decimal(n).as_str());
    s
}

/// Relies on users::get_user_by_uid: queries the system user database for
/// the account with this id and hands back its name; `None` when no such
/// account exists or the query fails. The result depends on the machine's
/// user database, so nothing is promised of it.
#[verifier::external_body]
fn lookup_user_name(uid: u32) -> (r: Option<String>) {
    users::get_user_by_uid(uid).map(|u| u.name().to_string_lossy().into_owned())
}

struct UserEntry {
    uid: u32,
    name: String,
}

/// The map an entry sequence denotes: each owner id to its cached name.
spec fn umap(s: Seq<UserEntry>) -> Map<u32, Seq<char>>
    decreases s.len(),
{
    if s.len() == 0 {
        Map::empty()
    } else {
        umap(s.drop_last()).insert(s.last().uid, s.last().name@)
    }
}

/// No two entries share an owner id.
spec fn unique_uids(s: Seq<UserEntry>) -> bool {
    forall|i: int, j: int| 0 <= i < j < s.len() ==> s[i].uid != s[j].uid
}

/// Every cached name is non-empty.
spec fn names_nonempty(s: Seq<UserEntry>) -> bool {
    forall|i: int| 0 <= i < s.len() ==> s[i].name@.len() > 0
}

proof fn lemma_umap_contains(s: Seq<UserEntry>, u: u32)
    ensures
        umap(s).contains_key(u) <==> exists|i: int| 0 <= i < s.len() && s[i].uid == u,
    decreases s.len(),
{
    if s.len() > 0 {
        lemma_umap_contains(s.drop_last(), u);
        if s.last().uid == u {
            assert(s[s.len() - 1].uid == u);
        } else if umap(s).contains_key(u) {
            let i = choose|i: int| 0 <= i < s.drop_last().len() && s.drop_last()[i].uid == u;
            assert(s[i].uid == u);
        } else {
            assert(forall|i: int| 0 <= i < s.len() - 1 ==> s[i].uid == s.drop_last()[i].uid);
        }
    }
}

proof fn lemma_umap_index(s: Seq<UserEntry>, i: int)
    requires
        unique_uids(s),
        0 <= i < s.len(),
    ensures
        umap(s).contains_key(s[i].uid),
        umap(s)[s[i].uid] == s[i].name@,
    decreases s.len(),
{
    if i == s.len() - 1 {
        assert(s.last() == s[i]);
    } else {
        assert(unique_uids(s.drop_last())) by {
            assert(forall|a: int, b: int|
                0 <= a < b < s.len() - 1 ==> s.drop_last()[a] == s[a] && s.drop_last()[b] == s[b]);
        }
        lemma_umap_index(s.drop_last(), i);
        assert(s.drop_last()[i] == s[i]);
        assert(s.last().uid != s[i].uid);
    }
}

/// The cache from numeric owner ids to display names, with its scan
/// counter. The caller owns one across scans; after every `interval`
/// completed scans the cache is discarded and rebuilt from empty.
pub struct UserCache {
    entries: Vec<UserEntry>,
    scans: u64,
    interval: u64,
}

impl View for UserCache {
    type V = Map<u32, Seq<char>>;

    closed spec fn view(&self) -> Map<u32, Seq<char>> {
        umap(self.entries@)
    }
}

impl UserCache {
    /// How many scans have completed since the cache was last rebuilt.
    pub closed spec fn scans(&self) -> u64 {
        self.scans
    }

    /// After how many completed scans the cache is rebuilt.
    pub closed spec fn interval(&self) -> u64 {
        self.interval
    }

    /// The cache's internal invariant: one entry per owner id, no empty
    /// names, and a scan counter below the rebuild interval.
    pub closed spec fn wf(&self) -> bool {
        &&& unique_uids(self.entries@)
        &&& names_nonempty(self.entries@)
        &&& self.scans < self.interval
    }

    /// An empty cache with the default rebuild interval of 100 scans.
    pub fn new() -> (c: UserCache)
        ensures
            c@ == Map::<u32, Seq<char>>::empty(),
            c.wf(),
            c.scans() == 0,
            c.interval() == 100,
    {
        UserCache { entries: Vec::new(), scans: 0, interval: 100 }
    }

    /// An empty cache that is rebuilt after every `interval` scans.
    pub fn with_interval(interval: u64) -> (c: UserCache)
        requires
            interval >= 1,
        ensures
            c@ == Map::<u32, Seq<char>>::empty(),
            c.wf(),
            c.scans() == 0,
            c.interval() == interval,
    {
        UserCache { entries: Vec::new(), scans: 0, interval }
    }

    /// The index of the entry for `uid`, if one is cached.
    fn find_idx(&self, uid: u32) -> (r: Option<usize>)
        requires
            self.wf(),
        ensures
            r matches Some(j) ==> 0 <= j < self.entries@.len() && self.entries@[j as int].uid
                == uid && self@.contains_key(uid) && self@[uid] == self.entries@[j as int].name@,
            r is None ==> !self@.contains_key(uid),
    {
        let n = self.entries.len();
        let mut i: usize = 0;
        while i < n
            invariant
                0 <= i <= n,
                n == self.entries@.len(),
                self.wf(),
                forall|k: int| 0 <= k < i ==> self.entries@[k].uid != uid,
            decreases n - i,
        {
            if self.entries[i].uid == uid {
                proof {
                    lemma_umap_index(self.entries@, i as int);
                }
                return Some(i);
            }
            i = i + 1;
        }
        proof {
            lemma_umap_contains(self.entries@, uid);
        }
        None
    }

    /// The cached display name for `uid`, if any.
    pub fn cached(&self, uid: u32) -> (r: Option<String>)
        requires
            self.wf(),
        ensures
            (r is Some) == self@.contains_key(uid),
            r matches Some(n) ==> self@[uid] == n@ && n@.len() > 0,
    {
        match self.find_idx(uid) {
            Some(j) => Some(self.entries[j].name.clone()),
            None => None,
        }
    }

    /// Takes in the outcome of a system user-database query for `uid` and
    /// settles on the display name: on a cache hit the cached name wins and
    /// the outcome is ignored; on a miss, a non-empty queried name, or else
    /// the synthetic `uid:<n>` form, is cached and returned. The name
    /// cached on a miss sticks until the next wholesale rebuild, so a
    /// renamed or newly added account shows up only after one.
    pub fn admit_lookup(&mut self, uid: u32, found: Option<String>) -> (name: String)
        requires
            old(self).wf(),
        ensures
            final(self).wf(),
            final(self).scans() == old(self).scans(),
            final(self).interval() == old(self).interval(),
            name@.len() > 0,
            old(self)@.contains_key(uid) ==> final(self)@ == old(self)@ && name@ == old(
                self,
            )@[uid],
            !old(self)@.contains_key(uid) ==> final(self)@ == old(self)@.insert(uid, name@)
                && name@ == (match found {
                Some(n) => if n@.len() > 0 {
                    n@
                } else {
                    spec_uid_name(uid as u64)
                },
                None => spec_uid_name(uid as u64),
            }),
    {
        match self.find_idx(uid) {
            Some(j) => self.entries[j].name.clone(),
            None => {
                let name = match found {
                    Some(n) => {
                        if n.as_str().unicode_len() > 0 {
                            n
                        } else {
                            uid_fallback_name(uid as u64)
                        }
                    },
                    None => uid_fallback_name(uid as u64),
                };
                proof {
                    let s = self.entries@;
                    let e = UserEntry { uid, name: name };
                    assert(s.push(e).drop_last() =~= s);
                    lemma_umap_contains(s, uid);
                }
                let out = name.clone();
                self.entries.push(UserEntry { uid, name });
                out
            },
        }
    }

    /// Resolves `uid` to a display name: the cached name on a hit; on a
    /// miss the system user database is queried, and the queried name, or a
    /// synthetic `uid:<n>` when the query fails, is cached and returned.
    /// The returned name is never empty.
    pub fn resolve(&mut self, uid: u32) -> (name: String)
        requires
            old(self).wf(),
        ensures
            final(self).wf(),
            final(self).scans() == old(self).scans(),
            final(self).interval() == old(self).interval(),
            name@.len() > 0,
            old(self)@.contains_key(uid) ==> final(self)@ == old(self)@ && name@ == old(
                self,
            )@[uid],
            !old(self)@.contains_key(uid) ==> final(self)@ == old(self)@.insert(uid, name@),
    {
        match self.cached(uid) {
            Some(n) => n,
            None => {
                let found = lookup_user_name(uid);
                self.admit_lookup(uid, found)
            },
        }
    }

    /// Marks one scan as completed. When the count reaches the rebuild
    /// interval the cache is discarded, to be repopulated lazily, and the
    /// counter starts over; otherwise only the counter advances.
    pub fn end_scan(&mut self)
        requires
            old(self).wf(),
        ensures
            final(self).wf(),
            final(self).interval() == old(self).interval(),
            old(self).scans() + 1 >= old(self).interval() ==> final(self)@ == Map::<
                u32,
                Seq<char>,
            >::empty() && final(self).scans() == 0,
            old(self).scans() + 1 < old(self).interval() ==> final(self)@ == old(self)@
                && final(self).scans() == old(self).scans() + 1,
    {
        if self.scans >= self.interval - 1 {
            self.entries.clear();
            self.scans = 0;
        } else {
            self.scans = self.scans + 1;
        }
    }
}

} // verus!
