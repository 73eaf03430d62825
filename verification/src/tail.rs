//! The tail/polling engine: tracks, per thread, the highest post index
//! already surfaced to the user, filters already-seen posts out of each
//! polling cycle, and hands back the state to persist after a cycle.

use vstd::prelude::*;
use crate::post_list::Post;
use crate::text::str_eq;
use crate::thread_list::Thread;

verus! {

/// The mapping denoted by a list of thread-id/index entries: later entries
/// win, though a well-formed state never repeats a key.
pub open spec fn entries_map(s: Seq<(String, i64)>) -> Map<Seq<char>, int>
    decreases s.len(),
{
    if s.len() == 0 {
        Map::empty()
    } else {
        entries_map(s.drop_last()).insert(s.last().0@, s.last().1 as int)
    }
}

/// The entry stored for a thread, if any.
pub open spec fn seen_of(m: Map<Seq<char>, int>, thread_id: Seq<char>) -> Option<int> {
    if m.contains_key(thread_id) {
        Some(m[thread_id])
    } else {
        None
    }
}

/// A post is new exactly when its index exceeds the stored high-water mark,
/// or no mark exists.
pub open spec fn is_new(mark: Option<int>, index: int) -> bool {
    match mark {
        None => true,
        Some(m) => index > m,
    }
}

/// The posts of one page that a cycle surfaces, in order: each post whose
/// index exceeds the running mark, which every surfaced post raises to its
/// own index.
pub open spec fn emit_filter(mark: Option<int>, posts: Seq<Post>) -> Seq<Post>
    decreases posts.len(),
{
    if posts.len() == 0 {
        Seq::empty()
    } else if is_new(mark, posts[0].index as int) {
        seq![posts[0]] + emit_filter(Some(posts[0].index as int), posts.skip(1))
    } else {
        emit_filter(mark, posts.skip(1))
    }
}

/// The high-water mark after one page of posts is processed.
pub open spec fn mark_after(mark: Option<int>, posts: Seq<Post>) -> Option<int>
    decreases posts.len(),
{
    if posts.len() == 0 {
        mark
    } else if is_new(mark, posts[0].index as int) {
        mark_after(Some(posts[0].index as int), posts.skip(1))
    } else {
        mark_after(mark, posts.skip(1))
    }
}

/// The integer denoted by an optional machine integer.
pub open spec fn opt_int(o: Option<i64>) -> Option<int> {
    match o {
        None => None,
        Some(v) => Some(v as int),
    }
}

/// The process-durable mapping from thread id to the highest post index
/// already surfaced. For any thread present, the stored index never
/// decreases across polling cycles; a post is new exactly when its index
/// exceeds the stored value, or no entry exists. A thread absent from the
/// state has no prior history: all its posts are new.
pub struct SeenState {
    entries: Vec<(String, i64)>,
}

impl View for SeenState {
    type V = Map<Seq<char>, int>;

    closed spec fn view(&self) -> Map<Seq<char>, int> {
        entries_map(self.entries@)
    }
}

/// No thread id occurs twice among the entries.
pub open spec fn unique_keys(s: Seq<(String, i64)>) -> bool {
    forall|i: int, j: int| 0 <= i < j < s.len() ==> (#[trigger] s[i]).0@ != (#[trigger] s[j]).0@
}

/// A key is in the map exactly when some entry holds it.
proof fn lemma_entries_map_domain(s: Seq<(String, i64)>, key: Seq<char>)
    ensures
        entries_map(s).contains_key(key) <==> exists|i: int|
            0 <= i < s.len() && (#[trigger] s[i]).0@ == key,
    decreases s.len(),
{
    if s.len() > 0 {
        lemma_entries_map_domain(s.drop_last(), key);
        if entries_map(s).contains_key(key) && s.last().0@ != key {
            let i = choose|i: int| 0 <= i < s.drop_last().len() && (#[trigger] s.drop_last()[
                i
            ]).0@ == key;
            assert(s[i].0@ == key);
        }
        if exists|i: int| 0 <= i < s.len() && (#[trigger] s[i]).0@ == key {
            let i = choose|i: int| 0 <= i < s.len() && (#[trigger] s[i]).0@ == key;
            if i < s.len() - 1 {
                assert(s.drop_last()[i].0@ == key);
            }
        }
    }
}

/// With unique keys, the map holds each entry's value under its key.
proof fn lemma_entries_map_at(s: Seq<(String, i64)>, j: int)
    requires
        unique_keys(s),
        0 <= j < s.len(),
    ensures
        entries_map(s).contains_key(s[j].0@),
        entries_map(s)[s[j].0@] == s[j].1 as int,
    decreases s.len(),
{
    if j == s.len() - 1 {
    } else {
        assert(unique_keys(s.drop_last())) by {
            assert(forall|i: int, k: int| 0 <= i < k < s.len() - 1 ==> (#[trigger] s.drop_last()[
                i
            ]).0@ != (#[trigger] s.drop_last()[k]).0@);
        }
        assert(s.drop_last()[j] == s[j]);
        lemma_entries_map_at(s.drop_last(), j);
        assert(s.last().0@ != s[j].0@);
    }
}

/// Replacing the value stored at an existing key updates the map in place.
proof fn lemma_entries_map_update(s: Seq<(String, i64)>, j: int, p: (String, i64))
    requires
        unique_keys(s),
        0 <= j < s.len(),
        p.0@ == s[j].0@,
    ensures
        entries_map(s.update(j, p)) =~= entries_map(s).insert(p.0@, p.1 as int),
    decreases s.len(),
{
    let u = s.update(j, p);
    if j == s.len() - 1 {
        assert(u.drop_last() =~= s.drop_last());
        assert(u.last() == p);
    } else {
        assert(unique_keys(s.drop_last())) by {
            assert(forall|i: int, k: int| 0 <= i < k < s.len() - 1 ==> (#[trigger] s.drop_last()[
                i
            ]).0@ != (#[trigger] s.drop_last()[k]).0@);
        }
        assert(s.drop_last()[j] == s[j]);
        lemma_entries_map_update(s.drop_last(), j, p);
        assert(u.drop_last() =~= s.drop_last().update(j, p));
        assert(u.last() == s.last());
        assert(s.last().0@ != p.0@);
    }
}

impl SeenState {
    /// No thread id occurs twice; established by the constructors and kept by
    /// every operation.
    pub closed spec fn wf(&self) -> bool {
        unique_keys(self.entries@)
    }

    /// An empty state: no thread has any history.
    pub fn new() -> (r: SeenState)
        ensures
            r.wf(),
            r@ == Map::<Seq<char>, int>::empty(),
    {
        SeenState { entries: Vec::new() }
    }

    /// Rebuilds a state from persisted entries, in order; a repeated thread
    /// id keeps the value seen last.
    pub fn load(entries: Vec<(String, i64)>) -> (r: SeenState)
        ensures
            r.wf(),
            r@ == entries_map(entries@),
    {
        let mut r = SeenState::new();
        let mut i: usize = 0;
        proof {
            assert(entries@.take(0) =~= Seq::<(String, i64)>::empty());
        }
        while i < entries.len()
            invariant
                i <= entries@.len(),
                r.wf(),
                r@ == entries_map(entries@.take(i as int)),
            decreases entries@.len() - i,
        {
            proof {
                assert(entries@.take(i + 1).drop_last() =~= entries@.take(i as int));
                assert(entries@.take(i + 1).last() == entries@[i as int]);
            }
            r.set(entries[i].0.as_str(), entries[i].1);
            i += 1;
        }
        proof {
            assert(entries@.take(entries@.len() as int) =~= entries@);
        }
        r
    }

    /// The stored high-water mark for a thread, if any.
    pub fn get(&self, thread_id: &str) -> (r: Option<i64>)
        requires
            self.wf(),
        ensures
            opt_int(r) == seen_of(self@, thread_id@),
    {
        let mut i: usize = 0;
        while i < self.entries.len()
            invariant
                i <= self.entries@.len(),
                self.wf(),
                forall|j: int| 0 <= j < i ==> (#[trigger] self.entries@[j]).0@ != thread_id@,
            decreases self.entries@.len() - i,
        {
            if str_eq(self.entries[i].0.as_str(), thread_id) {
                proof {
                    lemma_entries_map_at(self.entries@, i as int);
                }
                return Some(self.entries[i].1);
            }
            i += 1;
        }
        proof {
            lemma_entries_map_domain(self.entries@, thread_id@);
        }
        None
    }

    /// Stores `index` for a thread, replacing any previous entry.
    pub fn set(&mut self, thread_id: &str, index: i64)
        requires
            old(self).wf(),
        ensures
            final(self).wf(),
            final(self)@ == old(self)@.insert(thread_id@, index as int),
    {
        let ghost s0 = self.entries@;
        let mut i: usize = 0;
        while i < self.entries.len()
            invariant
                i <= self.entries@.len(),
                self.entries@ == s0,
                s0 == old(self).entries@,
                unique_keys(s0),
                forall|j: int| 0 <= j < i ==> (#[trigger] s0[j]).0@ != thread_id@,
            decreases self.entries@.len() - i,
        {
            if str_eq(self.entries[i].0.as_str(), thread_id) {
                let pair = (thread_id.to_owned(), index);
                let ghost gpair = pair;
                self.entries.remove(i);
                self.entries.insert(i, pair);
                proof {
                    assert(self.entries@ =~= s0.update(i as int, gpair));
                    assert(gpair.0@ == s0[i as int].0@);
                    lemma_entries_map_update(s0, i as int, gpair);
                    assert(gpair.0@ == thread_id@);
                    assert(entries_map(self.entries@) == entries_map(s0).insert(
                        thread_id@,
                        index as int,
                    ));
                    assert(unique_keys(self.entries@)) by {
                        assert(forall|a: int, b: int| 0 <= a < b < s0.len() ==> (
                        #[trigger] self.entries@[a]).0@ != (#[trigger] self.entries@[b]).0@);
                    }
                }
                return ;
            }
            i += 1;
        }
        let pair = (thread_id.to_owned(), index);
        self.entries.push(pair);
        proof {
            assert(self.entries@.drop_last() =~= s0);
            assert(unique_keys(self.entries@)) by {
                assert(forall|a: int, b: int| 0 <= a < b < self.entries@.len() ==> (
                #[trigger] self.entries@[a]).0@ != (#[trigger] self.entries@[b]).0@);
            }
        }
    }

    /// Processes one fetched page of a thread's posts, in document order:
    /// every post whose index exceeds the stored mark (or all of them, when
    /// the thread has no entry) is handed back for display, and the mark
    /// rises to the last surfaced post's index. Already-seen posts are
    /// dropped and never lower the mark. Entries of other threads are
    /// untouched, and no stored index ever decreases.
    pub fn process_posts(&mut self, thread_id: &str, posts: Vec<Post>) -> (emitted: Vec<Post>)
        requires
            old(self).wf(),
        ensures
            final(self).wf(),
            emitted@ == emit_filter(seen_of(old(self)@, thread_id@), posts@),
            final(self)@ == match mark_after(seen_of(old(self)@, thread_id@), posts@) {
                None => old(self)@,
                Some(m) => old(self)@.insert(thread_id@, m),
            },
            forall|k: Seq<char>| old(self)@.contains_key(k) ==> final(self)@.contains_key(k)
                && final(self)@[k] >= old(self)@[k],
    {
        let ghost orig = posts@;
        let ghost mark0 = seen_of(old(self)@, thread_id@);
        let mut last = self.get(thread_id);
        let mut rest = posts;
        let mut emitted: Vec<Post> = Vec::new();
        proof {
            assert(emit_filter(mark0, orig) =~= emitted@ + emit_filter(opt_int(last), rest@));
        }
        while rest.len() > 0
            invariant
                emit_filter(mark0, orig) == emitted@ + emit_filter(opt_int(last), rest@),
                mark_after(mark0, orig) == mark_after(opt_int(last), rest@),
                mark0 matches Some(m0) ==> opt_int(last) matches Some(l) && l >= m0,
            decreases rest@.len(),
        {
            let ghost pre = rest@;
            let ghost em0 = emitted@;
            let p = rest.remove(0);
            proof {
                assert(rest@ =~= pre.skip(1));
            }
            let fresh = match &last {
                None => true,
                Some(m) => p.index > *m,
            };
            if fresh {
                last = Some(p.index);
                emitted.push(p);
                proof {
                    assert(emitted@ =~= em0 + seq![pre[0]]);
                    assert(emit_filter(opt_int(Some(pre[0].index)), pre.skip(1)) == emit_filter(
                        opt_int(last),
                        rest@,
                    ));
                    assert(em0 + (seq![pre[0]] + emit_filter(opt_int(last), rest@)) =~= emitted@
                        + emit_filter(opt_int(last), rest@));
                }
            }
            proof {
                assert(mark_after(mark0, orig) == mark_after(opt_int(last), rest@));
            }
        }
        proof {
            assert(rest@ =~= Seq::<Post>::empty());
            assert(emitted@ + emit_filter(opt_int(last), rest@) =~= emitted@);
            assert(mark_after(opt_int(last), rest@) == opt_int(last));
        }
        match &last {
            None => {},
            Some(m) => {
                self.set(thread_id, *m);
            },
        }
        emitted
    }

    /// Hands back every entry for persistence, in storage order, each thread
    /// id once.
    pub fn entries(&self) -> (r: Vec<(String, i64)>)
        requires
            self.wf(),
        ensures
            unique_keys(r@),
            entries_map(r@) == self@,
    {
        let mut r: Vec<(String, i64)> = Vec::new();
        let mut i: usize = 0;
        proof {
            assert(self.entries@.take(0) =~= Seq::<(String, i64)>::empty());
            assert(entries_map(r@) =~= entries_map(self.entries@.take(0)));
        }
        while i < self.entries.len()
            invariant
                i <= self.entries@.len(),
                self.wf(),
                r@.len() == i,
                forall|j: int| 0 <= j < i ==> (#[trigger] r@[j]).0@ == self.entries@[j].0@ && r@[
                    j
                ].1 == self.entries@[j].1,
                entries_map(r@) == entries_map(self.entries@.take(i as int)),
            decreases self.entries@.len() - i,
        {
            let ghost r0 = r@;
            let pair = (self.entries[i].0.clone(), self.entries[i].1);
            r.push(pair);
            proof {
                assert(r@.drop_last() =~= r0);
                assert(self.entries@.take(i + 1).drop_last() =~= self.entries@.take(i as int));
                assert(self.entries@.take(i + 1).last() == self.entries@[i as int]);
            }
            i += 1;
        }
        proof {
            assert(self.entries@.take(self.entries@.len() as int) =~= self.entries@);
            assert(unique_keys(r@));
        }
        r
    }
}

/// A post whose index a prior entry already covers is never re-surfaced, and
/// the entry stays where it was; a post past the entry is surfaced and the
/// entry rises exactly to that post's index.
pub proof fn lemma_seen_dedup(m: int, p: Post)
    ensures
        p.index <= m ==> emit_filter(Some(m), seq![p]) == Seq::<Post>::empty() && mark_after(
            Some(m),
            seq![p],
        ) == Some(m),
        p.index > m ==> emit_filter(Some(m), seq![p]) == seq![p] && mark_after(Some(m), seq![p])
            == Some(p.index as int),
{
    let s = seq![p];
    assert(s.len() == 1 && s[0] == p);
    assert(s.skip(1) =~= Seq::<Post>::empty());
    assert(emit_filter(Some(m), Seq::<Post>::empty()) == Seq::<Post>::empty());
    assert(mark_after(Some(m), Seq::<Post>::empty()) == Some(m));
    assert(emit_filter(Some(p.index as int), Seq::<Post>::empty()) == Seq::<Post>::empty());
    assert(mark_after(Some(p.index as int), Seq::<Post>::empty()) == Some(p.index as int));
    if p.index > m {
        assert(seq![p] + Seq::<Post>::empty() =~= seq![p]);
    }
}

/// The threads with a nonzero unread count, in listing order.
pub open spec fn unread_filter(threads: Seq<Thread>) -> Seq<Thread>
    decreases threads.len(),
{
    if threads.len() == 0 {
        Seq::empty()
    } else if threads[0].unread > 0 {
        seq![threads[0]] + unread_filter(threads.skip(1))
    } else {
        unread_filter(threads.skip(1))
    }
}

/// The threads of one polling cycle: those with a nonzero unread count, in
/// listing order.
pub fn unread_threads(threads: Vec<Thread>) -> (r: Vec<Thread>)
    ensures
        r@ == unread_filter(threads@),
{
    let ghost orig = threads@;
    let mut rest = threads;
    let mut r: Vec<Thread> = Vec::new();
    proof {
        assert(unread_filter(orig) =~= r@ + unread_filter(rest@));
    }
    while rest.len() > 0
        invariant
            unread_filter(orig) == r@ + unread_filter(rest@),
        decreases rest@.len(),
    {
        let ghost pre = rest@;
        let ghost rprev = r@;
        let t = rest.remove(0);
        proof {
            assert(rest@ =~= pre.skip(1));
        }
        if t.unread > 0 {
            r.push(t);
            proof {
                assert(r@ =~= rprev + seq![pre[0]]);
                assert(rprev + (seq![pre[0]] + unread_filter(rest@)) =~= r@ + unread_filter(
                    rest@,
                ));
            }
        }
    }
    proof {
        assert(unread_filter(rest@) =~= Seq::<Thread>::empty());
        assert(r@ + unread_filter(rest@) =~= r@);
    }
    r
}

/// The delays, in milliseconds, that the driver of a polling run waits
/// between surfaced posts, between polled threads, and between full cycles.
pub struct TailConfig {
    pub post_delay_millis: u64,
    pub thread_delay_millis: u64,
    pub cycle_delay_millis: u64,
}

/// The mathematical state of a [`TailEngine`]: the seen map and the threads
/// still to poll this cycle.
pub struct TailEngineV {
    pub seen: Map<Seq<char>, int>,
    pub pending: Seq<Thread>,
}

/// The tail/polling state machine. One cycle: the driver fetches the
/// bookmarked threads and calls [`Self::begin_cycle`]; then, while
/// [`Self::next_thread`] yields a thread, it fetches that thread's
/// first-unread page and passes the posts to [`Self::process_posts`],
/// displaying what comes back; after the cycle it persists
/// [`Self::seen_entries`]. The engine itself performs no waiting and no
/// transport: it only decides, so a driver can schedule and cancel as it
/// pleases.
pub struct TailEngine {
    /// The configured delays, for the driver's waits.
    pub config: TailConfig,
    seen: SeenState,
    pending: Vec<Thread>,
}

impl View for TailEngine {
    type V = TailEngineV;

    closed spec fn view(&self) -> TailEngineV {
        TailEngineV { seen: self.seen@, pending: self.pending@ }
    }
}

impl TailEngine {
    /// The engine's internal invariant.
    pub closed spec fn wf(&self) -> bool {
        self.seen.wf()
    }

    /// Starts an engine from a loaded seen state; no cycle is in progress.
    pub fn new(config: TailConfig, seen: SeenState) -> (r: TailEngine)
        requires
            seen.wf(),
        ensures
            r.wf(),
            r@.seen == seen@,
            r@.pending == Seq::<Thread>::empty(),
    {
        TailEngine { config, seen, pending: Vec::new() }
    }

    /// Begins a cycle over freshly fetched bookmarked threads: only those
    /// with a nonzero unread count are polled, in listing order. The seen
    /// state carries over unchanged.
    pub fn begin_cycle(&mut self, threads: Vec<Thread>)
        requires
            old(self).wf(),
        ensures
            final(self).wf(),
            final(self)@.seen == old(self)@.seen,
            final(self)@.pending == unread_filter(threads@),
    {
        self.pending = unread_threads(threads);
    }

    /// The next thread to poll this cycle, if any.
    pub fn next_thread(&mut self) -> (r: Option<Thread>)
        requires
            old(self).wf(),
        ensures
            final(self).wf(),
            final(self)@.seen == old(self)@.seen,
            match r {
                None => old(self)@.pending.len() == 0 && final(self)@.pending == old(self)@.pending,
                Some(t) => old(self)@.pending.len() > 0 && t == old(self)@.pending[0]
                    && final(self)@.pending == old(self)@.pending.skip(1),
            },
    {
        if self.pending.len() == 0 {
            return None;
        }
        let t = self.pending.remove(0);
        proof {
            assert(self.pending@ =~= old(self)@.pending.skip(1));
        }
        Some(t)
    }

    /// Filters one polled page of posts against the seen state; see
    /// [`SeenState::process_posts`].
    pub fn process_posts(&mut self, thread_id: &str, posts: Vec<Post>) -> (emitted: Vec<Post>)
        requires
            old(self).wf(),
        ensures
            final(self).wf(),
            final(self)@.pending == old(self)@.pending,
            emitted@ == emit_filter(seen_of(old(self)@.seen, thread_id@), posts@),
            final(self)@.seen == match mark_after(seen_of(old(self)@.seen, thread_id@), posts@) {
                None => old(self)@.seen,
                Some(m) => old(self)@.seen.insert(thread_id@, m),
            },
            forall|k: Seq<char>| old(self)@.seen.contains_key(k)
                ==> final(self)@.seen.contains_key(k) && final(self)@.seen[k] >= old(self)@.seen[k],
    {
        self.seen.process_posts(thread_id, posts)
    }

    /// The seen entries to persist at the end of a cycle.
    pub fn seen_entries(&self) -> (r: Vec<(String, i64)>)
        requires
            self.wf(),
        ensures
            unique_keys(r@),
            entries_map(r@) == self@.seen,
    {
        self.seen.entries()
    }
}

} // verus!
