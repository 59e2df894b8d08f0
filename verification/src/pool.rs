use vstd::prelude::*;

use crate::connection::Connection;
use crate::error::{Error, OpenChannelError};

verus! {

/// No two connections in the sequence are for the same device name.
pub open spec fn unique_names<S>(s: Seq<Connection<S>>) -> bool {
    forall|i: int, j: int|
        0 <= i < j < s.len() ==> (#[trigger] s[i]).device.name@ != (#[trigger] s[j]).device.name@
}

/// The mapping from device name to connection that a sequence of pool
/// entries represents (a later entry for the same name shadows an earlier
/// one; under `unique_names` there is no shadowing).
pub open spec fn map_of<S>(s: Seq<Connection<S>>) -> Map<Seq<char>, Connection<S>>
    decreases s.len(),
{
    if s.len() == 0 {
        Map::empty()
    } else {
        map_of(s.drop_last()).insert(s.last().device.name@, s.last())
    }
}

/// A name is in the map exactly when some entry carries it.
proof fn lemma_map_of_dom<S>(s: Seq<Connection<S>>, n: Seq<char>)
    ensures
        map_of(s).contains_key(n) <==> exists|i: int|
            0 <= i < s.len() && (#[trigger] s[i]).device.name@ == n,
    decreases s.len(),
{
    if s.len() > 0 {
        let dl = s.drop_last();
        lemma_map_of_dom(dl, n);
        if s.last().device.name@ == n {
            assert(s[s.len() - 1].device.name@ == n);
        } else {
            if map_of(s).contains_key(n) {
                let i = choose|i: int| 0 <= i < dl.len() && (#[trigger] dl[i]).device.name@ == n;
                assert(s[i].device.name@ == n);
            }
            if exists|i: int| 0 <= i < s.len() && (#[trigger] s[i]).device.name@ == n {
                let i = choose|i: int| 0 <= i < s.len() && (#[trigger] s[i]).device.name@ == n;
                assert(dl[i].device.name@ == n);
            }
        }
    }
}

/// Without shadowing, each entry is what its name maps to.
proof fn lemma_map_of_index<S>(s: Seq<Connection<S>>, i: int)
    requires
        unique_names(s),
        0 <= i < s.len(),
    ensures
        map_of(s).contains_key(s[i].device.name@),
        map_of(s)[s[i].device.name@] == s[i],
    decreases s.len(),
{
    let dl = s.drop_last();
    if i < s.len() - 1 {
        assert(unique_names(dl));
        lemma_map_of_index(dl, i);
        assert(s[i].device.name@ != s[s.len() - 1].device.name@);
        assert(dl[i] == s[i]);
    }
}

/// Removing the unique entry for a name removes exactly that name.
proof fn lemma_map_of_remove<S>(s: Seq<Connection<S>>, i: int)
    requires
        unique_names(s),
        0 <= i < s.len(),
    ensures
        map_of(s.remove(i)) == map_of(s).remove(s[i].device.name@),
    decreases s.len(),
{
    let n_i = s[i].device.name@;
    let dl = s.drop_last();
    if i == s.len() - 1 {
        assert(s.remove(i) =~= dl);
        lemma_map_of_dom(dl, n_i);
        if map_of(dl).contains_key(n_i) {
            let j = choose|j: int| 0 <= j < dl.len() && (#[trigger] dl[j]).device.name@ == n_i;
            assert(s[j].device.name@ == s[s.len() - 1].device.name@);
            assert(false);
        }
        assert(map_of(s).remove(n_i) =~= map_of(dl));
    } else {
        assert(unique_names(dl));
        lemma_map_of_remove(dl, i);
        let r = s.remove(i);
        assert(r.drop_last() =~= dl.remove(i));
        assert(r.last() == s.last());
        assert(dl[i] == s[i]);
        assert(n_i != s.last().device.name@);
        assert(map_of(r) == map_of(dl).remove(n_i).insert(s.last().device.name@, s.last()));
        assert(map_of(dl).remove(n_i).insert(s.last().device.name@, s.last()) =~= map_of(
            dl,
        ).insert(s.last().device.name@, s.last()).remove(n_i));
    }
}

/// Dropping one entry keeps the remaining names pairwise distinct.
proof fn lemma_unique_names_remove<S>(s: Seq<Connection<S>>, i: int)
    requires
        unique_names(s),
        0 <= i < s.len(),
    ensures
        unique_names(s.remove(i)),
{
    let r = s.remove(i);
    assert forall|a: int, b: int| 0 <= a < b < r.len() implies (#[trigger] r[a]).device.name@ != (
    #[trigger] r[b]).device.name@ by {
        let a2: int = if a < i {
            a
        } else {
            a + 1
        };
        let b2: int = if b < i {
            b
        } else {
            b + 1
        };
        assert(r[a] == s[a2]);
        assert(r[b] == s[b2]);
    }
}

/// The process-wide table of live connections: a mapping from device name
/// to the one connection for that device. Entries are created on a miss by
/// the caller (establishing the session is the transport's work) and
/// evicted when their session is presumed dead.
pub struct Pool<S> {
    entries: Vec<Connection<S>>,
}

impl<S> View for Pool<S> {
    type V = Map<Seq<char>, Connection<S>>;

    open spec fn view(&self) -> Map<Seq<char>, Connection<S>> {
        map_of(self.entries_spec())
    }
}

impl<S> Pool<S> {
    /// The pool's entries, in insertion order.
    pub closed spec fn entries_spec(&self) -> Seq<Connection<S>> {
        self.entries@
    }

    /// The pool invariant: at most one connection per device name. Every
    /// operation preserves it.
    pub open spec fn wf(&self) -> bool {
        unique_names(self.entries_spec())
    }

    /// An empty pool.
    pub fn new() -> (p: Pool<S>)
        ensures
            p.wf(),
            p@ == Map::<Seq<char>, Connection<S>>::empty(),
    {
        Pool { entries: Vec::new() }
    }

    /// Looks up the live connection for a device name, if one is pooled.
    pub fn get(&self, name: &String) -> (r: Option<&Connection<S>>)
        requires
            self.wf(),
        ensures
            match r {
                Some(c) => self@.contains_key(name@) && *c == self@[name@],
                None => !self@.contains_key(name@),
            },
    {
        let mut i: usize = 0;
        while i < self.entries.len()
            invariant
                self.wf(),
                i <= self.entries@.len(),
                forall|j: int| 0 <= j < i ==> (#[trigger] self.entries@[j]).device.name@ != name@,
            decreases self.entries@.len() - i,
        {
            if self.entries[i].device.name == *name {
                proof {
                    lemma_map_of_index(self.entries@, i as int);
                }
                return Some(&self.entries[i]);
            }
            i += 1;
        }
        proof {
            lemma_map_of_dom(self.entries@, name@);
        }
        None
    }

    /// Removes the entry for `name` if one is present; idempotent, and safe
    /// to call when the entry was already replaced or never existed.
    pub fn evict(&mut self, name: &String)
        requires
            old(self).wf(),
        ensures
            final(self).wf(),
            final(self)@ == old(self)@.remove(name@),
    {
        let mut i: usize = 0;
        let n = self.entries.len();
        while i < n
            invariant
                i <= n,
                n == self.entries@.len(),
                *self == *old(self),
                old(self).wf(),
                forall|j: int| 0 <= j < i ==> (#[trigger] self.entries@[j]).device.name@ != name@,
            decreases n - i,
        {
            if self.entries[i].device.name == *name {
                proof {
                    lemma_map_of_remove(self.entries@, i as int);
                    lemma_unique_names_remove(self.entries@, i as int);
                }
                self.entries.remove(i);
                return ;
            }
            i += 1;
        }
        proof {
            lemma_map_of_dom(self.entries@, name@);
            assert(old(self)@.remove(name@) =~= self@);
        }
    }

    /// Inserts the connection for its device name, replacing any entry the
    /// name already had.
    pub fn insert(&mut self, conn: Connection<S>)
        requires
            old(self).wf(),
        ensures
            final(self).wf(),
            final(self)@ == old(self)@.insert(conn.device.name@, conn),
    {
        self.evict(&conn.device.name);
        let ghost evicted = self.entries@;
        let ghost name = conn.device.name@;
        self.entries.push(conn);
        proof {
            assert(self.entries@.drop_last() =~= evicted);
            lemma_map_of_dom(evicted, name);
            assert(forall|j: int|
                0 <= j < evicted.len() ==> (#[trigger] evicted[j]).device.name@ != name);
            assert(unique_names(self.entries@));
            assert(map_of(self.entries@) =~= old(self)@.insert(name, conn));
        }
    }

    /// A channel-open failed on this device's connection: the connection is
    /// no longer trusted for new channels, so its entry is evicted either
    /// way, and the failure is classified — a refusal becomes the
    /// distinguished reconnect signal telling the caller to acquire a fresh
    /// session from the pool, while any other transport error propagates
    /// unchanged.
    pub fn handle_open_failure(&mut self, name: &String, failure: OpenChannelError) -> (r: Error)
        requires
            old(self).wf(),
        ensures
            final(self).wf(),
            final(self)@ == old(self)@.remove(name@),
            !final(self)@.contains_key(name@),
            failure is Refused ==> r.kind is Reconnect,
            failure matches OpenChannelError::Transport(e) ==> r == e,
    {
        self.evict(name);
        match failure {
            OpenChannelError::Refused => Error::reconnect(),
            OpenChannelError::Transport(e) => e,
        }
    }
}

/// At most one connection exists per device name: two pool slots holding a
/// connection for the same device are the same slot.
pub proof fn lemma_at_most_one_connection_per_device<S>(pool: &Pool<S>, i: int, j: int)
    requires
        pool.wf(),
        0 <= i < pool.entries_spec().len(),
        0 <= j < pool.entries_spec().len(),
        pool.entries_spec()[i].device.name@ == pool.entries_spec()[j].device.name@,
    ensures
        i == j,
{
}

} // verus!
