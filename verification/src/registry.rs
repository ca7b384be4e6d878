use vstd::prelude::*;
use vstd::pervasive::VecAdditionalExecFns;

verus! {

/// The process-wide directory of opened resource instances: each entry
/// maps a resource name to the number of live attachments holding that
/// instance. An entry exists exactly while its count is positive, so the
/// directory's domain is the set of names whose instance is open.
pub struct Registry {
    entries: Vec<(String, usize)>,
}

/// A scoped claim on one shared resource instance: handed out by an
/// attach, surrendered exactly once by `Registry::release`, which closes
/// the instance when the claim was the last one. The token cannot be
/// duplicated, so each attachment is released at most once.
pub struct AttachmentGuard {
    name: String,
}

impl View for AttachmentGuard {
    type V = Seq<char>;

    closed spec fn view(&self) -> Seq<char> {
        self.name@
    }
}

impl AttachmentGuard {
    /// The name of the resource this guard is attached to.
    pub fn name(&self) -> (r: &String)
        ensures
            r@ == self@,
    {
        &self.name
    }
}

/// The finite map an entry list denotes: each name to its count, later
/// entries shadowing earlier ones (well-formed lists have no shadowing).
pub closed spec fn entries_map(s: Seq<(String, usize)>) -> Map<Seq<char>, usize>
    decreases s.len(),
{
    if s.len() == 0 {
        Map::empty()
    } else {
        entries_map(s.drop_last()).insert(s.last().0@, s.last().1)
    }
}

/// No two entries carry the same name, and every count is positive.
spec fn entries_wf(s: Seq<(String, usize)>) -> bool {
    (forall|i: int, j: int| 0 <= i < j < s.len() ==> s[i].0@ != s[j].0@) && (forall|i: int|
        0 <= i < s.len() ==> #[trigger] s[i].1 >= 1)
}

proof fn lemma_entries_map_contains(s: Seq<(String, usize)>, k: Seq<char>)
    ensures
        entries_map(s).contains_key(k) <==> exists|i: int| 0 <= i < s.len() && s[i].0@ == k,
    decreases s.len(),
{
    if s.len() > 0 {
        lemma_entries_map_contains(s.drop_last(), k);
        if s.last().0@ == k {
            assert(s[s.len() - 1].0@ == k);
        } else {
            if exists|i: int| 0 <= i < s.len() && s[i].0@ == k {
                let i = choose|i: int| 0 <= i < s.len() && s[i].0@ == k;
                assert(0 <= i < s.len() - 1 && s.drop_last()[i].0@ == k);
            }
        }
    }
}

proof fn lemma_entries_map_index(s: Seq<(String, usize)>, i: int)
    requires
        entries_wf(s),
        0 <= i < s.len(),
    ensures
        entries_map(s).contains_key(s[i].0@),
        entries_map(s)[s[i].0@] == s[i].1,
    decreases s.len(),
{
    lemma_entries_map_contains(s, s[i].0@);
    if i == s.len() - 1 {
    } else {
        assert(s[i].0@ != s.last().0@);
        assert(s.drop_last()[i] == s[i]);
        lemma_entries_map_index(s.drop_last(), i);
    }
}

proof fn lemma_entries_map_update(s: Seq<(String, usize)>, i: int, x: (String, usize))
    requires
        entries_wf(s),
        0 <= i < s.len(),
        x.0@ == s[i].0@,
    ensures
        entries_map(s.update(i, x)) == entries_map(s).insert(x.0@, x.1),
    decreases s.len(),
{
    let t = s.update(i, x);
    if i == s.len() - 1 {
        assert(t.drop_last() =~= s.drop_last());
        assert(t.last() == x);
        assert(entries_map(s.drop_last()).insert(s.last().0@, s.last().1).insert(x.0@, x.1)
            =~= entries_map(s.drop_last()).insert(x.0@, x.1));
    } else {
        assert(t.drop_last() =~= s.drop_last().update(i, x));
        assert(t.last() == s.last());
        lemma_entries_map_update(s.drop_last(), i, x);
        assert(x.0@ != s.last().0@);
        assert(entries_map(s.drop_last()).insert(x.0@, x.1).insert(s.last().0@, s.last().1)
            =~= entries_map(s.drop_last()).insert(s.last().0@, s.last().1).insert(x.0@, x.1));
    }
}

proof fn lemma_entries_map_remove(s: Seq<(String, usize)>, i: int)
    requires
        entries_wf(s),
        0 <= i < s.len(),
    ensures
        entries_map(s.remove(i)) == entries_map(s).remove(s[i].0@),
    decreases s.len(),
{
    let k = s[i].0@;
    if i == s.len() - 1 {
        assert(s.remove(i) =~= s.drop_last());
        lemma_entries_map_contains(s.drop_last(), k);
        assert(forall|j: int| 0 <= j < s.len() - 1 ==> s.drop_last()[j].0@ != k);
        assert(!entries_map(s.drop_last()).contains_key(k));
        assert(entries_map(s.drop_last()).insert(k, s.last().1).remove(k) =~= entries_map(
            s.drop_last(),
        ));
    } else {
        let t = s.remove(i);
        assert(t.drop_last() =~= s.drop_last().remove(i));
        assert(t.last() == s.last());
        lemma_entries_map_remove(s.drop_last(), i);
        assert(k != s.last().0@);
        assert(entries_map(s.drop_last()).remove(k).insert(s.last().0@, s.last().1)
            =~= entries_map(s.drop_last()).insert(s.last().0@, s.last().1).remove(k));
    }
}

proof fn lemma_entries_map_push(s: Seq<(String, usize)>, x: (String, usize))
    ensures
        entries_map(s.push(x)) == entries_map(s).insert(x.0@, x.1),
{
    assert(s.push(x).drop_last() =~= s);
    assert(s.push(x).last() == x);
}

impl View for Registry {
    type V = Map<Seq<char>, usize>;

    closed spec fn view(&self) -> Map<Seq<char>, usize> {
        entries_map(self.entries@)
    }
}

impl Registry {
    /// Every name in the directory has a positive attachment count and
    /// appears once in the underlying list.
    pub closed spec fn wf(self) -> bool {
        entries_wf(self.entries@)
    }

    /// An empty directory: no resource is open.
    pub fn new() -> (r: Registry)
        ensures
            r@ == Map::<Seq<char>, usize>::empty(),
            r.wf(),
    {
        Registry { entries: Vec::new() }
    }

    /// The index of the entry carrying the name, if one exists.
    fn find(&self, name: &String) -> (r: Option<usize>)
        ensures
            match r {
                Some(i) => i < self.entries@.len() && self.entries@[i as int].0@ == name@,
                None => forall|i: int|
                    0 <= i < self.entries@.len() ==> self.entries@[i].0@ != name@,
            },
    {
        let mut i: usize = 0;
        while i < self.entries.len()
            invariant
                i <= self.entries@.len(),
                forall|j: int| 0 <= j < i ==> self.entries@[j].0@ != name@,
            decreases self.entries@.len() - i,
        {
            if self.entries[i].0 == *name {
                return Some(i);
            }
            i = i + 1;
        }
        None
    }

    /// Whether any attachment currently holds the named resource open.
    pub fn is_attached(&self, name: &String) -> (b: bool)
        ensures
            b == self@.contains_key(name@),
    {
        proof {
            lemma_entries_map_contains(self.entries@, name@);
        }
        match self.find(name) {
            Some(_) => true,
            None => false,
        }
    }

    /// The number of live attachments on the named resource; zero when it
    /// is not open.
    pub fn attachment_count(&self, name: &String) -> (n: usize)
        requires
            self.wf(),
        ensures
            n == spec_attachment_count(self@, name@),
    {
        proof {
            lemma_entries_map_contains(self.entries@, name@);
        }
        match self.find(name) {
            Some(i) => {
                proof {
                    lemma_entries_map_index(self.entries@, i as int);
                }
                self.entries[i].1
            },
            None => 0,
        }
    }

    /// Attach to the named resource when some connection already holds it
    /// open: the existing instance gains one more attachment and no new
    /// open happens. When no instance is open, nothing changes and the
    /// caller must open the resource first and then record it with
    /// `attach_opened`.
    pub fn attach_existing(&mut self, name: &String) -> (r: Option<AttachmentGuard>)
        requires
            old(self).wf(),
            old(self)@.contains_key(name@) ==> old(self)@[name@] < usize::MAX,
        ensures
            final(self).wf(),
            old(self)@.contains_key(name@) ==> (r matches Some(g) && g@ == name@) && final(self)@
                == old(self)@.insert(name@, (old(self)@[name@] + 1) as usize),
            !old(self)@.contains_key(name@) ==> r == None::<AttachmentGuard>
                && final(self)@ == old(self)@,
            abs_counts(final(self)@) == spec_attach_step(abs_counts(old(self)@), name@)
                || final(self)@ == old(self)@,
    {
        proof {
            lemma_entries_map_contains(self.entries@, name@);
        }
        match self.find(name) {
            Some(i) => {
                proof {
                    lemma_entries_map_index(self.entries@, i as int);
                }
                let c = self.entries[i].1;
                let nm = self.entries[i].0.clone();
                let ghost s0 = self.entries@;
                self.entries.set(i, (nm, c + 1));
                proof {
                    lemma_entries_map_update(s0, i as int, (nm, (c + 1) as usize));
                    assert(entries_wf(self.entries@)) by {
                        assert(forall|j: int|
                            0 <= j < self.entries@.len() && j != i ==> self.entries@[j]
                                == s0[j]);
                    }
                    lemma_abs_insert(old(self)@, name@, (c + 1) as usize);
                }
                Some(AttachmentGuard { name: name.clone() })
            },
            None => None,
        }
    }

    /// Record a freshly opened resource instance: the name gains its
    /// first attachment. Legal only while no instance is open under the
    /// name; `attach_existing` answers that question atomically with the
    /// insertion, under the one registry lock.
    pub fn attach_opened(&mut self, name: String) -> (g: AttachmentGuard)
        requires
            old(self).wf(),
            !old(self)@.contains_key(name@),
        ensures
            final(self).wf(),
            g@ == name@,
            final(self)@ == old(self)@.insert(name@, 1usize),
            abs_counts(final(self)@) == spec_attach_step(abs_counts(old(self)@), name@),
    {
        let g = AttachmentGuard { name: name.clone() };
        let ghost s0 = self.entries@;
        self.entries.push((name, 1));
        proof {
            lemma_entries_map_push(s0, self.entries@.last());
            lemma_entries_map_contains(s0, self.entries@.last().0@);
            assert(forall|j: int| 0 <= j < s0.len() ==> self.entries@[j] == s0[j]);
            assert(entries_wf(self.entries@));
            lemma_abs_insert(old(self)@, self.entries@.last().0@, 1usize);
        }
        g
    }

    /// Surrender one attachment. The guard is consumed, so no attachment
    /// is surrendered twice. When it was the last attachment on its name,
    /// the entry leaves the directory and the name comes back: the caller
    /// must then close the underlying instance, before any other
    /// connection can observe the registry without the entry.
    pub fn release(&mut self, g: AttachmentGuard) -> (r: Option<String>)
        requires
            old(self).wf(),
        ensures
            final(self).wf(),
            !old(self)@.contains_key(g@) ==> r == None::<String> && final(self)@ == old(self)@,
            old(self)@.contains_key(g@) && old(self)@[g@] > 1 ==> r == None::<String>
                && final(self)@ == old(self)@.insert(g@, (old(self)@[g@] - 1) as usize),
            old(self)@.contains_key(g@) && old(self)@[g@] <= 1 ==> (r matches Some(n) && n@ == g@)
                && final(self)@ == old(self)@.remove(g@),
            abs_counts(final(self)@) == spec_release_step(abs_counts(old(self)@), g@),
            release_result(old(self)@, final(self)@, g@),
            (r is Some) == release_closes_now(old(self)@, g@),
            (r is Some) == release_closes(abs_counts(old(self)@), g@),
    {
        let AttachmentGuard { name } = g;
        proof {
            lemma_entries_map_contains(self.entries@, name@);
        }
        match self.find(&name) {
            None => {
                proof {
                    lemma_abs_absent(self@, name@);
                }
                None
            },
            Some(i) => {
                proof {
                    lemma_entries_map_index(self.entries@, i as int);
                }
                let c = self.entries[i].1;
                if c > 1 {
                    let nm = self.entries[i].0.clone();
                    let ghost s0 = self.entries@;
                    self.entries.set(i, (nm, c - 1));
                    proof {
                        lemma_entries_map_update(s0, i as int, (nm, (c - 1) as usize));
                        assert(entries_wf(self.entries@)) by {
                            assert(forall|j: int|
                                0 <= j < self.entries@.len() && j != i ==> self.entries@[j]
                                    == s0[j]);
                        }
                        lemma_abs_insert(old(self)@, name@, (c - 1) as usize);
                    }
                    None
                } else {
                    let ghost s0 = self.entries@;
                    let _removed = self.entries.remove(i);
                    proof {
                        lemma_entries_map_remove(s0, i as int);
                        assert(entries_wf(self.entries@)) by {
                            assert(forall|j: int|
                                0 <= j < self.entries@.len() ==> (if j < i {
                                    self.entries@[j] == s0[j]
                                } else {
                                    self.entries@[j] == s0[j + 1]
                                }));
                        }
                        lemma_abs_remove(old(self)@, name@);
                    }
                    Some(name)
                }
            },
        }
    }
}

/// The number of live attachments a directory records for a name; zero
/// when the name is not held.
pub open spec fn spec_attachment_count(m: Map<Seq<char>, usize>, n: Seq<char>) -> usize {
    if m.contains_key(n) {
        m[n]
    } else {
        0
    }
}

impl Registry {
    /// The busy law: a well-formed directory holds a name exactly while
    /// its attachment count is positive, so a drop request is refused as
    /// busy precisely when `attachment_count` reports more than zero.
    pub proof fn lemma_attached_iff_positive(self, n: Seq<char>)
        requires
            self.wf(),
        ensures
            self@.contains_key(n) <==> spec_attachment_count(self@, n) >= 1,
    {
        lemma_entries_map_contains(self.entries@, n);
        if self@.contains_key(n) {
            let i = choose|i: int| 0 <= i < self.entries@.len() && self.entries@[i].0@ == n;
            lemma_entries_map_index(self.entries@, i);
        }
    }
}

/// The attachment counts as unbounded numbers, the form the registry laws
/// speak of.
pub open spec fn abs_counts(m: Map<Seq<char>, usize>) -> Map<Seq<char>, nat> {
    m.map_values(|c: usize| c as nat)
}

/// One attach step on a name: join the open instance, or open the first.
pub open spec fn spec_attach_step(m: Map<Seq<char>, nat>, n: Seq<char>) -> Map<Seq<char>, nat> {
    if m.contains_key(n) {
        m.insert(n, m[n] + 1)
    } else {
        m.insert(n, 1nat)
    }
}

/// One release step on a name: drop an attachment, removing the entry
/// when it was the last.
pub open spec fn spec_release_step(m: Map<Seq<char>, nat>, n: Seq<char>) -> Map<Seq<char>, nat> {
    if m.contains_key(n) {
        if m[n] <= 1 {
            m.remove(n)
        } else {
            m.insert(n, (m[n] - 1) as nat)
        }
    } else {
        m
    }
}

/// Whether an attach step on this state opens the underlying resource.
pub open spec fn attach_opens(m: Map<Seq<char>, nat>, n: Seq<char>) -> bool {
    !m.contains_key(n)
}

/// How one release step changes the registry, stated over the exact
/// machine-word counts the registry holds.
pub open spec fn release_result(
    r0: Map<Seq<char>, usize>,
    r1: Map<Seq<char>, usize>,
    n: Seq<char>,
) -> bool {
    if r0.contains_key(n) {
        if r0[n] <= 1 {
            r1 == r0.remove(n)
        } else {
            r1 == r0.insert(n, (r0[n] - 1) as usize)
        }
    } else {
        r1 == r0
    }
}

/// Whether a release on this registry drops the last attachment, so that
/// the underlying instance must be closed.
pub open spec fn release_closes_now(r0: Map<Seq<char>, usize>, n: Seq<char>) -> bool {
    r0.contains_key(n) && r0[n] <= 1
}

/// Whether a release step on this state closes the underlying resource.
pub open spec fn release_closes(m: Map<Seq<char>, nat>, n: Seq<char>) -> bool {
    m.contains_key(n) && m[n] <= 1
}

proof fn lemma_abs_insert(m: Map<Seq<char>, usize>, k: Seq<char>, v: usize)
    ensures
        abs_counts(m.insert(k, v)) == abs_counts(m).insert(k, v as nat),
{
    assert(abs_counts(m.insert(k, v)) =~= abs_counts(m).insert(k, v as nat));
}

proof fn lemma_abs_remove(m: Map<Seq<char>, usize>, k: Seq<char>)
    ensures
        abs_counts(m.remove(k)) == abs_counts(m).remove(k),
{
    assert(abs_counts(m.remove(k)) =~= abs_counts(m).remove(k));
}

proof fn lemma_abs_absent(m: Map<Seq<char>, usize>, k: Seq<char>)
    ensures
        abs_counts(m).contains_key(k) == m.contains_key(k),
        m.contains_key(k) ==> abs_counts(m)[k] == m[k] as nat,
        !m.contains_key(k) ==> abs_counts(m) == spec_release_step(abs_counts(m), k),
{
}

/// One step in a history of registry operations.
pub ghost enum RegistryOp {
    /// A connection attaches to the name.
    Attach(Seq<char>),
    /// A connection releases its attachment on the name.
    Release(Seq<char>),
}

/// The registry state one operation leaves behind.
pub open spec fn apply_op(m: Map<Seq<char>, nat>, op: RegistryOp) -> Map<Seq<char>, nat> {
    match op {
        RegistryOp::Attach(n) => spec_attach_step(m, n),
        RegistryOp::Release(n) => spec_release_step(m, n),
    }
}

/// The registry state a whole history leaves behind.
pub open spec fn run_ops(m: Map<Seq<char>, nat>, ops: Seq<RegistryOp>) -> Map<Seq<char>, nat>
    decreases ops.len(),
{
    if ops.len() == 0 {
        m
    } else {
        apply_op(run_ops(m, ops.drop_last()), ops.last())
    }
}

/// How many steps of the history opened the underlying resource under
/// this name: the attaches that found no instance open.
pub open spec fn opens_count(m: Map<Seq<char>, nat>, ops: Seq<RegistryOp>, n: Seq<char>) -> nat
    decreases ops.len(),
{
    if ops.len() == 0 {
        0nat
    } else {
        opens_count(m, ops.drop_last(), n) + (if ops.last() == RegistryOp::Attach(n)
            && attach_opens(run_ops(m, ops.drop_last()), n) {
            1nat
        } else {
            0nat
        })
    }
}

/// How many steps of the history closed the underlying resource under
/// this name: the releases that dropped the last attachment.
pub open spec fn closes_count(m: Map<Seq<char>, nat>, ops: Seq<RegistryOp>, n: Seq<char>) -> nat
    decreases ops.len(),
{
    if ops.len() == 0 {
        0nat
    } else {
        closes_count(m, ops.drop_last(), n) + (if ops.last() == RegistryOp::Release(n)
            && release_closes(run_ops(m, ops.drop_last()), n) {
            1nat
        } else {
            0nat
        })
    }
}

/// Every open instance has at least one attachment.
pub open spec fn counts_positive(m: Map<Seq<char>, nat>) -> bool {
    forall|k: Seq<char>| #[trigger] m.contains_key(k) ==> m[k] >= 1
}

proof fn lemma_run_counts_positive(m: Map<Seq<char>, nat>, ops: Seq<RegistryOp>)
    requires
        counts_positive(m),
    ensures
        counts_positive(run_ops(m, ops)),
    decreases ops.len(),
{
    if ops.len() > 0 {
        lemma_run_counts_positive(m, ops.drop_last());
    }
}

/// The open/close law: starting from an empty registry, after any history
/// of attach and release steps, the opens of a name outnumber its closes
/// by exactly one while some attachment remains, and match them exactly
/// once none remains. So the underlying resource is open at most once
/// while any guard is live, and is closed exactly once, at the release
/// that drops the last attachment.
pub proof fn lemma_open_close_discipline(ops: Seq<RegistryOp>, n: Seq<char>)
    ensures
        opens_count(Map::empty(), ops, n) == closes_count(Map::empty(), ops, n) + (if run_ops(
            Map::empty(),
            ops,
        ).contains_key(n) {
            1nat
        } else {
            0nat
        }),
    decreases ops.len(),
{
    let e = Map::<Seq<char>, nat>::empty();
    if ops.len() == 0 {
        assert(!run_ops(e, ops).contains_key(n));
    } else {
        lemma_open_close_discipline(ops.drop_last(), n);
        lemma_run_counts_positive(e, ops.drop_last());
        let prev = run_ops(e, ops.drop_last());
        match ops.last() {
            RegistryOp::Attach(k) => {
                if k == n {
                    if prev.contains_key(n) {
                        assert(run_ops(e, ops) == prev.insert(n, prev[n] + 1));
                    }
                }
            },
            RegistryOp::Release(k) => {
                if k == n && prev.contains_key(n) && prev[n] > 1 {
                    assert(run_ops(e, ops) == prev.insert(n, (prev[n] - 1) as nat));
                }
            },
        }
    }
}

/// The concurrent-attach law: a history of some number of attaches to one
/// name, with no release yet, leaves the attachment count equal to that
/// number after a single underlying open and no close.
pub proof fn lemma_repeated_attach(count: nat, n: Seq<char>)
    requires
        count >= 1,
    ensures
        ({
            let ops = Seq::new(count, |i: int| RegistryOp::Attach(n));
            let m = run_ops(Map::empty(), ops);
            &&& m.contains_key(n)
            &&& m[n] == count
            &&& opens_count(Map::empty(), ops, n) == 1
            &&& closes_count(Map::empty(), ops, n) == 0
        }),
    decreases count,
{
    let ops = Seq::new(count, |i: int| RegistryOp::Attach(n));
    let e = Map::<Seq<char>, nat>::empty();
    assert(ops.len() == count);
    assert(ops.last() == RegistryOp::Attach(n));
    if count == 1 {
        assert(ops.drop_last() =~= Seq::<RegistryOp>::empty());
        assert(run_ops(e, ops.drop_last()) == e);
        assert(!e.contains_key(n));
        assert(run_ops(e, ops) == spec_attach_step(e, n));
        assert(spec_attach_step(e, n) == e.insert(n, 1nat));
        assert(opens_count(e, ops, n) == opens_count(e, ops.drop_last(), n) + 1);
        assert(opens_count(e, ops.drop_last(), n) == 0);
        assert(closes_count(e, ops, n) == closes_count(e, ops.drop_last(), n));
        assert(closes_count(e, ops.drop_last(), n) == 0);
    } else {
        lemma_repeated_attach((count - 1) as nat, n);
        let prefix = Seq::new((count - 1) as nat, |i: int| RegistryOp::Attach(n));
        assert(ops.drop_last() =~= prefix);
        assert(ops.last() == RegistryOp::Attach(n));
        let prev = run_ops(e, prefix);
        assert(run_ops(e, ops) == spec_attach_step(prev, n));
        assert(prev.contains_key(n));
        assert(!attach_opens(prev, n));
        assert(opens_count(e, ops, n) == opens_count(e, prefix, n));
        assert(closes_count(e, ops, n) == closes_count(e, prefix, n));
    }
}

} // verus!
