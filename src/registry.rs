//! The table from an implementer's name to its decode routine.
use vstd::prelude::*;

verus! {

/// `a` sorts strictly before `b`, comparing characters by code point.
pub open spec fn name_lt(a: Seq<char>, b: Seq<char>) -> bool
    decreases a.len(),
{
    if b.len() == 0 {
        false
    } else if a.len() == 0 {
        true
    } else if a[0] != b[0] {
        (a[0] as int) < (b[0] as int)
    } else {
        name_lt(a.drop_first(), b.drop_first())
    }
}

pub proof fn lemma_name_lt_irreflexive(a: Seq<char>)
    ensures
        !name_lt(a, a),
    decreases a.len(),
{
    if a.len() > 0 {
        lemma_name_lt_irreflexive(a.drop_first());
    }
}

pub proof fn lemma_name_lt_transitive(a: Seq<char>, b: Seq<char>, c: Seq<char>)
    requires
        name_lt(a, b),
        name_lt(b, c),
    ensures
        name_lt(a, c),
    decreases a.len(),
{
    if a.len() > 0 && a[0] == b[0] && b[0] == c[0] {
        lemma_name_lt_transitive(a.drop_first(), b.drop_first(), c.drop_first());
    }
}

pub proof fn lemma_name_lt_total(a: Seq<char>, b: Seq<char>)
    requires
        a != b,
    ensures
        name_lt(a, b) || name_lt(b, a),
    decreases a.len(),
{
    if a.len() > 0 && b.len() > 0 && a[0] == b[0] {
        if a.drop_first() == b.drop_first() {
            assert(a =~= seq![a[0]] + a.drop_first());
            assert(b =~= seq![b[0]] + b.drop_first());
        }
        lemma_name_lt_total(a.drop_first(), b.drop_first());
    } else if a.len() == 0 && b.len() == 0 {
        assert(a =~= b);
    } else if a.len() > 0 && b.len() > 0 {
        assert((a[0] as int) != (b[0] as int));
    }
}

/// Compares two names: -1 when `a` sorts first, 0 when they are equal,
/// 1 when `b` sorts first.
pub fn compare_names(a: &str, b: &str) -> (r: i8)
    ensures
        r == -1 <==> name_lt(a@, b@),
        r == 0 <==> a@ == b@,
        r == 1 <==> name_lt(b@, a@),
        -1 <= r <= 1,
{
    let la = a.unicode_len();
    let lb = b.unicode_len();
    let mut i: usize = 0;
    assert(a@.skip(0) =~= a@);
    assert(b@.skip(0) =~= b@);
    while i < la && i < lb
        invariant
            la == a@.len(),
            lb == b@.len(),
            i <= la,
            i <= lb,
            a@.subrange(0, i as int) == b@.subrange(0, i as int),
            name_lt(a@, b@) == name_lt(a@.skip(i as int), b@.skip(i as int)),
            name_lt(b@, a@) == name_lt(b@.skip(i as int), a@.skip(i as int)),
        decreases la - i,
    {
        let ca = a.get_char(i);
        let cb = b.get_char(i);
        assert(a@.skip(i as int)[0] == ca);
        assert(b@.skip(i as int)[0] == cb);
        if ca != cb {
            proof {
                lemma_name_lt_irreflexive(a@);
                if a@ == b@ {
                    assert(a@[i as int] == b@[i as int]);
                }
            }
            if (ca as u32) < (cb as u32) {
                return -1;
            } else {
                return 1;
            }
        }
        assert(a@.skip(i as int).drop_first() =~= a@.skip(i + 1));
        assert(b@.skip(i as int).drop_first() =~= b@.skip(i + 1));
        assert(a@.subrange(0, i + 1) =~= a@.subrange(0, i as int).push(ca));
        assert(b@.subrange(0, i + 1) =~= b@.subrange(0, i as int).push(cb));
        i = i + 1;
    }
    if la == lb {
        assert(a@ =~= a@.subrange(0, i as int));
        assert(b@ =~= b@.subrange(0, i as int));
        proof {
            lemma_name_lt_irreflexive(a@);
        }
        0
    } else if la < lb {
        assert(a@.skip(i as int).len() == 0);
        -1
    } else {
        assert(b@.skip(i as int).len() == 0);
        -1 + 2
    }
}


/// What one registration does to the table: a first registration of a name
/// maps it to its routine, a second one marks the name as ambiguous.
pub open spec fn register_step<F>(m: Map<Seq<char>, Option<F>>, name: Seq<char>, f: F) -> Map<
    Seq<char>,
    Option<F>,
> {
    if m.contains_key(name) {
        m.insert(name, None)
    } else {
        m.insert(name, Some(f))
    }
}

/// The table that a sequence of registrations builds, in any order.
pub open spec fn table_of<F>(regs: Seq<(Seq<char>, F)>) -> Map<Seq<char>, Option<F>>
    decreases regs.len(),
{
    if regs.len() == 0 {
        Map::empty()
    } else {
        register_step(table_of(regs.drop_last()), regs.last().0, regs.last().1)
    }
}

/// The names and routines of a list of registrations.
pub open spec fn registrations_view<F>(regs: Seq<(String, F)>) -> Seq<(Seq<char>, F)> {
    regs.map_values(|r: (String, F)| (r.0@, r.1))
}

/// Once a name has been registered twice, later registrations leave it
/// ambiguous.
pub proof fn lemma_ambiguous_stays<F>(regs: Seq<(Seq<char>, F)>, name: Seq<char>, k: int)
    requires
        0 <= k <= regs.len(),
        table_of(regs.take(k)).contains_key(name),
        table_of(regs.take(k))[name] is None,
    ensures
        table_of(regs).contains_key(name),
        table_of(regs)[name] is None,
    decreases regs.len() - k,
{
    if k < regs.len() {
        assert(regs.take(k + 1).drop_last() =~= regs.take(k));
        lemma_ambiguous_stays(regs, name, k + 1);
    } else {
        assert(regs.take(k) =~= regs);
    }
}

/// A name that has been registered at least once stays in the table.
pub proof fn lemma_registered_stays<F>(regs: Seq<(Seq<char>, F)>, name: Seq<char>, k: int)
    requires
        0 <= k <= regs.len(),
        table_of(regs.take(k)).contains_key(name),
    ensures
        table_of(regs).contains_key(name),
    decreases regs.len() - k,
{
    if k < regs.len() {
        assert(regs.take(k + 1).drop_last() =~= regs.take(k));
        lemma_registered_stays(regs, name, k + 1);
    } else {
        assert(regs.take(k) =~= regs);
    }
}

/// Two registrations of one name leave that name ambiguous in the table,
/// whatever else is registered and in whatever order.
pub proof fn lemma_two_registrations_ambiguous<F>(regs: Seq<(Seq<char>, F)>, i: int, j: int)
    requires
        0 <= i < j < regs.len(),
        regs[i].0 == regs[j].0,
    ensures
        table_of(regs).contains_key(regs[i].0),
        table_of(regs)[regs[i].0] is None,
{
    let name = regs[i].0;
    assert(regs.take(i + 1).drop_last() =~= regs.take(i));
    lemma_registered_stays(regs.take(j), name, i + 1);
    assert(regs.take(j).take(i + 1) =~= regs.take(i + 1));
    assert(regs.take(j + 1).drop_last() =~= regs.take(j));
    lemma_ambiguous_stays(regs, name, j + 1);
}

proof fn lemma_steps_commute<F>(m: Map<Seq<char>, Option<F>>, a: Seq<char>, f: F, b: Seq<char>, g: F)
    ensures
        register_step(register_step(m, a, f), b, g) == register_step(register_step(m, b, g), a, f),
{
    assert(register_step(register_step(m, a, f), b, g) =~= register_step(register_step(m, b, g), a, f));
}

proof fn lemma_same_prefix_table<F>(front_a: Seq<(Seq<char>, F)>, front_b: Seq<(Seq<char>, F)>, rest: Seq<(Seq<char>, F)>)
    requires
        table_of(front_a) == table_of(front_b),
    ensures
        table_of(front_a + rest) == table_of(front_b + rest),
    decreases rest.len(),
{
    if rest.len() > 0 {
        assert((front_a + rest).drop_last() =~= front_a + rest.drop_last());
        assert((front_b + rest).drop_last() =~= front_b + rest.drop_last());
        lemma_same_prefix_table(front_a, front_b, rest.drop_last());
    }
}

/// Exchanging two neighbouring registrations leaves the table unchanged; as
/// every reordering is a series of such exchanges, the table does not depend
/// on the order in which implementers register.
pub proof fn lemma_swap_neighbours<F>(regs: Seq<(Seq<char>, F)>, k: int)
    requires
        0 <= k,
        k + 1 < regs.len(),
    ensures
        table_of(regs) == table_of(regs.update(k, regs[k + 1]).update(k + 1, regs[k])),
{
    let swapped = regs.update(k, regs[k + 1]).update(k + 1, regs[k]);
    let front_a = regs.take(k + 2);
    let front_b = swapped.take(k + 2);
    assert(front_a.drop_last().drop_last() =~= regs.take(k));
    assert(front_b.drop_last().drop_last() =~= regs.take(k));
    lemma_steps_commute(table_of(regs.take(k)), regs[k].0, regs[k].1, regs[k + 1].0, regs[k + 1].1);
    assert(front_a.last() == regs[k + 1] && front_a.drop_last().last() == regs[k]);
    assert(front_b.last() == regs[k] && front_b.drop_last().last() == regs[k + 1]);
    assert(table_of(front_a.drop_last()) == register_step(table_of(regs.take(k)), regs[k].0, regs[k].1));
    assert(table_of(front_b.drop_last()) == register_step(table_of(regs.take(k)), regs[k + 1].0, regs[k + 1].1));
    assert(table_of(front_a) == table_of(front_b));
    lemma_same_prefix_table(front_a, front_b, regs.skip(k + 2));
    assert(front_a + regs.skip(k + 2) =~= regs);
    assert(front_b + regs.skip(k + 2) =~= swapped);
}

/// Names sorted strictly ascending.
pub open spec fn strictly_sorted(names: Seq<Seq<char>>) -> bool {
    forall|i: int, j: int| 0 <= i < j < names.len() ==> name_lt(names[i], names[j])
}

/// The registered decode routines of one interface, by name. A name that was
/// registered twice maps to `None` and is refused when it is looked up.
///
/// The entries are a vector sorted by name. vstd states the behaviour of its
/// ordered map only for keys whose ordering laws it knows (integers and
/// tuples of them); for a `String` key it would prove nothing.
pub struct Registry<F> {
    entries: Vec<(String, Option<F>)>,
    table: Ghost<Map<Seq<char>, Option<F>>>,
}

impl<F> Registry<F> {
    /// The table: each registered name and its routine, `None` where the
    /// name is ambiguous.
    pub closed spec fn view(&self) -> Map<Seq<char>, Option<F>> {
        self.table@
    }

    /// Every registered name, in sorted order.
    pub closed spec fn names_view(&self) -> Seq<Seq<char>> {
        self.entries@.map_values(|e: (String, Option<F>)| e.0@)
    }

    pub closed spec fn wf(&self) -> bool {
        &&& strictly_sorted(self.names_view())
        &&& forall|i: int|
            0 <= i < self.entries@.len() ==> #[trigger] self.table@.contains_key(
                self.entries@[i].0@,
            ) && self.table@[self.entries@[i].0@] == self.entries@[i].1
        &&& forall|k: Seq<char>|
            #[trigger] self.table@.contains_key(k) ==> exists|i: int|
                0 <= i < self.entries@.len() && self.entries@[i].0@ == k
    }

    /// The names list is sorted and holds exactly the registered names.
    pub proof fn lemma_names(&self)
        requires
            self.wf(),
        ensures
            strictly_sorted(self.names_view()),
            forall|k: Seq<char>| self@.contains_key(k) <==> self.names_view().contains(k),
    {
        assert forall|k: Seq<char>| self@.contains_key(k) <==> self.names_view().contains(k) by {
            if self@.contains_key(k) {
                let i = choose|i: int| 0 <= i < self.entries@.len() && self.entries@[i].0@ == k;
                assert(self.names_view()[i] == k);
            }
            if self.names_view().contains(k) {
                let i = choose|i: int| 0 <= i < self.names_view().len() && self.names_view()[i] == k;
                assert(self.table@.contains_key(self.entries@[i].0@));
            }
        }
    }

}

impl<F: Copy> Registry<F> {
    /// An empty registry.
    pub fn new() -> (r: Self)
        ensures
            r.wf(),
            r@ == Map::<Seq<char>, Option<F>>::empty(),
    {
        Registry { entries: Vec::new(), table: Ghost(Map::empty()) }
    }

    /// Records that the implementer called `name` decodes with `f`.
    pub fn register(&mut self, name: String, f: F)
        requires
            old(self).wf(),
        ensures
            final(self).wf(),
            final(self)@ == register_step(old(self)@, name@, f),
    {
        let n = self.entries.len();
        let mut i: usize = 0;
        while i < n
            invariant
                self.wf(),
                n == self.entries@.len(),
                i <= n,
                self.table@ == old(self).table@,
                self.entries@ == old(self).entries@,
                forall|j: int| 0 <= j < i ==> name_lt(#[trigger] self.entries@[j].0@, name@),
            decreases n - i,
        {
            let c = compare_names(self.entries[i].0.as_str(), name.as_str());
            if c == 0 {
                let ghost old_table = self.table@;
                self.entries.set(i, (name, None));
                self.table = Ghost(self.table@.insert(name@, None));
                proof {
                    assert(self.names_view() =~= old(self).names_view());
                    assert forall|k: Seq<char>| #[trigger] self.table@.contains_key(k) implies exists|j: int|
                        0 <= j < self.entries@.len() && self.entries@[j].0@ == k by {
                        if k != name@ {
                            assert(old_table.contains_key(k));
                            let j = choose|j: int| 0 <= j < old(self).entries@.len() && old(self).entries@[j].0@ == k;
                            assert(self.entries@[j].0@ == k);
                        } else {
                            assert(self.entries@[i as int].0@ == k);
                        }
                    }
                    assert forall|j: int| 0 <= j < self.entries@.len() implies #[trigger] self.table@.contains_key(
                        self.entries@[j].0@,
                    ) && self.table@[self.entries@[j].0@] == self.entries@[j].1 by {
                        if j != i {
                            assert(self.entries@[j] == old(self).entries@[j]);
                            assert(old_table.contains_key(old(self).entries@[j].0@));
                            assert(old(self).names_view()[j] == self.entries@[j].0@);
                            assert(old(self).names_view()[i as int] == name@);
                            if self.entries@[j].0@ == name@ {
                                if j < i {
                                    assert(name_lt(old(self).names_view()[j], old(self).names_view()[i as int]));
                                } else {
                                    assert(name_lt(old(self).names_view()[i as int], old(self).names_view()[j]));
                                }
                                lemma_name_lt_irreflexive(name@);
                            }
                        }
                    }
                }
                return ;
            }
            if c == 1 {
                self.insert_at(i, name, f);
                return ;
            }
            i = i + 1;
        }
        self.insert_at(n, name, f);
    }

    /// Builds the registry of a list of registrations, taken in order.
    pub fn from_registrations(regs: &Vec<(String, F)>) -> (r: Self)
        ensures
            r.wf(),
            r@ == table_of(registrations_view(regs@)),
    {
        let mut r = Registry::new();
        let mut k: usize = 0;
        while k < regs.len()
            invariant
                r.wf(),
                k <= regs@.len(),
                r@ == table_of(registrations_view(regs@).take(k as int)),
            decreases regs@.len() - k,
        {
            let ghost before = registrations_view(regs@).take(k as int);
            let ghost after = registrations_view(regs@).take(k + 1);
            assert(after.drop_last() =~= before);
            r.register(regs[k].0.clone(), regs[k].1);
            k = k + 1;
        }
        assert(registrations_view(regs@).take(k as int) =~= registrations_view(regs@));
        r
    }

    /// The entry of `key`: `None` if no implementer registered it,
    /// `Some(None)` if several did.
    pub fn get(&self, key: &str) -> (r: Option<Option<F>>)
        requires
            self.wf(),
        ensures
            r == (if self@.contains_key(key@) {
                Some(self@[key@])
            } else {
                None
            }),
    {
        let n = self.entries.len();
        let mut i: usize = 0;
        while i < n
            invariant
                self.wf(),
                n == self.entries@.len(),
                i <= n,
                forall|j: int| 0 <= j < i ==> #[trigger] self.entries@[j].0@ != key@,
            decreases n - i,
        {
            if compare_names(self.entries[i].0.as_str(), key) == 0 {
                return Some(self.entries[i].1);
            }
            i = i + 1;
        }
        proof {
            if self@.contains_key(key@) {
                let j = choose|j: int| 0 <= j < self.entries@.len() && self.entries@[j].0@ == key@;
                assert(self.entries@[j].0@ != key@);
            }
        }
        None
    }

    /// All registered names, sorted.
    pub fn names(&self) -> (r: Vec<String>)
        ensures
            r@.map_values(|s: String| s@) == self.names_view(),
    {
        let mut r: Vec<String> = Vec::new();
        let n = self.entries.len();
        let mut i: usize = 0;
        while i < n
            invariant
                n == self.entries@.len(),
                i <= n,
                r@.len() == i,
                r@.map_values(|s: String| s@) =~= self.names_view().take(i as int),
            decreases n - i,
        {
            let s = self.entries[i].0.clone();
            let ghost prev = r@;
            r.push(s);
            assert(r@ == prev.push(s));
            assert(self.names_view()[i as int] == self.entries@[i as int].0@);
            assert(r@[i as int]@ == self.names_view()[i as int]);
            assert forall|j: int| 0 <= j < i implies r@[j]@ == self.names_view()[j] by {
                assert(r@[j] == prev[j]);
                assert(prev.map_values(|s: String| s@)[j] == self.names_view().take(i as int)[j]);
            }
            i = i + 1;
            assert(r@.map_values(|s: String| s@) =~= self.names_view().take(i as int));
        }
        assert(self.names_view().take(n as int) =~= self.names_view());
        r
    }

    /// Puts a new name at position `p`, where it keeps the names sorted.
    fn insert_at(&mut self, p: usize, name: String, f: F)
        requires
            old(self).wf(),
            p <= old(self).entries@.len(),
            forall|j: int| 0 <= j < p ==> name_lt(#[trigger] old(self).entries@[j].0@, name@),
            p < old(self).entries@.len() ==> name_lt(name@, old(self).entries@[p as int].0@),
        ensures
            final(self).wf(),
            final(self)@ == register_step(old(self)@, name@, f),
    {
        let ghost old_names = self.names_view();
        proof {
            lemma_name_lt_irreflexive(name@);
            assert forall|j: int| 0 <= j < old_names.len() implies old_names[j] != name@ by {
                if j >= p {
                    if j > p {
                        lemma_name_lt_transitive(name@, old_names[p as int], old_names[j]);
                    }
                } else {
                    assert(name_lt(self.entries@[j].0@, name@));
                }
            }
            if self.table@.contains_key(name@) {
                let j = choose|j: int| 0 <= j < self.entries@.len() && self.entries@[j].0@ == name@;
                assert(old_names[j] == name@);
            }
        }
        let ghost name_v = name@;
        self.entries.insert(p, (name, Some(f)));
        self.table = Ghost(self.table@.insert(name_v, Some(f)));
        proof {
            let nv = self.names_view();
            assert(nv =~= old_names.insert(p as int, name_v));
            assert forall|i: int, j: int| 0 <= i < j < nv.len() implies name_lt(nv[i], nv[j]) by {
                if i < p && j == p {
                    assert(name_lt(old(self).entries@[i].0@, name_v));
                } else if i < p && j > p {
                    assert(name_lt(old_names[i], old_names[j - 1]));
                } else if i == p && j > p {
                    if j - 1 > p {
                        lemma_name_lt_transitive(name_v, old_names[p as int], old_names[j - 1]);
                    }
                } else if i > p {
                    assert(name_lt(old_names[i - 1], old_names[j - 1]));
                } else {
                    assert(name_lt(old_names[i], old_names[j]));
                }
            }
            assert forall|i: int| 0 <= i < self.entries@.len() implies #[trigger] self.table@.contains_key(
                self.entries@[i].0@,
            ) && self.table@[self.entries@[i].0@] == self.entries@[i].1 by {
                if i < p {
                    assert(self.entries@[i] == old(self).entries@[i]);
                } else if i > p {
                    assert(self.entries@[i] == old(self).entries@[i - 1]);
                    assert(old_names[i - 1] != name_v);
                }
            }
            assert forall|k: Seq<char>| #[trigger] self.table@.contains_key(k) implies exists|i: int|
                0 <= i < self.entries@.len() && self.entries@[i].0@ == k by {
                if k == name_v {
                    assert(self.entries@[p as int].0@ == k);
                } else {
                    assert(old(self).table@.contains_key(k));
                    let j = choose|j: int| 0 <= j < old(self).entries@.len() && old(self).entries@[j].0@ == k;
                    if j < p {
                        assert(self.entries@[j].0@ == k);
                    } else {
                        assert(self.entries@[j + 1].0@ == k);
                    }
                }
            }
        }
    }
}

} // verus!
