use vstd::prelude::*;

verus! {

/// The views of the items of a sequence, in order.
pub open spec fn views<T: View>(s: Seq<T>) -> Seq<T::V> {
    Seq::new(s.len(), |i: int| s[i]@)
}

pub broadcast proof fn lemma_views_push<T: View>(s: Seq<T>, x: T)
    ensures
        #[trigger] views(s.push(x)) == views(s).push(x@),
{
    assert(views(s.push(x)) =~= views(s).push(x@));
}

pub broadcast proof fn lemma_views_empty<T: View>()
    ensures
        #[trigger] views(Seq::<T>::empty()) == Seq::<T::V>::empty(),
{
    assert(views(Seq::<T>::empty()) =~= Seq::<T::V>::empty());
}

pub broadcast proof fn lemma_views_drop_last<T: View>(s: Seq<T>)
    requires
        s.len() > 0,
    ensures
        #[trigger] views(s.drop_last()) == views(s).drop_last(),
{
    assert(views(s.drop_last()) =~= views(s).drop_last());
}

pub broadcast proof fn lemma_views_subrange<T: View>(s: Seq<T>, i: int, j: int)
    requires
        0 <= i <= j <= s.len(),
    ensures
        #[trigger] views(s.subrange(i, j)) == views(s).subrange(i, j),
{
    assert(views(s.subrange(i, j)) =~= views(s).subrange(i, j));
}

pub broadcast proof fn lemma_views_add<T: View>(a: Seq<T>, b: Seq<T>)
    ensures
        #[trigger] views(a + b) == views(a) + views(b),
{
    assert(views(a + b) =~= views(a) + views(b));
}

pub broadcast proof fn lemma_views_update<T: View>(s: Seq<T>, i: int, x: T)
    requires
        0 <= i < s.len(),
    ensures
        #[trigger] views(s.update(i, x)) == views(s).update(i, x@),
{
    assert(views(s.update(i, x)) =~= views(s).update(i, x@));
}

pub broadcast group group_views {
    lemma_views_push,
    lemma_views_empty,
    lemma_views_drop_last,
    lemma_views_subrange,
    lemma_views_add,
    lemma_views_update,
}

/// `s` from its last item to its first.
pub open spec fn backwards<T>(s: Seq<T>) -> Seq<T>
    decreases s.len(),
{
    if s.len() == 0 {
        Seq::empty()
    } else {
        seq![s.last()] + backwards(s.drop_last())
    }
}

/// What is pushed last comes first backwards.
pub proof fn lemma_backwards_push<T>(s: Seq<T>, x: T)
    ensures
        backwards(s.push(x)) == seq![x] + backwards(s),
{
    assert(s.push(x).drop_last() =~= s);
}

/// Pushing onto the left part is the same as putting in front of the right.
pub proof fn lemma_push_add<T>(a: Seq<T>, x: T, b: Seq<T>)
    ensures
        a.push(x) + b == a + (seq![x] + b),
{
    assert(a.push(x) + b =~= a + (seq![x] + b));
}

/// The first `i` items end with item `i - 1`, after the first `i - 1`.
pub proof fn lemma_take_last<T>(s: Seq<T>, i: int)
    requires
        0 < i <= s.len(),
    ensures
        s.take(i).drop_last() == s.take(i - 1),
        s.take(i).last() == s[i - 1],
        s.take(i).len() == i,
{
    assert(s.take(i).drop_last() =~= s.take(i - 1));
}

/// All of a sequence is its first `len` items; none of it comes before.
pub proof fn lemma_take_all<T>(s: Seq<T>)
    ensures
        s.take(s.len() as int) == s,
        s.take(0) == Seq::<T>::empty(),
        s + Seq::<T>::empty() == s,
        Seq::<T>::empty() + s == s,
{
    assert(s.take(s.len() as int) =~= s);
    assert(s.take(0) =~= Seq::<T>::empty());
    assert(s + Seq::<T>::empty() =~= s);
    assert(Seq::<T>::empty() + s =~= s);
}

/// The position of the first item of `s` that equals `k`, if there is one.
pub open spec fn index_of<K>(s: Seq<K>, k: K) -> Option<int>
    decreases s.len(),
{
    if s.len() == 0 {
        None
    } else {
        match index_of(s.drop_last(), k) {
            Some(i) => Some(i),
            None => if s.last() == k {
                Some(s.len() - 1)
            } else {
                None
            },
        }
    }
}

/// `index_of` finds an item exactly where one is, and then the first.
pub proof fn lemma_index_of<K>(s: Seq<K>, k: K)
    ensures
        match index_of(s, k) {
            Some(i) => 0 <= i < s.len() && s[i] == k && forall|j: int| 0 <= j < i ==> s[j] != k,
            None => forall|j: int| 0 <= j < s.len() ==> s[j] != k,
        },
    decreases s.len(),
{
    if s.len() > 0 {
        let t = s.drop_last();
        lemma_index_of(t, k);
        assert(forall|j: int| 0 <= j < t.len() ==> t[j] == s[j]);
        match index_of(t, k) {
            Some(i) => {
                assert(t[i] == s[i]);
            },
            None => {
                assert forall|j: int| 0 <= j < s.len() - 1 implies s[j] != k by {
                    assert(t[j] == s[j]);
                }
            },
        }
    }
}

/// What is first at `i` is what `index_of` finds.
pub proof fn lemma_index_of_found<K>(s: Seq<K>, k: K, i: int)
    requires
        0 <= i < s.len(),
        s[i] == k,
        forall|j: int| 0 <= j < i ==> s[j] != k,
    ensures
        index_of(s, k) == Some(i),
{
    lemma_index_of(s, k);
}

/// What is nowhere is not found.
pub proof fn lemma_index_of_absent<K>(s: Seq<K>, k: K)
    requires
        forall|j: int| 0 <= j < s.len() ==> s[j] != k,
    ensures
        index_of(s, k) is None,
{
    lemma_index_of(s, k);
}

/// Whether no item of `s` occurs twice.
pub open spec fn distinct<K>(s: Seq<K>) -> bool {
    forall|i: int, j: int| 0 <= i < j < s.len() ==> s[i] != s[j]
}

/// Whether `s` holds exactly the text of `lit`.
pub fn text_is(s: &String, lit: &str) -> (r: bool)
    ensures
        r == (s@ == lit@),
{
    let t = String::from_str(lit);
    *s == t
}

/// The position of the first string of `names` that reads `name`.
pub fn find_name(names: &Vec<String>, name: &String) -> (r: Option<usize>)
    ensures
        match r {
            Some(i) => index_of(views(names@), name@) == Some(i as int),
            None => index_of(views(names@), name@) is None,
        },
{
    let mut i: usize = 0;
    while i < names.len()
        invariant
            i <= names.len(),
            forall|j: int| 0 <= j < i ==> views(names@)[j] != name@,
        decreases names.len() - i,
    {
        if names[i] == *name {
            proof {
                lemma_index_of_found(views(names@), name@, i as int);
            }
            return Some(i);
        }
        i += 1;
    }
    proof {
        lemma_index_of_absent(views(names@), name@);
    }
    None
}

/// The mathematical value of a [`NameMap`]: the names, and the value of each.
pub struct Table<T> {
    pub names: Seq<Seq<char>>,
    pub values: Seq<T>,
}

impl<T> Table<T> {
    /// The table without entries.
    pub open spec fn empty() -> Table<T> {
        Table { names: Seq::empty(), values: Seq::empty() }
    }

    /// Whether the table holds `name`.
    pub open spec fn has(self, name: Seq<char>) -> bool {
        index_of(self.names, name) is Some
    }

    /// The value under `name`, if the table holds it.
    pub open spec fn get(self, name: Seq<char>) -> Option<T> {
        match index_of(self.names, name) {
            Some(i) => Some(self.values[i]),
            None => None,
        }
    }

    /// The table with `value` under `name`: in the place of the value that was
    /// there, or else at the end.
    pub open spec fn insert(self, name: Seq<char>, value: T) -> Table<T> {
        match index_of(self.names, name) {
            Some(i) => Table { names: self.names, values: self.values.update(i, value) },
            None => Table { names: self.names.push(name), values: self.values.push(value) },
        }
    }

    /// Every name has its value.
    pub open spec fn wf(self) -> bool {
        self.names.len() == self.values.len()
    }
}

impl<V: View> View for NameMap<V> {
    type V = Table<V::V>;

    open spec fn view(&self) -> Table<V::V> {
        Table { names: views(self.names@), values: views(self.values@) }
    }
}

/// A table from names to values that keeps its entries in the order in which
/// their names first came.
#[derive(Debug)]
pub struct NameMap<V> {
    pub names: Vec<String>,
    pub values: Vec<V>,
}

impl<V: View> NameMap<V> {
    /// Every name has its value.
    pub open spec fn wf(&self) -> bool {
        self.names@.len() == self.values@.len()
    }

    pub fn new() -> (r: Self)
        ensures
            r.wf(),
            r@ == Table::<V::V>::empty(),
            r.names@.len() == 0,
            r.values@.len() == 0,
    {
        let r = NameMap { names: Vec::new(), values: Vec::new() };
        proof {
            broadcast use group_views;

        }
        r
    }

    pub fn len(&self) -> (r: usize)
        requires
            self.wf(),
        ensures
            r == self@.names.len(),
    {
        self.names.len()
    }

    /// The place of `name` in the table.
    pub fn find(&self, name: &String) -> (r: Option<usize>)
        requires
            self.wf(),
        ensures
            match r {
                Some(i) => index_of(self@.names, name@) == Some(i as int) && i < self.values@.len(),
                None => index_of(self@.names, name@) is None,
            },
    {
        let r = find_name(&self.names, name);
        proof {
            lemma_index_of(views(self.names@), name@);
        }
        r
    }

    pub fn contains_key(&self, name: &String) -> (r: bool)
        requires
            self.wf(),
        ensures
            r == self@.has(name@),
    {
        self.find(name).is_some()
    }

    pub fn get(&self, name: &String) -> (r: Option<&V>)
        requires
            self.wf(),
        ensures
            match r {
                Some(v) => self@.get(name@) == Some(v@),
                None => self@.get(name@) is None,
            },
    {
        match self.find(name) {
            Some(i) => Some(&self.values[i]),
            None => None,
        }
    }

    /// Puts `value` under `name`: in the place of the value that was there, or
    /// else at the end.
    pub fn insert(&mut self, name: String, value: V)
        requires
            old(self).wf(),
        ensures
            final(self).wf(),
            final(self)@ == old(self)@.insert(name@, value@),
            match index_of(old(self)@.names, name@) {
                Some(i) => final(self).values@ == old(self).values@.update(i, value),
                None => final(self).values@ == old(self).values@.push(value),
            },
            forall|i: int|
                0 <= i < final(self).values@.len() ==> (#[trigger] final(self).values@[i]) == value
                    || (i < old(self).values@.len() && final(self).values@[i] == old(
                    self,
                ).values@[i]),
    {
        proof {
            broadcast use group_views;

        }
        match self.find(&name) {
            Some(i) => {
                self.values[i] = value;
            },
            None => {
                self.names.push(name);
                self.values.push(value);
            },
        }
    }
}

} // verus!
