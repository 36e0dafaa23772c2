use vstd::prelude::*;

verus! {

/// A 20-byte account address, held as three big-endian words: bytes 0..8,
/// 8..16 and 16..20.
#[derive(Clone, Copy, Debug, PartialEq, Eq, Structural, Hash)]
pub struct Address {
    pub hi: u64,
    pub mid: u64,
    pub lo: u32,
}

impl Address {
    pub fn new(hi: u64, mid: u64, lo: u32) -> (a: Address)
        ensures
            a == (Address { hi, mid, lo }),
    {
        Address { hi, mid, lo }
    }
}

/// `s` with `a` added at the end, unless it is already there.
pub open spec fn insert_spec(s: Seq<Address>, a: Address) -> Seq<Address> {
    if s.contains(a) {
        s
    } else {
        s.push(a)
    }
}

/// `s` with each address of `batch` added in turn.
pub open spec fn insert_all_spec(s: Seq<Address>, batch: Seq<Address>) -> Seq<Address>
    decreases batch.len(),
{
    if batch.len() == 0 {
        s
    } else {
        insert_spec(insert_all_spec(s, batch.drop_last()), batch.last())
    }
}

/// Adding an address keeps a sequence free of duplicates, and adds exactly
/// that address to its set.
pub proof fn lemma_insert_set(s: Seq<Address>, a: Address)
    requires
        s.no_duplicates(),
    ensures
        insert_spec(s, a).no_duplicates(),
        insert_spec(s, a).to_set() == s.to_set().insert(a),
{
    if !s.contains(a) {
        assert(insert_spec(s, a).to_set() =~= s.to_set().insert(a)) by {
            assert forall|x: Address| insert_spec(s, a).contains(x) <==> s.contains(x) || x == a by {
                if s.contains(x) {
                    let k = choose|k: int| 0 <= k < s.len() && s[k] == x;
                    assert(insert_spec(s, a)[k] == x);
                }
                if x == a {
                    assert(insert_spec(s, a)[s.len() as int] == x);
                }
            }
        }
    } else {
        assert(s.to_set().insert(a) =~= s.to_set());
    }
}

/// Adding a batch keeps a sequence free of duplicates, and its set becomes the
/// union of the two sets.
pub proof fn lemma_insert_all_set(s: Seq<Address>, batch: Seq<Address>)
    requires
        s.no_duplicates(),
    ensures
        insert_all_spec(s, batch).no_duplicates(),
        insert_all_spec(s, batch).to_set() == s.to_set().union(batch.to_set()),
    decreases batch.len(),
{
    if batch.len() == 0 {
        assert(s.to_set().union(batch.to_set()) =~= s.to_set());
    } else {
        let rest = batch.drop_last();
        lemma_insert_all_set(s, rest);
        lemma_insert_set(insert_all_spec(s, rest), batch.last());
        assert(batch =~= rest.push(batch.last()));
        assert(batch.to_set() =~= rest.to_set().insert(batch.last())) by {
            assert forall|x: Address| batch.contains(x) <==> rest.contains(x) || x == batch.last() by {
                if batch.contains(x) {
                    let k = choose|k: int| 0 <= k < batch.len() && batch[k] == x;
                    if k < rest.len() {
                        assert(rest[k] == x);
                    }
                }
                if rest.contains(x) {
                    let k = choose|k: int| 0 <= k < rest.len() && rest[k] == x;
                    assert(batch[k] == x);
                }
            }
        }
        assert(insert_all_spec(s, batch).to_set() =~= s.to_set().union(batch.to_set()));
    }
}

/// Inserting an address a second time changes nothing: the sequence, and so
/// its size and membership, stay as the first insertion left them.
pub proof fn lemma_insert_idempotent(s: Seq<Address>, a: Address)
    ensures
        insert_spec(insert_spec(s, a), a) == insert_spec(s, a),
        insert_spec(insert_spec(s, a), a).len() == insert_spec(s, a).len(),
        insert_spec(insert_spec(s, a), a).to_set() == insert_spec(s, a).to_set(),
{
    assert(insert_spec(s, a).contains(a)) by {
        if !s.contains(a) {
            assert(insert_spec(s, a)[s.len() as int] == a);
        }
    }
}

/// The set of addresses found so far, each held once, in the order in which
/// they were first found.
pub struct DiscoveredAddresses {
    items: Vec<Address>,
}

impl View for DiscoveredAddresses {
    type V = Seq<Address>;

    closed spec fn view(&self) -> Seq<Address> {
        self.items@
    }
}

impl DiscoveredAddresses {
    /// No address is held twice.
    pub open spec fn wf(&self) -> bool {
        self@.no_duplicates()
    }

    pub fn new() -> (r: DiscoveredAddresses)
        ensures
            r@ == Seq::<Address>::empty(),
            r.wf(),
    {
        DiscoveredAddresses { items: Vec::new() }
    }

    pub fn len(&self) -> (n: usize)
        ensures
            n == self@.len(),
    {
        self.items.len()
    }

    /// The address found `i`-th.
    pub fn get(&self, i: usize) -> (a: Address)
        requires
            i < self@.len(),
        ensures
            a == self@[i as int],
    {
        self.items[i]
    }

    pub fn contains(&self, a: Address) -> (r: bool)
        ensures
            r == self@.contains(a),
    {
        let mut i: usize = 0;
        while i < self.items.len()
            invariant
                i <= self.items@.len(),
                forall|k: int| 0 <= k < i ==> self.items@[k] != a,
            decreases self.items@.len() - i,
        {
            if self.items[i] == a {
                return true;
            }
            i = i + 1;
        }
        false
    }

    /// Adds `a` unless it is already held; says whether it was new.
    pub fn insert(&mut self, a: Address) -> (added: bool)
        requires
            old(self).wf(),
        ensures
            final(self)@ == insert_spec(old(self)@, a),
            final(self).wf(),
            added == !old(self)@.contains(a),
    {
        proof {
            lemma_insert_set(self@, a);
        }
        if self.contains(a) {
            false
        } else {
            self.items.push(a);
            true
        }
    }

    /// Adds each address of `batch` in turn.
    pub fn insert_all(&mut self, batch: &Vec<Address>)
        requires
            old(self).wf(),
        ensures
            final(self)@ == insert_all_spec(old(self)@, batch@),
            final(self).wf(),
    {
        let mut i: usize = 0;
        while i < batch.len()
            invariant
                i <= batch@.len(),
                self.wf(),
                self@ == insert_all_spec(old(self)@, batch@.take(i as int)),
            decreases batch@.len() - i,
        {
            self.insert(batch[i]);
            proof {
                assert(batch@.take(i + 1).drop_last() =~= batch@.take(i as int));
            }
            i = i + 1;
        }
        assert(batch@.take(i as int) =~= batch@);
    }

    /// The addresses, in the order in which they were first found.
    pub fn to_vec(&self) -> (r: Vec<Address>)
        ensures
            r@ == self@,
    {
        let mut r: Vec<Address> = Vec::new();
        let mut i: usize = 0;
        while i < self.items.len()
            invariant
                i <= self.items@.len(),
                r@ == self.items@.take(i as int),
            decreases self.items@.len() - i,
        {
            r.push(self.items[i]);
            assert(r@ =~= self.items@.take(i + 1));
            i = i + 1;
        }
        assert(r@ =~= self.items@);
        r
    }
}

} // verus!
