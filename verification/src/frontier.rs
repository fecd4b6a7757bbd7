use vstd::prelude::*;
use vstd::string::*;

verus! {

/// Strict lexicographic order on character sequences: the order by which the
/// frontier ranks identifiers and picks the least pending one.
pub open spec fn lex_lt(a: Seq<char>, b: Seq<char>) -> bool
    decreases a.len(),
{
    if b.len() == 0 {
        false
    } else if a.len() == 0 {
        true
    } else if a.first() != b.first() {
        (a.first() as u32) < (b.first() as u32)
    } else {
        lex_lt(a.drop_first(), b.drop_first())
    }
}

/// No sequence is below itself.
pub proof fn lemma_lex_lt_irrefl(a: Seq<char>)
    ensures
        !lex_lt(a, a),
    decreases a.len(),
{
    if a.len() > 0 {
        lemma_lex_lt_irrefl(a.drop_first());
    }
}

/// The order is transitive.
pub proof fn lemma_lex_lt_trans(a: Seq<char>, b: Seq<char>, c: Seq<char>)
    requires
        lex_lt(a, b),
        lex_lt(b, c),
    ensures
        lex_lt(a, c),
    decreases a.len(),
{
    if a.len() == 0 {
    } else if b.len() == 0 {
    } else if c.len() == 0 {
    } else {
        if a.first() == b.first() && b.first() == c.first() {
            lemma_lex_lt_trans(a.drop_first(), b.drop_first(), c.drop_first());
        }
    }
}

/// Any two distinct sequences are ordered one way or the other.
pub proof fn lemma_lex_lt_connected(a: Seq<char>, b: Seq<char>)
    requires
        a != b,
    ensures
        lex_lt(a, b) || lex_lt(b, a),
    decreases a.len(),
{
    if a.len() == 0 && b.len() == 0 {
        assert(a =~= b);
    } else if a.len() == 0 || b.len() == 0 {
    } else if a.first() != b.first() {
        vstd::utf8::char_u32_cast(a.first(), a.first() as u32);
        vstd::utf8::char_u32_cast(b.first(), b.first() as u32);
        assert((a.first() as u32) != (b.first() as u32));
    } else {
        if a.drop_first() == b.drop_first() {
            assert(a =~= b) by {
                assert(a.drop_first().len() == a.len() - 1);
                assert(b.drop_first().len() == b.len() - 1);
                assert(a.len() == b.len());
                assert forall|i: int| 0 <= i < a.len() implies a[i] == b[i] by {
                    if i > 0 {
                        assert(a.drop_first()[i - 1] == b.drop_first()[i - 1]);
                    }
                }
            }
        } else {
            lemma_lex_lt_connected(a.drop_first(), b.drop_first());
        }
    }
}

/// Comparing two sequences that agree on their first `i` characters reduces
/// to comparing what follows.
proof fn lemma_lex_lt_skip(a: Seq<char>, b: Seq<char>, i: int)
    requires
        0 <= i <= a.len(),
        i <= b.len(),
        forall|k: int| 0 <= k < i ==> a[k] == b[k],
    ensures
        lex_lt(a, b) == lex_lt(a.skip(i), b.skip(i)),
    decreases i,
{
    if i == 0 {
        assert(a.skip(0) =~= a);
        assert(b.skip(0) =~= b);
    } else {
        assert(a.len() > 0 && b.len() > 0);
        assert(a.first() == b.first());
        lemma_lex_lt_skip(a.drop_first(), b.drop_first(), i - 1);
        assert(a.drop_first().skip(i - 1) =~= a.skip(i));
        assert(b.drop_first().skip(i - 1) =~= b.skip(i));
        assert(forall|k: int|
            0 <= k < i - 1 ==> a.drop_first()[k] == b.drop_first()[k]);
    }
}

/// Decides the lexicographic order on two strings.
pub fn str_lt(a: &str, b: &str) -> (r: bool)
    ensures
        r == lex_lt(a@, b@),
{
    let a_len = a.unicode_len();
    let b_len = b.unicode_len();
    let mut i: usize = 0;
    while i < a_len && i < b_len
        invariant
            i <= a_len,
            i <= b_len,
            a_len == a@.len(),
            b_len == b@.len(),
            forall|k: int| 0 <= k < i ==> a@[k] == b@[k],
        decreases a_len - i,
    {
        let ca = a.get_char(i);
        let cb = b.get_char(i);
        if ca != cb {
            proof {
                lemma_lex_lt_skip(a@, b@, i as int);
                assert(a@.skip(i as int).first() == a@[i as int]);
                assert(b@.skip(i as int).first() == b@[i as int]);
            }
            return (ca as u32) < (cb as u32);
        }
        i = i + 1;
    }
    proof {
        lemma_lex_lt_skip(a@, b@, i as int);
        assert(a@.skip(i as int).len() == a@.len() - i);
        assert(b@.skip(i as int).len() == b@.len() - i);
        if i < b_len {
            assert(lex_lt(a@.skip(i as int), b@.skip(i as int)));
        }
    }
    a_len < b_len
}

/// What draining the frontier yields: the least pending identifier, the
/// signal that discovery has finished and nothing is pending, or nothing for
/// the moment.
pub enum FrontierResult {
    Identifier(String),
    Done,
    Empty,
}

/// The deduplicating frontier: the set of discovered identifiers that no
/// feeder has taken yet, together with the flag that discovery has finished.
///
/// Identifiers are kept sorted by `lex_lt` and free of duplicates, so each
/// drain takes the least one. The finished flag is never consumed: once set,
/// every feeder that finds the set empty learns that no more work is coming.
/// This way one completion signal stops any number of feeders, and an
/// identifier still pending is always handed out before the signal.
pub struct Frontier {
    ids: Vec<String>,
    done: bool,
}

impl Frontier {
    /// The pending identifiers in their order.
    pub closed spec fn ids_seq(&self) -> Seq<Seq<char>> {
        self.ids@.map_values(|s: String| s@)
    }

    /// The pending identifiers as a set.
    pub open spec fn id_set(&self) -> Set<Seq<char>> {
        self.ids_seq().to_set()
    }

    /// Whether discovery has been declared finished.
    pub closed spec fn spec_done(&self) -> bool {
        self.done
    }

    /// Structural invariant: strictly sorted, hence free of duplicates.
    pub closed spec fn wf(&self) -> bool {
        forall|i: int, j: int|
            0 <= i < j < self.ids_seq().len() ==> lex_lt(self.ids_seq()[i], self.ids_seq()[j])
    }

    /// An empty frontier with discovery still open.
    pub fn new() -> (r: Self)
        ensures
            r.wf(),
            r.ids_seq() =~= Seq::<Seq<char>>::empty(),
            !r.spec_done(),
    {
        Frontier { ids: Vec::new(), done: false }
    }

    /// How many identifiers are pending.
    pub fn pending_count(&self) -> (n: usize)
        ensures
            n == self.ids_seq().len(),
    {
        self.ids.len()
    }

    /// The first position whose identifier is not below `id`.
    fn find_slot(&self, id: &String) -> (p: usize)
        requires
            self.wf(),
        ensures
            p <= self.ids_seq().len(),
            forall|i: int| 0 <= i < p ==> lex_lt(self.ids_seq()[i], id@),
            p < self.ids_seq().len() ==> !lex_lt(self.ids_seq()[p as int], id@),
    {
        let n = self.ids.len();
        let mut p: usize = 0;
        while p < n
            invariant
                p <= n,
                n == self.ids_seq().len(),
                self.wf(),
                forall|i: int| 0 <= i < p ==> lex_lt(self.ids_seq()[i], id@),
            decreases n - p,
        {
            if !str_lt(self.ids[p].as_str(), id.as_str()) {
                return p;
            }
            p = p + 1;
        }
        p
    }

    /// Records a discovered identifier. Inserting one that is already
    /// pending leaves the frontier unchanged: insertion is idempotent.
    pub fn insert(&mut self, id: String)
        requires
            old(self).wf(),
        ensures
            final(self).wf(),
            final(self).spec_done() == old(self).spec_done(),
            final(self).id_set() =~= old(self).id_set().insert(id@),
            final(self).ids_seq().len() == old(self).ids_seq().len() + (
            if old(self).id_set().contains(id@) {
                0int
            } else {
                1int
            }),
            old(self).id_set().contains(id@) ==> final(self).ids_seq() =~= old(self).ids_seq(),
    {
        broadcast use vstd::set::group_set_axioms;

        let ghost old_seq = self.ids_seq();
        let p = self.find_slot(&id);
        if p < self.ids.len() {
            if self.ids[p] == id {
                proof {
                    assert(old_seq[p as int] == id@);
                    assert(old_seq.to_set().contains(id@));
                    assert(old_seq.to_set().insert(id@) =~= old_seq.to_set());
                }
                return ;
            }
        }
        proof {
            if old_seq.to_set().contains(id@) {
                let i = choose|i: int| 0 <= i < old_seq.len() && old_seq[i] == id@;
                lemma_lex_lt_irrefl(id@);
                if i < p {
                    assert(lex_lt(old_seq[i], id@));
                    assert(false);
                } else if i == p {
                    assert(false);
                } else {
                    assert(lex_lt(old_seq[p as int], old_seq[i]));
                    lemma_lex_lt_connected(old_seq[p as int], id@);
                    lemma_lex_lt_trans(id@, old_seq[p as int], old_seq[i]);
                    assert(false);
                }
            }
        }
        self.ids.insert(p, id);
        proof {
            let new_seq = self.ids_seq();
            assert(new_seq =~= old_seq.insert(p as int, id@)) by {
                assert forall|i: int| 0 <= i < new_seq.len() implies new_seq[i]
                    == old_seq.insert(p as int, id@)[i] by {
                    if i < p {
                        assert(self.ids@[i] == old(self).ids@[i]);
                    } else if i == p {
                    } else {
                        assert(self.ids@[i] == old(self).ids@[i - 1]);
                    }
                }
            }
            if p < old_seq.len() {
                lemma_lex_lt_connected(old_seq[p as int], id@);
            }
            assert forall|i: int, j: int| 0 <= i < j < new_seq.len() implies lex_lt(
                new_seq[i],
                new_seq[j],
            ) by {
                if j < p {
                } else if i < p && j == p {
                    assert(new_seq[i] == old_seq[i]);
                } else if i < p && j > p {
                    assert(new_seq[j] == old_seq[j - 1]);
                } else if i == p {
                    assert(new_seq[j] == old_seq[j - 1]);
                    if j - 1 > p {
                        assert(lex_lt(old_seq[p as int], old_seq[j - 1]));
                        lemma_lex_lt_trans(id@, old_seq[p as int], old_seq[j - 1]);
                    }
                } else {
                    assert(new_seq[i] == old_seq[i - 1]);
                    assert(new_seq[j] == old_seq[j - 1]);
                }
            }
            assert(self.id_set() =~= old(self).id_set().insert(id@)) by {
                assert forall|x: Seq<char>| self.id_set().contains(x) implies old(
                    self,
                ).id_set().insert(id@).contains(x) by {
                    let i = choose|i: int| 0 <= i < new_seq.len() && new_seq[i] == x;
                    if i != p {
                        let ghost oi = if i < p {
                            i
                        } else {
                            i - 1
                        };
                        assert(old_seq[oi] == x);
                    }
                }
                assert forall|x: Seq<char>|
                    old(self).id_set().insert(id@).contains(x) implies self.id_set().contains(
                    x,
                ) by {
                    if x == id@ {
                        assert(new_seq[p as int] == x);
                    } else {
                        let i = choose|i: int| 0 <= i < old_seq.len() && old_seq[i] == x;
                        let ghost ni = if i < p {
                            i
                        } else {
                            i + 1
                        };
                        assert(new_seq[ni] == x);
                    }
                }
            }
        }
    }

    /// Records every identifier of `ids`, deduplicating as `insert` does.
    pub fn insert_all(&mut self, ids: Vec<String>)
        requires
            old(self).wf(),
        ensures
            final(self).wf(),
            final(self).spec_done() == old(self).spec_done(),
            final(self).id_set() =~= old(self).id_set().union(
                ids@.map_values(|s: String| s@).to_set(),
            ),
    {
        broadcast use vstd::set::group_set_axioms;

        let ghost all = ids@.map_values(|s: String| s@);
        let mut k: usize = 0;
        let n = ids.len();
        let ghost orig = self.id_set();
        while k < n
            invariant
                k <= n,
                n == ids@.len(),
                all == ids@.map_values(|s: String| s@),
                self.wf(),
                self.spec_done() == old(self).spec_done(),
                self.id_set() =~= orig.union(all.take(k as int).to_set()),
            decreases n - k,
        {
            let id = ids[k].clone();
            proof {
                assert(id@ == all[k as int]);
            }
            self.insert(id);
            proof {
                assert(self.id_set() =~= orig.union(all.take(k as int + 1).to_set())) by {
                    assert(all.take(k as int + 1).to_set() =~= all.take(k as int).to_set().insert(
                        all[k as int],
                    )) by {
                        assert forall|x: Seq<char>|
                            all.take(k as int + 1).to_set().contains(x) implies all.take(
                            k as int,
                        ).to_set().insert(all[k as int]).contains(x) by {
                            let i = choose|i: int|
                                0 <= i < all.take(k as int + 1).len() && #[trigger] all.take(
                                    k as int + 1,
                                )[i] == x;
                            if i < k {
                                assert(all.take(k as int)[i] == x);
                            }
                        }
                        assert forall|x: Seq<char>|
                            all.take(k as int).to_set().insert(all[k as int]).contains(
                                x,
                            ) implies all.take(k as int + 1).to_set().contains(x) by {
                            if x == all[k as int] {
                                assert(all.take(k as int + 1)[k as int] == x);
                            } else {
                                let i = choose|i: int|
                                    0 <= i < all.take(k as int).len() && #[trigger] all.take(
                                        k as int,
                                    )[i] == x;
                                assert(all.take(k as int + 1)[i] == x);
                            }
                        }
                    }
                }
            }
            k = k + 1;
        }
        proof {
            assert(all.take(n as int) =~= all);
        }
    }

    /// Inserting the same identifier twice leaves the frontier exactly as
    /// one insertion does: the second insertion finds the identifier
    /// already pending and changes nothing, so it is present once.
    pub proof fn lemma_insert_idempotent(s: Set<Seq<char>>, x: Seq<char>)
        ensures
            s.insert(x).insert(x) =~= s.insert(x),
    {
        broadcast use vstd::set::group_set_axioms;

    }

    /// Declares discovery finished. Idempotent; never removed thereafter.
    pub fn signal_done(&mut self)
        requires
            old(self).wf(),
        ensures
            final(self).wf(),
            final(self).spec_done(),
            final(self).ids_seq() =~= old(self).ids_seq(),
    {
        self.done = true;
        proof {
            assert(self.ids_seq() == old(self).ids_seq());
        }
    }

    /// Removes and returns the least pending identifier. With nothing
    /// pending the result distinguishes "discovery finished" from "nothing
    /// for the moment": the finished signal is only ever observed once no
    /// identifier is stranded behind it.
    pub fn take_one(&mut self) -> (r: FrontierResult)
        requires
            old(self).wf(),
        ensures
            final(self).wf(),
            final(self).spec_done() == old(self).spec_done(),
            old(self).ids_seq().len() == 0 ==> final(self).ids_seq() =~= old(self).ids_seq(),
            (old(self).ids_seq().len() == 0 && old(self).spec_done()) ==> r is Done,
            (old(self).ids_seq().len() == 0 && !old(self).spec_done()) ==> r is Empty,
            old(self).ids_seq().len() > 0 ==> ({
                &&& r matches FrontierResult::Identifier(s)
                &&& s@ == old(self).ids_seq().first()
                &&& final(self).ids_seq() =~= old(self).ids_seq().drop_first()
                &&& forall|x: Seq<char>|
                    old(self).id_set().contains(x) && x != s@ ==> lex_lt(s@, x)
            }),
    {
        if self.ids.len() == 0 {
            if self.done {
                FrontierResult::Done
            } else {
                FrontierResult::Empty
            }
        } else {
            let ghost old_seq = self.ids_seq();
            let s = self.ids.remove(0);
            proof {
                assert(self.ids_seq() =~= old_seq.drop_first()) by {
                    assert forall|i: int| 0 <= i < self.ids_seq().len() implies self.ids_seq()[i]
                        == old_seq.drop_first()[i] by {
                        assert(self.ids@[i] == old(self).ids@[i + 1]);
                    }
                }
                assert forall|x: Seq<char>|
                    old(self).id_set().contains(x) && x != s@ implies lex_lt(s@, x) by {
                    let i = choose|i: int| 0 <= i < old_seq.len() && #[trigger] old_seq[i] == x;
                    assert(s@ == old_seq[0]);
                    assert(i > 0);
                    assert(lex_lt(old_seq[0], old_seq[i]));
                }
            }
            FrontierResult::Identifier(s)
        }
    }
}

} // verus!
