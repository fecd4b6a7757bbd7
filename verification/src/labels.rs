use vstd::prelude::*;
use crate::frontier::{lemma_lex_lt_connected, lemma_lex_lt_irrefl, lemma_lex_lt_trans, lex_lt,
    str_lt};
use crate::message::str_eq;

verus! {

/// One label of the mailbox: its display name and its internal identifier.
pub struct LabelEntry {
    pub name: String,
    pub id: String,
}

/// The identifier filed under `name`: that of the first entry so named.
pub open spec fn spec_label_get(s: Seq<LabelEntry>, name: Seq<char>) -> Option<Seq<char>>
    decreases s.len(),
{
    if s.len() == 0 {
        None
    } else if s.first().name@ == name {
        Some(s.first().id@)
    } else {
        spec_label_get(s.drop_first(), name)
    }
}

/// Filing an entry into a name-ordered directory: it replaces the entry of
/// the same name, or takes the place its name orders it to.
pub open spec fn spec_label_put(s: Seq<LabelEntry>, e: LabelEntry) -> Seq<LabelEntry>
    decreases s.len(),
{
    if s.len() == 0 {
        seq![e]
    } else if lex_lt(s.first().name@, e.name@) {
        seq![s.first()] + spec_label_put(s.drop_first(), e)
    } else if s.first().name@ == e.name@ {
        seq![e] + s.drop_first()
    } else {
        seq![e] + s
    }
}

/// The name-to-identifier directory the label listing yields. Each name is
/// filed once — filing a name again replaces its identifier — and the
/// entries stay sorted by name, so a walk of the directory yields the names
/// in their order.
pub struct LabelDirectory {
    entries: Vec<LabelEntry>,
}

/// Replacing the entry at `i`, the one sharing the name of `e` behind
/// entries of smaller names, is what filing `e` does.
proof fn lemma_label_put_replaces(s: Seq<LabelEntry>, e: LabelEntry, i: int)
    requires
        0 <= i < s.len(),
        s[i].name@ == e.name@,
        forall|k: int| 0 <= k < i ==> lex_lt((#[trigger] s[k]).name@, e.name@),
    ensures
        spec_label_put(s, e) == s.update(i, e),
    decreases i,
{
    lemma_lex_lt_irrefl(e.name@);
    if i == 0 {
        assert(seq![e] + s.drop_first() =~= s.update(0, e));
    } else {
        assert(forall|k: int|
            0 <= k < i - 1 ==> lex_lt((#[trigger] s.drop_first()[k]).name@, e.name@));
        lemma_label_put_replaces(s.drop_first(), e, i - 1);
        assert(seq![s.first()] + s.drop_first().update(i - 1, e) =~= s.update(i, e));
    }
}

/// A new name slots in behind the entries of smaller names.
proof fn lemma_label_put_inserts(s: Seq<LabelEntry>, e: LabelEntry, p: int)
    requires
        0 <= p <= s.len(),
        forall|k: int| 0 <= k < p ==> lex_lt((#[trigger] s[k]).name@, e.name@),
        p < s.len() ==> !lex_lt(s[p].name@, e.name@) && s[p].name@ != e.name@,
    ensures
        spec_label_put(s, e) == s.insert(p, e),
    decreases p,
{
    if s.len() == 0 {
        assert(seq![e] =~= s.insert(0, e));
    } else if p == 0 {
        lemma_lex_lt_irrefl(e.name@);
        if s.first().name@ != e.name@ && !lex_lt(s.first().name@, e.name@) {
            assert(seq![e] + s =~= s.insert(0, e));
        } else {
            assert(s[0] == s.first());
            assert(false);
        }
    } else {
        assert(lex_lt(s.first().name@, e.name@));
        assert(forall|k: int|
            0 <= k < p - 1 ==> lex_lt((#[trigger] s.drop_first()[k]).name@, e.name@));
        assert(p - 1 < s.drop_first().len() ==> s.drop_first()[p - 1] == s[p]);
        lemma_label_put_inserts(s.drop_first(), e, p - 1);
        assert(seq![s.first()] + s.drop_first().insert(p - 1, e) =~= s.insert(p, e));
    }
}

impl LabelDirectory {
    /// The entries in their name order.
    pub closed spec fn entries_seq(&self) -> Seq<LabelEntry> {
        self.entries@
    }

    /// Structural invariant: names strictly sorted, hence each filed once.
    pub closed spec fn wf(&self) -> bool {
        forall|i: int, j: int|
            0 <= i < j < self.entries@.len() ==> lex_lt(
                (#[trigger] self.entries@[i]).name@,
                (#[trigger] self.entries@[j]).name@,
            )
    }

    /// An empty directory.
    pub fn new() -> (r: Self)
        ensures
            r.wf(),
            r.entries_seq() =~= Seq::<LabelEntry>::empty(),
    {
        LabelDirectory { entries: Vec::new() }
    }

    /// How many names are filed.
    pub fn len(&self) -> (n: usize)
        ensures
            n == self.entries_seq().len(),
    {
        self.entries.len()
    }

    /// The entry at a position; a walk from the start yields the names in
    /// their order.
    pub fn entry_at(&self, i: usize) -> (e: &LabelEntry)
        requires
            i < self.entries_seq().len(),
        ensures
            *e == self.entries_seq()[i as int],
    {
        &self.entries[i]
    }

    /// Files a label under its name: the identifier of a name already filed
    /// is replaced, a new name takes its place in the name order.
    pub fn insert(&mut self, name: String, id: String)
        requires
            old(self).wf(),
            old(self).entries_seq().len() < usize::MAX,
        ensures
            final(self).wf(),
            final(self).entries_seq() == spec_label_put(
                old(self).entries_seq(),
                LabelEntry { name: name, id: id },
            ),
    {
        let ghost e = LabelEntry { name: name, id: id };
        let n = self.entries.len();
        let mut p: usize = 0;
        while p < n
            invariant
                p <= n,
                n == self.entries@.len(),
                self.wf(),
                self.entries@ == old(self).entries@,
                e == (LabelEntry { name: name, id: id }),
                forall|k: int|
                    0 <= k < p ==> lex_lt((#[trigger] self.entries@[k]).name@, name@),
            ensures
                p <= n,
                n == self.entries@.len(),
                self.wf(),
                self.entries@ == old(self).entries@,
                e == (LabelEntry { name: name, id: id }),
                forall|k: int|
                    0 <= k < p ==> lex_lt((#[trigger] self.entries@[k]).name@, name@),
                p < n ==> !lex_lt(self.entries@[p as int].name@, name@),
            decreases n - p,
        {
            if !str_lt(self.entries[p].name.as_str(), name.as_str()) {
                break ;
            }
            p = p + 1;
        }
        if p < self.entries.len() {
            if str_eq(self.entries[p].name.as_str(), name.as_str()) {
                proof {
                    lemma_label_put_replaces(self.entries@, e, p as int);
                }
                self.entries.remove(p);
                self.entries.insert(p, LabelEntry { name, id });
                proof {
                    assert(self.entries@ =~= old(self).entries@.update(p as int, e));
                    assert forall|i: int, j: int|
                        0 <= i < j < self.entries@.len() implies lex_lt(
                        (#[trigger] self.entries@[i]).name@,
                        (#[trigger] self.entries@[j]).name@,
                    ) by {
                        assert(self.entries@[i].name@ == old(self).entries@[i].name@);
                        assert(self.entries@[j].name@ == old(self).entries@[j].name@);
                    }
                }
                return ;
            }
        }
        proof {
            lemma_label_put_inserts(self.entries@, e, p as int);
            if (p as int) < self.entries@.len() {
                lemma_lex_lt_connected(self.entries@[p as int].name@, name@);
            }
        }
        self.entries.insert(p, LabelEntry { name, id });
        proof {
            let old_seq = old(self).entries@;
            let new_seq = self.entries@;
            assert(new_seq =~= old_seq.insert(p as int, e)) by {
                assert forall|i: int| 0 <= i < new_seq.len() implies new_seq[i] == old_seq.insert(
                    p as int,
                    e,
                )[i] by {
                    if i < p {
                        assert(self.entries@[i] == old(self).entries@[i]);
                    } else if i == p {
                    } else {
                        assert(self.entries@[i] == old(self).entries@[i - 1]);
                    }
                }
            }
            assert forall|i: int, j: int| 0 <= i < j < new_seq.len() implies lex_lt(
                (#[trigger] new_seq[i]).name@,
                (#[trigger] new_seq[j]).name@,
            ) by {
                if j < p {
                } else if i < p && j == p {
                    assert(new_seq[i] == old_seq[i]);
                } else if i < p && j > p {
                    assert(new_seq[j] == old_seq[j - 1]);
                } else if i == p {
                    assert(new_seq[j] == old_seq[j - 1]);
                    assert(lex_lt(name@, old_seq[p as int].name@));
                    if j - 1 > p {
                        assert(lex_lt(old_seq[p as int].name@, old_seq[j - 1].name@));
                        lemma_lex_lt_trans(name@, old_seq[p as int].name@, old_seq[j - 1].name@);
                    }
                } else {
                    assert(new_seq[i] == old_seq[i - 1]);
                    assert(new_seq[j] == old_seq[j - 1]);
                }
            }
        }
    }

    /// Looks a name up; the identifier it was filed under, if any.
    pub fn get(&self, name: &String) -> (r: Option<&String>)
        ensures
            match r {
                Some(id) => spec_label_get(self.entries_seq(), name@) == Some(id@),
                None => spec_label_get(self.entries_seq(), name@) is None,
            },
    {
        let n = self.entries.len();
        let mut i: usize = 0;
        proof {
            assert(self.entries@.skip(0) =~= self.entries@);
        }
        while i < n
            invariant
                i <= n,
                n == self.entries@.len(),
                spec_label_get(self.entries@.skip(i as int), name@) == spec_label_get(
                    self.entries@,
                    name@,
                ),
                forall|k: int|
                    0 <= k < i ==> (#[trigger] self.entries@[k]).name@ != name@,
            decreases n - i,
        {
            proof {
                assert(self.entries@.skip(i as int).first() == self.entries@[i as int]);
                assert(self.entries@.skip(i as int).drop_first() =~= self.entries@.skip(
                    i as int + 1,
                ));
            }
            if str_eq(self.entries[i].name.as_str(), name.as_str()) {
                return Some(&self.entries[i].id);
            }
            i = i + 1;
        }
        proof {
            assert(self.entries@.skip(n as int) =~= Seq::<LabelEntry>::empty());
        }
        None
    }
}

/// The directory built from listed label pairs, in their order: a pair
/// missing its name or its identifier is passed over.
pub open spec fn spec_collect_labels(ps: Seq<(Option<String>, Option<String>)>) -> Seq<LabelEntry>
    decreases ps.len(),
{
    if ps.len() == 0 {
        Seq::<LabelEntry>::empty()
    } else {
        let prev = spec_collect_labels(ps.drop_last());
        match ps.last() {
            (Some(name), Some(id)) => spec_label_put(prev, LabelEntry { name: name, id: id }),
            _ => prev,
        }
    }
}

/// Builds the directory from the (name, identifier) pairs a label listing
/// yields, passing over any pair missing either half.
pub fn collect_labels(pairs: Vec<(Option<String>, Option<String>)>) -> (r: LabelDirectory)
    ensures
        r.wf(),
        r.entries_seq() == spec_collect_labels(pairs@),
{
    let mut dir = LabelDirectory::new();
    let n = pairs.len();
    let mut i: usize = 0;
    proof {
        assert(pairs@.take(0) =~= Seq::<(Option<String>, Option<String>)>::empty());
    }
    while i < n
        invariant
            i <= n,
            n == pairs@.len(),
            dir.wf(),
            dir.entries_seq() == spec_collect_labels(pairs@.take(i as int)),
            dir.entries_seq().len() <= i,
        decreases n - i,
    {
        proof {
            assert(pairs@.take(i as int + 1).drop_last() =~= pairs@.take(i as int));
            assert(pairs@.take(i as int + 1).last() == pairs@[i as int]);
        }
        let pair = &pairs[i];
        if let (Some(name), Some(id)) = (&pair.0, &pair.1) {
            dir.insert(name.clone(), id.clone());
            proof {
                assert(dir.entries_seq().len() <= i + 1) by {
                    lemma_label_put_len(
                        spec_collect_labels(pairs@.take(i as int)),
                        LabelEntry { name: *name, id: *id },
                    );
                }
            }
        }
        i = i + 1;
    }
    proof {
        assert(pairs@.take(n as int) =~= pairs@);
    }
    dir
}

/// Filing grows the directory by at most one entry.
proof fn lemma_label_put_len(s: Seq<LabelEntry>, e: LabelEntry)
    ensures
        spec_label_put(s, e).len() <= s.len() + 1,
    decreases s.len(),
{
    if s.len() > 0 && lex_lt(s.first().name@, e.name@) {
        lemma_label_put_len(s.drop_first(), e);
    }
}

} // verus!
