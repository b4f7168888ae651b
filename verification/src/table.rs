//! The table that maps characters to code words.
//!
//! A `CodeWordTable` models a finite map from a character key to the code
//! word stored for it. The entries are kept sorted by the dump order
//! (letters before digits before symbols, scalar order within a group), so
//! keys are unique and dumping is a single pass.

use vstd::prelude::*;

use crate::chars::{
    char_is_alphabetic, char_lt, custom_char_ordering, is_alphabetic_of, lemma_char_lt_transitive,
    push_char,
};

verus! {

/// A mapping from single characters to code-word strings.
pub struct CodeWordTable {
    entries: Vec<(char, String)>,
}

/// The finite map described by a run of entries; a later entry for the same
/// key wins.
spec fn entries_map(s: Seq<(char, String)>) -> Map<char, Seq<char>>
    decreases s.len(),
{
    if s.len() == 0 {
        Map::empty()
    } else {
        entries_map(s.drop_last()).insert(s.last().0, s.last().1@)
    }
}

/// Entry keys are strictly ascending in the dump order.
spec fn entries_sorted(s: Seq<(char, String)>) -> bool {
    forall|i: int, j: int| 0 <= i < j < s.len() ==> char_lt(#[trigger] s[i].0, #[trigger] s[j].0)
}

proof fn lemma_entries_map_dom(s: Seq<(char, String)>)
    ensures
        forall|k: char| #[trigger]
            entries_map(s).dom().contains(k) <==> exists|i: int| 0 <= i < s.len() && (#[trigger] s[i]).0 == k,
    decreases s.len(),
{
    if s.len() > 0 {
        lemma_entries_map_dom(s.drop_last());
        assert forall|k: char| entries_map(s).dom().contains(k) implies exists|i: int|
            0 <= i < s.len() && (#[trigger] s[i]).0 == k by {
            if k == s.last().0 {
                assert(s[s.len() - 1].0 == k);
            } else {
                assert(entries_map(s.drop_last()).dom().contains(k));
                let i = choose|i: int| 0 <= i < s.drop_last().len() && (#[trigger] s.drop_last()[i]).0 == k;
                assert(s[i].0 == k);
            }
        }
        assert forall|k: char| (exists|i: int| 0 <= i < s.len() && (#[trigger] s[i]).0 == k)
            implies entries_map(s).dom().contains(k) by {
            let i = choose|i: int| 0 <= i < s.len() && (#[trigger] s[i]).0 == k;
            if i < s.len() - 1 {
                assert(s.drop_last()[i].0 == k);
                assert(entries_map(s.drop_last()).dom().contains(k));
                assert(entries_map(s) == entries_map(s.drop_last()).insert(s.last().0, s.last().1@));
            } else {
                assert(s.last().0 == k);
            }
        }
    }
}

proof fn lemma_entries_map_index(s: Seq<(char, String)>, i: int)
    requires
        0 <= i < s.len(),
        forall|j: int| i < j < s.len() ==> (#[trigger] s[j]).0 != s[i].0,
    ensures
        entries_map(s).dom().contains(s[i].0),
        entries_map(s)[s[i].0] == s[i].1@,
    decreases s.len(),
{
    if i == s.len() - 1 {
    } else {
        assert(forall|j: int| i < j < s.drop_last().len() ==> (#[trigger] s.drop_last()[j]).0 != s[i].0);
        lemma_entries_map_index(s.drop_last(), i);
        assert(s.last().0 != s[i].0);
    }
}

proof fn lemma_entries_map_insert_mid(s1: Seq<(char, String)>, p: (char, String), s2: Seq<(char, String)>)
    requires
        forall|j: int| 0 <= j < s2.len() ==> (#[trigger] s2[j]).0 != p.0,
    ensures
        entries_map(s1 + seq![p] + s2) == entries_map(s1 + s2).insert(p.0, p.1@),
    decreases s2.len(),
{
    if s2.len() == 0 {
        assert(s1 + seq![p] + s2 =~= (s1 + seq![p]));
        assert(s1 + s2 =~= s1);
        assert((s1 + seq![p]).drop_last() =~= s1);
        assert((s1 + seq![p]).last() == p);
    } else {
        lemma_entries_map_insert_mid(s1, p, s2.drop_last());
        let a = s1 + seq![p] + s2;
        let b = s1 + s2;
        assert(a.drop_last() =~= s1 + seq![p] + s2.drop_last());
        assert(b.drop_last() =~= s1 + s2.drop_last());
        assert(a.last() == s2.last());
        assert(b.last() == s2.last());
        assert(entries_map(a) == entries_map(s1 + s2.drop_last()).insert(p.0, p.1@).insert(
            s2.last().0,
            s2.last().1@,
        ));
        assert(s2.last().0 != p.0);
        assert(entries_map(s1 + s2.drop_last()).insert(p.0, p.1@).insert(s2.last().0, s2.last().1@)
            =~= entries_map(s1 + s2.drop_last()).insert(s2.last().0, s2.last().1@).insert(p.0, p.1@));
    }
}

proof fn lemma_entries_map_len(s: Seq<(char, String)>)
    requires
        forall|i: int, j: int| 0 <= i < j < s.len() ==> (#[trigger] s[i]).0 != (#[trigger] s[j]).0,
    ensures
        entries_map(s).dom().finite(),
        entries_map(s).dom().len() == s.len(),
    decreases s.len(),
{
    if s.len() > 0 {
        lemma_entries_map_len(s.drop_last());
        lemma_entries_map_dom(s.drop_last());
        assert(!entries_map(s.drop_last()).dom().contains(s.last().0)) by {
            if entries_map(s.drop_last()).dom().contains(s.last().0) {
                let i = choose|i: int|
                    0 <= i < s.drop_last().len() && (#[trigger] s.drop_last()[i]).0 == s.last().0;
                assert(s[i].0 == s[s.len() - 1].0);
            }
        }
        assert(entries_map(s).dom() =~= entries_map(s.drop_last()).dom().insert(s.last().0));
    }
}

impl CodeWordTable {
    #[verifier::type_invariant]
    spec fn wf(self) -> bool {
        entries_sorted(self.entries@)
    }

    proof fn lemma_keys_unique(self)
        requires
            self.wf(),
        ensures
            forall|i: int, j: int|
                0 <= i < j < self.entries@.len() ==> (#[trigger] self.entries@[i]).0 != (
                #[trigger] self.entries@[j]).0,
    {
        assert forall|i: int, j: int| 0 <= i < j < self.entries@.len() implies (
        #[trigger] self.entries@[i]).0 != (#[trigger] self.entries@[j]).0 by {
            assert(char_lt(self.entries@[i].0, self.entries@[j].0));
        }
    }

    /// Creates an empty table.
    pub fn new() -> (r: Self)
        ensures
            r@ == Map::<char, Seq<char>>::empty(),
    {
        CodeWordTable { entries: Vec::new() }
    }

    /// The number of characters the table has a code word for.
    pub fn len(&self) -> (n: usize)
        ensures
            n == self@.dom().len(),
    {
        proof {
            use_type_invariant(self);
            self.lemma_keys_unique();
            lemma_entries_map_len(self.entries@);
        }
        self.entries.len()
    }

    /// Looks up the code word stored for a character key.
    pub fn get(&self, key: char) -> (r: Option<&String>)
        ensures
            match r {
                Some(w) => self@.dom().contains(key) && w@ == self@[key],
                None => !self@.dom().contains(key),
            },
    {
        proof {
            use_type_invariant(self);
        }
        let n = self.entries.len();
        let mut i: usize = 0;
        while i < n
            invariant
                i <= n,
                n == self.entries@.len(),
                self.wf(),
                forall|j: int| 0 <= j < i ==> (#[trigger] self.entries@[j]).0 != key,
            decreases n - i,
        {
            let e = &self.entries[i];
            if e.0 == key {
                proof {
                    self.lemma_keys_unique();
                    lemma_entries_map_index(self.entries@, i as int);
                }
                return Some(&e.1);
            }
            i += 1;
        }
        proof {
            lemma_entries_map_dom(self.entries@);
        }
        None
    }

    /// The position where `key` is stored or would be inserted.
    fn find_pos(&self, key: char) -> (r: (usize, bool))
        ensures
            r.0 <= self.entries@.len(),
            forall|j: int| 0 <= j < r.0 ==> char_lt((#[trigger] self.entries@[j]).0, key),
            r.1 ==> r.0 < self.entries@.len() && self.entries@[r.0 as int].0 == key,
            !r.1 ==> r.0 == self.entries@.len() || char_lt(key, self.entries@[r.0 as int].0),
    {
        let n = self.entries.len();
        let mut i: usize = 0;
        while i < n
            invariant
                i <= n,
                n == self.entries@.len(),
                forall|j: int| 0 <= j < i ==> char_lt((#[trigger] self.entries@[j]).0, key),
            decreases n - i,
        {
            let c = self.entries[i].0;
            match custom_char_ordering(c, key) {
                core::cmp::Ordering::Less => {
                    i += 1;
                },
                core::cmp::Ordering::Equal => {
                    return (i, true);
                },
                core::cmp::Ordering::Greater => {
                    return (i, false);
                },
            }
        }
        (i, false)
    }

    /// Adds or replaces the code word for a character key.
    #[verifier::rlimit(50)]
    pub fn insert(&mut self, key: char, word: String)
        ensures
            final(self)@ == old(self)@.insert(key, word@),
    {
        proof {
            use_type_invariant(&*self);
        }
        let ghost s0 = self.entries@;
        let (i, found) = self.find_pos(key);
        let ghost gi = i as int;
        let mut es: Vec<(char, String)> = Vec::new();
        std::mem::swap(&mut es, &mut self.entries);
        if found {
            es.remove(i);
        }
        let ghost mid = es@;
        proof {
            if found {
                assert(mid =~= s0.subrange(0, gi) + s0.subrange(gi + 1, s0.len() as int));
            } else {
                assert(mid =~= s0);
            }
            // every key at or after the insertion point is greater than `key`,
            // every key before it is less
            assert forall|j: int| gi <= j < mid.len() implies char_lt(key, (#[trigger] mid[j]).0) by {
                if found {
                    assert(mid[j] == s0[j + 1]);
                    assert(char_lt(s0[gi].0, s0[j + 1].0));
                } else {
                    assert(char_lt(key, s0[gi].0));
                    if j > gi {
                        lemma_char_lt_transitive(key, s0[gi].0, s0[j].0);
                    }
                }
            }
            assert forall|j: int| 0 <= j < gi implies char_lt((#[trigger] mid[j]).0, key) by {
                assert(mid[j] == s0[j]);
            }
            assert(entries_sorted(mid)) by {
                assert forall|a: int, b: int| 0 <= a < b < mid.len() implies char_lt(
                    (#[trigger] mid[a]).0,
                    (#[trigger] mid[b]).0,
                ) by {
                    if found {
                        let a0 = if a < gi { a } else { a + 1 };
                        let b0 = if b < gi { b } else { b + 1 };
                        assert(mid[a] == s0[a0] && mid[b] == s0[b0]);
                    }
                }
            }
        }
        es.insert(i, (key, word));
        proof {
            let s1 = es@;
            let pre = mid.subrange(0, gi);
            let post = mid.subrange(gi, mid.len() as int);
            assert(s1 =~= pre + seq![(key, word)] + post);
            assert(entries_sorted(s1)) by {
                assert forall|a: int, b: int| 0 <= a < b < s1.len() implies char_lt(
                    (#[trigger] s1[a]).0,
                    (#[trigger] s1[b]).0,
                ) by {
                    let a0 = if a < gi { a } else { a - 1 };
                    let b0 = if b < gi { b } else { b - 1 };
                    if a == gi {
                        assert(s1[b] == mid[b0] && char_lt(key, mid[b0].0));
                    } else if b == gi {
                        assert(s1[a] == mid[a0] && char_lt(mid[a0].0, key));
                    } else {
                        assert(s1[a] == mid[a0] && s1[b] == mid[b0]);
                    }
                }
            }
            // inserting the pair at its sorted place inserts into the map
            assert forall|j: int| 0 <= j < post.len() implies (#[trigger] post[j]).0 != key by {
                assert(post[j] == mid[gi + j]);
                assert(char_lt(key, mid[gi + j].0));
            }
            lemma_entries_map_insert_mid(pre, (key, word), post);
            assert(pre + post =~= mid);
            assert(entries_map(s1) == entries_map(mid).insert(key, word@));
            if found {
                // the old run of entries was `mid` with the old pair for `key`
                // standing at the insertion point
                let old_post = s0.subrange(gi + 1, s0.len() as int);
                assert forall|j: int| 0 <= j < old_post.len() implies (#[trigger] old_post[j]).0
                    != key by {
                    assert(old_post[j] == s0[gi + 1 + j]);
                    assert(char_lt(s0[gi].0, s0[gi + 1 + j].0));
                }
                lemma_entries_map_insert_mid(s0.subrange(0, gi), s0[gi], old_post);
                assert(s0.subrange(0, gi) + seq![s0[gi]] + old_post =~= s0);
                assert(s0.subrange(0, gi) + old_post =~= mid);
                assert(entries_map(s0) == entries_map(mid).insert(key, s0[gi].1@));
                assert(entries_map(mid).insert(key, word@) =~= entries_map(mid).insert(
                    key,
                    s0[gi].1@,
                ).insert(key, word@));
            } else {
                assert(entries_map(s1) =~= entries_map(s0).insert(key, word@));
            }
        }
        self.entries = es;
    }
}

impl View for CodeWordTable {
    type V = Map<char, Seq<char>>;

    closed spec fn view(&self) -> Map<char, Seq<char>> {
        entries_map(self.entries@)
    }
}

/// One line of a dump: the character, an arrow, its code word, a newline.
pub open spec fn dump_line(k: char, w: Seq<char>) -> Seq<char> {
    seq![k] + " -> "@ + w + seq!['\n']
}

/// The dump lines for the given keys, in the given order.
pub open spec fn dump_lines(m: Map<char, Seq<char>>, ks: Seq<char>) -> Seq<char>
    decreases ks.len(),
{
    if ks.len() == 0 {
        Seq::empty()
    } else {
        dump_lines(m, ks.drop_last()) + dump_line(ks.last(), m[ks.last()])
    }
}

/// Characters strictly ascending in the dump order.
pub open spec fn strictly_sorted(ks: Seq<char>) -> bool {
    forall|i: int, j: int| 0 <= i < j < ks.len() ==> char_lt(ks[i], ks[j])
}

/// The keys a dump shows: every key when verbose, else only the alphabetic
/// ones.
pub open spec fn dump_key_set(m: Map<char, Seq<char>>, verbose: bool) -> Set<char> {
    m.dom().filter(|k: char| verbose || is_alphabetic_of(k))
}

/// Whether `out` is the dump of `m`: one line per shown key, the keys in
/// strictly ascending dump order.
pub open spec fn is_dump_output(m: Map<char, Seq<char>>, verbose: bool, out: Seq<char>) -> bool {
    exists|ks: Seq<char>|
        {
            &&& strictly_sorted(ks)
            &&& (#[trigger] ks.to_set()) == dump_key_set(m, verbose)
            &&& out == dump_lines(m, ks)
        }
}

proof fn lemma_sorted_key_seq_unique(ks1: Seq<char>, ks2: Seq<char>)
    requires
        strictly_sorted(ks1),
        strictly_sorted(ks2),
        forall|k: char| ks1.contains(k) <==> ks2.contains(k),
    ensures
        ks1 == ks2,
    decreases ks1.len(),
{
    if ks1.len() == 0 {
        if ks2.len() > 0 {
            assert(ks2.contains(ks2[0]));
        }
        assert(ks1 =~= ks2);
    } else {
        assert(ks1.contains(ks1.last()));
        assert(ks2.len() > 0) by {
            if ks2.len() == 0 {
                assert(ks2.contains(ks1.last()));
            }
        }
        let a = ks1.last();
        let b = ks2.last();
        // each last element is the maximum, so they agree
        assert(a == b) by {
            let ia = choose|i: int| 0 <= i < ks2.len() && ks2[i] == a;
            assert(ks2.contains(a));
            let ib = choose|i: int| 0 <= i < ks1.len() && ks1[i] == b;
            assert(ks2.contains(b) && ks1.contains(b));
            if a != b {
                if ia < ks2.len() - 1 {
                    assert(char_lt(ks2[ia], ks2[ks2.len() - 1]));
                }
                if ib < ks1.len() - 1 {
                    assert(char_lt(ks1[ib], ks1[ks1.len() - 1]));
                }
                crate::chars::lemma_char_lt_trichotomy(a, b);
            }
        }
        // a strictly sorted run holds its last element only at the end
        assert forall|k: char| ks1.drop_last().contains(k) implies ks2.drop_last().contains(k) by {
            let i = choose|i: int| 0 <= i < ks1.drop_last().len() && ks1.drop_last()[i] == k;
            assert(ks1[i] == k && char_lt(k, a));
            assert(ks1.contains(k));
            let j = choose|j: int| 0 <= j < ks2.len() && ks2[j] == k;
            assert(j < ks2.len() - 1) by {
                crate::chars::lemma_char_lt_trichotomy(k, a);
            }
            assert(ks2.drop_last()[j] == k);
        }
        assert forall|k: char| ks2.drop_last().contains(k) implies ks1.drop_last().contains(k) by {
            let i = choose|i: int| 0 <= i < ks2.drop_last().len() && ks2.drop_last()[i] == k;
            assert(ks2[i] == k && char_lt(k, b));
            assert(ks2.contains(k));
            let j = choose|j: int| 0 <= j < ks1.len() && ks1[j] == k;
            assert(j < ks1.len() - 1) by {
                crate::chars::lemma_char_lt_trichotomy(k, b);
            }
            assert(ks1.drop_last()[j] == k);
        }
        lemma_sorted_key_seq_unique(ks1.drop_last(), ks2.drop_last());
        assert(ks1 =~= ks1.drop_last().push(a));
        assert(ks2 =~= ks2.drop_last().push(b));
        assert(ks1 =~= ks2);
    }
}

/// Dumping a mapping is deterministic: any two outputs that qualify as a
/// dump of the same mapping, with the same verbosity, are the same text.
/// In particular, dumping twice without changing the table yields identical
/// output, however the table was built.
pub proof fn lemma_dump_deterministic(
    m: Map<char, Seq<char>>,
    verbose: bool,
    out1: Seq<char>,
    out2: Seq<char>,
)
    requires
        is_dump_output(m, verbose, out1),
        is_dump_output(m, verbose, out2),
    ensures
        out1 == out2,
{
    let ks1 = choose|ks: Seq<char>|
        {
            &&& strictly_sorted(ks)
            &&& (#[trigger] ks.to_set()) == dump_key_set(m, verbose)
            &&& out1 == dump_lines(m, ks)
        };
    let ks2 = choose|ks: Seq<char>|
        {
            &&& strictly_sorted(ks)
            &&& (#[trigger] ks.to_set()) == dump_key_set(m, verbose)
            &&& out2 == dump_lines(m, ks)
        };
    assert forall|k: char| ks1.contains(k) <==> ks2.contains(k) by {
        assert(ks1.to_set().contains(k) <==> ks1.contains(k));
        assert(ks2.to_set().contains(k) <==> ks2.contains(k));
    }
    lemma_sorted_key_seq_unique(ks1, ks2);
}

impl CodeWordTable {
    /// Writes one line per entry, `<char> -> <word>`, letters first, then
    /// digits, then symbols, each group in ascending character order.
    /// Non-alphabetic entries are left out unless `verbose` is set.
    pub fn dump(&self, verbose: bool) -> (out: String)
        ensures
            is_dump_output(self@, verbose, out@),
    {
        proof {
            use_type_invariant(self);
            self.lemma_keys_unique();
        }
        let ghost s = self.entries@;
        let mut out = String::new();
        let ghost mut ks: Seq<char> = Seq::empty();
        let n = self.entries.len();
        let mut i: usize = 0;
        while i < n
            invariant
                i <= n,
                n == s.len(),
                s == self.entries@,
                self.wf(),
                strictly_sorted(ks),
                forall|k: char| #[trigger]
                    ks.contains(k) <==> exists|j: int|
                        0 <= j < i && (#[trigger] s[j]).0 == k && (verbose || is_alphabetic_of(k)),
                out@ == dump_lines(self@, ks),
            decreases n - i,
        {
            let e = &self.entries[i];
            let key = e.0;
            let alpha = char_is_alphabetic(key);
            if verbose || alpha {
                push_char(&mut out, key);
                out.append(" -> ");
                out.append(e.1.as_str());
                push_char(&mut out, '\n');
                proof {
                    self.lemma_keys_unique();
                    lemma_entries_map_index(s, i as int);
                    let ks0 = ks;
                    ks = ks.push(key);
                    assert(ks.drop_last() =~= ks0);
                    assert(ks.last() == key);
                    assert(out@ =~= dump_lines(self@, ks0) + dump_line(key, self@[key]));
                    assert(strictly_sorted(ks)) by {
                        assert forall|a: int, b: int| 0 <= a < b < ks.len() implies char_lt(
                            ks[a],
                            ks[b],
                        ) by {
                            if b < ks.len() - 1 {
                                assert(ks0.contains(ks0[a]) && ks0.contains(ks0[b]));
                            } else {
                                assert(ks0.contains(ks0[a]));
                                let j = choose|j: int|
                                    0 <= j < i && (#[trigger] s[j]).0 == ks0[a] && (verbose
                                        || is_alphabetic_of(ks0[a]));
                                assert(char_lt(s[j].0, s[i as int].0));
                            }
                        }
                    }
                    assert forall|k: char| #[trigger] ks.contains(k) implies exists|j: int|
                        0 <= j < i + 1 && (#[trigger] s[j]).0 == k && (verbose
                            || is_alphabetic_of(k)) by {
                        if k == key {
                            assert(s[i as int].0 == k);
                        } else {
                            let x = choose|x: int| 0 <= x < ks.len() && ks[x] == k;
                            assert(ks0[x] == k);
                            assert(ks0.contains(k));
                        }
                    }
                    assert forall|k: char| (exists|j: int|
                        0 <= j < i + 1 && (#[trigger] s[j]).0 == k && (verbose
                            || is_alphabetic_of(k))) implies #[trigger] ks.contains(k) by {
                        let j = choose|j: int|
                            0 <= j < i + 1 && (#[trigger] s[j]).0 == k && (verbose
                                || is_alphabetic_of(k));
                        if j == i {
                            assert(ks[ks.len() - 1] == k);
                        } else {
                            assert(ks0.contains(k));
                            let x = choose|x: int| 0 <= x < ks0.len() && ks0[x] == k;
                            assert(ks[x] == k);
                        }
                    }
                }
            } else {
                proof {
                    assert forall|k: char| #[trigger]
                        ks.contains(k) <==> exists|j: int|
                            0 <= j < i + 1 && (#[trigger] s[j]).0 == k && (verbose
                                || is_alphabetic_of(k)) by {
                        if exists|j: int|
                            0 <= j < i + 1 && (#[trigger] s[j]).0 == k && (verbose
                                || is_alphabetic_of(k)) {
                            let j = choose|j: int|
                                0 <= j < i + 1 && (#[trigger] s[j]).0 == k && (verbose
                                    || is_alphabetic_of(k));
                            assert(j != i);
                        }
                    }
                }
            }
            i += 1;
        }
        proof {
            lemma_entries_map_dom(s);
            assert(ks.to_set() =~= dump_key_set(self@, verbose)) by {
                assert forall|k: char| ks.to_set().contains(k) implies dump_key_set(
                    self@,
                    verbose,
                ).contains(k) by {
                    assert(ks.contains(k));
                }
                assert forall|k: char| dump_key_set(self@, verbose).contains(k) implies ks.to_set()
                    .contains(k) by {
                    assert(self@.dom().contains(k));
                    assert(ks.contains(k));
                }
            }
        }
        out
    }
}

} // verus!
