//! A table from strings to strings, in the order its keys were first
//! given: the grammar's lexemes with their categories, and the symbol table
//! of a program with the values of its variables.
use vstd::prelude::*;

use crate::text::{chars_of, contains_piece, has_piece, push_char};

verus! {

/// The category that the first entry with key `k` gives it, if any.
pub open spec fn first_match(s: Seq<(Seq<char>, Seq<char>)>, k: Seq<char>) -> Option<Seq<char>>
    decreases s.len(),
{
    if s.len() == 0 {
        None
    } else if s[0].0 == k {
        Some(s[0].1)
    } else {
        first_match(s.drop_first(), k)
    }
}

/// Whether the grammar classifies `elem` in a category whose name holds
/// `kind` (as `"ASSIGN_OPERATOR"` holds `"OPERATOR"`).
pub open spec fn is_of_kind(g: Map<Seq<char>, Seq<char>>, elem: Seq<char>, kind: Seq<char>) -> bool {
    g.contains_key(elem) && has_piece(g[elem], kind)
}

/// A map from strings to strings that keeps its entries in the order their
/// keys were first inserted; the first entry of a key is the one that counts.
#[derive(Debug)]
pub struct StringTable {
    entries: Vec<(String, String)>,
}

impl StringTable {
    /// The entries, each taken by its views.
    pub closed spec fn pairs(&self) -> Seq<(Seq<char>, Seq<char>)> {
        self.entries@.map_values(|e: (String, String)| (e.0@, e.1@))
    }
}

impl View for StringTable {
    type V = Map<Seq<char>, Seq<char>>;

    closed spec fn view(&self) -> Map<Seq<char>, Seq<char>> {
        table_map(self.pairs())
    }
}

/// No key occurs in two entries.
pub open spec fn distinct_keys(s: Seq<(Seq<char>, Seq<char>)>) -> bool {
    forall|a: int, b: int| 0 <= a < b < s.len() ==> #[trigger] s[a].0 != #[trigger] s[b].0
}

proof fn lemma_first_match_found(s: Seq<(Seq<char>, Seq<char>)>, i: int, k: Seq<char>)
    requires
        0 <= i < s.len(),
        s[i].0 == k,
        forall|j: int| 0 <= j < i ==> s[j].0 != k,
    ensures
        first_match(s, k) == Some(s[i].1),
    decreases i,
{
    if i > 0 {
        assert forall|j: int| 0 <= j < i - 1 implies s.drop_first()[j].0 != k by {
            assert(s.drop_first()[j] == s[j + 1]);
        }
        lemma_first_match_found(s.drop_first(), i - 1, k);
    }
}

/// The map that a list of entries stands for.
pub open spec fn table_map(s: Seq<(Seq<char>, Seq<char>)>) -> Map<Seq<char>, Seq<char>> {
    Map::new(|k: Seq<char>| first_match(s, k) is Some, |k: Seq<char>| first_match(s, k)->0)
}

proof fn lemma_table_map_insert(
    s_new: Seq<(Seq<char>, Seq<char>)>,
    s_old: Seq<(Seq<char>, Seq<char>)>,
    k: Seq<char>,
    v: Seq<char>,
)
    requires
        forall|x: Seq<char>| #[trigger]
            first_match(s_new, x) == if x == k {
                Some(v)
            } else {
                first_match(s_old, x)
            },
    ensures
        table_map(s_new) == table_map(s_old).insert(k, v),
{
    assert forall|x: Seq<char>| #[trigger] table_map(s_new).contains_key(x) == table_map(
        s_old,
    ).insert(k, v).contains_key(x) by {
        assert(first_match(s_new, x) == if x == k {
            Some(v)
        } else {
            first_match(s_old, x)
        });
    }
    assert forall|x: Seq<char>| table_map(s_new).contains_key(x) implies #[trigger] table_map(
        s_new,
    )[x] == table_map(s_old).insert(k, v)[x] by {
        assert(first_match(s_new, x) == if x == k {
            Some(v)
        } else {
            first_match(s_old, x)
        });
    }
    assert(table_map(s_new) =~= table_map(s_old).insert(k, v));
}

proof fn lemma_first_match_push(s: Seq<(Seq<char>, Seq<char>)>, k: Seq<char>, v: Seq<char>, x: Seq<char>)
    requires
        first_match(s, k) is None,
    ensures
        first_match(s.push((k, v)), x) == if x == k {
            Some(v)
        } else {
            first_match(s, x)
        },
    decreases s.len(),
{
    if s.len() == 0 {
        assert(s.push((k, v)).drop_first() =~= Seq::<(Seq<char>, Seq<char>)>::empty());
    } else {
        assert(s.push((k, v)).drop_first() =~= s.drop_first().push((k, v)));
        lemma_first_match_push(s.drop_first(), k, v, x);
    }
}

proof fn lemma_first_match_update(
    s: Seq<(Seq<char>, Seq<char>)>,
    i: int,
    k: Seq<char>,
    v: Seq<char>,
    x: Seq<char>,
)
    requires
        0 <= i < s.len(),
        s[i].0 == k,
        forall|j: int| 0 <= j < i ==> s[j].0 != k,
    ensures
        first_match(s.update(i, (k, v)), x) == if x == k {
            Some(v)
        } else {
            first_match(s, x)
        },
    decreases s.len(),
{
    if i > 0 {
        assert(s.update(i, (k, v)).drop_first() =~= s.drop_first().update(i - 1, (k, v)));
        assert(s[0].0 != k);
        assert forall|j: int| 0 <= j < i - 1 implies s.drop_first()[j].0 != k by {
            assert(s.drop_first()[j] == s[j + 1]);
        }
        lemma_first_match_update(s.drop_first(), i - 1, k, v, x);
    } else {
        assert(s.update(i, (k, v)).drop_first() =~= s.drop_first());
    }
}

/// The index of the first entry with key `k`, if any.
pub open spec fn key_index(s: Seq<(Seq<char>, Seq<char>)>, k: Seq<char>) -> Option<nat>
    decreases s.len(),
{
    if s.len() == 0 {
        None
    } else if s[0].0 == k {
        Some(0)
    } else {
        match key_index(s.drop_first(), k) {
            Some(i) => Some(i + 1),
            None => None,
        }
    }
}

/// The entries after giving `k` the value `v`: the first entry of `k`
/// changed in place, or a new entry at the end.
pub open spec fn pairs_insert(s: Seq<(Seq<char>, Seq<char>)>, k: Seq<char>, v: Seq<char>) -> Seq<
    (Seq<char>, Seq<char>),
> {
    match key_index(s, k) {
        Some(i) => s.update(i as int, (k, v)),
        None => s.push((k, v)),
    }
}

proof fn lemma_key_index_found(s: Seq<(Seq<char>, Seq<char>)>, i: int, k: Seq<char>)
    requires
        0 <= i < s.len(),
        s[i].0 == k,
        forall|j: int| 0 <= j < i ==> s[j].0 != k,
    ensures
        key_index(s, k) == Some(i as nat),
    decreases s.len(),
{
    if i > 0 {
        assert forall|j: int| 0 <= j < i - 1 implies s.drop_first()[j].0 != k by {
            assert(s.drop_first()[j] == s[j + 1]);
        }
        assert(s[0].0 != k);
        lemma_key_index_found(s.drop_first(), i - 1, k);
    }
}

proof fn lemma_key_index_none(s: Seq<(Seq<char>, Seq<char>)>, k: Seq<char>)
    requires
        forall|j: int| 0 <= j < s.len() ==> s[j].0 != k,
    ensures
        key_index(s, k) is None,
    decreases s.len(),
{
    if s.len() > 0 {
        assert(s[0].0 != k);
        assert forall|j: int| 0 <= j < s.drop_first().len() implies s.drop_first()[j].0 != k by {
            assert(s.drop_first()[j] == s[j + 1]);
        }
        lemma_key_index_none(s.drop_first(), k);
    }
}

impl StringTable {
    /// An empty table.
    pub fn new() -> (r: StringTable)
        ensures
            r@ == Map::<Seq<char>, Seq<char>>::empty(),
            r.pairs() == Seq::<(Seq<char>, Seq<char>)>::empty(),
    {
        let r = StringTable { entries: Vec::new() };
        assert(r@ =~= Map::<Seq<char>, Seq<char>>::empty());
        assert(r.pairs() =~= Seq::<(Seq<char>, Seq<char>)>::empty());
        r
    }

    /// Gives `key` the category `value`, in place of any it had.
    pub fn insert(&mut self, key: String, value: String)
        ensures
            final(self)@ == old(self)@.insert(key@, value@),
            final(self).pairs() == pairs_insert(old(self).pairs(), key@, value@),
            old(self)@.contains_key(key@) ==> final(self).pairs().len() == old(self).pairs().len(),
            !old(self)@.contains_key(key@) ==> final(self).pairs().len() == old(self).pairs().len() + 1,
            distinct_keys(old(self).pairs()) ==> distinct_keys(final(self).pairs()),
    {
        let ghost old_pairs = self.pairs();
        let mut i: usize = 0;
        while i < self.entries.len()
            invariant
                i <= self.entries.len(),
                self.pairs() == old_pairs,
                old_pairs == old(self).pairs(),
                forall|j: int| 0 <= j < i ==> old_pairs[j].0 != key@,
            decreases self.entries.len() - i,
        {
            if self.entries[i].0 == key {
                let ghost kv = key@;
                let ghost vv = value@;
                self.entries.set(i, (key, value));
                proof {
                    assert(self.pairs() =~= old_pairs.update(i as int, (kv, vv)));
                    lemma_key_index_found(old_pairs, i as int, kv);
                    assert forall|x: Seq<char>| #[trigger]
                        first_match(self.pairs(), x) == if x == kv {
                            Some(vv)
                        } else {
                            first_match(old_pairs, x)
                        } by {
                        lemma_first_match_update(old_pairs, i as int, kv, vv, x);
                    }
                    lemma_table_map_insert(self.pairs(), old_pairs, kv, vv);
                    lemma_first_match_found(old_pairs, i as int, kv);
                    assert forall|a: int, b: int| 0 <= a < b < self.pairs().len() implies #[trigger] self.pairs()[a].0
                        != #[trigger] self.pairs()[b].0 || !distinct_keys(old_pairs) by {
                        assert(self.pairs()[a].0 == old_pairs[a].0);
                        assert(self.pairs()[b].0 == old_pairs[b].0);
                    }
                }
                return ;
            }
            i += 1;
        }
        let ghost kv = key@;
        let ghost vv = value@;
        proof {
            assert forall|j: int| 0 <= j < old_pairs.len() implies old_pairs[j].0 != kv by {}
            assert(first_match(old_pairs, kv) is None) by {
                lemma_no_match(old_pairs, kv);
            }
            lemma_key_index_none(old_pairs, kv);
        }
        self.entries.push((key, value));
        proof {
            assert(self.pairs() =~= old_pairs.push((kv, vv)));
            assert forall|x: Seq<char>| #[trigger]
                first_match(self.pairs(), x) == if x == kv {
                    Some(vv)
                } else {
                    first_match(old_pairs, x)
                } by {
                lemma_first_match_push(old_pairs, kv, vv, x);
            }
            lemma_table_map_insert(self.pairs(), old_pairs, kv, vv);
            assert forall|a: int, b: int| 0 <= a < b < self.pairs().len() implies #[trigger] self.pairs()[a].0
                != #[trigger] self.pairs()[b].0 || !distinct_keys(old_pairs) by {
                if b == old_pairs.len() {
                    assert(self.pairs()[a].0 == old_pairs[a].0);
                }
            }
        }
    }

    /// The number of entries.
    pub fn len(&self) -> (r: usize)
        ensures
            r == self.pairs().len(),
    {
        self.entries.len()
    }

    /// The key and value of entry `i`.
    pub fn entry_at(&self, i: usize) -> (r: (&String, &String))
        requires
            i < self.pairs().len(),
        ensures
            r.0@ == self.pairs()[i as int].0,
            r.1@ == self.pairs()[i as int].1,
    {
        (&self.entries[i].0, &self.entries[i].1)
    }

    /// The value of `key`, if it has one.
    pub fn get(&self, key: &String) -> (r: Option<&String>)
        ensures
            r is Some <==> self@.contains_key(key@),
            r matches Some(v) ==> v@ == self@[key@],
            r is Some <==> first_match(self.pairs(), key@) is Some,
            r matches Some(v) ==> first_match(self.pairs(), key@) == Some(v@),
    {
        let mut i: usize = 0;
        assert(self.pairs().skip(0) =~= self.pairs());
        while i < self.entries.len()
            invariant
                i <= self.entries.len(),
                first_match(self.pairs(), key@) == first_match(self.pairs().skip(i as int), key@),
            decreases self.entries.len() - i,
        {
            assert(self.pairs().skip(i as int).drop_first() =~= self.pairs().skip(i + 1));
            if self.entries[i].0 == *key {
                return Some(&self.entries[i].1);
            }
            i += 1;
        }
        None
    }

    /// Whether `element` belongs to a category whose name holds `type_of`.
    pub fn is_of_type(&self, element: &String, type_of: &str) -> (r: bool)
        ensures
            r == is_of_kind(self@, element@, type_of@),
    {
        match self.get(element) {
            Some(category) => {
                let hay = chars_of(category.as_str());
                let needle = chars_of(type_of);
                contains_piece(&hay, &needle)
            },
            None => false,
        }
    }

    /// Whether the one-character lexeme `c` is classified exactly as `category`.
    pub fn char_is(&self, c: char, category: &str) -> (r: bool)
        ensures
            r == (self@.contains_key(seq![c]) && self@[seq![c]] == category@),
    {
        let mut key = String::new();
        push_char(&mut key, c);
        assert(key@ =~= seq![c]);
        match self.get(&key) {
            Some(v) => {
                let expected = String::from_str(category);
                *v == expected
            },
            None => false,
        }
    }

    /// Whether the one-character lexeme `c` belongs to a category whose name
    /// holds `type_of`.
    pub fn char_is_of_type(&self, c: char, type_of: &str) -> (r: bool)
        ensures
            r == is_of_kind(self@, seq![c], type_of@),
    {
        let mut key = String::new();
        push_char(&mut key, c);
        assert(key@ =~= seq![c]);
        self.is_of_type(&key, type_of)
    }
}

impl Clone for StringTable {
    fn clone(&self) -> (r: Self)
        ensures
            r@ == self@,
            r.pairs() == self.pairs(),
    {
        let mut entries: Vec<(String, String)> = Vec::new();
        let mut i: usize = 0;
        while i < self.entries.len()
            invariant
                i <= self.entries.len(),
                entries@.len() == i,
                forall|j: int|
                    0 <= j < i ==> (#[trigger] entries@[j]).0@ == self.entries@[j].0@
                        && entries@[j].1@ == self.entries@[j].1@,
            decreases self.entries.len() - i,
        {
            let k = self.entries[i].0.clone();
            let v = self.entries[i].1.clone();
            entries.push((k, v));
            i += 1;
        }
        let r = StringTable { entries };
        assert(r.pairs() =~= self.pairs());
        r
    }
}

proof fn lemma_no_match(s: Seq<(Seq<char>, Seq<char>)>, k: Seq<char>)
    requires
        forall|j: int| 0 <= j < s.len() ==> s[j].0 != k,
    ensures
        first_match(s, k) is None,
    decreases s.len(),
{
    if s.len() > 0 {
        assert(s[0].0 != k);
        assert forall|j: int| 0 <= j < s.drop_first().len() implies s.drop_first()[j].0 != k by {
            assert(s.drop_first()[j] == s[j + 1]);
        }
        lemma_no_match(s.drop_first(), k);
    }
}


proof fn lemma_key_index_facts(s: Seq<(Seq<char>, Seq<char>)>, k: Seq<char>)
    ensures
        key_index(s, k) matches Some(i) ==> {
            &&& i < s.len()
            &&& s[i as int].0 == k
            &&& forall|j: int| 0 <= j < i ==> s[j].0 != k
        },
        key_index(s, k) is None ==> first_match(s, k) is None,
    decreases s.len(),
{
    if s.len() > 0 && s[0].0 != k {
        lemma_key_index_facts(s.drop_first(), k);
        if let Some(i) = key_index(s.drop_first(), k) {
            assert forall|j: int| 0 <= j < i + 1 implies s[j].0 != k by {
                if j > 0 {
                    assert(s[j] == s.drop_first()[j - 1]);
                }
            }
        }
    }
}

/// What a table gives back after an insertion: the inserted key gives the
/// inserted value, every other key what it gave before.
pub proof fn law_insert_then_lookup(
    s: Seq<(Seq<char>, Seq<char>)>,
    k: Seq<char>,
    v: Seq<char>,
    x: Seq<char>,
)
    ensures
        first_match(pairs_insert(s, k, v), x) == if x == k {
            Some(v)
        } else {
            first_match(s, x)
        },
{
    lemma_key_index_facts(s, k);
    match key_index(s, k) {
        Some(i) => {
            lemma_first_match_update(s, i as int, k, v, x);
        },
        None => {
            lemma_first_match_push(s, k, v, x);
        },
    }
}

/// A table without repeated keys has one entry per key of its map, and
/// its map has finitely many keys.
pub proof fn law_entries_are_keys(t: &StringTable)
    requires
        distinct_keys(t.pairs()),
    ensures
        t@.dom().finite(),
        t@.dom().len() == t.pairs().len(),
{
    lemma_entries_are_keys(t.pairs());
}

proof fn lemma_entries_are_keys(s: Seq<(Seq<char>, Seq<char>)>)
    requires
        distinct_keys(s),
    ensures
        table_map(s).dom().finite(),
        table_map(s).dom().len() == s.len(),
    decreases s.len(),
{
    if s.len() == 0 {
        assert(table_map(s).dom() =~= Set::<Seq<char>>::empty());
    } else {
        let p = s.drop_last();
        let (k, v) = s.last();
        assert(distinct_keys(p)) by {
            assert forall|a: int, b: int| 0 <= a < b < p.len() implies #[trigger] p[a].0
                != #[trigger] p[b].0 by {
                assert(p[a] == s[a] && p[b] == s[b]);
            }
        }
        lemma_entries_are_keys(p);
        assert forall|j: int| 0 <= j < p.len() implies p[j].0 != k by {
            assert(p[j] == s[j]);
            assert(s[s.len() - 1] == (k, v));
        }
        assert(first_match(p, k) is None) by {
            lemma_no_match(p, k);
        }
        assert(s =~= p.push((k, v)));
        assert forall|x: Seq<char>| #[trigger]
            first_match(s, x) == if x == k {
                Some(v)
            } else {
                first_match(p, x)
            } by {
            lemma_first_match_push(p, k, v, x);
        }
        lemma_table_map_insert(s, p, k, v);
        assert(!table_map(p).dom().contains(k));
        assert(table_map(s).dom() =~= table_map(p).dom().insert(k));
    }
}

/// A property that holds of every value of a list of entries, and of `v`,
/// holds of every value after `k` is given `v`.
pub proof fn lemma_pairs_insert_values(
    s: Seq<(Seq<char>, Seq<char>)>,
    k: Seq<char>,
    v: Seq<char>,
    p: spec_fn(Seq<char>) -> bool,
)
    requires
        forall|j: int| 0 <= j < s.len() ==> p(#[trigger] s[j].1),
        p(v),
    ensures
        forall|j: int|
            0 <= j < pairs_insert(s, k, v).len() ==> p(#[trigger] pairs_insert(s, k, v)[j].1),
{
    lemma_key_index_facts(s, k);
    let r = pairs_insert(s, k, v);
    assert forall|j: int| 0 <= j < r.len() implies p(#[trigger] r[j].1) by {
        match key_index(s, k) {
            Some(i) => {
                if j != i {
                    assert(r[j] == s[j]);
                }
            },
            None => {
                if j < s.len() {
                    assert(r[j] == s[j]);
                }
            },
        }
    }
}

} // verus!
