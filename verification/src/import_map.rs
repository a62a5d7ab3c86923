//! Import maps: the module names that a function body may import, each with
//! the URL it stands for.
use vstd::prelude::*;

use crate::json::pair_views;
use crate::text::{
    lemma_lt_irreflexive, lemma_lt_total, lemma_lt_transitive, lex_lt, str_eq, str_lt,
};

verus! {

/// No two entries have the same key.
pub open spec fn distinct_keys(entries: Seq<(Seq<char>, Seq<char>)>) -> bool {
    forall|i: int, j: int|
        0 <= i < j < entries.len() ==> #[trigger] entries[i].0 != #[trigger] entries[j].0
}

/// The keys stand in their order.
pub open spec fn sorted_keys(entries: Seq<(Seq<char>, Seq<char>)>) -> bool {
    forall|i: int, j: int|
        0 <= i < j < entries.len() ==> lex_lt(#[trigger] entries[i].0, #[trigger] entries[j].0)
}

/// The position of a key.
pub open spec fn key_index(entries: Seq<(Seq<char>, Seq<char>)>, key: Seq<char>) -> Option<int>
    decreases entries.len(),
{
    if entries.len() == 0 {
        None
    } else if entries.last().0 == key {
        Some(entries.len() - 1)
    } else {
        key_index(entries.drop_last(), key)
    }
}

/// The URL of a key.
pub open spec fn lookup(entries: Seq<(Seq<char>, Seq<char>)>, key: Seq<char>) -> Option<Seq<char>> {
    match key_index(entries, key) {
        Some(i) => Some(entries[i].1),
        None => None,
    }
}

/// The entries with one key set: the URL of an old entry of that key changes, a
/// new entry goes to its place in the order of the keys.
pub open spec fn with_entry(
    entries: Seq<(Seq<char>, Seq<char>)>,
    key: Seq<char>,
    url: Seq<char>,
) -> Seq<(Seq<char>, Seq<char>)>
    decreases entries.len(),
{
    if entries.len() == 0 {
        seq![(key, url)]
    } else if entries.last().0 == key {
        entries.drop_last().push((key, url))
    } else if lex_lt(entries.last().0, key) {
        entries.push((key, url))
    } else {
        with_entry(entries.drop_last(), key, url).push(entries.last())
    }
}

/// Is the URL that of some entry?
pub open spec fn has_url(entries: Seq<(Seq<char>, Seq<char>)>, url: Seq<char>) -> bool {
    exists|i: int| 0 <= i < entries.len() && (#[trigger] entries[i]).1 == url
}

/// The map that setting each entry in order builds up.
pub open spec fn collected(list: Seq<(Seq<char>, Seq<char>)>) -> Seq<(Seq<char>, Seq<char>)>
    decreases list.len(),
{
    if list.len() == 0 {
        Seq::empty()
    } else {
        with_entry(collected(list.drop_last()), list.last().0, list.last().1)
    }
}

/// A key that is found stands where it is said to; one that is not found
/// stands nowhere.
pub proof fn lemma_key_index(entries: Seq<(Seq<char>, Seq<char>)>, key: Seq<char>)
    ensures
        match key_index(entries, key) {
            Some(i) => 0 <= i < entries.len() && entries[i].0 == key,
            None => forall|i: int| 0 <= i < entries.len() ==> (#[trigger] entries[i]).0 != key,
        },
    decreases entries.len(),
{
    if entries.len() > 0 && entries.last().0 != key {
        lemma_key_index(entries.drop_last(), key);
        assert forall|i: int| 0 <= i < entries.len() && key_index(entries, key) is None implies (
        #[trigger] entries[i]).0 != key by {
            if i < entries.len() - 1 {
                assert(entries.drop_last()[i] == entries[i]);
            }
        }
    }
}

/// A key that stands at `i` is found at `i`, where keys are distinct.
pub proof fn lemma_key_index_at(entries: Seq<(Seq<char>, Seq<char>)>, i: int)
    requires
        distinct_keys(entries),
        0 <= i < entries.len(),
    ensures
        key_index(entries, entries[i].0) == Some(i),
{
    lemma_key_index(entries, entries[i].0);
    let found = key_index(entries, entries[i].0)->0;
    if found != i {
        if found < i {
            assert(entries[found].0 != entries[i].0);
        } else {
            assert(entries[i].0 != entries[found].0);
        }
    }
}

/// Keys in order are distinct.
pub proof fn lemma_sorted_keys_distinct(entries: Seq<(Seq<char>, Seq<char>)>)
    requires
        sorted_keys(entries),
    ensures
        distinct_keys(entries),
{
    assert forall|i: int, j: int| 0 <= i < j < entries.len() implies #[trigger] entries[i].0
        != #[trigger] entries[j].0 by {
        lemma_lt_irreflexive(entries[i].0);
        assert(lex_lt(entries[i].0, entries[j].0));
    }
}

/// Setting a key that stands before a bound keeps all keys before it.
proof fn lemma_with_entry_below(
    entries: Seq<(Seq<char>, Seq<char>)>,
    key: Seq<char>,
    url: Seq<char>,
    bound: Seq<char>,
)
    requires
        lex_lt(key, bound),
        forall|i: int| 0 <= i < entries.len() ==> lex_lt((#[trigger] entries[i]).0, bound),
    ensures
        forall|i: int|
            0 <= i < with_entry(entries, key, url).len() ==> lex_lt(
                (#[trigger] with_entry(entries, key, url)[i]).0,
                bound,
            ),
    decreases entries.len(),
{
    if entries.len() > 0 && entries.last().0 != key && !lex_lt(entries.last().0, key) {
        assert forall|i: int| 0 <= i < entries.drop_last().len() implies lex_lt(
            (#[trigger] entries.drop_last()[i]).0,
            bound,
        ) by {
            assert(lex_lt(entries[i].0, bound));
        }
        lemma_with_entry_below(entries.drop_last(), key, url, bound);
    }
    let r = with_entry(entries, key, url);
    assert forall|i: int| 0 <= i < r.len() implies lex_lt((#[trigger] r[i]).0, bound) by {
        if i < entries.len() {
            assert(lex_lt(entries[i].0, bound));
        }
        if entries.len() > 0 {
            assert(lex_lt(entries[entries.len() - 1].0, bound));
            if entries.last().0 != key && !lex_lt(entries.last().0, key) && i < r.len() - 1 {
                assert(r[i] == with_entry(entries.drop_last(), key, url)[i]);
            }
        }
    }
}

/// The URL of a key after one more entry.
proof fn lemma_lookup_push(
    entries: Seq<(Seq<char>, Seq<char>)>,
    entry: (Seq<char>, Seq<char>),
    key: Seq<char>,
)
    ensures
        lookup(entries.push(entry), key) == (if entry.0 == key {
            Some(entry.1)
        } else {
            lookup(entries, key)
        }),
{
    assert(entries.push(entry).drop_last() =~= entries);
    lemma_key_index(entries, key);
}

/// Setting a key keeps the keys in order and changes the URL of that key alone.
pub proof fn law_setting_a_key(
    entries: Seq<(Seq<char>, Seq<char>)>,
    key: Seq<char>,
    url: Seq<char>,
    other: Seq<char>,
)
    requires
        sorted_keys(entries),
    ensures
        sorted_keys(with_entry(entries, key, url)),
        lookup(with_entry(entries, key, url), key) == Some(url),
        other != key ==> lookup(with_entry(entries, key, url), other) == lookup(entries, other),
    decreases entries.len(),
{
    let r = with_entry(entries, key, url);
    if entries.len() == 0 {
        assert(r =~= entries.push((key, url)));
        lemma_lookup_push(entries, (key, url), key);
        lemma_lookup_push(entries, (key, url), other);
    } else {
        let front = entries.drop_last();
        let last = entries.last();
        assert(entries =~= front.push(last));
        lemma_lookup_push(front, last, other);
        lemma_lookup_push(front, last, key);
        assert forall|i: int, j: int| 0 <= i < j < front.len() implies lex_lt(
            #[trigger] front[i].0,
            #[trigger] front[j].0,
        ) by {
            assert(lex_lt(entries[i].0, entries[j].0));
        }
        if last.0 == key {
            lemma_lookup_push(front, (key, url), key);
            lemma_lookup_push(front, (key, url), other);
            assert forall|i: int, j: int| 0 <= i < j < r.len() implies lex_lt(
                #[trigger] r[i].0,
                #[trigger] r[j].0,
            ) by {
                assert(lex_lt(entries[i].0, entries[j].0));
            }
        } else if lex_lt(last.0, key) {
            lemma_lookup_push(entries, (key, url), key);
            lemma_lookup_push(entries, (key, url), other);
            assert forall|i: int, j: int| 0 <= i < j < r.len() implies lex_lt(
                #[trigger] r[i].0,
                #[trigger] r[j].0,
            ) by {
                if j < entries.len() {
                    assert(lex_lt(entries[i].0, entries[j].0));
                } else if i < entries.len() - 1 {
                    assert(lex_lt(entries[i].0, entries[entries.len() - 1].0));
                    lemma_lt_transitive(entries[i].0, last.0, key);
                }
            }
        } else {
            let inner = with_entry(front, key, url);
            lemma_lt_total(last.0, key);
            law_setting_a_key(front, key, url, other);
            assert forall|i: int| 0 <= i < front.len() implies lex_lt(
                (#[trigger] front[i]).0,
                last.0,
            ) by {
                assert(lex_lt(entries[i].0, entries[entries.len() - 1].0));
            }
            lemma_with_entry_below(front, key, url, last.0);
            lemma_lookup_push(inner, last, key);
            lemma_lookup_push(inner, last, other);
            assert forall|i: int, j: int| 0 <= i < j < r.len() implies lex_lt(
                #[trigger] r[i].0,
                #[trigger] r[j].0,
            ) by {
                if j < inner.len() {
                    assert(lex_lt(inner[i].0, inner[j].0));
                } else {
                    assert(lex_lt(inner[i].0, last.0));
                }
            }
        }
    }
}

/// The last key of sorted entries is not before a key that is found among them.
proof fn lemma_last_key(entries: Seq<(Seq<char>, Seq<char>)>, key: Seq<char>)
    requires
        sorted_keys(entries),
        lookup(entries, key) is Some,
    ensures
        entries.len() > 0,
        entries.last().0 == key || lex_lt(key, entries.last().0),
{
    lemma_key_index(entries, key);
    let i = key_index(entries, key)->0;
    if i < entries.len() - 1 {
        assert(lex_lt(entries[i].0, entries[entries.len() - 1].0));
    }
}

/// What the keys stand for is all there is to an import map: where two maps give
/// every key the same URL, or none, they are the same.
pub proof fn law_contents_determine_the_map(
    a: Seq<(Seq<char>, Seq<char>)>,
    b: Seq<(Seq<char>, Seq<char>)>,
)
    requires
        sorted_keys(a),
        sorted_keys(b),
        forall|key: Seq<char>| #[trigger] lookup(a, key) == lookup(b, key),
    ensures
        a == b,
    decreases a.len(),
{
    if a.len() == 0 {
        if b.len() > 0 {
            assert(lookup(b, b.last().0) is Some);
            assert(lookup(a, b.last().0) is None);
        }
        assert(a =~= b);
    } else {
        assert(lookup(a, a.last().0) == Some(a.last().1));
        lemma_last_key(b, a.last().0);
        assert(lookup(b, b.last().0) == Some(b.last().1));
        assert(lookup(a, b.last().0) == lookup(b, b.last().0));
        lemma_last_key(a, b.last().0);
        if a.last().0 != b.last().0 {
            lemma_lt_transitive(a.last().0, b.last().0, a.last().0);
            lemma_lt_irreflexive(a.last().0);
        }
        let x = a.drop_last();
        let y = b.drop_last();
        assert(a =~= x.push(a.last()));
        assert(b =~= y.push(b.last()));
        assert forall|i: int, j: int| 0 <= i < j < x.len() implies lex_lt(
            #[trigger] x[i].0,
            #[trigger] x[j].0,
        ) by {
            assert(lex_lt(a[i].0, a[j].0));
        }
        assert forall|i: int, j: int| 0 <= i < j < y.len() implies lex_lt(
            #[trigger] y[i].0,
            #[trigger] y[j].0,
        ) by {
            assert(lex_lt(b[i].0, b[j].0));
        }
        assert forall|key: Seq<char>| #[trigger] lookup(x, key) == lookup(y, key) by {
            lemma_lookup_push(x, a.last(), key);
            lemma_lookup_push(y, b.last(), key);
            assert(lookup(a, key) == lookup(b, key));
            if key == a.last().0 {
                lemma_key_index(x, key);
                lemma_key_index(y, key);
                lemma_sorted_keys_distinct(a);
                lemma_sorted_keys_distinct(b);
                if let Some(i) = key_index(x, key) {
                    assert(a[i].0 != a[a.len() - 1].0);
                }
                if let Some(i) = key_index(y, key) {
                    assert(b[i].0 != b[b.len() - 1].0);
                }
            }
        }
        law_contents_determine_the_map(x, y);
    }
}

/// The order in which two different keys are set does not matter.
pub proof fn law_setting_keys_in_any_order(
    entries: Seq<(Seq<char>, Seq<char>)>,
    a: (Seq<char>, Seq<char>),
    b: (Seq<char>, Seq<char>),
)
    requires
        sorted_keys(entries),
        a.0 != b.0,
    ensures
        with_entry(with_entry(entries, a.0, a.1), b.0, b.1) == with_entry(
            with_entry(entries, b.0, b.1),
            a.0,
            a.1,
        ),
{
    let with_a = with_entry(entries, a.0, a.1);
    let with_b = with_entry(entries, b.0, b.1);
    law_setting_a_key(entries, a.0, a.1, b.0);
    law_setting_a_key(entries, b.0, b.1, a.0);
    law_setting_a_key(with_a, b.0, b.1, a.0);
    law_setting_a_key(with_b, a.0, a.1, b.0);
    assert forall|key: Seq<char>| #[trigger]
        lookup(with_entry(with_a, b.0, b.1), key) == lookup(
            with_entry(with_b, a.0, a.1),
            key,
        ) by {
        law_setting_a_key(entries, a.0, a.1, key);
        law_setting_a_key(entries, b.0, b.1, key);
        law_setting_a_key(with_a, b.0, b.1, key);
        law_setting_a_key(with_b, a.0, a.1, key);
    }
    law_contents_determine_the_map(
        with_entry(with_a, b.0, b.1),
        with_entry(with_b, a.0, a.1),
    );
}

/// An import map. Its entries stand in the order of their keys, no key twice, so
/// that maps with the same contents are the same.
#[derive(Debug, PartialEq, Eq)]
pub struct ImportMap {
    entries: Vec<(String, String)>,
}

impl View for ImportMap {
    type V = Seq<(Seq<char>, Seq<char>)>;

    closed spec fn view(&self) -> Seq<(Seq<char>, Seq<char>)> {
        pair_views(self.entries@)
    }
}

impl ImportMap {
    #[verifier::type_invariant]
    spec fn inv(self) -> bool {
        sorted_keys(pair_views(self.entries@))
    }

    /// The map with no entries.
    pub fn new() -> (r: ImportMap)
        ensures
            r@ == Seq::<(Seq<char>, Seq<char>)>::empty(),
    {
        let r = ImportMap { entries: Vec::new() };
        assert(r@ =~= Seq::<(Seq<char>, Seq<char>)>::empty());
        r
    }

    /// The entries, each a key and its URL.
    pub fn entries(&self) -> (r: &Vec<(String, String)>)
        ensures
            pair_views(r@) == self@,
            sorted_keys(self@),
    {
        proof {
            use_type_invariant(self);
        }
        &self.entries
    }

    fn position(&self, key: &str) -> (r: Option<usize>)
        ensures
            match r {
                Some(i) => key_index(self@, key@) == Some(i as int) && i < self.entries@.len(),
                None => key_index(self@, key@) is None,
            },
    {
        proof {
            use_type_invariant(self);
            lemma_sorted_keys_distinct(self@);
        }
        let mut i: usize = 0;
        while i < self.entries.len()
            invariant
                i <= self.entries@.len(),
                distinct_keys(self@),
                forall|j: int| 0 <= j < i ==> (#[trigger] self@[j]).0 != key@,
            decreases self.entries@.len() - i,
        {
            if str_eq(self.entries[i].0.as_str(), key) {
                proof {
                    lemma_key_index_at(self@, i as int);
                }
                return Some(i);
            }
            i += 1;
        }
        proof {
            lemma_key_index(self@, key@);
        }
        None
    }

    /// The URL of a key.
    pub fn get(&self, key: &str) -> (r: Option<&String>)
        ensures
            match r {
                Some(url) => lookup(self@, key@) == Some(url@),
                None => lookup(self@, key@) is None,
            },
    {
        match self.position(key) {
            Some(i) => Some(&self.entries[i].1),
            None => None,
        }
    }

    /// Sets the URL of a key.
    pub fn insert(&mut self, key: String, url: String)
        ensures
            final(self)@ == with_entry(old(self)@, key@, url@),
    {
        proof {
            use_type_invariant(&*self);
            law_setting_a_key(self@, key@, url@, key@);
        }
        let mut entries: Vec<(String, String)> = Vec::new();
        std::mem::swap(&mut entries, &mut self.entries);
        set_entry(&mut entries, key, url);
        self.entries = entries;
    }

    /// Is the URL that of some entry?
    pub fn contains_url(&self, url: &str) -> (r: bool)
        ensures
            r == has_url(self@, url@),
    {
        let mut i: usize = 0;
        while i < self.entries.len()
            invariant
                i <= self.entries@.len(),
                forall|j: int| 0 <= j < i ==> (#[trigger] self@[j]).1 != url@,
            decreases self.entries@.len() - i,
        {
            if str_eq(self.entries[i].1.as_str(), url) {
                assert(self@[i as int].1 == url@);
                return true;
            }
            i += 1;
        }
        false
    }

    /// Has the map no entries?
    pub fn is_empty(&self) -> (r: bool)
        ensures
            r == (self@.len() == 0),
    {
        self.entries.len() == 0
    }

    /// The number of entries.
    pub fn len(&self) -> (r: usize)
        ensures
            r == self@.len(),
    {
        self.entries.len()
    }
}

impl Clone for ImportMap {
    fn clone(&self) -> (r: ImportMap)
        ensures
            r@ == self@,
    {
        proof {
            use_type_invariant(self);
        }
        let mut entries: Vec<(String, String)> = Vec::new();
        let mut i: usize = 0;
        while i < self.entries.len()
            invariant
                i <= self.entries@.len(),
                pair_views(entries@) =~= self@.take(i as int),
            decreases self.entries@.len() - i,
        {
            let ghost before = pair_views(entries@);
            let key = self.entries[i].0.clone();
            let url = self.entries[i].1.clone();
            entries.push((key, url));
            assert(pair_views(entries@) =~= before.push((key@, url@)));
            assert(self@[i as int] == (key@, url@));
            i += 1;
        }
        assert(self@.take(i as int) =~= self@);
        ImportMap { entries }
    }
}

/// Sets the URL of a key among sorted entries.
fn set_entry(entries: &mut Vec<(String, String)>, key: String, url: String)
    ensures
        pair_views(final(entries)@) == with_entry(pair_views(old(entries)@), key@, url@),
{
    let ghost all = pair_views(entries@);
    let ghost pair = (key@, url@);
    let mut i: usize = entries.len();
    assert(all.take(i as int) =~= all);
    assert(with_entry(all, key@, url@) =~= with_entry(all.take(i as int), key@, url@) + all.skip(
        i as int,
    ));
    while i > 0 && !str_lt(entries[i - 1].0.as_str(), key.as_str())
        invariant
            entries@ == old(entries)@,
            all == pair_views(entries@),
            pair == (key@, url@),
            i <= entries@.len(),
            with_entry(all, key@, url@) == with_entry(all.take(i as int), key@, url@) + all.skip(
                i as int,
            ),
        decreases i,
    {
        let ghost head = all.take(i as int);
        assert(head.last() == all[i - 1]);
        assert(head.drop_last() =~= all.take(i - 1));
        if str_eq(entries[i - 1].0.as_str(), key.as_str()) {
            entries.set(i - 1, (key, url));
            assert(pair_views(entries@) =~= head.drop_last().push(pair) + all.skip(i as int));
            return;
        }
        assert(with_entry(all.take(i - 1), key@, url@).push(head.last()) + all.skip(i as int)
            =~= with_entry(all.take(i - 1), key@, url@) + all.skip(i - 1));
        i -= 1;
    }
    entries.insert(i, (key, url));
    proof {
        let head = all.take(i as int);
        if i > 0 {
            lemma_lt_irreflexive(pair.0);
            assert(head.last() == all[i - 1]);
        }
        assert(with_entry(head, pair.0, pair.1) =~= head.push(pair));
        assert(pair_views(entries@) =~= head.push(pair) + all.skip(i as int));
    }
}

/// The map of the given keys and URLs; a later URL of a key replaces an
/// earlier one.
pub fn make_import_map(entries: &[(&str, &str)]) -> (r: ImportMap)
    ensures
        r@ == collected(Seq::new(entries@.len(), |i: int| (entries@[i].0@, entries@[i].1@))),
{
    let ghost list = Seq::new(entries@.len(), |i: int| (entries@[i].0@, entries@[i].1@));
    let mut map = ImportMap::new();
    let mut i: usize = 0;
    while i < entries.len()
        invariant
            i <= entries@.len(),
            list == Seq::new(entries@.len(), |i: int| (entries@[i].0@, entries@[i].1@)),
            map@ == collected(list.take(i as int)),
        decreases entries@.len() - i,
    {
        assert(list.take(i + 1).drop_last() =~= list.take(i as int));
        let (key, url) = entries[i];
        map.insert(String::from_str(key), String::from_str(url));
        i += 1;
    }
    assert(list.take(i as int) =~= list);
    map
}

/// A key of a map stands for the URL of its own entry, and a text that is no key
/// stands for none.
pub proof fn law_lookup(entries: Seq<(Seq<char>, Seq<char>)>, i: int, other: Seq<char>)
    requires
        sorted_keys(entries),
        0 <= i < entries.len(),
    ensures
        lookup(entries, entries[i].0) == Some(entries[i].1),
        lookup(entries, other) is Some <==> exists|j: int|
            0 <= j < entries.len() && (#[trigger] entries[j]).0 == other,
{
    lemma_sorted_keys_distinct(entries);
    lemma_key_index_at(entries, i);
    lemma_key_index(entries, other);
}

/// The empty map has no keys.
pub proof fn law_empty_map(key: Seq<char>)
    ensures
        lookup(Seq::empty(), key) is None,
        collected(Seq::empty()) == Seq::<(Seq<char>, Seq<char>)>::empty(),
{
}

/// The keys of a map stand each before the next.
pub proof fn law_order_of_keys(entries: Seq<(Seq<char>, Seq<char>)>)
    ensures
        sorted_keys(entries) <==> forall|i: int, j: int|
            0 <= i < j < entries.len() ==> lex_lt(#[trigger] entries[i].0, #[trigger] entries[j].0),
{
}

/// The URLs of a map are those of its entries.
pub proof fn law_urls_of_a_map(entries: Seq<(Seq<char>, Seq<char>)>, url: Seq<char>)
    ensures
        has_url(entries, url) <==> exists|i: int|
            0 <= i < entries.len() && (#[trigger] entries[i]).1 == url,
{
}

/// In a map that is built up entry by entry, a key stands for the URL that it was
/// set to last.
pub proof fn law_last_setting_counts(
    list: Seq<(Seq<char>, Seq<char>)>,
    key: Seq<char>,
    url: Seq<char>,
    other: Seq<char>,
)
    ensures
        sorted_keys(collected(list)),
        lookup(collected(list.push((key, url))), key) == Some(url),
        other != key ==> lookup(collected(list.push((key, url))), other) == lookup(
            collected(list),
            other,
        ),
    decreases list.len(),
{
    if list.len() > 0 {
        law_last_setting_counts(list.drop_last(), list.last().0, list.last().1, other);
        law_setting_a_key(collected(list.drop_last()), list.last().0, list.last().1, other);
    }
    assert(list.push((key, url)).drop_last() =~= list);
    law_setting_a_key(collected(list), key, url, other);
}

} // verus!
