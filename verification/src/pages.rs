//! The page table a load cycle fills: file name to raw page content, keys
//! unique, last write winning on a duplicate name. `collect_pages` is the
//! decision half of the page loader: the caller fetches each listed file and
//! hands the outcomes in; a page whose fetch failed is dropped silently and
//! drops nothing else.

use vstd::prelude::*;

verus! {

use crate::config::Config;
use crate::strings::str_eq;

/// The mapping a sequence of keyed entries denotes: a later entry overrides an
/// earlier one with the same key.
pub open spec fn entries_map(s: Seq<(String, String)>) -> Map<Seq<char>, Seq<char>>
    decreases s.len(),
{
    if s.len() == 0 {
        Map::empty()
    } else {
        entries_map(s.drop_last()).insert(s.last().0@, s.last().1@)
    }
}

/// No two entries share a key.
pub open spec fn unique_keys(s: Seq<(String, String)>) -> bool {
    forall|i: int, j: int|
        0 <= i < j < s.len() ==> (#[trigger] s[i]).0@ != (#[trigger] s[j]).0@
}

proof fn lemma_map_absent(s: Seq<(String, String)>, k: Seq<char>)
    requires
        forall|j: int| 0 <= j < s.len() ==> (#[trigger] s[j]).0@ != k,
    ensures
        !entries_map(s).dom().contains(k),
    decreases s.len(),
{
    if s.len() > 0 {
        lemma_map_absent(s.drop_last(), k);
    }
}

proof fn lemma_map_lookup(s: Seq<(String, String)>, i: int)
    requires
        0 <= i < s.len(),
        forall|j: int| i < j < s.len() ==> (#[trigger] s[j]).0@ != s[i].0@,
    ensures
        entries_map(s).dom().contains(s[i].0@),
        entries_map(s)[s[i].0@] == s[i].1@,
    decreases s.len(),
{
    if i < s.len() - 1 {
        lemma_map_lookup(s.drop_last(), i);
    }
}

proof fn lemma_map_remove(s: Seq<(String, String)>, i: int)
    requires
        0 <= i < s.len(),
        forall|j: int| 0 <= j < s.len() && j != i ==> (#[trigger] s[j]).0@ != s[i].0@,
    ensures
        entries_map(s.remove(i)) == entries_map(s).remove(s[i].0@),
    decreases s.len(),
{
    let k = s[i].0@;
    if i == s.len() - 1 {
        assert(s.remove(i) =~= s.drop_last());
        lemma_map_absent(s.drop_last(), k);
        assert(entries_map(s.drop_last()) =~= entries_map(s).remove(k));
    } else {
        assert(s.remove(i).drop_last() =~= s.drop_last().remove(i));
        lemma_map_remove(s.drop_last(), i);
        assert(entries_map(s.remove(i)) =~= entries_map(s).remove(k));
    }
}

proof fn lemma_map_len(s: Seq<(String, String)>)
    requires
        unique_keys(s),
    ensures
        entries_map(s).dom().finite(),
        entries_map(s).dom().len() == s.len(),
    decreases s.len(),
{
    if s.len() == 0 {
        assert(entries_map(s).dom() =~= Set::<Seq<char>>::empty());
    } else {
        lemma_map_len(s.drop_last());
        lemma_map_absent(s.drop_last(), s.last().0@);
        assert(entries_map(s).dom() =~= entries_map(s.drop_last()).dom().insert(s.last().0@));
    }
}

/// The page-content table of one load cycle: file name to raw page content.
pub struct PageMap {
    entries: Vec<(String, String)>,
}

impl View for PageMap {
    type V = Map<Seq<char>, Seq<char>>;

    closed spec fn view(&self) -> Map<Seq<char>, Seq<char>> {
        entries_map(self.entries@)
    }
}

impl PageMap {
    /// Well-formed: each page name appears once.
    pub closed spec fn wf(self) -> bool {
        unique_keys(self.entries@)
    }

    pub fn new() -> (r: PageMap)
        ensures
            r.wf(),
            r@ == Map::<Seq<char>, Seq<char>>::empty(),
    {
        PageMap { entries: Vec::new() }
    }

    fn find_index(&self, key: &str) -> (r: Option<usize>)
        ensures
            match r {
                Some(i) => i < self.entries@.len() && self.entries@[i as int].0@ == key@,
                None => forall|j: int|
                    0 <= j < self.entries@.len() ==> (#[trigger] self.entries@[j]).0@ != key@,
            },
    {
        let n = self.entries.len();
        let mut i: usize = 0;
        while i < n
            invariant
                i <= n,
                n == self.entries@.len(),
                forall|j: int| 0 <= j < i ==> (#[trigger] self.entries@[j]).0@ != key@,
            decreases n - i,
        {
            if str_eq(self.entries[i].0.as_str(), key) {
                return Some(i);
            }
            i += 1;
        }
        None
    }

    /// Binds `name` to `content`, overriding any earlier content of that name.
    pub fn insert(&mut self, name: String, content: String)
        requires
            old(self).wf(),
        ensures
            final(self).wf(),
            final(self)@ == old(self)@.insert(name@, content@),
    {
        match self.find_index(name.as_str()) {
            Some(i) => {
                proof {
                    lemma_map_remove(self.entries@, i as int);
                }
                self.entries.remove(i);
            },
            None => {
                proof {
                    lemma_map_absent(self.entries@, name@);
                }
            },
        }
        proof {
            lemma_map_absent(self.entries@, name@);
        }
        let ghost before = self.entries@;
        self.entries.push((name, content));
        proof {
            assert(self.entries@.drop_last() =~= before);
            assert(entries_map(self.entries@) =~= old(self)@.insert(
                self.entries@.last().0@,
                self.entries@.last().1@,
            ));
        }
    }

    /// The content stored under `name`, if the table holds that page.
    pub fn get<'a>(&'a self, name: &str) -> (r: Option<&'a String>)
        requires
            self.wf(),
        ensures
            match r {
                Some(v) => self@.dom().contains(name@) && self@[name@] == v@,
                None => !self@.dom().contains(name@),
            },
    {
        match self.find_index(name) {
            Some(i) => {
                proof {
                    lemma_map_lookup(self.entries@, i as int);
                }
                Some(&self.entries[i].1)
            },
            None => {
                proof {
                    lemma_map_absent(self.entries@, name@);
                }
                None
            },
        }
    }

    /// How many pages the table holds.
    pub fn len(&self) -> (r: usize)
        requires
            self.wf(),
        ensures
            r == self@.dom().len(),
    {
        proof {
            lemma_map_len(self.entries@);
        }
        self.entries.len()
    }
}

/// Everything a render cycle works from: the process configuration and the
/// pages the last load cycle brought in.
pub struct GlobalData {
    pub config: Config,
    pub pages: PageMap,
}

impl GlobalData {
    pub open spec fn wf(self) -> bool {
        self.pages.wf()
    }
}

/// The mapping that pairing each listed name with its fetch outcome denotes:
/// every fetched page under its name, pages whose fetch failed absent.
pub open spec fn collected(names: Seq<Seq<char>>, results: Seq<Option<Seq<char>>>) -> Map<
    Seq<char>,
    Seq<char>,
>
    decreases names.len(),
{
    if names.len() == 0 || names.len() != results.len() {
        Map::empty()
    } else {
        let m = collected(names.drop_last(), results.drop_last());
        match results.last() {
            Some(c) => m.insert(names.last(), c),
            None => m,
        }
    }
}

/// Law: a fetch failure drops only its own page. The collected table holds a
/// name exactly when some listed occurrence of that name fetched
/// successfully; the pages that arrived are never lost to another page's
/// failure, and no error is raised for one.
pub proof fn lemma_collected_dom(names: Seq<Seq<char>>, results: Seq<Option<Seq<char>>>)
    requires
        names.len() == results.len(),
    ensures
        collected(names, results).dom() =~= Set::new(
            |k: Seq<char>|
                exists|i: int|
                    0 <= i < names.len() && #[trigger] names[i] == k && results[i] is Some,
        ),
    decreases names.len(),
{
    let want = Set::new(
        |k: Seq<char>|
            exists|i: int|
                0 <= i < names.len() && #[trigger] names[i] == k && results[i] is Some,
    );
    if names.len() == 0 {
        assert(collected(names, results).dom() =~= want);
    } else {
        let np = names.drop_last();
        let rp = results.drop_last();
        lemma_collected_dom(np, rp);
        assert forall|k: Seq<char>| collected(names, results).dom().contains(k) implies
            want.contains(k) by {
            if results.last() is Some && k == names.last() {
                let i = names.len() - 1;
                assert(0 <= i < names.len() && names[i] == k && results[i] is Some);
            } else {
                assert(collected(np, rp).dom().contains(k));
                let i = choose|i: int| 0 <= i < np.len() && #[trigger] np[i] == k && rp[i] is Some;
                assert(0 <= i < names.len() && names[i] == k && results[i] is Some);
            }
        }
        assert forall|k: Seq<char>| want.contains(k) implies collected(
            names,
            results,
        ).dom().contains(k) by {
            let i = choose|i: int|
                0 <= i < names.len() && #[trigger] names[i] == k && results[i] is Some;
            if i == names.len() - 1 {
            } else {
                assert(np[i] == k && rp[i] is Some);
                assert(collected(np, rp).dom().contains(k));
            }
        }
    }
}

/// The decision half of the page loader: given the listed file names and, for
/// each, the outcome the fetch handed back (`None` for any failure), keeps
/// exactly the pages whose fetch succeeded. One bad file never fails the
/// cycle.
pub fn collect_pages(names: &Vec<String>, results: &Vec<Option<String>>) -> (pages: PageMap)
    requires
        names@.len() == results@.len(),
    ensures
        pages.wf(),
        pages@ == collected(names.deep_view(), results.deep_view()),
{
    let mut pages = PageMap::new();
    let n = names.len();
    let mut i: usize = 0;
    proof {
        assert(pages@ =~= collected(names.deep_view().take(0), results.deep_view().take(0)));
    }
    while i < n
        invariant
            i <= n,
            n == names@.len(),
            names@.len() == results@.len(),
            pages.wf(),
            pages@ == collected(
                names.deep_view().take(i as int),
                results.deep_view().take(i as int),
            ),
        decreases n - i,
    {
        proof {
            assert(names.deep_view().take(i + 1).drop_last() =~= names.deep_view().take(i as int));
            assert(results.deep_view().take(i + 1).drop_last() =~= results.deep_view().take(
                i as int,
            ));
            assert(names.deep_view().take(i + 1).last() == names@[i as int]@);
            assert(results.deep_view().take(i + 1).last() == results@[i as int].deep_view());
        }
        match &results[i] {
            Some(content) => {
                pages.insert(names[i].clone(), content.clone());
            },
            None => {},
        }
        i += 1;
    }
    proof {
        assert(names.deep_view().take(n as int) =~= names.deep_view());
        assert(results.deep_view().take(n as int) =~= results.deep_view());
    }
    pages
}

} // verus!
