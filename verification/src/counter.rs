//! How often each entry was launched, kept in `~/.sherlock/counts.json`.
use vstd::prelude::*;
use crate::paths::{extension, file_name, trim_tail};
use crate::text::str_eq;

verus! {

/// Launch counts by key, each key once.
pub struct CountMap {
    pub entries: Vec<(String, u64)>,
}

/// The keys of the entries, in order.
pub open spec fn count_keys(s: Seq<(String, u64)>) -> Seq<Seq<char>> {
    s.map_values(|e: (String, u64)| e.0@)
}

/// The counts as a map from key to count.
pub open spec fn count_map(s: Seq<(String, u64)>) -> Map<Seq<char>, u64>
    decreases s.len(),
{
    if s.len() == 0 {
        Map::empty()
    } else {
        count_map(s.drop_last()).insert(s.last().0@, s.last().1)
    }
}

/// The count of `key`: zero where it was never launched.
pub open spec fn count_of(m: Map<Seq<char>, u64>, key: Seq<char>) -> u64 {
    if m.contains_key(key) {
        m[key]
    } else {
        0
    }
}

impl View for CountMap {
    type V = Map<Seq<char>, u64>;

    open spec fn view(&self) -> Map<Seq<char>, u64> {
        count_map(self.entries@)
    }
}

impl CountMap {
    /// No key occurs twice.
    pub open spec fn wf(&self) -> bool {
        count_keys(self.entries@).no_duplicates()
    }

    pub fn new() -> (r: CountMap)
        ensures
            r.wf(),
            r@ == Map::<Seq<char>, u64>::empty(),
    {
        CountMap { entries: Vec::new() }
    }

    fn position(&self, key: &str) -> (r: Option<usize>)
        ensures
            match r {
                Some(i) => i < self.entries@.len() && self.entries@[i as int].0@ == key@,
                None => forall|j: int|
                    0 <= j < self.entries@.len() ==> self.entries@[j].0@ != key@,
            },
    {
        let mut i: usize = 0;
        while i < self.entries.len()
            invariant
                i <= self.entries@.len(),
                forall|j: int| 0 <= j < i ==> self.entries@[j].0@ != key@,
            decreases self.entries@.len() - i,
        {
            if str_eq(self.entries[i].0.as_str(), key) {
                return Some(i);
            }
            i = i + 1;
        }
        None
    }

    /// The count of `key`, zero where it has none.
    pub fn get(&self, key: &str) -> (r: u64)
        requires
            self.wf(),
        ensures
            r == count_of(self@, key@),
    {
        match self.position(key) {
            Some(i) => {
                proof {
                    lemma_count_map_at(self.entries@, i as int);
                }
                self.entries[i].1
            },
            None => {
                proof {
                    lemma_count_map_absent(self.entries@, key@);
                }
                0
            },
        }
    }

    /// Sets the count of `key`.
    pub fn set(&mut self, key: &str, count: u64)
        requires
            old(self).wf(),
        ensures
            final(self).wf(),
            final(self)@ == old(self)@.insert(key@, count),
    {
        match self.position(key) {
            Some(i) => {
                let ghost before = self.entries@;
                let k = self.entries[i].0.clone();
                self.entries.set(i, (k, count));
                proof {
                    assert(count_keys(self.entries@) =~= count_keys(before));
                    lemma_count_map_update(before, i as int, count);
                }
            },
            None => {
                let ghost before = self.entries@;
                self.entries.push((String::from_str(key), count));
                proof {
                    assert(self.entries@.drop_last() =~= before);
                    assert(count_keys(self.entries@) =~= count_keys(before).push(key@));
                    assert forall|j: int| 0 <= j < count_keys(before).len() implies count_keys(
                        before,
                    )[j] != key@ by {}
                }
            },
        }
    }
}

proof fn lemma_count_map_at(s: Seq<(String, u64)>, i: int)
    requires
        count_keys(s).no_duplicates(),
        0 <= i < s.len(),
    ensures
        count_map(s).contains_key(s[i].0@),
        count_map(s)[s[i].0@] == s[i].1,
    decreases s.len(),
{
    if i < s.len() - 1 {
        let t = s.drop_last();
        assert(count_keys(t) =~= count_keys(s).drop_last());
        lemma_count_map_at(t, i);
        assert(count_keys(s)[i] != count_keys(s)[s.len() - 1]);
    }
}

proof fn lemma_count_map_absent(s: Seq<(String, u64)>, k: Seq<char>)
    requires
        forall|j: int| 0 <= j < s.len() ==> s[j].0@ != k,
    ensures
        !count_map(s).contains_key(k),
    decreases s.len(),
{
    if s.len() > 0 {
        lemma_count_map_absent(s.drop_last(), k);
    }
}

proof fn lemma_count_map_update(s: Seq<(String, u64)>, i: int, c: u64)
    requires
        count_keys(s).no_duplicates(),
        0 <= i < s.len(),
    ensures
        count_map(s.update(i, (s[i].0, c))) == count_map(s).insert(s[i].0@, c),
    decreases s.len(),
{
    let u = s.update(i, (s[i].0, c));
    if i == s.len() - 1 {
        assert(u.drop_last() =~= s.drop_last());
        assert forall|j: int| 0 <= j < s.drop_last().len() implies s.drop_last()[j].0@
            != s[i].0@ by {
            assert(count_keys(s)[j] != count_keys(s)[i]);
        }
        lemma_count_map_absent(s.drop_last(), s[i].0@);
        assert(count_map(u) =~= count_map(s).insert(s[i].0@, c));
    } else {
        let t = s.drop_last();
        assert(count_keys(t) =~= count_keys(s).drop_last());
        assert(u.drop_last() =~= t.update(i, (t[i].0, c)));
        lemma_count_map_update(t, i, c);
        assert(count_keys(s)[i] != count_keys(s)[s.len() - 1]);
        assert(count_map(u) =~= count_map(s).insert(s[i].0@, c));
    }
}

impl CountMap {
    /// Counts of zero for each of `keys`, as written where no counts exist
    /// yet.
    pub fn zeros(keys: &Vec<String>) -> (r: CountMap)
        ensures
            r.wf(),
            forall|k: Seq<char>| #[trigger] r@.contains_key(k) <==> exists|i: int|
                0 <= i < keys@.len() && keys@[i]@ == k,
            forall|k: Seq<char>| #[trigger] r@.contains_key(k) ==> r@[k] == 0,
    {
        let mut m = CountMap::new();
        let mut i: usize = 0;
        while i < keys.len()
            invariant
                i <= keys@.len(),
                m.wf(),
                forall|k: Seq<char>| #[trigger] m@.contains_key(k) <==> exists|j: int|
                    0 <= j < i && keys@[j]@ == k,
                forall|k: Seq<char>| #[trigger] m@.contains_key(k) ==> m@[k] == 0,
            decreases keys@.len() - i,
        {
            m.set(keys[i].as_str(), 0);
            proof {
                assert forall|k: Seq<char>| #[trigger] m@.contains_key(k) implies exists|j: int|
                    0 <= j < i + 1 && keys@[j]@ == k by {
                    if k != keys@[i as int]@ {
                        let j = choose|j: int| 0 <= j < i && keys@[j]@ == k;
                        assert(0 <= j < i + 1 && keys@[j]@ == k);
                    } else {
                        assert(0 <= i < i + 1 && keys@[i as int]@ == k);
                    }
                }
            }
            i = i + 1;
        }
        m
    }
}

/// Where the counts are kept.
pub struct CounterReader {
    pub path: String,
}

impl CounterReader {
    /// The counts live in `.sherlock/counts.json` under the home directory.
    pub fn new(home: &str) -> (r: Self)
        ensures
            r.path@ == crate::paths::path_join(home@, ".sherlock/counts.json"@),
    {
        CounterReader { path: crate::paths::join(home, ".sherlock/counts.json") }
    }

    /// Counts one more launch of `key`. A count that has reached the largest
    /// value stays there.
    pub fn increment(&self, content: &mut CountMap, key: &str)
        requires
            old(content).wf(),
        ensures
            final(content).wf(),
            final(content)@ == old(content)@.insert(
                key@,
                if count_of(old(content)@, key@) == u64::MAX {
                    u64::MAX
                } else {
                    (count_of(old(content)@, key@) + 1) as u64
                },
            ),
    {
        let c = content.get(key);
        let n = if c == u64::MAX {
            c
        } else {
            c + 1
        };
        content.set(key, n);
    }
}

/// What `Path::with_extension` makes of a path and an extension.
pub uninterp spec fn path_with_extension(path: Seq<char>, ext: Seq<char>) -> Seq<char>;

/// Whether the last component of `path` is an ordinary file name: not
/// empty, not `.` and not `..`.
pub open spec fn plain_name(path: Seq<char>) -> bool {
    let n = file_name(path);
    n.len() > 0 && n != "."@ && n != ".."@
}

/// `path` with the extension of its file name, and the dot before it,
/// replaced by a dot and `ext`; a name without an extension gets them
/// appended; an empty `ext` only takes the old one away.
pub open spec fn replaced_extension(path: Seq<char>, ext: Seq<char>) -> Seq<char> {
    let t = trim_tail(path);
    let keep = match extension(path) {
        Some(e) => t.len() - e.len() - 1,
        None => t.len() as int,
    };
    t.take(keep) + if ext.len() == 0 {
        Seq::empty()
    } else {
        "."@ + ext
    }
}

/// Calls `Path::with_extension`, and reads the path back as text.
///
/// Trusted: the result depends on the path and the extension alone; as
/// documented for a path whose file name is an ordinary name, the old
/// extension is replaced, or the new one added where there was none. What
/// it does with other names (empty, `.`, `..`), and with paths that end in
/// `/` or a `.` component, is not restated. An
/// extension with a `/` is left out, since newer versions panic on it.
#[verifier::external_body]
fn with_extension(path: &str, ext: &str) -> (r: String)
    requires
        !ext@.contains('/'),
    ensures
        r@ == path_with_extension(path@, ext@),
        plain_name(path@) && trim_tail(path@) == path@ ==> r@ == replaced_extension(path@, ext@),
{
    std::path::Path::new(path).with_extension(ext).to_string_lossy().into_owned()
}

/// The JSON files that keep the counts.
pub struct JsonCache;

impl JsonCache {
    /// Where new content is first written before it is moved over `path`:
    /// `path` with its extension replaced by `.tmp`, so that `counts.json`
    /// goes through `counts..tmp`.
    pub fn temp_path(path: &str) -> (r: String)
        ensures
            r@ == path_with_extension(path@, ".tmp"@),
            plain_name(path@) && trim_tail(path@) == path@ ==> r@ == replaced_extension(
                path@,
                ".tmp"@,
            ),
    {
        proof {
            reveal_strlit(".tmp");
            assert(".tmp"@[0] == '.' && ".tmp"@[1] == 't' && ".tmp"@[2] == 'm' && ".tmp"@[3] == 'p');
        }
        with_extension(path, ".tmp")
    }
}

/// Counting a launch adds one to that key's count and leaves every other
/// count as it was.
pub proof fn lemma_increment_counts_one(before: Map<Seq<char>, u64>, after: Map<Seq<char>, u64>, key: Seq<char>, other: Seq<char>)
    requires
        after == before.insert(
            key,
            if count_of(before, key) == u64::MAX {
                u64::MAX
            } else {
                (count_of(before, key) + 1) as u64
            },
        ),
        count_of(before, key) < u64::MAX,
        other != key,
    ensures
        count_of(after, key) == count_of(before, key) + 1,
        count_of(after, other) == count_of(before, other),
{
}

} // verus!
