//! The rules of the flat key-value file store: which file holds a key, which
//! keys a directory listing shows, and the figures of the store.

use vstd::prelude::*;
use std::path::PathBuf;
use crate::text::{chars_of, push_str_chars, string_from_chars};

verus! {

/// Figures about the store: the number of keys, the bytes their files take
/// together, and the directory that holds them.
#[derive(Debug, Clone, PartialEq, Eq)]
pub struct StorageStats {
    pub total_keys: usize,
    pub total_size_bytes: u64,
    pub data_dir: String,
}

/// One entry of the cache.
struct Entry {
    key: String,
    data: String,
}

/// The store as the caller sees it between two accesses to its files: the
/// directory, and a cache of what was last written or read under each key.
pub struct LocalStorage {
    data_dir: PathBuf,
    cache: Vec<Entry>,
    contents: Ghost<Map<Seq<char>, Seq<char>>>,
}

impl View for LocalStorage {
    type V = Map<Seq<char>, Seq<char>>;

    /// What the cache holds, by key.
    closed spec fn view(&self) -> Map<Seq<char>, Seq<char>> {
        self.contents@
    }
}

impl LocalStorage {
    /// The entries and the map say the same, and no key occurs twice.
    pub closed spec fn wf(&self) -> bool {
        &&& forall|i: int|
            0 <= i < self.cache.len() ==> self.contents@.contains_key(
                (#[trigger] self.cache[i]).key@,
            ) && self.contents@[self.cache[i].key@] == self.cache[i].data@
        &&& forall|key: Seq<char>| #[trigger]
            self.contents@.contains_key(key) ==> exists|i: int|
                0 <= i < self.cache.len() && (#[trigger] self.cache[i]).key@ == key
        &&& forall|i: int, j: int|
            0 <= i < j < self.cache.len() ==> (#[trigger] self.cache[i]).key@ != (
            #[trigger] self.cache[j]).key@
    }

    /// The directory that the store was made with. No operation changes it.
    pub closed spec fn dir(&self) -> PathBuf {
        self.data_dir
    }

    /// A store in `data_dir` with nothing cached.
    pub fn new(data_dir: PathBuf) -> (s: Self)
        ensures
            s.wf(),
            s@ == Map::<Seq<char>, Seq<char>>::empty(),
            s.dir() == data_dir,
    {
        LocalStorage { data_dir, cache: Vec::new(), contents: Ghost(Map::empty()) }
    }

    /// The directory that holds the files: the one that the store was made
    /// with.
    pub fn data_dir(&self) -> (dir: &PathBuf)
        ensures
            *dir == self.dir(),
    {
        &self.data_dir
    }

    /// The place of `key` in the cache.
    fn find(&self, key: &str) -> (at: Option<usize>)
        requires
            self.wf(),
        ensures
            match at {
                Some(i) => i < self.cache.len() && self.cache[i as int].key@ == key@
                    && self@.contains_key(key@) && self@[key@] == self.cache[i as int].data@,
                None => !self@.contains_key(key@),
            },
    {
        let mut i: usize = 0;
        while i < self.cache.len()
            invariant
                self.wf(),
                i <= self.cache.len(),
                forall|k: int| 0 <= k < i ==> (#[trigger] self.cache[k]).key@ != key@,
            decreases self.cache.len() - i,
        {
            if self.cache[i].key == String::from_str(key) {
                return Some(i);
            }
            i += 1;
        }
        None
    }

    /// What the cache holds under `key`, without a look at the files.
    pub fn cached(&self, key: &str) -> (data: Option<String>)
        requires
            self.wf(),
        ensures
            match data {
                Some(d) => self@.contains_key(key@) && d@ == self@[key@],
                None => !self@.contains_key(key@),
            },
    {
        match self.find(key) {
            Some(at) => Some(self.cache[at].data.clone()),
            None => None,
        }
    }

    /// Whether the cache holds something under `key`.
    pub fn is_cached(&self, key: &str) -> (b: bool)
        requires
            self.wf(),
        ensures
            b == self@.contains_key(key@),
    {
        self.find(key).is_some()
    }

    /// Takes the entry at `at` out of the cache.
    fn take_out(&mut self, at: usize)
        requires
            old(self).wf(),
            at < old(self).cache.len(),
        ensures
            final(self).wf(),
            final(self).dir() == old(self).dir(),
            final(self)@ == old(self)@.remove(old(self).cache[at as int].key@),
    {
        let ghost entries = self.cache@;
        let entry = self.cache.remove(at);
        proof {
            self.contents@ = self.contents@.remove(entry.key@);
            assert forall|key: Seq<char>| #[trigger]
                self.contents@.contains_key(key) implies exists|i: int|
                0 <= i < self.cache.len() && (#[trigger] self.cache[i]).key@ == key by {
                let k = choose|k: int| 0 <= k < entries.len() && (#[trigger] entries[k]).key@ == key;
                if k < at {
                    assert(self.cache[k].key@ == key);
                } else {
                    assert(self.cache[k - 1] == entries[k]);
                }
            }
        }
    }

    /// Takes note that `data` was written or read under `key`.
    pub fn remember(&mut self, key: &str, data: &str)
        requires
            old(self).wf(),
        ensures
            final(self).wf(),
            final(self).dir() == old(self).dir(),
            final(self)@ == old(self)@.insert(key@, data@),
    {
        if let Some(at) = self.find(key) {
            self.take_out(at);
        }
        let ghost entries = self.cache@;
        let entry = Entry { key: key.to_owned(), data: data.to_owned() };
        proof {
            self.contents@ = self.contents@.insert(key@, data@);
        }
        self.cache.push(entry);
        proof {
            assert forall|k: Seq<char>| #[trigger]
                self.contents@.contains_key(k) implies exists|i: int|
                0 <= i < self.cache.len() && (#[trigger] self.cache[i]).key@ == k by {
                if k == key@ {
                    assert(self.cache[entries.len() as int].key@ == k);
                } else {
                    let i = choose|i: int| 0 <= i < entries.len() && (#[trigger] entries[i]).key@ == k;
                    assert(self.cache[i].key@ == k);
                }
            }
        }
    }

    /// Takes note that `key` was deleted. Tells whether the cache held it.
    pub fn forget(&mut self, key: &str) -> (held: bool)
        requires
            old(self).wf(),
        ensures
            final(self).wf(),
            final(self).dir() == old(self).dir(),
            held == old(self)@.contains_key(key@),
            final(self)@ == old(self)@.remove(key@),
    {
        match self.find(key) {
            Some(at) => {
                self.take_out(at);
                true
            },
            None => {
                false
            },
        }
    }

    /// Empties the cache.
    pub fn forget_all(&mut self)
        requires
            old(self).wf(),
        ensures
            final(self).wf(),
            final(self).dir() == old(self).dir(),
            final(self)@ == Map::<Seq<char>, Seq<char>>::empty(),
    {
        self.cache = Vec::new();
        proof {
            self.contents@ = Map::empty();
        }
    }
}

/// The key under which the configuration of a model is kept.
pub fn model_config_key(model_id: &str) -> (key: String)
    ensures
        key@ == "model_config_"@ + model_id@,
{
    let mut out: Vec<char> = Vec::new();
    push_str_chars(&mut out, "model_config_");
    push_str_chars(&mut out, model_id);
    string_from_chars(&out)
}

/// The key under which the history of a chat session is kept.
pub fn chat_history_key(session_id: &str) -> (key: String)
    ensures
        key@ == "chat_history_"@ + session_id@,
{
    let mut out: Vec<char> = Vec::new();
    push_str_chars(&mut out, "chat_history_");
    push_str_chars(&mut out, session_id);
    string_from_chars(&out)
}

/// What the name of every file of the store ends with.
pub open spec fn key_suffix() -> Seq<char> {
    ".json"@
}

/// Whether `name` ends with the suffix.
pub open spec fn has_key_suffix(name: Seq<char>) -> bool {
    name.len() >= key_suffix().len() && name.skip(name.len() - key_suffix().len())
        == key_suffix()
}

/// The name of the file that holds `key`.
pub open spec fn file_name_of(key: Seq<char>) -> Seq<char> {
    key + key_suffix()
}

/// `name` without the suffix, as often as it stands at the end.
pub open spec fn without_key_suffix(name: Seq<char>) -> Seq<char>
    decreases name.len(),
{
    if has_key_suffix(name) && key_suffix().len() > 0 {
        without_key_suffix(name.take(name.len() - key_suffix().len()))
    } else {
        name
    }
}

/// The key that a file name shows in a listing; `None` for a file that is
/// not one of the store.
pub open spec fn key_of(name: Seq<char>) -> Option<Seq<char>> {
    if has_key_suffix(name) {
        Some(without_key_suffix(name))
    } else {
        None
    }
}

/// The keys that a listing of file names shows, in the order of the listing.
pub open spec fn keys_of(names: Seq<Seq<char>>) -> Seq<Seq<char>>
    decreases names.len(),
{
    if names.len() == 0 {
        Seq::empty()
    } else {
        match key_of(names.last()) {
            Some(key) => keys_of(names.drop_last()).push(key),
            None => keys_of(names.drop_last()),
        }
    }
}

/// The sum of the sizes that are known, or the largest number where the sum
/// is beyond it.
pub open spec fn total_size(sizes: Seq<Option<u64>>) -> int
    decreases sizes.len(),
{
    if sizes.len() == 0 {
        0
    } else {
        let before = total_size(sizes.drop_last());
        let sum = before + match sizes.last() {
            Some(n) => n as int,
            None => 0,
        };
        if sum > u64::MAX {
            u64::MAX as int
        } else {
            sum
        }
    }
}

/// The name of the file that holds `key`.
pub fn file_name_for_key(key: &str) -> (name: String)
    ensures
        name@ == file_name_of(key@),
{
    let mut out: Vec<char> = Vec::new();
    push_str_chars(&mut out, key);
    push_str_chars(&mut out, ".json");
    string_from_chars(&out)
}

/// Whether the first `len` characters of `name` end with the suffix.
fn ends_with_suffix(name: &Vec<char>, len: usize, suffix: &Vec<char>) -> (b: bool)
    requires
        len <= name.len(),
        suffix@ == key_suffix(),
    ensures
        b == has_key_suffix(name@.take(len as int)),
{
    let head = Ghost(name@.take(len as int));
    if len < suffix.len() {
        return false;
    }
    let start = len - suffix.len();
    let mut i: usize = 0;
    while i < suffix.len()
        invariant
            i <= suffix.len(),
            start + suffix.len() == len <= name.len(),
            suffix@ == key_suffix(),
            head@ == name@.take(len as int),
            forall|k: int| 0 <= k < i ==> name[start + k] == suffix[k],
        decreases suffix.len() - i,
    {
        if name[start + i] != suffix[i] {
            return false;
        }
        i += 1;
    }
    assert(head@.skip(start as int) =~= suffix@);
    true
}

/// The key that a file name shows in a listing.
pub fn key_of_file_name(name: &str) -> (key: Option<String>)
    ensures
        match key {
            Some(k) => key_of(name@) == Some(k@),
            None => key_of(name@) is None,
        },
{
    let chars = chars_of(name);
    let suffix = chars_of(".json");
    proof {
        reveal_strlit(".json");
    }
    assert(chars@.take(chars.len() as int) =~= chars@);
    if !ends_with_suffix(&chars, chars.len(), &suffix) {
        return None;
    }
    let mut len: usize = chars.len();
    while ends_with_suffix(&chars, len, &suffix)
        invariant
            len <= chars.len(),
            suffix@ == key_suffix(),
            suffix@.len() == 5,
            without_key_suffix(chars@) == without_key_suffix(chars@.take(len as int)),
        decreases len,
    {
        assert(chars@.take(len as int).take(len - 5) =~= chars@.take(len - 5));
        len = len - suffix.len();
    }
    let mut out: Vec<char> = Vec::new();
    let mut i: usize = 0;
    while i < len
        invariant
            i <= len <= chars.len(),
            out@ == chars@.take(i as int),
        decreases len - i,
    {
        out.push(chars[i]);
        i += 1;
    }
    Some(string_from_chars(&out))
}

/// The keys that a listing of file names shows.
pub fn keys_of_file_names(names: &Vec<String>) -> (keys: Vec<String>)
    ensures
        keys.deep_view() == keys_of(names.deep_view()),
{
    let ghost all = names.deep_view();
    let mut keys: Vec<String> = Vec::new();
    let mut i: usize = 0;
    while i < names.len()
        invariant
            i <= names.len(),
            all == names.deep_view(),
            keys.deep_view() == keys_of(all.take(i as int)),
        decreases names.len() - i,
    {
        assert(all.take(i + 1).drop_last() =~= all.take(i as int));
        match key_of_file_name(names[i].as_str()) {
            Some(key) => {
                keys.push(key);
            },
            None => {},
        }
        i += 1;
    }
    assert(all.take(names.len() as int) =~= all);
    keys
}

/// The figures of a store whose keys have files of the given sizes; a size
/// is missing where the file could not be examined.
pub fn storage_stats(sizes: &Vec<Option<u64>>, data_dir: &str) -> (stats: StorageStats)
    ensures
        stats.total_keys == sizes.len(),
        stats.total_size_bytes == total_size(sizes@),
        stats.data_dir@ == data_dir@,
{
    let mut total: u64 = 0;
    let mut i: usize = 0;
    while i < sizes.len()
        invariant
            i <= sizes.len(),
            total == total_size(sizes@.take(i as int)),
        decreases sizes.len() - i,
    {
        assert(sizes@.take(i + 1).drop_last() =~= sizes@.take(i as int));
        match sizes[i] {
            Some(n) => {
                total = match total.checked_add(n) {
                    Some(sum) => sum,
                    None => u64::MAX,
                };
            },
            None => {},
        }
        i += 1;
    }
    assert(sizes@.take(sizes.len() as int) =~= sizes@);
    StorageStats { total_keys: sizes.len(), total_size_bytes: total, data_dir: data_dir.to_owned() }
}

} // verus!
