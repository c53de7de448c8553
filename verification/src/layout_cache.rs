//! Memoization of text-layout results for the entry widget.
//!
//! Shaping the entry text is the expensive step of a refresh tick, and the
//! result for a given text and wrap width never changes, so the cache keeps
//! the layout computed on the first miss and hands back the stored one on
//! every later lookup of the same text. Deliberately, the key is the text
//! alone, exactly as the widget uses it: a layout cached under one wrap
//! width is returned unchanged for another, and the stored width says which
//! one it was shaped for.
//!
//! Eviction is wholesale: the working set is a single line of user input,
//! so once the cache is full, the miss that finds it full clears everything
//! and keeps only the entry it inserts. The size therefore never passes the
//! configured capacity.

use vstd::prelude::*;

verus! {

/// The capacity a cache built by `default` is given.
pub const LAYOUT_CACHE_CAPACITY: usize = 100;

/// A text-shaping result: the text that was shaped and the wrap width the
/// shaping was bounded by. The host's text engine derives the glyph
/// geometry from exactly these two values, so they are what the cache
/// stores and returns.
pub struct LayoutResult {
    pub text: String,
    pub wrap_width: u32,
}

/// No two stored layouts share their text.
spec fn distinct_keys(entries: Seq<LayoutResult>) -> bool {
    forall|i: int, j: int|
        0 <= i < j < entries.len() ==> (#[trigger] entries[i]).text@ != (#[trigger] entries[j]).text@
}

/// The stored layouts as a map from text to the wrap width it was shaped
/// for.
spec fn map_of(entries: Seq<LayoutResult>) -> Map<Seq<char>, u32>
    decreases entries.len(),
{
    if entries.len() == 0 {
        Map::empty()
    } else {
        map_of(entries.drop_last()).insert(entries.last().text@, entries.last().wrap_width)
    }
}

proof fn lemma_map_of_contains(entries: Seq<LayoutResult>, key: Seq<char>)
    ensures
        map_of(entries).contains_key(key) <==> exists|i: int|
            0 <= i < entries.len() && (#[trigger] entries[i]).text@ == key,
    decreases entries.len(),
{
    if entries.len() > 0 {
        lemma_map_of_contains(entries.drop_last(), key);
        if entries.last().text@ == key {
            assert(entries[entries.len() - 1].text@ == key);
        } else if map_of(entries).contains_key(key) {
            let i = choose|i: int|
                0 <= i < entries.drop_last().len() && (#[trigger] entries.drop_last()[i]).text@
                    == key;
            assert(entries[i].text@ == key);
        } else if exists|i: int| 0 <= i < entries.len() && (#[trigger] entries[i]).text@ == key {
            let i = choose|i: int| 0 <= i < entries.len() && (#[trigger] entries[i]).text@ == key;
            assert(i < entries.len() - 1);
            assert(entries.drop_last()[i].text@ == key);
        }
    }
}

proof fn lemma_map_of_index(entries: Seq<LayoutResult>, i: int)
    requires
        distinct_keys(entries),
        0 <= i < entries.len(),
    ensures
        map_of(entries).contains_key(entries[i].text@),
        map_of(entries)[entries[i].text@] == entries[i].wrap_width,
    decreases entries.len(),
{
    if i == entries.len() - 1 {
        assert(entries.last() == entries[i]);
    } else {
        assert(distinct_keys(entries.drop_last())) by {
            assert(forall|m: int, n: int|
                0 <= m < n < entries.drop_last().len() ==> (#[trigger] entries.drop_last()[m]).text@
                    != (#[trigger] entries.drop_last()[n]).text@) by {
                assert(forall|m: int|
                    0 <= m < entries.drop_last().len() ==> entries.drop_last()[m]
                        == (#[trigger] entries[m]));
            }
        }
        assert(entries.drop_last()[i] == entries[i]);
        lemma_map_of_index(entries.drop_last(), i);
        assert(entries.last().text@ != entries[i].text@);
    }
}

proof fn lemma_map_of_len(entries: Seq<LayoutResult>)
    requires
        distinct_keys(entries),
    ensures
        map_of(entries).dom().finite(),
        map_of(entries).dom().len() == entries.len(),
    decreases entries.len(),
{
    if entries.len() > 0 {
        let rest = entries.drop_last();
        assert(distinct_keys(rest)) by {
            assert(forall|m: int|
                0 <= m < rest.len() ==> rest[m] == (#[trigger] entries[m]));
        }
        lemma_map_of_len(rest);
        lemma_map_of_contains(rest, entries.last().text@);
        assert(!map_of(rest).contains_key(entries.last().text@)) by {
            if exists|i: int| 0 <= i < rest.len() && (#[trigger] rest[i]).text@
                == entries.last().text@ {
                let i = choose|i: int|
                    0 <= i < rest.len() && (#[trigger] rest[i]).text@ == entries.last().text@;
                assert(entries[i].text@ == entries[entries.len() - 1].text@);
            }
        }
        assert(map_of(entries).dom() =~= map_of(rest).dom().insert(entries.last().text@));
    }
}

/// The cache contents after one lookup of `text` under `wrap_width`: a hit
/// leaves them alone; a miss inserts the freshly shaped layout, clearing
/// everything first when the cache is already at capacity.
pub open spec fn cache_after(
    entries: Map<Seq<char>, u32>,
    text: Seq<char>,
    wrap_width: u32,
    capacity: int,
) -> Map<Seq<char>, u32> {
    if entries.contains_key(text) {
        entries
    } else if entries.dom().len() >= capacity {
        Map::empty().insert(text, wrap_width)
    } else {
        entries.insert(text, wrap_width)
    }
}

/// The wrap width of the layout one lookup of `text` under `wrap_width`
/// returns: the stored one on a hit, the given one on a miss.
pub open spec fn cached_width(entries: Map<Seq<char>, u32>, text: Seq<char>, wrap_width: u32) -> u32 {
    if entries.contains_key(text) {
        entries[text]
    } else {
        wrap_width
    }
}

/// Whether a lookup of `text` has to shape a layout (a miss).
pub open spec fn lookup_computes(entries: Map<Seq<char>, u32>, text: Seq<char>) -> bool {
    !entries.contains_key(text)
}

/// The layout cache for the entry widget, keyed by the entry text.
pub struct TextEditorLayoutJobCache {
    entries: Vec<LayoutResult>,
    capacity: usize,
    computations: u64,
}

impl TextEditorLayoutJobCache {
    /// The stored layouts: text shaped so far, each with the wrap width it
    /// was shaped for.
    pub closed spec fn spec_entries(self) -> Map<Seq<char>, u32> {
        map_of(self.entries@)
    }

    /// The configured capacity.
    pub closed spec fn spec_capacity(self) -> int {
        self.capacity as int
    }

    /// How many layouts have been shaped (misses) so far.
    pub closed spec fn spec_computations(self) -> int {
        self.computations as int
    }

    /// The capacity is positive, texts are stored at most once, and the
    /// cache never holds more than its capacity.
    pub closed spec fn wf(self) -> bool {
        &&& 1 <= self.capacity
        &&& self.entries@.len() <= self.capacity
        &&& distinct_keys(self.entries@)
    }

    /// An empty cache that clears once `capacity` entries are reached.
    pub fn with_capacity(capacity: usize) -> (cache: TextEditorLayoutJobCache)
        requires
            capacity >= 1,
        ensures
            cache.wf(),
            cache.spec_capacity() == capacity,
            cache.spec_entries() == Map::<Seq<char>, u32>::empty(),
            cache.spec_computations() == 0,
    {
        TextEditorLayoutJobCache { entries: Vec::new(), capacity, computations: 0 }
    }

    fn find_entry(entries: &Vec<LayoutResult>, key: &String) -> (found: Option<usize>)
        ensures
            found is Some ==> found->Some_0 < entries@.len()
                && entries@[found->Some_0 as int].text@ == key@,
            found is None ==> forall|j: int|
                0 <= j < entries@.len() ==> (#[trigger] entries@[j]).text@ != key@,
    {
        let mut i: usize = 0;
        while i < entries.len()
            invariant
                i <= entries@.len(),
                forall|j: int| 0 <= j < i ==> (#[trigger] entries@[j]).text@ != key@,
            decreases entries@.len() - i,
        {
            if entries[i].text == *key {
                return Some(i);
            }
            i = i + 1;
        }
        None
    }

    /// Returns the layout for `text`: the stored one if some earlier
    /// lookup shaped it (whatever wrap width that was), else a layout
    /// freshly shaped for `wrap_width`, stored after clearing the whole
    /// cache when it was already full.
    pub fn get_or_compute(&mut self, text: &str, wrap_width: u32) -> (result: LayoutResult)
        requires
            old(self).wf(),
            old(self).spec_computations() < u64::MAX,
        ensures
            final(self).wf(),
            result.text@ == text@,
            result.wrap_width == cached_width(old(self).spec_entries(), text@, wrap_width),
            final(self).spec_entries() == cache_after(
                old(self).spec_entries(),
                text@,
                wrap_width,
                old(self).spec_capacity(),
            ),
            final(self).spec_capacity() == old(self).spec_capacity(),
            final(self).spec_computations() == old(self).spec_computations() + (
            if lookup_computes(old(self).spec_entries(), text@) {
                1int
            } else {
                0int
            }),
            final(self).spec_entries().contains_key(text@),
            final(self).spec_entries()[text@] == result.wrap_width,
            final(self).spec_entries().dom().finite(),
            final(self).spec_entries().dom().len() <= final(self).spec_capacity(),
    {
        let key = text.to_owned();
        match Self::find_entry(&self.entries, &key) {
            Some(i) => {
                proof {
                    lemma_map_of_index(self.entries@, i as int);
                    lemma_map_of_len(self.entries@);
                }
                let stored_text = self.entries[i].text.clone();
                let stored_width = self.entries[i].wrap_width;
                LayoutResult { text: stored_text, wrap_width: stored_width }
            },
            None => {
                proof {
                    lemma_map_of_contains(old(self).entries@, text@);
                    lemma_map_of_len(old(self).entries@);
                }
                if self.entries.len() >= self.capacity {
                    self.entries.clear();
                }
                let ghost pre = self.entries@;
                self.entries.push(LayoutResult { text: key, wrap_width });
                self.computations = self.computations + 1;
                proof {
                    assert(self.entries@.drop_last() =~= pre);
                    assert(distinct_keys(self.entries@)) by {
                        assert(forall|m: int|
                            0 <= m < pre.len() ==> (#[trigger] self.entries@[m]) == pre[m]);
                    }
                    lemma_map_of_len(self.entries@);
                    assert(map_of(self.entries@) == map_of(pre).insert(text@, wrap_width));
                    if pre.len() == 0 {
                        assert(map_of(pre) =~= Map::<Seq<char>, u32>::empty());
                    }
                    if old(self).entries@.len() == 0 {
                        assert(old(self).spec_entries() =~= Map::<Seq<char>, u32>::empty());
                    }
                }
                LayoutResult { text: text.to_owned(), wrap_width }
            },
        }
    }

    /// How many layouts the cache currently holds.
    pub fn len(&self) -> (len: usize)
        requires
            self.wf(),
        ensures
            len == self.spec_entries().dom().len(),
    {
        proof {
            lemma_map_of_len(self.entries@);
        }
        self.entries.len()
    }

    /// The configured capacity.
    pub fn capacity(&self) -> (capacity: usize)
        ensures
            capacity == self.spec_capacity(),
    {
        self.capacity
    }

    /// How many layouts have been shaped (misses) so far.
    pub fn computations(&self) -> (computations: u64)
        ensures
            computations == self.spec_computations(),
    {
        self.computations
    }
}

impl Default for TextEditorLayoutJobCache {
    /// An empty cache with the stock capacity.
    fn default() -> (cache: TextEditorLayoutJobCache)
        ensures
            cache.wf(),
            cache.spec_capacity() == LAYOUT_CACHE_CAPACITY,
            cache.spec_entries() == Map::<Seq<char>, u32>::empty(),
            cache.spec_computations() == 0,
    {
        TextEditorLayoutJobCache::with_capacity(LAYOUT_CACHE_CAPACITY)
    }
}

/// Looking the same text up again right after a lookup is a pure hit: the
/// layout handed back is the one the first lookup returned, nothing is
/// shaped again, and the cache does not change at all.
pub proof fn lemma_second_lookup_hits(
    entries: Map<Seq<char>, u32>,
    text: Seq<char>,
    wrap_width: u32,
    capacity: int,
)
    ensures
        cache_after(entries, text, wrap_width, capacity).contains_key(text),
        cached_width(cache_after(entries, text, wrap_width, capacity), text, wrap_width)
            == cached_width(entries, text, wrap_width),
        !lookup_computes(cache_after(entries, text, wrap_width, capacity), text),
        cache_after(cache_after(entries, text, wrap_width, capacity), text, wrap_width, capacity)
            == cache_after(entries, text, wrap_width, capacity),
{
}

/// The miss that finds the cache full clears it: only the entry inserted
/// by that very miss survives, so the size resets to one.
pub proof fn lemma_overflow_clears(
    entries: Map<Seq<char>, u32>,
    text: Seq<char>,
    wrap_width: u32,
    capacity: int,
)
    requires
        !entries.contains_key(text),
        entries.dom().len() >= capacity,
    ensures
        cache_after(entries, text, wrap_width, capacity) == Map::<Seq<char>, u32>::empty().insert(
            text,
            wrap_width,
        ),
        cache_after(entries, text, wrap_width, capacity).dom().len() == 1,
{
    assert(cache_after(entries, text, wrap_width, capacity).dom()
        =~= Set::<Seq<char>>::empty().insert(text));
}

/// A lookup never grows the cache beyond its capacity.
pub proof fn lemma_size_stays_bounded(
    entries: Map<Seq<char>, u32>,
    text: Seq<char>,
    wrap_width: u32,
    capacity: int,
)
    requires
        entries.dom().finite(),
        entries.dom().len() <= capacity,
        capacity >= 1,
    ensures
        cache_after(entries, text, wrap_width, capacity).dom().finite(),
        cache_after(entries, text, wrap_width, capacity).dom().len() <= capacity,
{
    if !entries.contains_key(text) {
        if entries.dom().len() >= capacity {
            assert(cache_after(entries, text, wrap_width, capacity).dom()
                =~= Set::<Seq<char>>::empty().insert(text));
        } else {
            assert(cache_after(entries, text, wrap_width, capacity).dom()
                =~= entries.dom().insert(text));
        }
    }
}

} // verus!
