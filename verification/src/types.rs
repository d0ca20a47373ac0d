//! Localized values: a default and its overrides by locale.

use vstd::prelude::*;

verus! {

/// The mathematical model of a localized value: the default and the map from
/// locale tag to override.
pub struct Localized<V> {
    pub default: V,
    pub locales: Map<Seq<char>, V>,
}

/// The model of a localized text.
pub type LocalizedText = Localized<Seq<char>>;

/// The model of a localized list of words.
pub type LocalizedList = Localized<Seq<Seq<char>>>;

impl<V> Localized<V> {
    /// The value for `locale`: its override where it has one, else the
    /// default.
    pub open spec fn lookup(self, locale: Seq<char>) -> V {
        if self.locales.contains_key(locale) {
            self.locales[locale]
        } else {
            self.default
        }
    }
}

/// The map that a list of tagged texts stands for; of two texts with one tag
/// the later counts.
pub open spec fn entries_map(entries: Seq<(String, String)>) -> Map<Seq<char>, Seq<char>>
    decreases entries.len(),
{
    if entries.len() == 0 {
        Map::empty()
    } else {
        entries_map(entries.drop_last()).insert(entries.last().0@, entries.last().1@)
    }
}

proof fn entries_map_step(entries: Seq<(String, String)>, i: int)
    requires
        0 <= i < entries.len(),
    ensures
        entries_map(entries.take(i + 1)) == entries_map(entries.take(i)).insert(
            entries[i].0@,
            entries[i].1@,
        ),
{
    assert(entries.take(i + 1).drop_last() =~= entries.take(i));
}

proof fn entries_map_keys(entries: Seq<(String, String)>, key: Seq<char>)
    requires
        entries_map(entries).contains_key(key),
    ensures
        exists|j: int| 0 <= j < entries.len() && (#[trigger] entries[j]).0@ == key,
    decreases entries.len(),
{
    if entries.len() > 0 {
        if entries.last().0@ == key {
            assert(entries[entries.len() - 1].0@ == key);
        } else {
            entries_map_keys(entries.drop_last(), key);
            let j = choose|j: int|
                0 <= j < entries.drop_last().len() && (#[trigger] entries.drop_last()[j]).0@ == key;
            assert(entries[j].0@ == key);
        }
    }
}

proof fn entries_map_has(entries: Seq<(String, String)>, j: int)
    requires
        0 <= j < entries.len(),
    ensures
        entries_map(entries).contains_key(entries[j].0@),
    decreases entries.len(),
{
    if j < entries.len() - 1 {
        entries_map_has(entries.drop_last(), j);
    }
}

/// The default among values that each carry a locale tag or none, in document
/// order: the last value without a tag.
pub open spec fn merged_default<V>(entries: Seq<(Option<Seq<char>>, V)>) -> Option<V>
    decreases entries.len(),
{
    if entries.len() == 0 {
        None
    } else {
        match entries.last().0 {
            None => Some(entries.last().1),
            Some(_) => merged_default(entries.drop_last()),
        }
    }
}

/// The translations among such values: for each tag, the last value with it.
pub open spec fn merged_locales<V>(entries: Seq<(Option<Seq<char>>, V)>) -> Map<Seq<char>, V>
    decreases entries.len(),
{
    if entries.len() == 0 {
        Map::empty()
    } else {
        match entries.last().0 {
            None => merged_locales(entries.drop_last()),
            Some(tag) => merged_locales(entries.drop_last()).insert(tag, entries.last().1),
        }
    }
}

/// The localized value that such values merge into; `None` where none of them
/// is without a tag.
pub open spec fn merged<V>(entries: Seq<(Option<Seq<char>>, V)>) -> Option<Localized<V>> {
    match merged_default(entries) {
        Some(default) => Some(Localized { default, locales: merged_locales(entries) }),
        None => None,
    }
}

/// The view of a text with its optional tag.
pub open spec fn tagged_view(entry: (Option<String>, String)) -> (Option<Seq<char>>, Seq<char>) {
    (
        match entry.0 {
            Some(tag) => Some(tag@),
            None => None,
        },
        entry.1@,
    )
}

/// The view of a list of texts with their optional tags.
pub open spec fn tagged_texts_view(entries: Seq<(Option<String>, String)>) -> Seq<
    (Option<Seq<char>>, Seq<char>),
> {
    entries.map_values(|e: (Option<String>, String)| tagged_view(e))
}

/// Whether `entries` is one value without a tag followed by values that carry
/// tags, no tag twice.
pub open spec fn default_then_distinct<V>(entries: Seq<(Option<Seq<char>>, V)>) -> bool {
    &&& entries.len() > 0
    &&& entries[0].0 is None
    &&& forall|i: int| 1 <= i < entries.len() ==> (#[trigger] entries[i]).0 is Some
    &&& forall|i: int, j: int|
        1 <= i < j < entries.len() ==> (#[trigger] entries[i]).0 != (#[trigger] entries[j]).0
}

/// Where one value without a tag is followed by values with distinct tags, the
/// merge has the first as its default and, for each tag, that tag's value.
pub proof fn merge_of_distinct<V>(entries: Seq<(Option<Seq<char>>, V)>)
    requires
        default_then_distinct(entries),
    ensures
        merged_default(entries) == Some(entries[0].1),
        forall|i: int|
            1 <= i < entries.len() ==> merged_locales(entries).contains_key(
                (#[trigger] entries[i]).0->0,
            ) && merged_locales(entries)[entries[i].0->0] == entries[i].1,
        forall|k: Seq<char>| #[trigger]
            merged_locales(entries).contains_key(k) ==> exists|i: int|
                1 <= i < entries.len() && (#[trigger] entries[i]).0 == Some(k),
    decreases entries.len(),
{
    if entries.len() > 1 {
        let init = entries.drop_last();
        let last = entries.len() - 1;
        assert(entries[last].0 is Some);
        assert forall|i: int, j: int| 1 <= i < j < init.len() implies (#[trigger] init[i]).0 != (
        #[trigger] init[j]).0 by {
            assert(entries[i].0 != entries[j].0);
        }
        assert forall|i: int| 1 <= i < init.len() implies (#[trigger] init[i]).0 is Some by {
            assert(entries[i].0 is Some);
        }
        merge_of_distinct::<V>(init);
        assert forall|i: int| 1 <= i < entries.len() implies merged_locales(entries).contains_key(
            (#[trigger] entries[i]).0->0,
        ) && merged_locales(entries)[entries[i].0->0] == entries[i].1 by {
            if i < last {
                assert(init[i] == entries[i]);
                assert(entries[i].0 != entries[last].0);
            }
        }
        assert forall|k: Seq<char>| #[trigger]
            merged_locales(entries).contains_key(k) implies exists|i: int|
            1 <= i < entries.len() && (#[trigger] entries[i]).0 == Some(k) by {
            if entries[last].0 == Some(k) {
            } else {
                assert(merged_locales(init).contains_key(k));
                let i = choose|i: int| 1 <= i < init.len() && (#[trigger] init[i]).0 == Some(k);
                assert(entries[i].0 == Some(k));
            }
        }
    } else {
        assert(merged_locales(entries.drop_last()) =~= Map::empty());
    }
}

/// Merging is deterministic in the order of the tagged values: two lists that
/// begin with the same value without a tag and go on with the same values
/// under distinct tags, in whatever order, merge into the same value, whose
/// default is that first value and whose translations are the tagged values.
pub proof fn merge_ignores_order_of_tagged<V>(
    a: Seq<(Option<Seq<char>>, V)>,
    b: Seq<(Option<Seq<char>>, V)>,
)
    requires
        default_then_distinct(a),
        default_then_distinct(b),
        a[0] == b[0],
        forall|i: int| 1 <= i < a.len() ==> exists|j: int| 1 <= j < b.len() && b[j] == #[trigger] a[i],
        forall|j: int| 1 <= j < b.len() ==> exists|i: int| 1 <= i < a.len() && a[i] == #[trigger] b[j],
    ensures
        merged(a) == merged(b),
        merged(a) is Some,
        merged(a)->0.default == a[0].1,
        forall|i: int|
            1 <= i < a.len() ==> merged(a)->0.locales.contains_key((#[trigger] a[i]).0->0) && merged(
                a,
            )->0.locales[a[i].0->0] == a[i].1,
{
    merge_of_distinct::<V>(a);
    merge_of_distinct::<V>(b);
    let ma = merged_locales(a);
    let mb = merged_locales(b);
    assert forall|k: Seq<char>| ma.contains_key(k) implies mb.contains_key(k) && mb[k] == ma[k] by {
        let i = choose|i: int| 1 <= i < a.len() && (#[trigger] a[i]).0 == Some(k);
        let j = choose|j: int| 1 <= j < b.len() && b[j] == a[i];
        assert(b[j].0->0 == k);
    }
    assert forall|k: Seq<char>| mb.contains_key(k) implies ma.contains_key(k) by {
        let j = choose|j: int| 1 <= j < b.len() && (#[trigger] b[j]).0 == Some(k);
        let i = choose|i: int| 1 <= i < a.len() && a[i] == b[j];
        assert(a[i].0->0 == k);
    }
    assert(ma =~= mb);
}

/// Of the values that carry one tag, the last is the one that the merge keeps.
pub proof fn later_translation_wins<V>(
    entries: Seq<(Option<Seq<char>>, V)>,
    tag: Seq<char>,
    last: int,
)
    requires
        0 <= last < entries.len(),
        entries[last].0 == Some(tag),
        forall|k: int| last < k < entries.len() ==> (#[trigger] entries[k]).0 != Some(tag),
    ensures
        merged_locales(entries).contains_key(tag),
        merged_locales(entries)[tag] == entries[last].1,
    decreases entries.len(),
{
    if last < entries.len() - 1 {
        assert(entries[entries.len() - 1].0 != Some(tag));
        assert forall|k: int| last < k < entries.drop_last().len() implies (
        #[trigger] entries.drop_last()[k]).0 != Some(tag) by {
            assert(entries[k].0 != Some(tag));
        }
        later_translation_wins(entries.drop_last(), tag, last);
    }
}

/// A default and tagged texts as one list: the default without a tag, then
/// each text with its tag.
pub open spec fn listing(default: Seq<char>, entries: Seq<(String, String)>) -> Seq<
    (Option<Seq<char>>, Seq<char>),
> {
    seq![(None::<Seq<char>>, default)] + entries.map_values(
        |e: (String, String)| (Some(e.0@), e.1@),
    )
}

/// Merging a listing gives the default and the map of its tagged texts.
pub proof fn listing_merges(default: Seq<char>, entries: Seq<(String, String)>)
    ensures
        merged_default(listing(default, entries)) == Some(default),
        merged_locales(listing(default, entries)) == entries_map(entries),
    decreases entries.len(),
{
    let all = listing(default, entries);
    if entries.len() == 0 {
        assert(all.drop_last() =~= Seq::empty());
        assert(merged_locales(all.drop_last()) =~= Map::empty());
    } else {
        listing_merges(default, entries.drop_last());
        assert(all.drop_last() =~= listing(default, entries.drop_last()));
        assert(all.last() == (Some(entries.last().0@), entries.last().1@));
    }
}

/// A text with its translations.
#[derive(Clone, Debug)]
pub struct TranslatableString {
    default: String,
    locales: Vec<(String, String)>,
}

impl View for TranslatableString {
    type V = LocalizedText;

    closed spec fn view(&self) -> LocalizedText {
        Localized { default: self.default@, locales: entries_map(self.locales@) }
    }
}

impl TranslatableString {
    /// A text with the default `text` and no translation.
    pub fn with_default(text: &str) -> (r: Self)
        ensures
            r@.default == text@,
            r@.locales == Map::<Seq<char>, Seq<char>>::empty(),
    {
        TranslatableString { default: text.to_owned(), locales: Vec::new() }
    }

    /// The same text with `text` as the translation for `locale`, in place of
    /// an earlier one for that locale.
    pub fn and_locale(self, locale: &str, text: &str) -> (r: Self)
        ensures
            r@.default == self@.default,
            r@.locales == self@.locales.insert(locale@, text@),
    {
        let tag = locale.to_owned();
        let mut kept: Vec<(String, String)> = Vec::new();
        let mut i: usize = 0;
        assert(self.locales@.take(0) =~= Seq::empty());
        assert(entries_map(kept@) =~= entries_map(self.locales@.take(0)).remove(locale@));
        while i < self.locales.len()
            invariant
                i <= self.locales.len(),
                tag@ == locale@,
                entries_map(kept@) == entries_map(self.locales@.take(i as int)).remove(locale@),
            decreases self.locales.len() - i,
        {
            proof {
                entries_map_step(self.locales@, i as int);
            }
            if self.locales[i].0 != tag {
                let ghost before = kept@;
                kept.push((self.locales[i].0.clone(), self.locales[i].1.clone()));
                proof {
                    assert(kept@.drop_last() =~= before);
                    assert(entries_map(kept@) =~= entries_map(
                        self.locales@.take(i + 1),
                    ).remove(locale@));
                }
            } else {
                assert(entries_map(kept@) =~= entries_map(self.locales@.take(i + 1)).remove(
                    locale@,
                ));
            }
            i = i + 1;
        }
        assert(self.locales@.take(i as int) =~= self.locales@);
        let ghost before = kept@;
        kept.push((tag, text.to_owned()));
        proof {
            assert(kept@.drop_last() =~= before);
            assert(entries_map(kept@) =~= entries_map(self.locales@).insert(locale@, text@));
        }
        TranslatableString { default: self.default, locales: kept }
    }

    /// Merges texts that each carry a locale tag or none, in document order:
    /// the last text without a tag is the default, and for each tag the last
    /// text with it is that locale's translation. `None` where no text is
    /// without a tag.
    pub fn merge(entries: &Vec<(Option<String>, String)>) -> (r: Option<Self>)
        ensures
            match r {
                Some(text) => merged(tagged_texts_view(entries@)) == Some(text@),
                None => merged(tagged_texts_view(entries@)) is None,
            },
    {
        let ghost all = tagged_texts_view(entries@);
        let mut default: Option<String> = None;
        let mut acc = TranslatableString::with_default("");
        let mut i: usize = 0;
        assert(all.take(0) =~= Seq::empty());
        while i < entries.len()
            invariant
                i <= entries.len(),
                all == tagged_texts_view(entries@),
                match default {
                    Some(d) => merged_default(all.take(i as int)) == Some(d@),
                    None => merged_default(all.take(i as int)) is None,
                },
                acc@.locales == merged_locales(all.take(i as int)),
            decreases entries.len() - i,
        {
            proof {
                assert(all.take(i + 1).drop_last() =~= all.take(i as int));
                assert(all.take(i + 1).last() == tagged_view(entries[i as int]));
            }
            match &entries[i].0 {
                Some(tag) => {
                    acc = acc.and_locale(tag.as_str(), entries[i].1.as_str());
                },
                None => {
                    default = Some(entries[i].1.clone());
                },
            }
            i = i + 1;
        }
        assert(all.take(i as int) =~= all);
        match default {
            Some(d) => Some(TranslatableString { default: d, locales: acc.locales }),
            None => None,
        }
    }

    /// The texts of this value as a list that merges back into it: the
    /// default without a tag, then each translation with its tag.
    pub closed spec fn listed(&self) -> Seq<(Option<Seq<char>>, Seq<char>)> {
        listing(self.default@, self.locales@)
    }

    /// The list of a value merges back into the value.
    pub proof fn listing_merges_back(&self)
        ensures
            merged(self.listed()) == Some(self@),
    {
        listing_merges(self.default@, self.locales@);
    }

    /// The texts of this value as a list: the default without a tag, then
    /// each translation with its tag.
    pub fn entries(&self) -> (r: Vec<(Option<String>, String)>)
        ensures
            tagged_texts_view(r@) == self.listed(),
    {
        let mut list: Vec<(Option<String>, String)> = Vec::new();
        list.push((None, self.default.clone()));
        let mut i: usize = 0;
        while i < self.locales.len()
            invariant
                i <= self.locales.len(),
                list.len() == i + 1,
                tagged_view(list[0]) == (None::<Seq<char>>, self.default@),
                forall|j: int|
                    0 <= j < i ==> tagged_view(#[trigger] list[j + 1]) == (
                        Some(self.locales[j].0@),
                        self.locales[j].1@,
                    ),
            decreases self.locales.len() - i,
        {
            list.push((Some(self.locales[i].0.clone()), self.locales[i].1.clone()));
            i = i + 1;
        }
        proof {
            let a = tagged_texts_view(list@);
            let b = self.listed();
            assert(a.len() == b.len());
            assert forall|k: int| 0 <= k < a.len() implies a[k] == b[k] by {
                if k > 0 {
                    assert(tagged_view(list[(k - 1) + 1]) == (
                        Some(self.locales[k - 1].0@),
                        self.locales[k - 1].1@,
                    ));
                }
            }
            assert(a =~= b);
        }
        list
    }

    /// The same value, put together anew from its default by one call of
    /// `and_locale` for each translation.
    pub fn rebuild(&self) -> (r: Self)
        ensures
            r@ == self@,
    {
        let mut copy = TranslatableString::with_default(self.default.as_str());
        let mut i: usize = 0;
        assert(self.locales@.take(0) =~= Seq::empty());
        while i < self.locales.len()
            invariant
                i <= self.locales.len(),
                copy@.default == self.default@,
                copy@.locales == entries_map(self.locales@.take(i as int)),
            decreases self.locales.len() - i,
        {
            proof {
                entries_map_step(self.locales@, i as int);
            }
            copy = copy.and_locale(self.locales[i].0.as_str(), self.locales[i].1.as_str());
            i = i + 1;
        }
        assert(self.locales@.take(i as int) =~= self.locales@);
        copy
    }

    /// The default text.
    pub fn get_default(&self) -> (r: &String)
        ensures
            r@ == self@.default,
    {
        &self.default
    }

    /// The index of the entry that counts for `locale`.
    fn find(&self, locale: &String) -> (r: Option<usize>)
        ensures
            match r {
                Some(i) => i < self.locales.len() && self@.locales.contains_key(locale@)
                    && self@.locales[locale@] == self.locales[i as int].1@
                    && self.locales[i as int].0@ == locale@,
                None => !self@.locales.contains_key(locale@),
            },
    {
        let mut i: usize = self.locales.len();
        assert(self.locales@.take(i as int) =~= self.locales@);
        while i > 0
            invariant
                i <= self.locales.len(),
                entries_map(self.locales@).contains_key(locale@) == entries_map(
                    self.locales@.take(i as int),
                ).contains_key(locale@),
                entries_map(self.locales@).contains_key(locale@) ==> entries_map(
                    self.locales@,
                )[locale@] == entries_map(self.locales@.take(i as int))[locale@],
            decreases i,
        {
            proof {
                entries_map_step(self.locales@, i - 1);
            }
            if self.locales[i - 1].0 == *locale {
                return Some(i - 1);
            }
            i = i - 1;
        }
        assert(self.locales@.take(0) =~= Seq::empty());
        None
    }

    /// The translation for `locale`, if there is one.
    pub fn get_translation(&self, locale: &str) -> (r: Option<&String>)
        ensures
            match r {
                Some(text) => self@.locales.contains_key(locale@) && self@.locales[locale@]
                    == text@,
                None => !self@.locales.contains_key(locale@),
            },
    {
        let tag = locale.to_owned();
        match self.find(&tag) {
            Some(i) => Some(&self.locales[i].1),
            None => None,
        }
    }

    /// The text for `locale`: its translation where there is one, else the
    /// default.
    pub fn get_for_locale(&self, locale: &str) -> (r: &String)
        ensures
            r@ == self@.lookup(locale@),
    {
        match self.get_translation(locale) {
            Some(text) => text,
            None => &self.default,
        }
    }

    /// Whether every translation of `self` is a translation of `other`.
    fn covered_by(&self, other: &Self) -> (r: bool)
        ensures
            r == self@.locales.submap_of(other@.locales),
    {
        let mut i: usize = 0;
        while i < self.locales.len()
            invariant
                i <= self.locales.len(),
                forall|j: int|
                    0 <= j < i ==> other@.locales.contains_key((#[trigger] self.locales[j]).0@)
                        && other@.locales[self.locales[j].0@] == self@.locales[self.locales[j].0@],
            decreases self.locales.len() - i,
        {
            proof {
                entries_map_has(self.locales@, i as int);
            }
            let mine = self.find(&self.locales[i].0);
            let theirs = other.find(&self.locales[i].0);
            match (mine, theirs) {
                (Some(a), Some(b)) => {
                    if self.locales[a].1 != other.locales[b].1 {
                        return false;
                    }
                },
                _ => {
                    return false;
                },
            }
            i = i + 1;
        }
        proof {
            assert forall|k: Seq<char>| self@.locales.contains_key(k) implies #[trigger] other@.locales.contains_key(k)
                && self@.locales[k] == other@.locales[k] by {
                entries_map_keys(self.locales@, k);
                let j = choose|j: int|
                    0 <= j < self.locales@.len() && (#[trigger] self.locales@[j]).0@ == k;
                assert(self.locales[j].0@ == k);
            }
        }
        true
    }
}

impl PartialEq for TranslatableString {
    fn eq(&self, other: &Self) -> (r: bool) {
        let same = self.default == other.default && self.covered_by(other) && other.covered_by(
            self,
        );
        proof {
            if same {
                let a = self@.locales;
                let b = other@.locales;
                assert forall|k: Seq<char>| a.dom().contains(k) == b.dom().contains(k) by {}
                assert forall|k: Seq<char>| #[trigger] a.dom().contains(k) implies a[k] == b[k] by {}
                assert(a =~= b);
            }
        }
        same
    }
}

impl vstd::std_specs::cmp::PartialEqSpecImpl for TranslatableString {
    open spec fn obeys_eq_spec() -> bool {
        true
    }

    open spec fn eq_spec(&self, other: &Self) -> bool {
        self@ == other@
    }
}

/// The views of a list of strings.
pub open spec fn strings_view(words: Seq<String>) -> Seq<Seq<char>> {
    words.map_values(|w: String| w@)
}

/// The views of a list of string slices.
pub open spec fn strs_view(words: Seq<&str>) -> Seq<Seq<char>> {
    words.map_values(|w: &str| w@)
}

/// A copy of `words`.
pub fn copy_strings(words: &Vec<String>) -> (r: Vec<String>)
    ensures
        strings_view(r@) == strings_view(words@),
{
    let mut copy: Vec<String> = Vec::new();
    let mut i: usize = 0;
    while i < words.len()
        invariant
            i <= words.len(),
            copy.len() == i,
            forall|j: int| 0 <= j < i ==> (#[trigger] copy[j])@ == words[j]@,
        decreases words.len() - i,
    {
        copy.push(words[i].clone());
        i = i + 1;
    }
    assert(strings_view(copy@) =~= strings_view(words@));
    copy
}

/// `words` as owned strings.
pub fn owned_strings(words: &Vec<&str>) -> (r: Vec<String>)
    ensures
        strings_view(r@) == strs_view(words@),
{
    let mut owned: Vec<String> = Vec::new();
    let mut i: usize = 0;
    while i < words.len()
        invariant
            i <= words.len(),
            owned.len() == i,
            forall|j: int| 0 <= j < i ==> (#[trigger] owned[j])@ == words[j]@,
        decreases words.len() - i,
    {
        owned.push(words[i].to_owned());
        i = i + 1;
    }
    assert(strings_view(owned@) =~= strs_view(words@));
    owned
}

/// Whether two lists hold the same words in the same order.
pub fn same_strings(a: &Vec<String>, b: &Vec<String>) -> (r: bool)
    ensures
        r == (strings_view(a@) == strings_view(b@)),
{
    if a.len() != b.len() {
        assert(strings_view(a@).len() != strings_view(b@).len());
        return false;
    }
    let mut i: usize = 0;
    while i < a.len()
        invariant
            i <= a.len(),
            a.len() == b.len(),
            forall|j: int| 0 <= j < i ==> (#[trigger] a[j])@ == b[j]@,
        decreases a.len() - i,
    {
        if a[i] != b[i] {
            assert(strings_view(a@)[i as int] != strings_view(b@)[i as int]);
            return false;
        }
        i = i + 1;
    }
    assert(strings_view(a@) =~= strings_view(b@));
    true
}

/// The map that a list of tagged lists stands for; of two lists with one tag
/// the later counts.
pub open spec fn list_entries_map(entries: Seq<(String, Vec<String>)>) -> Map<Seq<char>, Seq<Seq<char>>>
    decreases entries.len(),
{
    if entries.len() == 0 {
        Map::empty()
    } else {
        list_entries_map(entries.drop_last()).insert(entries.last().0@, strings_view(entries.last().1@))
    }
}

proof fn list_entries_map_step(entries: Seq<(String, Vec<String>)>, i: int)
    requires
        0 <= i < entries.len(),
    ensures
        list_entries_map(entries.take(i + 1)) == list_entries_map(entries.take(i)).insert(
            entries[i].0@,
            strings_view(entries[i].1@),
        ),
{
    assert(entries.take(i + 1).drop_last() =~= entries.take(i));
}

proof fn list_entries_map_keys(entries: Seq<(String, Vec<String>)>, key: Seq<char>)
    requires
        list_entries_map(entries).contains_key(key),
    ensures
        exists|j: int| 0 <= j < entries.len() && (#[trigger] entries[j]).0@ == key,
    decreases entries.len(),
{
    if entries.len() > 0 {
        if entries.last().0@ == key {
            assert(entries[entries.len() - 1].0@ == key);
        } else {
            list_entries_map_keys(entries.drop_last(), key);
            let j = choose|j: int|
                0 <= j < entries.drop_last().len() && (#[trigger] entries.drop_last()[j]).0@ == key;
            assert(entries[j].0@ == key);
        }
    }
}

proof fn list_entries_map_has(entries: Seq<(String, Vec<String>)>, j: int)
    requires
        0 <= j < entries.len(),
    ensures
        list_entries_map(entries).contains_key(entries[j].0@),
    decreases entries.len(),
{
    if j < entries.len() - 1 {
        list_entries_map_has(entries.drop_last(), j);
    }
}

/// The view of a list of words with its optional tag.
pub open spec fn tagged_list_view(entry: (Option<String>, Vec<String>)) -> (Option<Seq<char>>, Seq<Seq<char>>) {
    (
        match entry.0 {
            Some(tag) => Some(tag@),
            None => None,
        },
        strings_view(entry.1@),
    )
}

/// The view of lists of words with their optional tags.
pub open spec fn tagged_lists_view(entries: Seq<(Option<String>, Vec<String>)>) -> Seq<
    (Option<Seq<char>>, Seq<Seq<char>>),
> {
    entries.map_values(|e: (Option<String>, Vec<String>)| tagged_list_view(e))
}

/// A list of words with its translations.
#[derive(Clone, Debug)]
pub struct TranslatableVec {
    default: Vec<String>,
    locales: Vec<(String, Vec<String>)>,
}

impl View for TranslatableVec {
    type V = LocalizedList;

    closed spec fn view(&self) -> LocalizedList {
        Localized { default: strings_view(self.default@), locales: list_entries_map(self.locales@) }
    }
}

impl TranslatableVec {
    /// A list with the default `words` and no translation.
    pub fn with_default(words: Vec<&str>) -> (r: Self)
        ensures
            r@.default == strs_view(words@),
            r@.locales == Map::<Seq<char>, Seq<Seq<char>>>::empty(),
    {
        TranslatableVec { default: owned_strings(&words), locales: Vec::new() }
    }

    /// The same list with `words` as the translation for `locale`, in place
    /// of an earlier one for that locale.
    pub fn and_locale(self, locale: &str, words: Vec<&str>) -> (r: Self)
        ensures
            r@.default == self@.default,
            r@.locales == self@.locales.insert(locale@, strs_view(words@)),
    {
        let owned = owned_strings(&words);
        self.and_locale_owned(locale, owned)
    }

    /// The same list with the owned `words` as the translation for `locale`,
    /// in place of an earlier one for that locale.
    pub fn and_locale_owned(self, locale: &str, words: Vec<String>) -> (r: Self)
        ensures
            r@.default == self@.default,
            r@.locales == self@.locales.insert(locale@, strings_view(words@)),
    {
        let tag = locale.to_owned();
        let mut kept: Vec<(String, Vec<String>)> = Vec::new();
        let mut i: usize = 0;
        assert(self.locales@.take(0) =~= Seq::empty());
        assert(list_entries_map(kept@) =~= list_entries_map(self.locales@.take(0)).remove(locale@));
        while i < self.locales.len()
            invariant
                i <= self.locales.len(),
                tag@ == locale@,
                list_entries_map(kept@) == list_entries_map(self.locales@.take(i as int)).remove(locale@),
            decreases self.locales.len() - i,
        {
            proof {
                list_entries_map_step(self.locales@, i as int);
            }
            if self.locales[i].0 != tag {
                let ghost before = kept@;
                kept.push((self.locales[i].0.clone(), copy_strings(&self.locales[i].1)));
                proof {
                    assert(kept@.drop_last() =~= before);
                    assert(list_entries_map(kept@) =~= list_entries_map(
                        self.locales@.take(i + 1),
                    ).remove(locale@));
                }
            } else {
                assert(list_entries_map(kept@) =~= list_entries_map(self.locales@.take(i + 1)).remove(
                    locale@,
                ));
            }
            i = i + 1;
        }
        assert(self.locales@.take(i as int) =~= self.locales@);
        let ghost before = kept@;
        kept.push((tag, words));
        proof {
            assert(kept@.drop_last() =~= before);
            assert(list_entries_map(kept@) =~= list_entries_map(self.locales@).insert(locale@, strings_view(words@)));
        }
        TranslatableVec { default: self.default, locales: kept }
    }

    /// Merges lists that each carry a locale tag or none, in document order:
    /// the last list without a tag is the default, and for each tag the last
    /// list with it is that locale's translation. `None` where no list is
    /// without a tag.
    pub fn merge(entries: &Vec<(Option<String>, Vec<String>)>) -> (r: Option<Self>)
        ensures
            match r {
                Some(text) => merged(tagged_lists_view(entries@)) == Some(text@),
                None => merged(tagged_lists_view(entries@)) is None,
            },
    {
        let ghost all = tagged_lists_view(entries@);
        let mut default: Option<Vec<String>> = None;
        let mut acc = TranslatableVec { default: Vec::new(), locales: Vec::new() };
        let mut i: usize = 0;
        assert(all.take(0) =~= Seq::empty());
        while i < entries.len()
            invariant
                i <= entries.len(),
                all == tagged_lists_view(entries@),
                match default {
                    Some(d) => merged_default(all.take(i as int)) == Some(strings_view(d@)),
                    None => merged_default(all.take(i as int)) is None,
                },
                acc@.locales == merged_locales(all.take(i as int)),
            decreases entries.len() - i,
        {
            proof {
                assert(all.take(i + 1).drop_last() =~= all.take(i as int));
                assert(all.take(i + 1).last() == tagged_list_view(entries[i as int]));
            }
            match &entries[i].0 {
                Some(tag) => {
                    acc = acc.and_locale_owned(tag.as_str(), copy_strings(&entries[i].1));
                },
                None => {
                    default = Some(copy_strings(&entries[i].1));
                },
            }
            i = i + 1;
        }
        assert(all.take(i as int) =~= all);
        match default {
            Some(d) => Some(TranslatableVec { default: d, locales: acc.locales }),
            None => None,
        }
    }

    /// The same value, put together anew from its default by one call of
    /// `and_locale_owned` for each translation.
    pub fn rebuild(&self) -> (r: Self)
        ensures
            r@ == self@,
    {
        let mut copy = TranslatableVec {
            default: copy_strings(&self.default),
            locales: Vec::new(),
        };
        let mut i: usize = 0;
        assert(self.locales@.take(0) =~= Seq::empty());
        while i < self.locales.len()
            invariant
                i <= self.locales.len(),
                copy@.default == self@.default,
                copy@.locales == list_entries_map(self.locales@.take(i as int)),
            decreases self.locales.len() - i,
        {
            proof {
                list_entries_map_step(self.locales@, i as int);
            }
            copy = copy.and_locale_owned(
                self.locales[i].0.as_str(),
                copy_strings(&self.locales[i].1),
            );
            i = i + 1;
        }
        assert(self.locales@.take(i as int) =~= self.locales@);
        copy
    }

    /// The default list.
    pub fn get_default(&self) -> (r: &Vec<String>)
        ensures
            strings_view(r@) == self@.default,
    {
        &self.default
    }

    /// The index of the entry that counts for `locale`.
    fn find(&self, locale: &String) -> (r: Option<usize>)
        ensures
            match r {
                Some(i) => i < self.locales.len() && self@.locales.contains_key(locale@)
                    && self@.locales[locale@] == strings_view(self.locales[i as int].1@)
                    && self.locales[i as int].0@ == locale@,
                None => !self@.locales.contains_key(locale@),
            },
    {
        let mut i: usize = self.locales.len();
        assert(self.locales@.take(i as int) =~= self.locales@);
        while i > 0
            invariant
                i <= self.locales.len(),
                list_entries_map(self.locales@).contains_key(locale@) == list_entries_map(
                    self.locales@.take(i as int),
                ).contains_key(locale@),
                list_entries_map(self.locales@).contains_key(locale@) ==> list_entries_map(
                    self.locales@,
                )[locale@] == list_entries_map(self.locales@.take(i as int))[locale@],
            decreases i,
        {
            proof {
                list_entries_map_step(self.locales@, i - 1);
            }
            if self.locales[i - 1].0 == *locale {
                return Some(i - 1);
            }
            i = i - 1;
        }
        assert(self.locales@.take(0) =~= Seq::empty());
        None
    }

    /// The translation for `locale`, if there is one.
    pub fn get_translation(&self, locale: &str) -> (r: Option<&Vec<String>>)
        ensures
            match r {
                Some(text) => self@.locales.contains_key(locale@) && self@.locales[locale@]
                    == strings_view(text@),
                None => !self@.locales.contains_key(locale@),
            },
    {
        let tag = locale.to_owned();
        match self.find(&tag) {
            Some(i) => Some(&self.locales[i].1),
            None => None,
        }
    }

    /// The list for `locale`: its translation where there is one, else the
    /// default.
    pub fn get_for_locale(&self, locale: &str) -> (r: &Vec<String>)
        ensures
            strings_view(r@) == self@.lookup(locale@),
    {
        match self.get_translation(locale) {
            Some(text) => text,
            None => &self.default,
        }
    }

    /// Whether every translation of `self` is a translation of `other`.
    fn covered_by(&self, other: &Self) -> (r: bool)
        ensures
            r == self@.locales.submap_of(other@.locales),
    {
        let mut i: usize = 0;
        while i < self.locales.len()
            invariant
                i <= self.locales.len(),
                forall|j: int|
                    0 <= j < i ==> other@.locales.contains_key((#[trigger] self.locales[j]).0@)
                        && other@.locales[self.locales[j].0@] == self@.locales[self.locales[j].0@],
            decreases self.locales.len() - i,
        {
            proof {
                list_entries_map_has(self.locales@, i as int);
            }
            let mine = self.find(&self.locales[i].0);
            let theirs = other.find(&self.locales[i].0);
            match (mine, theirs) {
                (Some(a), Some(b)) => {
                    if !same_strings(&self.locales[a].1, &other.locales[b].1) {
                        return false;
                    }
                },
                _ => {
                    return false;
                },
            }
            i = i + 1;
        }
        proof {
            assert forall|k: Seq<char>| self@.locales.contains_key(k) implies #[trigger] other@.locales.contains_key(k)
                && self@.locales[k] == other@.locales[k] by {
                list_entries_map_keys(self.locales@, k);
                let j = choose|j: int|
                    0 <= j < self.locales@.len() && (#[trigger] self.locales@[j]).0@ == k;
                assert(self.locales[j].0@ == k);
            }
        }
        true
    }
}

impl PartialEq for TranslatableVec {
    fn eq(&self, other: &Self) -> (r: bool) {
        let same = same_strings(&self.default, &other.default) && self.covered_by(other) && other.covered_by(
            self,
        );
        proof {
            if same {
                let a = self@.locales;
                let b = other@.locales;
                assert forall|k: Seq<char>| a.dom().contains(k) == b.dom().contains(k) by {}
                assert forall|k: Seq<char>| #[trigger] a.dom().contains(k) implies a[k] == b[k] by {}
                assert(a =~= b);
            }
        }
        same
    }
}

impl vstd::std_specs::cmp::PartialEqSpecImpl for TranslatableVec {
    open spec fn obeys_eq_spec() -> bool {
        true
    }

    open spec fn eq_spec(&self, other: &Self) -> bool {
        self@ == other@
    }
}

} // verus!
