//! The lazily-deserializing theme container.
//!
//! Themes are held in their serialized dump form and deserialized at most
//! once each, on first access, through a write-once memoization cell. The
//! serialized form of a theme is modelled by the uninterpreted function
//! [`theme_dump`]; a container maps theme names to such dumps.

use crate::text::{chars_lt, lemma_chars_lt_irrefl, str_eq, str_lt};
use once_cell::sync::OnceCell;
use syntect::highlighting::{Theme, ThemeSet};
use vstd::prelude::*;

verus! {

#[verifier::external_type_specification]
#[verifier::external_body]
pub struct ExTheme(Theme);

#[verifier::external_type_specification]
#[verifier::external_body]
pub struct ExThemeSet(ThemeSet);

#[verifier::external_type_specification]
#[verifier::external_body]
#[verifier::reject_recursive_types(T)]
pub struct ExOnceCell<T>(OnceCell<T>);

/// The bytes that `syntect::dumps::dump_binary` produces for a theme: a
/// bincode encoding compressed with zlib, a function of the theme value
/// alone.
pub uninterp spec fn theme_dump(t: Theme) -> Seq<u8>;

/// A byte sequence is a theme dump when it is what some theme dumps to.
pub open spec fn is_theme_dump(b: Seq<u8>) -> bool {
    exists|t: Theme| theme_dump(t) == b
}

/// The theme that a dump stands for: the theme that dumps to these bytes.
/// Meaningful only for byte sequences satisfying [`is_theme_dump`].
pub open spec fn theme_of_dump(b: Seq<u8>) -> Theme {
    choose|t: Theme| theme_dump(t) == b
}

/// Relies on `syntect::dumps::dump_binary`: serializes a theme with bincode
/// and zlib, which depends on the theme value alone, and is inverted by
/// `syntect::dumps::from_binary`, so no other theme value shares the same
/// dump.
#[verifier::external_body]
fn dump_theme(t: &Theme) -> (r: Vec<u8>)
    ensures
        r@ == theme_dump(*t),
        forall|t2: Theme| theme_dump(t2) == r@ ==> t2 == *t,
{
    syntect::dumps::dump_binary(t)
}

/// Relies on `once_cell::sync::OnceCell::new`: creates an empty cell.
#[verifier::external_body]
fn new_theme_cell() -> (r: OnceCell<Theme>) {
    OnceCell::new()
}

/// The name-to-value association that a sequence of entries builds up, with a
/// later entry winning over an earlier one of the same name.
pub open spec fn assoc_map<V>(s: Seq<(Seq<char>, V)>) -> Map<Seq<char>, V>
    decreases s.len(),
{
    if s.len() == 0 {
        Map::empty()
    } else {
        assoc_map(s.drop_last()).insert(s.last().0, s.last().1)
    }
}

/// When the names of `s` are distinct, [`assoc_map`] holds exactly the pairs
/// of `s`.
pub proof fn lemma_assoc_map_distinct<V>(s: Seq<(Seq<char>, V)>)
    requires
        forall|i: int, j: int| 0 <= i < j < s.len() ==> s[i].0 != s[j].0,
    ensures
        forall|i: int|
            0 <= i < s.len() ==> #[trigger] assoc_map(s).contains_key(s[i].0) && assoc_map(s)[s[i].0]
                == s[i].1,
        forall|k: Seq<char>|
            #[trigger] assoc_map(s).contains_key(k) ==> exists|i: int|
                0 <= i < s.len() && s[i].0 == k,
    decreases s.len(),
{
    if s.len() > 0 {
        let sub = s.drop_last();
        lemma_assoc_map_distinct(sub);
        assert(assoc_map(s) == assoc_map(sub).insert(s.last().0, s.last().1));
        assert forall|i: int| 0 <= i < s.len() implies #[trigger] assoc_map(s).contains_key(s[i].0)
            && assoc_map(s)[s[i].0] == s[i].1 by {
            if i < s.len() - 1 {
                assert(sub[i] == s[i]);
                assert(assoc_map(sub).contains_key(sub[i].0) && assoc_map(sub)[sub[i].0]
                    == sub[i].1);
                assert(s[i].0 != s[s.len() - 1].0);
            } else {
                assert(s[i] == s.last());
            }
        }
        assert forall|k: Seq<char>| #[trigger] assoc_map(s).contains_key(k) implies exists|i: int|
            0 <= i < s.len() && s[i].0 == k by {
            if k == s.last().0 {
                assert(s[s.len() - 1].0 == k);
            } else {
                assert(assoc_map(sub).contains_key(k));
                let i = choose|i: int| 0 <= i < sub.len() && sub[i].0 == k;
                assert(sub[i] == s[i]);
                assert(s[i].0 == k);
            }
        }
    }
}

/// What a `syntect` `ThemeSet` holds: its map from theme name to theme.
pub uninterp spec fn theme_set_map(ts: ThemeSet) -> Map<Seq<char>, Theme>;

/// Round-trip law: serializing every theme of a collection into a lazy
/// container and then forcing every entry back out yields a collection
/// equal, per theme, to the original. The hypotheses are exactly what
/// [`LazyThemeSet::from_theme_set`] and [`LazyThemeSet::to_theme_set`]
/// ensure about the maps involved.
pub proof fn lemma_theme_set_round_trip(
    orig: Map<Seq<char>, Theme>,
    lazy: Map<Seq<char>, Seq<u8>>,
    back: Map<Seq<char>, Theme>,
)
    requires
        lazy.dom() == orig.dom(),
        forall|k: Seq<char>| lazy.contains_key(k) ==> theme_of_dump(#[trigger] lazy[k]) == orig[k],
        back.dom() == lazy.dom(),
        forall|k: Seq<char>| lazy.contains_key(k) ==> #[trigger] back[k] == theme_of_dump(lazy[k]),
    ensures
        back == orig,
{
    assert(back =~= orig);
}

/// Idempotence law: two lookups of the same name in the same container
/// yield the same theme. [`LazyThemeSet::get`] ensures that any successful
/// result equals `theme_of_dump` of the stored dump, so both of two calls
/// return this one value: memoizing the first deserialization cannot be
/// observed through the result.
pub proof fn lemma_get_deterministic(
    m: Map<Seq<char>, Seq<u8>>,
    name: Seq<char>,
    t1: Theme,
    t2: Theme,
)
    requires
        m.contains_key(name),
        t1 == theme_of_dump(m[name]),
        t2 == theme_of_dump(m[name]),
    ensures
        t1 == t2,
{
}

/// The (name, theme) pairs of an entry vector, as mathematical values.
pub open spec fn theme_entries_view(s: Seq<(String, Theme)>) -> Seq<(Seq<char>, Theme)> {
    s.map_values(|p: (String, Theme)| (p.0@, p.1))
}

/// The (name, dump) pairs of a dump-entry vector, as mathematical values.
pub open spec fn dump_entries_view(s: Seq<(String, Vec<u8>)>) -> Seq<(Seq<char>, Seq<u8>)> {
    s.map_values(|p: (String, Vec<u8>)| (p.0@, p.1@))
}

/// Relies on `ThemeSet`'s public `themes` B-tree map: iterating it yields
/// each stored (name, theme) pair exactly once, in strictly ascending name
/// order (`String` orders by UTF-8 bytes, which agrees with code-point
/// order).
#[verifier::external_body]
fn theme_set_to_entries(ts: &ThemeSet) -> (v: Vec<(String, Theme)>)
    ensures
        forall|i: int|
            0 <= i < v@.len() ==> theme_set_map(*ts).contains_key(#[trigger] v@[i].0@)
                && theme_set_map(*ts)[v@[i].0@] == v@[i].1,
        forall|k: Seq<char>|
            #[trigger] theme_set_map(*ts).contains_key(k) ==> exists|i: int|
                0 <= i < v@.len() && v@[i].0@ == k,
        forall|i: int, j: int| 0 <= i < j < v@.len() ==> v@[i].0@ != v@[j].0@,
        forall|i: int, j: int| 0 <= i < j < v@.len() ==> chars_lt(v@[i].0@, v@[j].0@),
{
    ts.themes.iter().map(|(name, theme)| (name.clone(), theme.clone())).collect()
}

/// Relies on `ThemeSet` being exactly its public `themes` B-tree map:
/// collecting pairs into the map keeps, for each name, the last pair given.
#[verifier::external_body]
fn theme_set_from_entries(v: Vec<(String, Theme)>) -> (r: ThemeSet)
    ensures
        theme_set_map(r) == assoc_map(theme_entries_view(v@)),
{
    ThemeSet { themes: v.into_iter().collect() }
}

/// One entry of the lazy container: a theme dump together with the
/// write-once cell its deserialized form is memoized in.
pub(crate) struct LazyTheme {
    serialized: Vec<u8>,
    deserialized: OnceCell<Theme>,
}

impl View for LazyTheme {
    type V = Seq<u8>;

    closed spec fn view(&self) -> Seq<u8> {
        self.serialized@
    }
}

impl LazyTheme {
    /// A well-formed entry holds bytes that some theme dumps to.
    pub open spec fn wf(self) -> bool {
        is_theme_dump(self@)
    }

    /// Relies on `syntect::dumps::from_binary`: returns the value that was
    /// dumped into the given bytes; it panics on bytes that no dump
    /// produced, which the precondition rules out.
    #[verifier::external_body]
    fn deserialize(&self) -> (t: Theme)
        requires
            self.wf(),
        ensures
            forall|t2: Theme| theme_dump(t2) == self@ ==> t == t2,
    {
        syntect::dumps::from_binary(self.serialized.as_slice())
    }

    /// Relies on `once_cell::sync::OnceCell::get_or_init`: returns the value
    /// stored in the cell, initializing it from the closure under exactly one
    /// of any concurrent first accesses. The cell is private and this call is
    /// its only fill site, and the closure deserializes this entry's own
    /// bytes, so the returned reference is always to the theme that this
    /// entry's dump stands for.
    #[verifier::external_body]
    fn force(&self) -> (r: &Theme)
        requires
            self.wf(),
        ensures
            *r == theme_of_dump(self@),
    {
        self.deserialized.get_or_init(|| self.deserialize())
    }

    /// Builds an entry by serializing the given theme; the memoization cell
    /// starts out empty.
    fn from_theme(theme: &Theme) -> (r: LazyTheme)
        ensures
            r.wf(),
            r@ == theme_dump(*theme),
            theme_of_dump(r@) == *theme,
    {
        let serialized = dump_theme(theme);
        let deserialized = new_theme_cell();
        let r = LazyTheme { serialized, deserialized };
        proof {
            assert(theme_dump(*theme) == r@);
            let t0 = theme_of_dump(r@);
            assert(theme_dump(t0) == r@);
        }
        r
    }

    /// Builds an entry directly from a dump; the memoization cell starts out
    /// empty.
    fn from_serialized(bytes: Vec<u8>) -> (r: LazyTheme)
        requires
            is_theme_dump(bytes@),
        ensures
            r.wf(),
            r@ == bytes@,
    {
        LazyTheme { serialized: bytes, deserialized: new_theme_cell() }
    }

    /// A copy of the dump this entry holds.
    fn serialized_bytes(&self) -> (r: Vec<u8>)
        ensures
            r@ == self@,
    {
        self.serialized.clone()
    }

    /// Deserializes this entry into an owned theme, bypassing the cell.
    fn to_theme(&self) -> (t: Theme)
        requires
            self.wf(),
        ensures
            t == theme_of_dump(self@),
    {
        let t = self.deserialize();
        proof {
            let t0 = theme_of_dump(self@);
            assert(theme_dump(t0) == self@);
        }
        t
    }
}

/// The (name, dump) pairs of a run of lazy entries, as mathematical values.
pub(crate) open spec fn lazy_entries_view(s: Seq<(String, LazyTheme)>) -> Seq<
    (Seq<char>, Seq<u8>),
> {
    s.map_values(|p: (String, LazyTheme)| (p.0@, p.1@))
}

/// A theme set that lazily deserializes/decompresses a single theme at a
/// time
///
/// Each theme is kept in serialized form and deserialized at most once, on
/// first access. This lowers load times when only a few themes are used, at
/// the expense of slightly larger serialized size due to worse compression.
pub struct LazyThemeSet {
    // Can't be public since people could tweak an entry's internal data to
    // make deserialization fail
    themes: Vec<(String, LazyTheme)>,
}

impl View for LazyThemeSet {
    type V = Map<Seq<char>, Seq<u8>>;

    closed spec fn view(&self) -> Map<Seq<char>, Seq<u8>> {
        assoc_map(lazy_entries_view(self.themes@))
    }
}

impl LazyThemeSet {
    #[verifier::type_invariant]
    spec fn type_inv(self) -> bool {
        &&& forall|i: int, j: int|
            0 <= i < j < self.themes@.len() ==> self.themes@[i].0@ != self.themes@[j].0@
        &&& forall|i: int, j: int|
            0 <= i < j < self.themes@.len() ==> chars_lt(
                self.themes@[i].0@,
                self.themes@[j].0@,
            )
        &&& forall|i: int| 0 <= i < self.themes@.len() ==> (#[trigger] self.themes@[i].1).wf()
    }

    /// Access a single theme from the set
    ///
    /// Calling this multiple times for the same theme will only deserialize
    /// and decompress the theme once.
    pub fn get(&self, name: &str) -> (r: Option<&Theme>)
        ensures
            match r {
                Some(t) => self@.contains_key(name@) && *t == theme_of_dump(self@[name@]),
                None => !self@.contains_key(name@),
            },
    {
        proof {
            use_type_invariant(self);
            lemma_assoc_map_distinct(lazy_entries_view(self.themes@));
        }
        let ghost entries = lazy_entries_view(self.themes@);
        let mut i: usize = 0;
        while i < self.themes.len()
            invariant
                i <= self.themes@.len(),
                entries == lazy_entries_view(self.themes@),
                self@ == assoc_map(entries),
                forall|i2: int|
                    0 <= i2 < entries.len() ==> #[trigger] assoc_map(entries).contains_key(
                        entries[i2].0,
                    ) && assoc_map(entries)[entries[i2].0] == entries[i2].1,
                forall|k: Seq<char>|
                    #[trigger] assoc_map(entries).contains_key(k) ==> exists|i2: int|
                        0 <= i2 < entries.len() && entries[i2].0 == k,
                forall|i2: int| 0 <= i2 < self.themes@.len() ==> (#[trigger] self.themes@[i2].1).wf(),
                forall|j: int| 0 <= j < i ==> (#[trigger] entries[j]).0 != name@,
            decreases self.themes@.len() - i,
        {
            let entry = &self.themes[i];
            if str_eq(entry.0.as_str(), name) {
                proof {
                    let gi = i as int;
                    assert(entries[gi] == (self.themes@[gi].0@, self.themes@[gi].1@));
                    assert(assoc_map(entries).contains_key(entries[gi].0));
                    assert(assoc_map(entries)[entries[gi].0] == entries[gi].1);
                }
                return Some(entry.1.force());
            }
            proof {
                let gi = i as int;
                assert(entries[gi] == (self.themes@[gi].0@, self.themes@[gi].1@));
            }
            i += 1;
        }
        proof {
            if self@.contains_key(name@) {
                let j = choose|j: int| 0 <= j < entries.len() && entries[j].0 == name@;
                assert((entries[j]).0 != name@);
            }
        }
        None
    }

    /// Lists all the theme names included in the set, in the container's
    /// natural (sorted) order.
    pub fn theme_names(&self) -> (r: Vec<String>)
        ensures
            forall|i: int| 0 <= i < r@.len() ==> self@.contains_key(#[trigger] r@[i]@),
            forall|k: Seq<char>|
                #[trigger] self@.contains_key(k) ==> exists|i: int| 0 <= i < r@.len() && r@[i]@ == k,
            forall|i: int, j: int| 0 <= i < j < r@.len() ==> r@[i]@ != r@[j]@,
            forall|i: int, j: int| 0 <= i < j < r@.len() ==> chars_lt(r@[i]@, r@[j]@),
    {
        proof {
            use_type_invariant(self);
            lemma_assoc_map_distinct(lazy_entries_view(self.themes@));
        }
        let ghost entries = lazy_entries_view(self.themes@);
        let mut names: Vec<String> = Vec::new();
        let mut i: usize = 0;
        while i < self.themes.len()
            invariant
                i <= self.themes@.len(),
                entries == lazy_entries_view(self.themes@),
                names@.len() == i,
                forall|j: int| 0 <= j < i ==> (#[trigger] names@[j])@ == entries[j].0,
            decreases self.themes@.len() - i,
        {
            let entry = &self.themes[i];
            names.push(entry.0.clone());
            proof {
                let gi = i as int;
                assert(entries[gi] == (self.themes@[gi].0@, self.themes@[gi].1@));
                assert(names@[gi]@ == entries[gi].0);
            }
            i += 1;
        }
        proof {
            assert forall|i2: int| 0 <= i2 < names@.len() implies self@.contains_key(
                #[trigger] names@[i2]@,
            ) by {
                assert(names@[i2]@ == entries[i2].0);
                assert(assoc_map(entries).contains_key(entries[i2].0) && assoc_map(
                    entries,
                )[entries[i2].0] == entries[i2].1);
            }
            assert forall|k: Seq<char>| #[trigger] self@.contains_key(k) implies exists|i2: int|
                0 <= i2 < names@.len() && names@[i2]@ == k by {
                let j = choose|j: int| 0 <= j < entries.len() && entries[j].0 == k;
                assert(names@[j]@ == entries[j].0);
            }
            assert forall|i2: int, j2: int| 0 <= i2 < j2 < names@.len() implies names@[i2]@
                != names@[j2]@ && chars_lt(names@[i2]@, names@[j2]@) by {
                assert(names@[i2]@ == entries[i2].0);
                assert(names@[j2]@ == entries[j2].0);
                assert(entries[i2] == (self.themes@[i2].0@, self.themes@[i2].1@));
                assert(entries[j2] == (self.themes@[j2].0@, self.themes@[j2].1@));
            }
        }
        names
    }

    /// Serializes every theme of a full theme set into a lazy container.
    pub fn from_theme_set(full_themes: &ThemeSet) -> (r: LazyThemeSet)
        ensures
            r@.dom() =~= theme_set_map(*full_themes).dom(),
            forall|k: Seq<char>|
                #[trigger] r@.contains_key(k) ==> theme_of_dump(r@[k]) == theme_set_map(
                    *full_themes,
                )[k],
    {
        let entries = theme_set_to_entries(full_themes);
        let mut themes: Vec<(String, LazyTheme)> = Vec::new();
        let mut i: usize = 0;
        while i < entries.len()
            invariant
                i <= entries@.len(),
                themes@.len() == i,
                forall|i2: int|
                    0 <= i2 < entries@.len() ==> theme_set_map(*full_themes).contains_key(
                        #[trigger] entries@[i2].0@,
                    ) && theme_set_map(*full_themes)[entries@[i2].0@] == entries@[i2].1,
                forall|k: Seq<char>|
                    #[trigger] theme_set_map(*full_themes).contains_key(k) ==> exists|i2: int|
                        0 <= i2 < entries@.len() && entries@[i2].0@ == k,
                forall|i2: int, j2: int|
                    0 <= i2 < j2 < entries@.len() ==> entries@[i2].0@ != entries@[j2].0@,
                forall|j: int| 0 <= j < i ==> (#[trigger] themes@[j]).0@ == entries@[j].0@,
                forall|j: int| 0 <= j < i ==> (#[trigger] themes@[j]).1.wf(),
                forall|j: int|
                    0 <= j < i ==> theme_of_dump((#[trigger] themes@[j]).1@) == entries@[j].1,
            decreases entries@.len() - i,
        {
            let entry = &entries[i];
            let lazy = LazyTheme::from_theme(&entry.1);
            let name = entry.0.clone();
            let ghost prev = themes@;
            themes.push((name, lazy));
            proof {
                let gi = i as int;
                assert(forall|j: int| 0 <= j < gi ==> themes@[j] == prev[j]);
                assert(themes@[gi].0@ == entries@[gi].0@);
                assert(themes@[gi].1.wf());
                assert(theme_of_dump(themes@[gi].1@) == entries@[gi].1);
            }
            i += 1;
        }
        let r = LazyThemeSet { themes };
        proof {
            assert forall|i2: int, j2: int|
                0 <= i2 < j2 < r.themes@.len() implies r.themes@[i2].0@ != r.themes@[j2].0@
                && chars_lt(r.themes@[i2].0@, r.themes@[j2].0@) by {
                assert(r.themes@[i2].0@ == entries@[i2].0@);
                assert(r.themes@[j2].0@ == entries@[j2].0@);
            }
            let built = lazy_entries_view(r.themes@);
            assert forall|i2: int, j2: int| 0 <= i2 < j2 < built.len() implies built[i2].0
                != built[j2].0 by {
                assert(built[i2] == (r.themes@[i2].0@, r.themes@[i2].1@));
                assert(built[j2] == (r.themes@[j2].0@, r.themes@[j2].1@));
            }
            lemma_assoc_map_distinct(built);
            assert forall|k: Seq<char>| #[trigger] r@.contains_key(k) implies theme_set_map(
                *full_themes,
            ).contains_key(k) && theme_of_dump(r@[k]) == theme_set_map(*full_themes)[k] by {
                let j = choose|j: int| 0 <= j < built.len() && built[j].0 == k;
                assert(built[j] == (r.themes@[j].0@, r.themes@[j].1@));
                assert(assoc_map(built).contains_key(built[j].0) && assoc_map(built)[built[j].0]
                    == built[j].1);
                assert(r.themes@[j].0@ == entries@[j].0@);
                assert(theme_set_map(*full_themes).contains_key(entries@[j].0@));
            }
            assert forall|k: Seq<char>|
                #[trigger] theme_set_map(*full_themes).contains_key(k) implies r@.contains_key(
                k,
            ) by {
                let j = choose|j: int| 0 <= j < entries@.len() && entries@[j].0@ == k;
                assert(built[j] == (r.themes@[j].0@, r.themes@[j].1@));
                assert(built[j].0 == k);
                assert(assoc_map(built).contains_key(built[j].0));
            }
        }
        r
    }

    /// Forces deserialization of every entry, yielding a full theme set.
    pub fn to_theme_set(&self) -> (r: ThemeSet)
        ensures
            theme_set_map(r).dom() =~= self@.dom(),
            forall|k: Seq<char>|
                #[trigger] self@.contains_key(k) ==> theme_set_map(r)[k] == theme_of_dump(self@[k]),
    {
        proof {
            use_type_invariant(self);
            lemma_assoc_map_distinct(lazy_entries_view(self.themes@));
        }
        let ghost lazy_entries = lazy_entries_view(self.themes@);
        let mut out: Vec<(String, Theme)> = Vec::new();
        let mut i: usize = 0;
        while i < self.themes.len()
            invariant
                i <= self.themes@.len(),
                lazy_entries == lazy_entries_view(self.themes@),
                forall|i2: int| 0 <= i2 < self.themes@.len() ==> (#[trigger] self.themes@[i2].1).wf(),
                out@.len() == i,
                forall|j: int| 0 <= j < i ==> (#[trigger] out@[j]).0@ == self.themes@[j].0@,
                forall|j: int|
                    0 <= j < i ==> (#[trigger] out@[j]).1 == theme_of_dump(self.themes@[j].1@),
            decreases self.themes@.len() - i,
        {
            let entry = &self.themes[i];
            let theme = entry.1.to_theme();
            let ghost prev = out@;
            out.push((entry.0.clone(), theme));
            proof {
                let gi = i as int;
                assert(forall|j: int| 0 <= j < gi ==> out@[j] == prev[j]);
                assert(out@[gi].0@ == self.themes@[gi].0@);
                assert(out@[gi].1 == theme_of_dump(self.themes@[gi].1@));
            }
            i += 1;
        }
        let r = theme_set_from_entries(out);
        proof {
            let out_entries = theme_entries_view(out@);
            assert(theme_set_map(r) == assoc_map(out_entries));
            assert forall|i2: int, j2: int| 0 <= i2 < j2 < out_entries.len() implies out_entries[i2].0
                != out_entries[j2].0 by {
                assert(out_entries[i2] == (out@[i2].0@, out@[i2].1));
                assert(out_entries[j2] == (out@[j2].0@, out@[j2].1));
                assert(out@[i2].0@ == self.themes@[i2].0@);
                assert(out@[j2].0@ == self.themes@[j2].0@);
            }
            lemma_assoc_map_distinct(out_entries);
            assert forall|k: Seq<char>| #[trigger] self@.contains_key(k) implies theme_set_map(
                r,
            ).contains_key(k) && theme_set_map(r)[k] == theme_of_dump(self@[k]) by {
                let j = choose|j: int| 0 <= j < lazy_entries.len() && lazy_entries[j].0 == k;
                assert(lazy_entries[j] == (self.themes@[j].0@, self.themes@[j].1@));
                assert(assoc_map(lazy_entries).contains_key(lazy_entries[j].0) && assoc_map(
                    lazy_entries,
                )[lazy_entries[j].0] == lazy_entries[j].1);
                assert(out_entries[j] == (out@[j].0@, out@[j].1));
                assert(out_entries[j].0 == k);
                assert(assoc_map(out_entries).contains_key(out_entries[j].0) && assoc_map(
                    out_entries,
                )[out_entries[j].0] == out_entries[j].1);
                assert(theme_set_map(r)[k] == out_entries[j].1);
            }
            assert forall|k: Seq<char>|
                #[trigger] theme_set_map(r).contains_key(k) implies self@.contains_key(k) by {
                let j = choose|j: int| 0 <= j < out_entries.len() && out_entries[j].0 == k;
                assert(out_entries[j] == (out@[j].0@, out@[j].1));
                assert(lazy_entries[j] == (self.themes@[j].0@, self.themes@[j].1@));
                assert(lazy_entries[j].0 == k);
                assert(assoc_map(lazy_entries).contains_key(lazy_entries[j].0));
            }
        }
        r
    }

    /// Hands out the container's entries as named dumps, in the container's
    /// natural (sorted) order, as when the container is serialized into a
    /// theme blob.
    pub fn to_dump_entries(&self) -> (r: Vec<(String, Vec<u8>)>)
        ensures
            forall|i: int|
                0 <= i < r@.len() ==> self@.contains_key((#[trigger] r@[i]).0@) && self@[r@[i].0@]
                    == r@[i].1@,
            forall|k: Seq<char>|
                #[trigger] self@.contains_key(k) ==> exists|i: int| 0 <= i < r@.len() && r@[i].0@ == k,
            forall|i: int, j: int| 0 <= i < j < r@.len() ==> r@[i].0@ != r@[j].0@,
            forall|i: int, j: int| 0 <= i < j < r@.len() ==> chars_lt(r@[i].0@, r@[j].0@),
    {
        proof {
            use_type_invariant(self);
            lemma_assoc_map_distinct(lazy_entries_view(self.themes@));
        }
        let ghost entries = lazy_entries_view(self.themes@);
        let mut out: Vec<(String, Vec<u8>)> = Vec::new();
        let mut i: usize = 0;
        while i < self.themes.len()
            invariant
                i <= self.themes@.len(),
                entries == lazy_entries_view(self.themes@),
                out@.len() == i,
                forall|j: int| 0 <= j < i ==> (#[trigger] out@[j]).0@ == entries[j].0,
                forall|j: int| 0 <= j < i ==> (#[trigger] out@[j]).1@ == entries[j].1,
            decreases self.themes@.len() - i,
        {
            let entry = &self.themes[i];
            let bytes = entry.1.serialized_bytes();
            out.push((entry.0.clone(), bytes));
            proof {
                let gi = i as int;
                assert(entries[gi] == (self.themes@[gi].0@, self.themes@[gi].1@));
                assert(out@[gi].0@ == entries[gi].0);
                assert(out@[gi].1@ == entries[gi].1);
            }
            i += 1;
        }
        proof {
            assert forall|i2: int| 0 <= i2 < out@.len() implies self@.contains_key(
                (#[trigger] out@[i2]).0@,
            ) && self@[out@[i2].0@] == out@[i2].1@ by {
                assert(out@[i2].0@ == entries[i2].0);
                assert(assoc_map(entries).contains_key(entries[i2].0) && assoc_map(
                    entries,
                )[entries[i2].0] == entries[i2].1);
            }
            assert forall|k: Seq<char>| #[trigger] self@.contains_key(k) implies exists|i2: int|
                0 <= i2 < out@.len() && out@[i2].0@ == k by {
                let j = choose|j: int| 0 <= j < entries.len() && entries[j].0 == k;
                assert(out@[j].0@ == k);
            }
            assert forall|i2: int, j2: int| 0 <= i2 < j2 < out@.len() implies out@[i2].0@
                != out@[j2].0@ && chars_lt(out@[i2].0@, out@[j2].0@) by {
                assert(out@[i2].0@ == entries[i2].0);
                assert(out@[j2].0@ == entries[j2].0);
                assert(entries[i2] == (self.themes@[i2].0@, self.themes@[i2].1@));
                assert(entries[j2] == (self.themes@[j2].0@, self.themes@[j2].1@));
            }
        }
        out
    }

    /// Builds a lazy container directly from named dumps, as when a
    /// generated theme blob is loaded back from disk. Dumps produced by the
    /// generation pipeline are trusted to be valid, per the crate's error
    /// model: a corrupt blob is a build error, not a runtime condition.
    /// The entries must come in the container's natural order: strictly
    /// ascending by name, as a serialized name-keyed map yields them;
    /// anything else is rejected.
    pub fn from_dump_entries(entries: Vec<(String, Vec<u8>)>) -> (r: Option<LazyThemeSet>)
        requires
            forall|i: int| 0 <= i < entries@.len() ==> is_theme_dump((#[trigger] entries@[i]).1@),
        ensures
            match r {
                Some(s) => {
                    &&& s@ == assoc_map(dump_entries_view(entries@))
                    &&& forall|i2: int, j2: int|
                        0 <= i2 < j2 < entries@.len() ==> chars_lt(
                            entries@[i2].0@,
                            entries@[j2].0@,
                        )
                },
                None => exists|i2: int, j2: int|
                    0 <= i2 < j2 < entries@.len() && !chars_lt(entries@[i2].0@, entries@[j2].0@),
            },
    {
        // Reject entries out of ascending name order, so that the
        // container's entries are unambiguous and sorted.
        let n = entries.len();
        let mut i: usize = 0;
        while i < n
            invariant
                n == entries@.len(),
                i <= n,
                forall|i2: int, j2: int|
                    0 <= i2 < j2 < entries@.len() && i2 < i ==> chars_lt(
                        entries@[i2].0@,
                        entries@[j2].0@,
                    ),
            decreases n - i,
        {
            let mut j: usize = i + 1;
            while j < n
                invariant
                    n == entries@.len(),
                    i < j,
                    i < n,
                    j <= n,
                    forall|j2: int|
                        i < j2 < j ==> chars_lt(entries@[i as int].0@, entries@[j2].0@),
                decreases n - j,
            {
                if !str_lt(entries[i].0.as_str(), entries[j].0.as_str()) {
                    proof {
                        let gi = i as int;
                        let gj = j as int;
                        assert(0 <= gi < gj < entries@.len() && !chars_lt(
                            entries@[gi].0@,
                            entries@[gj].0@,
                        ));
                    }
                    return None;
                }
                j += 1;
            }
            i += 1;
        }
        let mut themes: Vec<(String, LazyTheme)> = Vec::new();
        let mut i: usize = 0;
        while i < entries.len()
            invariant
                i <= entries@.len(),
                themes@.len() == i,
                forall|i2: int|
                    0 <= i2 < entries@.len() ==> is_theme_dump((#[trigger] entries@[i2]).1@),
                forall|i2: int, j2: int|
                    0 <= i2 < j2 < entries@.len() ==> chars_lt(entries@[i2].0@, entries@[j2].0@),
                forall|j: int| 0 <= j < i ==> (#[trigger] themes@[j]).0@ == entries@[j].0@,
                forall|j: int| 0 <= j < i ==> (#[trigger] themes@[j]).1@ == entries@[j].1@,
                forall|j: int| 0 <= j < i ==> (#[trigger] themes@[j]).1.wf(),
            decreases entries@.len() - i,
        {
            let entry = &entries[i];
            let lazy = LazyTheme::from_serialized(entry.1.clone());
            let name = entry.0.clone();
            let ghost prev = themes@;
            themes.push((name, lazy));
            proof {
                let gi = i as int;
                assert(forall|j: int| 0 <= j < gi ==> themes@[j] == prev[j]);
                assert(themes@[gi].0@ == entries@[gi].0@);
                assert(themes@[gi].1@ == entries@[gi].1@);
                assert(themes@[gi].1.wf());
            }
            i += 1;
        }
        proof {
            assert forall|i2: int, j2: int|
                0 <= i2 < j2 < themes@.len() implies chars_lt(
                themes@[i2].0@,
                themes@[j2].0@,
            ) by {
                assert(themes@[i2].0@ == entries@[i2].0@);
                assert(themes@[j2].0@ == entries@[j2].0@);
                assert(chars_lt(entries@[i2].0@, entries@[j2].0@));
            }
            assert forall|i2: int, j2: int|
                0 <= i2 < j2 < themes@.len() implies themes@[i2].0@ != themes@[j2].0@ by {
                assert(chars_lt(themes@[i2].0@, themes@[j2].0@));
                lemma_chars_lt_irrefl(themes@[i2].0@);
            }
        }
        let r = LazyThemeSet { themes };
        proof {
            let built = lazy_entries_view(r.themes@);
            let given = dump_entries_view(entries@);
            assert forall|i2: int| 0 <= i2 < built.len() implies built[i2] == given[i2] by {
                assert(built[i2] == (r.themes@[i2].0@, r.themes@[i2].1@));
                assert(given[i2] == (entries@[i2].0@, entries@[i2].1@));
            }
            assert(built =~= given);
        }
        Some(r)
    }
}

} // verus!
