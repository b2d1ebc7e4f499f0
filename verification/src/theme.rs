//! Extra theme definitions and the lazily-deserializing theme container
//!
//! The extra themes are provided in an [`EmbeddedLazyThemeSet`], which is a
//! newtype around a [`LazyThemeSet`] that additionally knows every theme it
//! holds, through the exhaustive [`EmbeddedThemeName`] enumeration.

mod core_types;

pub use core_types::{
    assoc_map, dump_entries_view, is_theme_dump, lemma_assoc_map_distinct,
    lemma_get_deterministic, lemma_theme_set_round_trip, theme_dump, theme_entries_view,
    theme_of_dump, theme_set_map, LazyThemeSet,
};

use syntect::highlighting::{Theme, ThemeSet};
use vstd::prelude::*;

verus! {

/// An enum that represents all themes included in [`EmbeddedLazyThemeSet`]
#[derive(Clone, Copy, Debug, Hash, PartialEq, Eq, PartialOrd, Ord, Structural)]
pub enum EmbeddedThemeName {
    /// ANSI
    Ansi,
    /// Base16
    Base16,
    /// Base16 Eighties Dark
    Base16EightiesDark,
    /// Base16 Mocha Dark
    Base16MochaDark,
    /// Base16 Ocean Dark
    Base16OceanDark,
    /// Base16 Ocean Light
    Base16OceanLight,
    /// Base16 256
    Base16_256,
    /// Catppuccin Frappe
    CatppuccinFrappe,
    /// Catppuccin Latte
    CatppuccinLatte,
    /// Catppuccin Macchiato
    CatppuccinMacchiato,
    /// Catppuccin Mocha
    CatppuccinMocha,
    /// Coldark-Cold
    ColdarkCold,
    /// Coldark-Dark
    ColdarkDark,
    /// Dark Neon
    DarkNeon,
    /// Dracula
    Dracula,
    /// GitHub
    Github,
    /// gruvbox (Dark)
    GruvboxDark,
    /// gruvbox (Light)
    GruvboxLight,
    /// Inspired GitHub
    InspiredGithub,
    /// 1337
    Leet,
    /// Monokai Extended
    MonokaiExtended,
    /// Monokai Extended Bright
    MonokaiExtendedBright,
    /// Monokai Extended Light
    MonokaiExtendedLight,
    /// Monokai Extended Origin
    MonokaiExtendedOrigin,
    /// Nord
    Nord,
    /// One Half Dark
    OneHalfDark,
    /// One Half Light
    OneHalfLight,
    /// Solarized (dark)
    SolarizedDark,
    /// Solarized (light)
    SolarizedLight,
    /// Sublime Snazzy
    SublimeSnazzy,
    /// TwoDark
    TwoDark,
    /// zenburn
    Zenburn,
}

/// The string key that each embedded theme is stored under in the theme
/// bundle.
pub open spec fn as_name_spec(n: EmbeddedThemeName) -> Seq<char> {
    match n {
        EmbeddedThemeName::Ansi => "ansi"@,
        EmbeddedThemeName::Base16 => "base16"@,
        EmbeddedThemeName::Base16EightiesDark => "base16-eighties.dark"@,
        EmbeddedThemeName::Base16MochaDark => "base16-mocha.dark"@,
        EmbeddedThemeName::Base16OceanDark => "base16-ocean.dark"@,
        EmbeddedThemeName::Base16OceanLight => "base16-ocean.light"@,
        EmbeddedThemeName::Base16_256 => "base16-256"@,
        EmbeddedThemeName::CatppuccinFrappe => "Catppuccin Frappe"@,
        EmbeddedThemeName::CatppuccinLatte => "Catppuccin Latte"@,
        EmbeddedThemeName::CatppuccinMacchiato => "Catppuccin Macchiato"@,
        EmbeddedThemeName::CatppuccinMocha => "Catppuccin Mocha"@,
        EmbeddedThemeName::ColdarkCold => "Coldark-Cold"@,
        EmbeddedThemeName::ColdarkDark => "Coldark-Dark"@,
        EmbeddedThemeName::DarkNeon => "DarkNeon"@,
        EmbeddedThemeName::Dracula => "Dracula"@,
        EmbeddedThemeName::Github => "GitHub"@,
        EmbeddedThemeName::GruvboxDark => "gruvbox-dark"@,
        EmbeddedThemeName::GruvboxLight => "gruvbox-light"@,
        EmbeddedThemeName::InspiredGithub => "InspiredGitHub"@,
        EmbeddedThemeName::Leet => "1337"@,
        EmbeddedThemeName::MonokaiExtended => "Monokai Extended"@,
        EmbeddedThemeName::MonokaiExtendedBright => "Monokai Extended Bright"@,
        EmbeddedThemeName::MonokaiExtendedLight => "Monokai Extended Light"@,
        EmbeddedThemeName::MonokaiExtendedOrigin => "Monokai Extended Origin"@,
        EmbeddedThemeName::Nord => "Nord"@,
        EmbeddedThemeName::OneHalfDark => "OneHalfDark"@,
        EmbeddedThemeName::OneHalfLight => "OneHalfLight"@,
        EmbeddedThemeName::SolarizedDark => "Solarized (dark)"@,
        EmbeddedThemeName::SolarizedLight => "Solarized (light)"@,
        EmbeddedThemeName::SublimeSnazzy => "Sublime Snazzy"@,
        EmbeddedThemeName::TwoDark => "TwoDark"@,
        EmbeddedThemeName::Zenburn => "zenburn"@,
    }
}

impl EmbeddedThemeName {
    /// The name of each embedded theme
    ///
    /// This matches the key used for each theme in the theme bundle.
    pub fn as_name(self) -> (r: &'static str)
        ensures
            r@ == as_name_spec(self),
    {
        match self {
            Self::Ansi => "ansi",
            Self::Base16 => "base16",
            Self::Base16EightiesDark => "base16-eighties.dark",
            Self::Base16MochaDark => "base16-mocha.dark",
            Self::Base16OceanDark => "base16-ocean.dark",
            Self::Base16OceanLight => "base16-ocean.light",
            Self::Base16_256 => "base16-256",
            Self::CatppuccinFrappe => "Catppuccin Frappe",
            Self::CatppuccinLatte => "Catppuccin Latte",
            Self::CatppuccinMacchiato => "Catppuccin Macchiato",
            Self::CatppuccinMocha => "Catppuccin Mocha",
            Self::ColdarkCold => "Coldark-Cold",
            Self::ColdarkDark => "Coldark-Dark",
            Self::DarkNeon => "DarkNeon",
            Self::Dracula => "Dracula",
            Self::Github => "GitHub",
            Self::GruvboxDark => "gruvbox-dark",
            Self::GruvboxLight => "gruvbox-light",
            Self::InspiredGithub => "InspiredGitHub",
            Self::Leet => "1337",
            Self::MonokaiExtended => "Monokai Extended",
            Self::MonokaiExtendedBright => "Monokai Extended Bright",
            Self::MonokaiExtendedLight => "Monokai Extended Light",
            Self::MonokaiExtendedOrigin => "Monokai Extended Origin",
            Self::Nord => "Nord",
            Self::OneHalfDark => "OneHalfDark",
            Self::OneHalfLight => "OneHalfLight",
            Self::SolarizedDark => "Solarized (dark)",
            Self::SolarizedLight => "Solarized (light)",
            Self::SublimeSnazzy => "Sublime Snazzy",
            Self::TwoDark => "TwoDark",
            Self::Zenburn => "zenburn",
        }
    }
}

/// The listing of every embedded theme name, in the order the bundle is
/// generated in.
pub open spec fn theme_names_spec() -> Seq<EmbeddedThemeName> {
    seq![
        EmbeddedThemeName::Ansi,
        EmbeddedThemeName::Base16,
        EmbeddedThemeName::Base16EightiesDark,
        EmbeddedThemeName::Base16MochaDark,
        EmbeddedThemeName::Base16OceanDark,
        EmbeddedThemeName::Base16OceanLight,
        EmbeddedThemeName::Base16_256,
        EmbeddedThemeName::CatppuccinFrappe,
        EmbeddedThemeName::CatppuccinLatte,
        EmbeddedThemeName::CatppuccinMacchiato,
        EmbeddedThemeName::CatppuccinMocha,
        EmbeddedThemeName::ColdarkCold,
        EmbeddedThemeName::ColdarkDark,
        EmbeddedThemeName::DarkNeon,
        EmbeddedThemeName::Dracula,
        EmbeddedThemeName::Github,
        EmbeddedThemeName::GruvboxDark,
        EmbeddedThemeName::GruvboxLight,
        EmbeddedThemeName::InspiredGithub,
        EmbeddedThemeName::Leet,
        EmbeddedThemeName::MonokaiExtended,
        EmbeddedThemeName::MonokaiExtendedBright,
        EmbeddedThemeName::MonokaiExtendedLight,
        EmbeddedThemeName::MonokaiExtendedOrigin,
        EmbeddedThemeName::Nord,
        EmbeddedThemeName::OneHalfDark,
        EmbeddedThemeName::OneHalfLight,
        EmbeddedThemeName::SolarizedDark,
        EmbeddedThemeName::SolarizedLight,
        EmbeddedThemeName::SublimeSnazzy,
        EmbeddedThemeName::TwoDark,
        EmbeddedThemeName::Zenburn,
    ]
}

/// Every variant of the enumeration appears in the listing: the listing is
/// exhaustive.
pub proof fn lemma_theme_names_complete()
    ensures
        forall|n: EmbeddedThemeName| theme_names_spec().contains(n),
        theme_names_spec().len() == 32,
{
    assert forall|n: EmbeddedThemeName| theme_names_spec().contains(n) by {
        let s = theme_names_spec();
        match n {
            EmbeddedThemeName::Ansi => assert(s[0] == n),
            EmbeddedThemeName::Base16 => assert(s[1] == n),
            EmbeddedThemeName::Base16EightiesDark => assert(s[2] == n),
            EmbeddedThemeName::Base16MochaDark => assert(s[3] == n),
            EmbeddedThemeName::Base16OceanDark => assert(s[4] == n),
            EmbeddedThemeName::Base16OceanLight => assert(s[5] == n),
            EmbeddedThemeName::Base16_256 => assert(s[6] == n),
            EmbeddedThemeName::CatppuccinFrappe => assert(s[7] == n),
            EmbeddedThemeName::CatppuccinLatte => assert(s[8] == n),
            EmbeddedThemeName::CatppuccinMacchiato => assert(s[9] == n),
            EmbeddedThemeName::CatppuccinMocha => assert(s[10] == n),
            EmbeddedThemeName::ColdarkCold => assert(s[11] == n),
            EmbeddedThemeName::ColdarkDark => assert(s[12] == n),
            EmbeddedThemeName::DarkNeon => assert(s[13] == n),
            EmbeddedThemeName::Dracula => assert(s[14] == n),
            EmbeddedThemeName::Github => assert(s[15] == n),
            EmbeddedThemeName::GruvboxDark => assert(s[16] == n),
            EmbeddedThemeName::GruvboxLight => assert(s[17] == n),
            EmbeddedThemeName::InspiredGithub => assert(s[18] == n),
            EmbeddedThemeName::Leet => assert(s[19] == n),
            EmbeddedThemeName::MonokaiExtended => assert(s[20] == n),
            EmbeddedThemeName::MonokaiExtendedBright => assert(s[21] == n),
            EmbeddedThemeName::MonokaiExtendedLight => assert(s[22] == n),
            EmbeddedThemeName::MonokaiExtendedOrigin => assert(s[23] == n),
            EmbeddedThemeName::Nord => assert(s[24] == n),
            EmbeddedThemeName::OneHalfDark => assert(s[25] == n),
            EmbeddedThemeName::OneHalfLight => assert(s[26] == n),
            EmbeddedThemeName::SolarizedDark => assert(s[27] == n),
            EmbeddedThemeName::SolarizedLight => assert(s[28] == n),
            EmbeddedThemeName::SublimeSnazzy => assert(s[29] == n),
            EmbeddedThemeName::TwoDark => assert(s[30] == n),
            EmbeddedThemeName::Zenburn => assert(s[31] == n),
        }
    }
}

/// No two distinct variants of the enumeration document the same name
/// string: looking themes up by variant can never alias.
#[verifier::rlimit(100)]
pub proof fn lemma_embedded_names_distinct(a: EmbeddedThemeName, b: EmbeddedThemeName)
    requires
        a != b,
    ensures
        as_name_spec(a) != as_name_spec(b),
{
    broadcast use vstd::string::group_string_axioms;

    reveal_strlit("ansi");
    reveal_strlit("base16");
    reveal_strlit("base16-eighties.dark");
    reveal_strlit("base16-mocha.dark");
    reveal_strlit("base16-ocean.dark");
    reveal_strlit("base16-ocean.light");
    reveal_strlit("base16-256");
    reveal_strlit("Catppuccin Frappe");
    reveal_strlit("Catppuccin Latte");
    reveal_strlit("Catppuccin Macchiato");
    reveal_strlit("Catppuccin Mocha");
    reveal_strlit("Coldark-Cold");
    reveal_strlit("Coldark-Dark");
    reveal_strlit("DarkNeon");
    reveal_strlit("Dracula");
    reveal_strlit("GitHub");
    reveal_strlit("gruvbox-dark");
    reveal_strlit("gruvbox-light");
    reveal_strlit("InspiredGitHub");
    reveal_strlit("1337");
    reveal_strlit("Monokai Extended");
    reveal_strlit("Monokai Extended Bright");
    reveal_strlit("Monokai Extended Light");
    reveal_strlit("Monokai Extended Origin");
    reveal_strlit("Nord");
    reveal_strlit("OneHalfDark");
    reveal_strlit("OneHalfLight");
    reveal_strlit("Solarized (dark)");
    reveal_strlit("Solarized (light)");
    reveal_strlit("Sublime Snazzy");
    reveal_strlit("TwoDark");
    reveal_strlit("zenburn");
    // The names all differ: most in length, the rest at the character
    // asserted here.
    assert("ansi"@.len() == 4);
    assert("base16"@.len() == 6);
    assert("base16-eighties.dark"@.len() == 20);
    assert("base16-mocha.dark"@.len() == 17);
    assert("base16-ocean.dark"@.len() == 17);
    assert("base16-ocean.light"@.len() == 18);
    assert("base16-256"@.len() == 10);
    assert("Catppuccin Frappe"@.len() == 17);
    assert("Catppuccin Latte"@.len() == 16);
    assert("Catppuccin Macchiato"@.len() == 20);
    assert("Catppuccin Mocha"@.len() == 16);
    assert("Coldark-Cold"@.len() == 12);
    assert("Coldark-Dark"@.len() == 12);
    assert("DarkNeon"@.len() == 8);
    assert("Dracula"@.len() == 7);
    assert("GitHub"@.len() == 6);
    assert("gruvbox-dark"@.len() == 12);
    assert("gruvbox-light"@.len() == 13);
    assert("InspiredGitHub"@.len() == 14);
    assert("1337"@.len() == 4);
    assert("Monokai Extended"@.len() == 16);
    assert("Monokai Extended Bright"@.len() == 23);
    assert("Monokai Extended Light"@.len() == 22);
    assert("Monokai Extended Origin"@.len() == 23);
    assert("Nord"@.len() == 4);
    assert("OneHalfDark"@.len() == 11);
    assert("OneHalfLight"@.len() == 12);
    assert("Solarized (dark)"@.len() == 16);
    assert("Solarized (light)"@.len() == 17);
    assert("Sublime Snazzy"@.len() == 14);
    assert("TwoDark"@.len() == 7);
    assert("zenburn"@.len() == 7);
    assert("ansi"@[0] == 'a');
    assert("1337"@[0] == '1');
    assert("Nord"@[0] == 'N');
    assert("base16"@[0] == 'b');
    assert("GitHub"@[0] == 'G');
    assert("Dracula"@[0] == 'D');
    assert("TwoDark"@[0] == 'T');
    assert("zenburn"@[0] == 'z');
    assert("Coldark-Cold"@[0] == 'C');
    assert("Coldark-Dark"@[0] == 'C');
    assert("gruvbox-dark"@[0] == 'g');
    assert("OneHalfLight"@[0] == 'O');
    assert("Coldark-Cold"@[8] == 'C');
    assert("Coldark-Dark"@[8] == 'D');
    assert("InspiredGitHub"@[0] == 'I');
    assert("Sublime Snazzy"@[0] == 'S');
    assert("Catppuccin Latte"@[0] == 'C');
    assert("Catppuccin Mocha"@[0] == 'C');
    assert("Monokai Extended"@[0] == 'M');
    assert("Solarized (dark)"@[0] == 'S');
    assert("Catppuccin Latte"@[11] == 'L');
    assert("Catppuccin Mocha"@[11] == 'M');
    assert("base16-mocha.dark"@[0] == 'b');
    assert("base16-ocean.dark"@[0] == 'b');
    assert("Catppuccin Frappe"@[0] == 'C');
    assert("Solarized (light)"@[0] == 'S');
    assert("base16-mocha.dark"@[7] == 'm');
    assert("base16-ocean.dark"@[7] == 'o');
    assert("base16-eighties.dark"@[0] == 'b');
    assert("Catppuccin Macchiato"@[0] == 'C');
    assert("Monokai Extended Bright"@[17] == 'B');
    assert("Monokai Extended Origin"@[17] == 'O');
}

/// A [`LazyThemeSet`] where we know all of the themes that are included
pub struct EmbeddedLazyThemeSet(LazyThemeSet);

impl View for EmbeddedLazyThemeSet {
    type V = Map<Seq<char>, Seq<u8>>;

    closed spec fn view(&self) -> Map<Seq<char>, Seq<u8>> {
        self.0@
    }
}

impl EmbeddedLazyThemeSet {
    #[verifier::type_invariant]
    spec fn type_inv(self) -> bool {
        forall|n: EmbeddedThemeName| self.0@.contains_key(as_name_spec(n))
    }

    /// Wraps a lazy container whose keys have been checked to be exactly
    /// the embedded theme names: returns nothing when some embedded theme
    /// name is missing or some key is no embedded theme name.
    pub fn new(lazy: LazyThemeSet) -> (r: Option<EmbeddedLazyThemeSet>)
        ensures
            match r {
                Some(s) => {
                    &&& s@ == lazy@
                    &&& forall|n: EmbeddedThemeName| lazy@.contains_key(as_name_spec(n))
                    &&& forall|k: Seq<char>|
                        #[trigger] lazy@.contains_key(k) ==> exists|n: EmbeddedThemeName|
                            as_name_spec(n) == k
                },
                None => {
                    ||| exists|n: EmbeddedThemeName| !lazy@.contains_key(as_name_spec(n))
                    ||| exists|k: Seq<char>|
                        #[trigger] lazy@.contains_key(k) && forall|n: EmbeddedThemeName|
                            as_name_spec(n) != k
                },
            },
    {
        let names = Self::theme_names();
        let mut i: usize = 0;
        while i < names.len()
            invariant
                names@ == theme_names_spec(),
                i <= names@.len(),
                forall|j: int|
                    0 <= j < i ==> lazy@.contains_key(as_name_spec(#[trigger] names@[j])),
            decreases names@.len() - i,
        {
            let name = names[i];
            if lazy.get(name.as_name()).is_none() {
                proof {
                    assert(!lazy@.contains_key(as_name_spec(names@[i as int])));
                }
                return None;
            }
            i += 1;
        }
        let contained = lazy.theme_names();
        let mut i: usize = 0;
        while i < contained.len()
            invariant
                names@ == theme_names_spec(),
                i <= contained@.len(),
                forall|i2: int|
                    0 <= i2 < contained@.len() ==> lazy@.contains_key(#[trigger] contained@[i2]@),
                forall|k: Seq<char>|
                    #[trigger] lazy@.contains_key(k) ==> exists|i2: int|
                        0 <= i2 < contained@.len() && contained@[i2]@ == k,
                forall|j: int|
                    0 <= j < i ==> exists|n: EmbeddedThemeName| as_name_spec(n) == (
                    #[trigger] contained@[j])@,
            decreases contained@.len() - i,
        {
            let key = &contained[i];
            let mut matched = false;
            let mut j: usize = 0;
            while j < names.len()
                invariant
                    names@ == theme_names_spec(),
                    j <= names@.len(),
                    key == contained@[i as int],
                    i < contained@.len(),
                    matched ==> exists|n: EmbeddedThemeName| as_name_spec(n) == contained@[i as int]@,
                    !matched ==> forall|j2: int|
                        0 <= j2 < j ==> as_name_spec(#[trigger] names@[j2]) != contained@[i as int]@,
                decreases names@.len() - j,
            {
                if crate::text::str_eq(key.as_str(), names[j].as_name()) {
                    proof {
                        assert(as_name_spec(names@[j as int]) == contained@[i as int]@);
                    }
                    matched = true;
                }
                j += 1;
            }
            if !matched {
                proof {
                    lemma_theme_names_complete();
                    let k = contained@[i as int]@;
                    assert(lazy@.contains_key(k));
                    assert forall|n: EmbeddedThemeName| as_name_spec(n) != k by {
                        let j2 = choose|j2: int|
                            0 <= j2 < theme_names_spec().len() && theme_names_spec()[j2] == n;
                        assert(as_name_spec(names@[j2]) != k);
                    }
                }
                return None;
            }
            i += 1;
        }
        proof {
            lemma_theme_names_complete();
            assert forall|n: EmbeddedThemeName| lazy@.contains_key(as_name_spec(n)) by {
                let j = choose|j: int|
                    0 <= j < theme_names_spec().len() && theme_names_spec()[j] == n;
                assert(lazy@.contains_key(as_name_spec(theme_names_spec()[j])));
            }
            assert forall|k: Seq<char>| #[trigger] lazy@.contains_key(k) implies exists|
                n: EmbeddedThemeName,
            | as_name_spec(n) == k by {
                let i2 = choose|i2: int|
                    0 <= i2 < contained@.len() && contained@[i2]@ == k;
                assert(exists|n: EmbeddedThemeName| as_name_spec(n) == contained@[i2]@);
            }
        }
        Some(EmbeddedLazyThemeSet(lazy))
    }

    /// Gets a single theme from the set
    ///
    /// An infallible version of [`LazyThemeSet::get()`]: every variant of
    /// [`EmbeddedThemeName`] is present, so the lookup always succeeds, at
    /// the key that the variant documents.
    pub fn get(&self, name: EmbeddedThemeName) -> (r: &Theme)
        ensures
            self@.contains_key(as_name_spec(name)),
            *r == theme_of_dump(self@[as_name_spec(name)]),
    {
        proof {
            use_type_invariant(self);
        }
        match self.0.get(name.as_name()) {
            Some(theme) => theme,
            None => {
                proof {
                    assert(false);
                }
                vstd::pervasive::unreached()
            },
        }
    }

    /// A listing of all the themes included in an [`EmbeddedLazyThemeSet`]
    pub fn theme_names() -> (r: Vec<EmbeddedThemeName>)
        ensures
            r@ == theme_names_spec(),
    {
        let mut names: Vec<EmbeddedThemeName> = Vec::new();
        names.push(EmbeddedThemeName::Ansi);
        names.push(EmbeddedThemeName::Base16);
        names.push(EmbeddedThemeName::Base16EightiesDark);
        names.push(EmbeddedThemeName::Base16MochaDark);
        names.push(EmbeddedThemeName::Base16OceanDark);
        names.push(EmbeddedThemeName::Base16OceanLight);
        names.push(EmbeddedThemeName::Base16_256);
        names.push(EmbeddedThemeName::CatppuccinFrappe);
        names.push(EmbeddedThemeName::CatppuccinLatte);
        names.push(EmbeddedThemeName::CatppuccinMacchiato);
        names.push(EmbeddedThemeName::CatppuccinMocha);
        names.push(EmbeddedThemeName::ColdarkCold);
        names.push(EmbeddedThemeName::ColdarkDark);
        names.push(EmbeddedThemeName::DarkNeon);
        names.push(EmbeddedThemeName::Dracula);
        names.push(EmbeddedThemeName::Github);
        names.push(EmbeddedThemeName::GruvboxDark);
        names.push(EmbeddedThemeName::GruvboxLight);
        names.push(EmbeddedThemeName::InspiredGithub);
        names.push(EmbeddedThemeName::Leet);
        names.push(EmbeddedThemeName::MonokaiExtended);
        names.push(EmbeddedThemeName::MonokaiExtendedBright);
        names.push(EmbeddedThemeName::MonokaiExtendedLight);
        names.push(EmbeddedThemeName::MonokaiExtendedOrigin);
        names.push(EmbeddedThemeName::Nord);
        names.push(EmbeddedThemeName::OneHalfDark);
        names.push(EmbeddedThemeName::OneHalfLight);
        names.push(EmbeddedThemeName::SolarizedDark);
        names.push(EmbeddedThemeName::SolarizedLight);
        names.push(EmbeddedThemeName::SublimeSnazzy);
        names.push(EmbeddedThemeName::TwoDark);
        names.push(EmbeddedThemeName::Zenburn);
        proof {
            assert(names@ =~= theme_names_spec());
        }
        names
    }

    /// Unwraps the underlying lazy container.
    pub fn into_lazy_theme_set(self) -> (r: LazyThemeSet)
        ensures
            r@ == self@,
    {
        self.0
    }

    /// Forces deserialization of every entry, yielding a full theme set.
    pub fn to_theme_set(&self) -> (r: ThemeSet)
        ensures
            theme_set_map(r).dom() =~= self@.dom(),
            forall|k: Seq<char>|
                #[trigger] self@.contains_key(k) ==> theme_set_map(r)[k] == theme_of_dump(self@[k]),
    {
        self.0.to_theme_set()
    }
}

} // verus!
