//! The catalog of languages and compilers: how it is built from a listing,
//! what holds of it, and the questions it answers.

use crate::cache::{
    filed_under, grouped, keys, language_key, lemma_keys_contains, lemma_keys_distinct, load,
    CompilerCache,
};
use crate::compiler::{
    compiler_views, language_views, listed, Compiler, CompilerView, Language, LanguageView,
};
use crate::exclude::{
    drop_compilers, drop_languages, excluded, keeps_compiler, keeps_language,
    lemma_filter_groups, lemma_nothing_excluded, lower_languages, lowered, normalized,
    without_compilers, without_languages,
};
use crate::lookup::{
    compilers_of, default_compiler_of, first_named, knows_compiler, knows_language, language_of,
    lemma_default_is_member, lemma_first_named, lemma_knows_language, lemma_language_of,
    listings, lists, names, offers, position,
};
use crate::text::{ascii_lower, lemma_lower_twice, text_of};
use vstd::prelude::*;

verus! {

/// The catalog that a listing yields: the listing sorted into language
/// groups, without the excluded languages, then without the excluded
/// compilers, and with every compiler's language in lower case.
pub open spec fn catalog(
    listing: Seq<CompilerView>,
    skip_compilers: Set<Seq<char>>,
    skip_languages: Set<Seq<char>>,
) -> Seq<LanguageView> {
    normalized(
        without_compilers(without_languages(grouped(listing), skip_languages), skip_compilers),
    )
}

/// What holds of every catalog: no two groups share a name, every name is
/// in lower case, and every compiler carries the name of its group as its
/// language.
pub open spec fn well_formed(groups: Seq<LanguageView>) -> bool {
    &&& names(groups).no_duplicates()
    &&& forall|i: int|
        0 <= i < groups.len() ==> ascii_lower(#[trigger] groups[i].name) == groups[i].name
    &&& forall|i: int, k: int|
        0 <= i < groups.len() && 0 <= k < groups[i].compilers.len() ==> (
        #[trigger] groups[i].compilers[k]).language == groups[i].name
}

/// The groups of a listing carry its keys as names, in lower case, and
/// each holds only compilers filed under its name.
pub proof fn lemma_grouped(listing: Seq<CompilerView>)
    ensures
        names(grouped(listing)) == keys(listing),
        names(grouped(listing)).no_duplicates(),
        forall|i: int|
            0 <= i < grouped(listing).len() ==> ascii_lower(#[trigger] grouped(listing)[i].name)
                == grouped(listing)[i].name,
        forall|i: int, k: int|
            0 <= i < grouped(listing).len() && 0 <= k < grouped(listing)[i].compilers.len()
                ==> language_key(#[trigger] grouped(listing)[i].compilers[k]) == grouped(
                listing,
            )[i].name,
{
    let groups = grouped(listing);
    assert(names(groups) =~= keys(listing));
    lemma_keys_distinct(listing);
    assert forall|i: int| 0 <= i < groups.len() implies ascii_lower(#[trigger] groups[i].name)
        == groups[i].name by {
        let key = keys(listing)[i];
        assert(keys(listing).contains(key));
        lemma_keys_contains(listing, key);
        let at = choose|at: int|
            0 <= at < listing.len() && language_key(#[trigger] listing[at]) == key;
        lemma_lower_twice(listing[at].language);
    }
    assert forall|i: int, k: int|
        0 <= i < groups.len() && 0 <= k < groups[i].compilers.len() implies language_key(
        #[trigger] groups[i].compilers[k],
    ) == groups[i].name by {
        listing.lemma_filter_pred(filed_under(keys(listing)[i]), k);
    }
}

/// Every catalog built from a listing is well formed, whatever was excluded.
pub proof fn lemma_catalog_well_formed(
    listing: Seq<CompilerView>,
    skip_compilers: Set<Seq<char>>,
    skip_languages: Set<Seq<char>>,
)
    ensures
        well_formed(catalog(listing, skip_compilers, skip_languages)),
{
    let sorted = grouped(listing);
    let chosen = without_languages(sorted, skip_languages);
    let thinned = without_compilers(chosen, skip_compilers);
    let result = normalized(thinned);
    lemma_grouped(listing);
    lemma_filter_groups(sorted, keeps_language(skip_languages));
    assert(names(result) =~= names(chosen));
    assert forall|i: int| 0 <= i < result.len() implies ascii_lower(#[trigger] result[i].name)
        == result[i].name by {
        assert(sorted.contains(chosen[i]));
    }
    assert forall|i: int, k: int|
        0 <= i < result.len() && 0 <= k < result[i].compilers.len() implies (
    #[trigger] result[i].compilers[k]).language == result[i].name by {
        assert(sorted.contains(chosen[i]));
        let at = choose|at: int| 0 <= at < sorted.len() && sorted[at] == chosen[i];
        let c = thinned[i].compilers[k];
        chosen[i].compilers.lemma_filter_contains_rev(keeps_compiler(skip_compilers), c);
        let from = choose|from: int|
            0 <= from < chosen[i].compilers.len() && chosen[i].compilers[from] == c;
        assert(language_key(sorted[at].compilers[from]) == sorted[at].name);
    }
}

/// A language excluded when the catalog was built is not known to it and
/// has no compilers there.
pub proof fn lemma_excluded_language_unknown(
    listing: Seq<CompilerView>,
    skip_compilers: Set<Seq<char>>,
    skip_languages: Set<Seq<char>>,
    lang: Seq<char>,
)
    requires
        skip_languages.contains(lang),
    ensures
        !knows_language(catalog(listing, skip_compilers, skip_languages), lang),
        compilers_of(catalog(listing, skip_compilers, skip_languages), lang) is None,
        default_compiler_of(catalog(listing, skip_compilers, skip_languages), lang) is None,
{
    let sorted = grouped(listing);
    let chosen = without_languages(sorted, skip_languages);
    let result = catalog(listing, skip_compilers, skip_languages);
    lemma_grouped(listing);
    lemma_filter_groups(sorted, keeps_language(skip_languages));
    lemma_knows_language(result, lang);
    if names(result).contains(lang) {
        let i = choose|i: int| 0 <= i < names(result).len() && names(result)[i] == lang;
        assert(keeps_language(skip_languages)(chosen[i]));
    }
}

/// A compiler excluded when the catalog was built is not known to it and
/// belongs to no language there.
pub proof fn lemma_excluded_compiler_unknown(
    listing: Seq<CompilerView>,
    skip_compilers: Set<Seq<char>>,
    skip_languages: Set<Seq<char>>,
    compiler: Seq<char>,
)
    requires
        skip_compilers.contains(compiler),
    ensures
        !knows_compiler(catalog(listing, skip_compilers, skip_languages), compiler),
        language_of(catalog(listing, skip_compilers, skip_languages), compiler) is None,
{
    let chosen = without_languages(grouped(listing), skip_languages);
    let result = catalog(listing, skip_compilers, skip_languages);
    lemma_language_of(result, compiler);
    assert forall|i: int| 0 <= i < result.len() implies !lists(#[trigger] result[i], compiler) by {
        if lists(result[i], compiler) {
            let k = choose|k: int|
                0 <= k < result[i].compilers.len() && (#[trigger] result[i].compilers[k]).name
                    == compiler;
            chosen[i].compilers.lemma_filter_pred(keeps_compiler(skip_compilers), k);
        }
    }
}

/// Where no compiler is excluded, no group of the catalog is empty.
pub proof fn lemma_groups_start_filled(
    listing: Seq<CompilerView>,
    skip_languages: Set<Seq<char>>,
    i: int,
)
    requires
        0 <= i < catalog(listing, Set::empty(), skip_languages).len(),
    ensures
        catalog(listing, Set::empty(), skip_languages)[i].compilers.len() > 0,
{
    let sorted = grouped(listing);
    let chosen = without_languages(sorted, skip_languages);
    lemma_grouped(listing);
    lemma_filter_groups(sorted, keeps_language(skip_languages));
    lemma_nothing_excluded(chosen);
    assert(sorted.contains(chosen[i]));
    let at = choose|at: int| 0 <= at < sorted.len() && sorted[at] == chosen[i];
    let key = keys(listing)[at];
    assert(keys(listing).contains(key));
    lemma_keys_contains(listing, key);
    let from = choose|from: int|
        0 <= from < listing.len() && language_key(#[trigger] listing[from]) == key;
    listing.lemma_filter_contains(filed_under(key), from);
}

/// In a catalog built without excluding compilers, every known language
/// has a default compiler, and it is one of the language's compilers.
pub proof fn lemma_default_of_fresh_catalog(
    listing: Seq<CompilerView>,
    skip_languages: Set<Seq<char>>,
    lang: Seq<char>,
)
    requires
        knows_language(catalog(listing, Set::empty(), skip_languages), lang),
    ensures
        default_compiler_of(catalog(listing, Set::empty(), skip_languages), lang) is Some,
        offers(
            compilers_of(catalog(listing, Set::empty(), skip_languages), lang).unwrap(),
            default_compiler_of(catalog(listing, Set::empty(), skip_languages), lang).unwrap(),
        ),
{
    let result = catalog(listing, Set::empty(), skip_languages);
    lemma_knows_language(result, lang);
    lemma_first_named(result, lang);
    lemma_groups_start_filled(listing, skip_languages, first_named(result, lang).unwrap());
    lemma_default_is_member(result, lang);
}

/// A listed compiler that is not excluded, of a language that is not
/// excluded, is found in the catalog under its language in lower case, and
/// carries that lower-case name as its language.
pub proof fn lemma_entry_is_filed(
    listing: Seq<CompilerView>,
    skip_compilers: Set<Seq<char>>,
    skip_languages: Set<Seq<char>>,
    i: int,
)
    requires
        0 <= i < listing.len(),
        !skip_languages.contains(ascii_lower(listing[i].language)),
        !skip_compilers.contains(listing[i].name),
    ensures
        knows_language(
            catalog(listing, skip_compilers, skip_languages),
            ascii_lower(listing[i].language),
        ),
        knows_compiler(catalog(listing, skip_compilers, skip_languages), listing[i].name),
        compilers_of(
            catalog(listing, skip_compilers, skip_languages),
            ascii_lower(listing[i].language),
        ) matches Some(compilers) && compilers.contains(lowered(listing[i])),
{
    let c = listing[i];
    let key = language_key(c);
    let sorted = grouped(listing);
    let chosen = without_languages(sorted, skip_languages);
    let thinned = without_compilers(chosen, skip_compilers);
    let result = catalog(listing, skip_compilers, skip_languages);
    lemma_grouped(listing);
    lemma_keys_contains(listing, key);
    let at = choose|at: int| 0 <= at < keys(listing).len() && keys(listing)[at] == key;
    listing.lemma_filter_contains(filed_under(key), i);
    assert(sorted[at].compilers.contains(c));
    sorted.lemma_filter_contains(keeps_language(skip_languages), at);
    let to = choose|to: int| 0 <= to < chosen.len() && chosen[to] == sorted[at];
    let from = choose|from: int|
        0 <= from < chosen[to].compilers.len() && chosen[to].compilers[from] == c;
    chosen[to].compilers.lemma_filter_contains(keeps_compiler(skip_compilers), from);
    let k = choose|k: int|
        0 <= k < thinned[to].compilers.len() && thinned[to].compilers[k] == c;
    assert(result[to].compilers[k] == lowered(c));
    assert(result[to].name == key);
    assert(names(result)[to] == key);
    lemma_catalog_well_formed(listing, skip_compilers, skip_languages);
    lemma_first_named(result, key);
    lemma_knows_language(result, key);
    assert(first_named(result, key) == Some(to)) by {
        let first = first_named(result, key).unwrap();
        if first != to {
            assert(names(result)[first] == names(result)[to]);
        }
    }
    assert(lists(result[to], c.name));
}

/// Every compiler in the catalog is a listed compiler with its language in
/// lower case: one that is not excluded, filed under its language, which
/// is not excluded either.
pub proof fn lemma_filed_is_entry(
    listing: Seq<CompilerView>,
    skip_compilers: Set<Seq<char>>,
    skip_languages: Set<Seq<char>>,
    i: int,
    k: int,
)
    requires
        0 <= i < catalog(listing, skip_compilers, skip_languages).len(),
        0 <= k < catalog(listing, skip_compilers, skip_languages)[i].compilers.len(),
    ensures
        exists|j: int|
            0 <= j < listing.len() && catalog(
                listing,
                skip_compilers,
                skip_languages,
            )[i].compilers[k] == lowered(#[trigger] listing[j]),
        !skip_compilers.contains(
            catalog(listing, skip_compilers, skip_languages)[i].compilers[k].name,
        ),
        !skip_languages.contains(catalog(listing, skip_compilers, skip_languages)[i].name),
{
    let sorted = grouped(listing);
    let chosen = without_languages(sorted, skip_languages);
    let thinned = without_compilers(chosen, skip_compilers);
    let result = catalog(listing, skip_compilers, skip_languages);
    lemma_grouped(listing);
    lemma_filter_groups(sorted, keeps_language(skip_languages));
    assert(keeps_language(skip_languages)(chosen[i]));
    let c = thinned[i].compilers[k];
    assert(result[i].compilers[k] == lowered(c));
    chosen[i].compilers.lemma_filter_pred(keeps_compiler(skip_compilers), k);
    chosen[i].compilers.lemma_filter_contains_rev(keeps_compiler(skip_compilers), c);
    assert(sorted.contains(chosen[i]));
    let at = choose|at: int| 0 <= at < sorted.len() && sorted[at] == chosen[i];
    listing.lemma_filter_contains_rev(filed_under(keys(listing)[at]), c);
    let j = choose|j: int| 0 <= j < listing.len() && listing[j] == c;
    assert(result[i].compilers[k] == lowered(listing[j]));
}

/// The catalog of the languages and compilers that the service offers.
/// It is built once and only read afterwards.
pub struct Wandbox {
    cache: CompilerCache,
}

impl View for Wandbox {
    type V = Seq<LanguageView>;

    closed spec fn view(&self) -> Seq<LanguageView> {
        language_views(self.cache@)
    }
}

impl Wandbox {
    #[verifier::type_invariant]
    spec fn sound(&self) -> bool {
        well_formed(language_views(self.cache@))
    }

    /// Builds the catalog from the service's listing.
    ///
    /// The listing is sorted into language groups. Then the groups whose
    /// name is an entry of `langs` are dropped, the compilers whose name is
    /// an entry of `comps` are removed from the groups that are left, and
    /// the language of every compiler is put in lower case.
    pub fn new(
        listing: Vec<Compiler>,
        comps: Option<Vec<String>>,
        langs: Option<Vec<String>>,
    ) -> (wbox: Wandbox)
        ensures
            wbox@ == catalog(compiler_views(listing@), excluded(comps), excluded(langs)),
            well_formed(wbox@),
            forall|name: Seq<char>| #[trigger]
                excluded(comps).contains(name) ==> !knows_compiler(wbox@, name),
            forall|name: Seq<char>| #[trigger]
                excluded(langs).contains(name) ==> !knows_language(wbox@, name),
    {
        let ghost all = compiler_views(listing@);
        let mut cache = load(listing);
        proof {
            lemma_nothing_excluded(language_views(cache@));
        }
        if let Some(langs) = langs {
            cache = drop_languages(cache, &langs);
        }
        proof {
            lemma_nothing_excluded(language_views(cache@));
        }
        if let Some(comps) = comps {
            drop_compilers(&mut cache, &comps);
        }
        lower_languages(&mut cache);
        proof {
            lemma_catalog_well_formed(all, excluded(comps), excluded(langs));
            assert forall|name: Seq<char>| #[trigger]
                excluded(comps).contains(name) implies !knows_compiler(
                language_views(cache@),
                name,
            ) by {
                lemma_excluded_compiler_unknown(all, excluded(comps), excluded(langs), name);
            }
            assert forall|name: Seq<char>| #[trigger]
                excluded(langs).contains(name) implies !knows_language(
                language_views(cache@),
                name,
            ) by {
                lemma_excluded_language_unknown(all, excluded(comps), excluded(langs), name);
            }
        }
        Wandbox { cache }
    }

    /// The group called `lang`, if there is one.
    fn group(&self, lang: &str) -> (found: Option<&Language>)
        ensures
            match found {
                Some(g) => first_named(self@, lang@) is Some && g@ == self@[first_named(
                    self@,
                    lang@,
                ).unwrap()],
                None => first_named(self@, lang@) is None,
            },
    {
        proof {
            lemma_first_named(self@, lang@);
        }
        match position(&self.cache, lang) {
            Some(i) => Some(&self.cache[i]),
            None => None,
        }
    }

    /// The compilers of the language called `lang`, in listing order, if
    /// the catalog holds such a language. The name is compared as it
    /// stands: the catalog's names are in lower case.
    pub fn get_compilers(&self, lang: &str) -> (found: Option<Vec<Compiler>>)
        ensures
            listed(found) == compilers_of(self@, lang@),
            found is Some <==> knows_language(self@, lang@),
            found matches Some(list) ==> forall|k: int|
                0 <= k < list@.len() ==> (#[trigger] list@[k]).language@ == lang@,
    {
        proof {
            use_type_invariant(self);
            lemma_knows_language(self@, lang@);
            lemma_first_named(self@, lang@);
        }
        let language_option = self.group(lang);
        let lang = match language_option {
            Some(l) => l,
            None => return None,
        };
        let list = lang.compilers.clone();
        proof {
            assert(compiler_views(list@) =~= compiler_views(lang.compilers@));
            assert forall|k: int| 0 <= k < list@.len() implies (#[trigger] list@[k]).language@
                == lang.name@ by {
                assert(compiler_views(list@)[k] == lang@.compilers[k]);
            }
        }
        Some(list)
    }

    /// A copy of every group of the catalog.
    pub fn get_languages(&self) -> (all: Vec<Language>)
        ensures
            language_views(all@) == self@,
            well_formed(self@),
    {
        proof {
            use_type_invariant(self);
        }
        let mut vec: Vec<Language> = Vec::new();
        for i in 0..self.cache.len()
            invariant
                language_views(vec@) == self@.take(i as int),
        {
            let ghost copied = language_views(vec@);
            vec.push(self.cache[i].clone());
            assert(language_views(vec@) =~= copied.push(self@[i as int]));
            assert(self@.take(i + 1) =~= copied.push(self@[i as int]));
        }
        assert(self@.take(self.cache@.len() as int) =~= self@);
        vec
    }

    /// Whether some group holds a compiler called `c`.
    pub fn is_valid_compiler_str(&self, c: &str) -> (known: bool)
        ensures
            known == knows_compiler(self@, c@),
    {
        for i in 0..self.cache.len()
            invariant
                forall|j: int| 0 <= j < i ==> !lists(#[trigger] self@[j], c@),
        {
            let k = &self.cache[i];
            for n in 0..k.compilers.len()
                invariant
                    i < self@.len(),
                    k@ == self@[i as int],
                    forall|m: int| 0 <= m < n ==> (#[trigger] k@.compilers[m]).name != c@,
            {
                let v = &k.compilers[n];
                if *v.name.as_str() == *c {
                    assert(k@.compilers[n as int].name == c@);
                    assert(lists(self@[i as int], c@));
                    return true;
                }
            }
        }
        false
    }

    /// The name of the first group that holds a compiler called `c`, if
    /// any group does.
    pub fn get_compiler_language_str(&self, c: &str) -> (lang: Option<String>)
        ensures
            text_of(lang) == language_of(self@, c@),
            lang is Some <==> knows_compiler(self@, c@),
    {
        for i in 0..self.cache.len()
            invariant
                forall|j: int| 0 <= j < i ==> !lists(#[trigger] self@[j], c@),
        {
            let v = &self.cache[i];
            for n in 0..v.compilers.len()
                invariant
                    i < self@.len(),
                    v@ == self@[i as int],
                    forall|j: int| 0 <= j < i ==> !lists(#[trigger] self@[j], c@),
                    forall|m: int| 0 <= m < n ==> (#[trigger] v@.compilers[m]).name != c@,
            {
                let comp = &v.compilers[n];
                if *comp.name.as_str() == *c {
                    proof {
                        assert(v@.compilers[n as int].name == c@);
                        assert(lists(self@[i as int], c@));
                        lemma_language_of(self@, c@);
                        assert(listings(self@, c@).index_of_first(true) == Some(i as int));
                    }
                    return Some(v.name.clone());
                }
            }
        }
        proof {
            lemma_language_of(self@, c@);
        }
        None
    }

    /// Whether the catalog holds a language called `l`.
    pub fn is_valid_language(&self, l: &str) -> (known: bool)
        ensures
            known == knows_language(self@, l@),
    {
        proof {
            lemma_knows_language(self@, l@);
        }
        self.group(l).is_some()
    }

    /// The name of the first compiler of the language called `l`, or
    /// nothing where the catalog holds no such language.
    ///
    /// A language that is there but holds no compiler has no default: the
    /// caller rules that out, or calls `try_default_compiler` instead.
    pub fn get_default_compiler(&self, l: &str) -> (name: Option<String>)
        requires
            compilers_of(self@, l@) matches Some(compilers) ==> compilers.len() > 0,
        ensures
            text_of(name) == default_compiler_of(self@, l@),
            name is Some <==> knows_language(self@, l@),
            name matches Some(n) ==> offers(compilers_of(self@, l@).unwrap(), n@),
    {
        proof {
            lemma_knows_language(self@, l@);
        }
        if let Some(lang) = self.group(l) {
            proof {
                lemma_default_is_member(self@, l@);
            }
            Some(lang.compilers[0].name.clone())
        } else {
            None
        }
    }

    /// The name of the first compiler of the language called `l`, or
    /// nothing where the catalog holds no such language or the language
    /// holds no compiler.
    pub fn try_default_compiler(&self, l: &str) -> (name: Option<String>)
        ensures
            text_of(name) == default_compiler_of(self@, l@),
    {
        match self.group(l) {
            Some(lang) => {
                if lang.compilers.len() > 0 {
                    self.get_default_compiler(l)
                } else {
                    None
                }
            },
            None => None,
        }
    }
}

} // verus!
