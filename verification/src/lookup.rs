//! The questions that a set of language groups answers.

use crate::compiler::{language_views, CompilerView, Language, LanguageView};
use vstd::prelude::*;

verus! {

/// The names of a sequence of groups, in the same order.
pub open spec fn names(groups: Seq<LanguageView>) -> Seq<Seq<char>> {
    groups.map_values(|g: LanguageView| g.name)
}

/// The index of the first group called `name`, if there is one.
pub open spec fn first_named(groups: Seq<LanguageView>, name: Seq<char>) -> Option<int> {
    names(groups).index_of_first(name)
}

/// What pins `first_named` down: the index it gives holds the name, no
/// earlier index does, and it gives none only where no group has the name.
pub proof fn lemma_first_named(groups: Seq<LanguageView>, name: Seq<char>)
    ensures
        match first_named(groups, name) {
            Some(i) => {
                &&& 0 <= i < groups.len()
                &&& groups[i].name == name
                &&& forall|j: int| 0 <= j < i ==> (#[trigger] groups[j]).name != name
            },
            None => forall|j: int| 0 <= j < groups.len() ==> (#[trigger] groups[j]).name != name,
        },
{
    let all = names(groups);
    all.index_of_first_ensures(name);
    match first_named(groups, name) {
        Some(i) => {
            assert forall|j: int| 0 <= j < i implies (#[trigger] groups[j]).name != name by {
                assert(all[j] != name);
            }
        },
        None => {
            assert forall|j: int| 0 <= j < groups.len() implies (#[trigger] groups[j]).name
                != name by {
                assert(all[j] == groups[j].name);
                assert(all.contains(all[j]));
            }
        },
    }
}

/// Whether one of the compilers is called `name`.
pub open spec fn offers(compilers: Seq<CompilerView>, name: Seq<char>) -> bool {
    exists|k: int| 0 <= k < compilers.len() && (#[trigger] compilers[k]).name == name
}

/// Whether a group holds a compiler called `compiler`.
pub open spec fn lists(g: LanguageView, compiler: Seq<char>) -> bool {
    offers(g.compilers, compiler)
}

/// Whether `lang` is the name of a group.
pub open spec fn knows_language(groups: Seq<LanguageView>, lang: Seq<char>) -> bool {
    names(groups).contains(lang)
}

/// The compilers of the group called `lang`, if there is such a group.
pub open spec fn compilers_of(groups: Seq<LanguageView>, lang: Seq<char>) -> Option<
    Seq<CompilerView>,
> {
    match first_named(groups, lang) {
        Some(i) => Some(groups[i].compilers),
        None => None,
    }
}

/// The name of the first compiler of the group called `lang`, if there is
/// such a group and it holds a compiler.
pub open spec fn default_compiler_of(groups: Seq<LanguageView>, lang: Seq<char>) -> Option<
    Seq<char>,
> {
    match compilers_of(groups, lang) {
        Some(compilers) => if compilers.len() > 0 {
            Some(compilers[0].name)
        } else {
            None
        },
        None => None,
    }
}

/// Whether some group holds a compiler called `compiler`.
pub open spec fn knows_compiler(groups: Seq<LanguageView>, compiler: Seq<char>) -> bool {
    exists|i: int| 0 <= i < groups.len() && lists(#[trigger] groups[i], compiler)
}

/// For each group, whether it holds a compiler called `compiler`.
pub open spec fn listings(groups: Seq<LanguageView>, compiler: Seq<char>) -> Seq<bool> {
    groups.map_values(|g: LanguageView| lists(g, compiler))
}

/// The name of the first group that holds a compiler called `compiler`, if
/// any group does.
pub open spec fn language_of(groups: Seq<LanguageView>, compiler: Seq<char>) -> Option<
    Seq<char>,
> {
    match listings(groups, compiler).index_of_first(true) {
        Some(i) => Some(groups[i].name),
        None => None,
    }
}

/// What pins `language_of` down: it names the first group that holds a
/// compiler called `compiler`, and names none only where no group does.
pub proof fn lemma_language_of(groups: Seq<LanguageView>, compiler: Seq<char>)
    ensures
        match listings(groups, compiler).index_of_first(true) {
            Some(i) => {
                &&& 0 <= i < groups.len()
                &&& lists(groups[i], compiler)
                &&& forall|j: int| 0 <= j < i ==> !lists(#[trigger] groups[j], compiler)
                &&& language_of(groups, compiler) == Some(groups[i].name)
            },
            None => {
                &&& forall|j: int| 0 <= j < groups.len() ==> !lists(#[trigger] groups[j], compiler)
                &&& language_of(groups, compiler) is None
            },
        },
        language_of(groups, compiler) is Some <==> knows_compiler(groups, compiler),
{
    let flags = listings(groups, compiler);
    flags.index_of_first_ensures(true);
    match flags.index_of_first(true) {
        Some(i) => {
            assert(flags[i] == lists(groups[i], compiler));
            assert forall|j: int| 0 <= j < i implies !lists(#[trigger] groups[j], compiler) by {
                assert(flags[j] != true);
            }
        },
        None => {
            assert forall|j: int| 0 <= j < groups.len() implies !lists(
                #[trigger] groups[j],
                compiler,
            ) by {
                assert(flags[j] == lists(groups[j], compiler));
                assert(flags.contains(flags[j]));
            }
        },
    }
}

/// A language is known exactly when it has a group, and then it has
/// compilers to give, though the list may be empty.
pub proof fn lemma_knows_language(groups: Seq<LanguageView>, lang: Seq<char>)
    ensures
        knows_language(groups, lang) <==> first_named(groups, lang) is Some,
        knows_language(groups, lang) <==> compilers_of(groups, lang) is Some,
{
    names(groups).index_of_first_ensures(lang);
}

/// The default compiler of a language that holds compilers is one of them.
pub proof fn lemma_default_is_member(groups: Seq<LanguageView>, lang: Seq<char>)
    requires
        compilers_of(groups, lang) matches Some(compilers) && compilers.len() > 0,
    ensures
        default_compiler_of(groups, lang) is Some,
        offers(compilers_of(groups, lang).unwrap(), default_compiler_of(groups, lang).unwrap()),
{
    let compilers = compilers_of(groups, lang).unwrap();
    assert(compilers[0].name == default_compiler_of(groups, lang).unwrap());
}

/// Finds the first group called `name`.
pub fn position(cache: &Vec<Language>, name: &str) -> (found: Option<usize>)
    ensures
        match found {
            Some(i) => first_named(language_views(cache@), name@) == Some(i as int),
            None => first_named(language_views(cache@), name@) is None,
        },
{
    let ghost groups = language_views(cache@);
    let mut i: usize = 0;
    while i < cache.len()
        invariant
            i <= cache.len(),
            groups == language_views(cache@),
            forall|j: int| 0 <= j < i ==> (#[trigger] groups[j]).name != name@,
        decreases cache.len() - i,
    {
        if *cache[i].name.as_str() == *name {
            proof {
                assert(groups[i as int].name == name@);
                lemma_first_named(groups, name@);
            }
            return Some(i);
        }
        i += 1;
    }
    proof {
        lemma_first_named(groups, name@);
    }
    None
}

} // verus!
