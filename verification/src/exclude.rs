//! Leaving languages and compilers out of a set of language groups, and
//! putting the languages of the compilers in lower case.

use crate::cache::CompilerCache;
use crate::compiler::{language_views, not_named, CompilerView, Language, LanguageView};
use crate::lookup::names;
use crate::text::{ascii_lower, texts};
use vstd::prelude::*;

verus! {

/// The set of names that an optional exclusion list holds: none where no
/// list is given.
pub open spec fn excluded(list: Option<Vec<String>>) -> Set<Seq<char>> {
    match list {
        Some(names) => texts(names@).to_set(),
        None => Set::empty(),
    }
}

/// The test "this group's language is not among `skip`".
pub open spec fn keeps_language(skip: Set<Seq<char>>) -> spec_fn(LanguageView) -> bool {
    |g: LanguageView| !skip.contains(g.name)
}

/// The test "this compiler's name is not among `skip`".
pub open spec fn keeps_compiler(skip: Set<Seq<char>>) -> spec_fn(CompilerView) -> bool {
    |c: CompilerView| !skip.contains(c.name)
}

/// The groups without those whose language is among `skip`.
pub open spec fn without_languages(groups: Seq<LanguageView>, skip: Set<Seq<char>>) -> Seq<
    LanguageView,
> {
    groups.filter(keeps_language(skip))
}

/// One group without the compilers whose name is among `skip`.
pub open spec fn group_without(g: LanguageView, skip: Set<Seq<char>>) -> LanguageView {
    LanguageView { name: g.name, compilers: g.compilers.filter(keeps_compiler(skip)) }
}

/// Every group without the compilers whose name is among `skip`. A group
/// that loses all its compilers stays, empty.
pub open spec fn without_compilers(groups: Seq<LanguageView>, skip: Set<Seq<char>>) -> Seq<
    LanguageView,
> {
    groups.map_values(|g: LanguageView| group_without(g, skip))
}

/// A compiler with its language in lower case.
pub open spec fn lowered(c: CompilerView) -> CompilerView {
    CompilerView { language: ascii_lower(c.language), ..c }
}

/// One group with the language of each compiler in lower case.
pub open spec fn group_lowered(g: LanguageView) -> LanguageView {
    LanguageView { name: g.name, compilers: g.compilers.map_values(|c: CompilerView| lowered(c)) }
}

/// Every group with the language of each compiler in lower case.
pub open spec fn normalized(groups: Seq<LanguageView>) -> Seq<LanguageView> {
    groups.map_values(|g: LanguageView| group_lowered(g))
}

/// Filtering groups keeps their names distinct, and yields only groups
/// that were there before.
pub proof fn lemma_filter_groups(groups: Seq<LanguageView>, keep: spec_fn(LanguageView) -> bool)
    requires
        names(groups).no_duplicates(),
    ensures
        names(groups.filter(keep)).no_duplicates(),
        forall|i: int|
            0 <= i < groups.filter(keep).len() ==> groups.contains(
                #[trigger] groups.filter(keep)[i],
            ) && keep(groups.filter(keep)[i]),
    decreases groups.len(),
{
    reveal(Seq::filter);
    let kept = groups.filter(keep);
    if groups.len() > 0 {
        let rest = groups.drop_last();
        let last = groups.last();
        assert(names(rest) =~= names(groups).drop_last());
        lemma_filter_groups(rest, keep);
        let kept_rest = rest.filter(keep);
        assert forall|i: int| 0 <= i < kept.len() implies groups.contains(#[trigger] kept[i])
            && keep(kept[i]) by {
            if i < kept_rest.len() {
                assert(rest.contains(kept_rest[i]));
                let j = choose|j: int| 0 <= j < rest.len() && rest[j] == kept_rest[i];
                assert(groups[j] == kept[i]);
            } else {
                assert(kept[i] == groups[groups.len() - 1]);
            }
        }
        if keep(last) {
            assert forall|i: int, j: int|
                0 <= i < kept.len() && 0 <= j < kept.len() && i != j implies names(kept)[i]
                != names(kept)[j] by {
                if i < kept_rest.len() && j < kept_rest.len() {
                    assert(names(kept_rest)[i] != names(kept_rest)[j]);
                } else {
                    let low = if i < j { i } else { j };
                    assert(rest.contains(kept_rest[low]));
                    let at = choose|at: int| 0 <= at < rest.len() && rest[at] == kept_rest[low];
                    assert(names(groups)[at] != names(groups)[groups.len() - 1]);
                }
            }
        }
    }
}

/// Filtering with nothing excluded changes nothing.
pub proof fn lemma_nothing_excluded(groups: Seq<LanguageView>)
    ensures
        without_languages(groups, Set::empty()) == groups,
        without_compilers(groups, Set::empty()) == groups,
{
    lemma_keep_all(groups, keeps_language(Set::empty()));
    assert forall|i: int| 0 <= i < groups.len() implies group_without(
        #[trigger] groups[i],
        Set::empty(),
    ) == groups[i] by {
        lemma_keep_all(groups[i].compilers, keeps_compiler(Set::empty()));
    }
    assert(without_compilers(groups, Set::empty()) =~= groups);
}

/// A filter that every element of a sequence passes leaves it as it is.
pub proof fn lemma_keep_all<A>(s: Seq<A>, keep: spec_fn(A) -> bool)
    requires
        forall|i: int| 0 <= i < s.len() ==> keep(#[trigger] s[i]),
    ensures
        s.filter(keep) == s,
    decreases s.len(),
{
    reveal(Seq::filter);
    if s.len() > 0 {
        lemma_keep_all(s.drop_last(), keep);
        assert(s.drop_last().push(s.last()) =~= s);
    }
}

/// Removing the compilers called `name` from what a set of names has left
/// leaves what the set with `name` added leaves.
pub proof fn lemma_exclude_one_more(
    compilers: Seq<CompilerView>,
    skip: Set<Seq<char>>,
    name: Seq<char>,
)
    ensures
        compilers.filter(keeps_compiler(skip)).filter(not_named(name)) == compilers.filter(
            keeps_compiler(skip.insert(name)),
        ),
    decreases compilers.len(),
{
    reveal(Seq::filter);
    if compilers.len() > 0 {
        let rest = compilers.drop_last();
        let last = compilers.last();
        lemma_exclude_one_more(rest, skip, name);
        if keeps_compiler(skip)(last) {
            assert(rest.filter(keeps_compiler(skip)).push(last).drop_last() =~= rest.filter(
                keeps_compiler(skip),
            ));
        }
    }
}

/// The names among the first `k + 1` entries of a list are those among the
/// first `k`, and the entry at `k`.
pub proof fn lemma_one_more_name(list: Seq<Seq<char>>, k: int)
    requires
        0 <= k < list.len(),
    ensures
        list.take(k + 1).to_set() == list.take(k).to_set().insert(list[k]),
{
    let more = list.take(k + 1);
    let fewer = list.take(k);
    assert forall|a: Seq<char>| more.to_set().contains(a) <==> fewer.to_set().insert(
        list[k],
    ).contains(a) by {
        if more.contains(a) {
            let i = choose|i: int| 0 <= i < more.len() && more[i] == a;
            if i < k {
                assert(fewer[i] == a);
            }
        }
        if fewer.contains(a) {
            let i = choose|i: int| 0 <= i < fewer.len() && fewer[i] == a;
            assert(more[i] == a);
        }
        assert(more[k] == list[k]);
    }
    assert(more.to_set() =~= fewer.to_set().insert(list[k]));
}

/// Whether `name` is one of the entries of `list`.
pub fn is_among(list: &Vec<String>, name: &str) -> (found: bool)
    ensures
        found == texts(list@).to_set().contains(name@),
{
    for i in 0..list.len()
        invariant
            forall|j: int| 0 <= j < i ==> texts(list@)[j] != name@,
    {
        if *list[i].as_str() == *name {
            assert(texts(list@)[i as int] == name@);
            return true;
        }
    }
    false
}

/// Drops every group whose name is an entry of `langs`.
pub fn drop_languages(cache: CompilerCache, langs: &Vec<String>) -> (kept: CompilerCache)
    ensures
        language_views(kept@) == without_languages(
            language_views(cache@),
            texts(langs@).to_set(),
        ),
{
    let ghost before = language_views(cache@);
    let ghost keep = keeps_language(texts(langs@).to_set());
    let mut kept: CompilerCache = Vec::new();
    assert(language_views(kept@) =~= before.take(0).filter(keep)) by {
        reveal(Seq::filter);
    }
    for g in it: cache
        invariant
            it.seq() == cache@,
            before == language_views(cache@),
            keep == keeps_language(texts(langs@).to_set()),
            language_views(kept@) == before.take(it.index() as int).filter(keep),
    {
        proof {
            reveal(Seq::filter);
            assert(before.take(it.index() + 1).drop_last() =~= before.take(it.index() as int));
        }
        let ghost so_far = language_views(kept@);
        if !is_among(langs, g.name.as_str()) {
            kept.push(g);
            assert(language_views(kept@) =~= so_far.push(g@));
        }
    }
    assert(before.take(cache@.len() as int) =~= before);
    kept
}

/// Removes from one group the compilers whose name is an entry of `comps`.
pub fn thin_group(group: &mut Language, comps: &Vec<String>)
    ensures
        final(group)@ == group_without(old(group)@, texts(comps@).to_set()),
{
    let ghost before = group@;
    let ghost skip = texts(comps@);
    proof {
        lemma_keep_all(before.compilers, keeps_compiler(skip.take(0).to_set()));
    }
    for k in 0..comps.len()
        invariant
            skip == texts(comps@),
            group@ == group_without(before, skip.take(k as int).to_set()),
    {
        proof {
            lemma_exclude_one_more(before.compilers, skip.take(k as int).to_set(), skip[k as int]);
            lemma_one_more_name(skip, k as int);
        }
        group.remove_compiler(comps[k].as_str());
    }
    assert(skip.take(comps@.len() as int) =~= skip);
}

/// Removes from every group the compilers whose name is an entry of
/// `comps`. A group that loses all its compilers stays.
pub fn drop_compilers(cache: &mut CompilerCache, comps: &Vec<String>)
    ensures
        language_views(final(cache)@) == without_compilers(
            language_views(old(cache)@),
            texts(comps@).to_set(),
        ),
{
    let ghost before = language_views(cache@);
    let ghost skip = texts(comps@).to_set();
    let count = cache.len();
    for i in 0..count
        invariant
            count == cache@.len() == before.len(),
            skip == texts(comps@).to_set(),
            forall|j: int| 0 <= j < i ==> (#[trigger] cache@[j])@ == group_without(before[j], skip),
            forall|j: int| i <= j < count ==> (#[trigger] cache@[j])@ == before[j],
    {
        thin_group(&mut cache[i], comps);
    }
    assert(language_views(cache@) =~= without_compilers(before, skip));
}

/// Puts the language of every compiler of one group in lower case.
pub fn lower_group(group: &mut Language)
    ensures
        final(group)@ == group_lowered(old(group)@),
{
    let ghost before = group@;
    let count = group.compilers.len();
    for k in 0..count
        invariant
            count == group.compilers@.len() == before.compilers.len(),
            group.name@ == before.name,
            forall|m: int|
                0 <= m < k ==> (#[trigger] group.compilers@[m])@ == lowered(before.compilers[m]),
            forall|m: int|
                k <= m < count ==> (#[trigger] group.compilers@[m])@ == before.compilers[m],
    {
        let lower = group.compilers[k].language.to_ascii_lowercase();
        group.compilers[k].language = lower;
    }
    assert(group@.compilers =~= group_lowered(before).compilers);
}

/// Puts the language of every compiler in lower case.
pub fn lower_languages(cache: &mut CompilerCache)
    ensures
        language_views(final(cache)@) == normalized(language_views(old(cache)@)),
{
    let ghost before = language_views(cache@);
    let count = cache.len();
    for i in 0..count
        invariant
            count == cache@.len() == before.len(),
            forall|j: int| 0 <= j < i ==> (#[trigger] cache@[j])@ == group_lowered(before[j]),
            forall|j: int| i <= j < count ==> (#[trigger] cache@[j])@ == before[j],
    {
        lower_group(&mut cache[i]);
    }
    assert(language_views(cache@) =~= normalized(before));
}

} // verus!
