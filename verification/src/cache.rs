//! Grouping a flat compiler listing into language groups.

use crate::compiler::{
    compiler_views, language_views, Compiler, CompilerView, Language, LanguageView,
};
use crate::lookup::{lemma_first_named, position};
use crate::text::ascii_lower;
use vstd::prelude::*;

verus! {

/// The language groups of a catalog, in the order in which each language
/// was first seen in the listing.
pub type CompilerCache = Vec<Language>;

/// The key under which a compiler is filed: its language in lower case.
pub open spec fn language_key(c: CompilerView) -> Seq<char> {
    ascii_lower(c.language)
}

/// The distinct language keys of a listing, in order of first appearance.
pub open spec fn keys(listing: Seq<CompilerView>) -> Seq<Seq<char>>
    decreases listing.len(),
{
    if listing.len() == 0 {
        Seq::empty()
    } else {
        let earlier = keys(listing.drop_last());
        let key = language_key(listing.last());
        if earlier.contains(key) {
            earlier
        } else {
            earlier.push(key)
        }
    }
}

/// The test "this compiler is filed under `key`".
pub open spec fn filed_under(key: Seq<char>) -> spec_fn(CompilerView) -> bool {
    |c: CompilerView| language_key(c) == key
}

/// The compilers of a listing filed under `key`, in listing order.
pub open spec fn members(listing: Seq<CompilerView>, key: Seq<char>) -> Seq<CompilerView> {
    listing.filter(filed_under(key))
}

/// The group that a listing yields for `key`.
pub open spec fn group_of(listing: Seq<CompilerView>, key: Seq<char>) -> LanguageView {
    LanguageView { name: key, compilers: members(listing, key) }
}

/// A listing sorted into language groups: one group per distinct key, in
/// order of first appearance, each holding its compilers in listing order.
pub open spec fn grouped(listing: Seq<CompilerView>) -> Seq<LanguageView> {
    keys(listing).map_values(|key: Seq<char>| group_of(listing, key))
}

/// Adding one compiler to a listing adds its key, unless it is there already.
pub proof fn lemma_keys_push(listing: Seq<CompilerView>, c: CompilerView)
    ensures
        keys(listing.push(c)) == if keys(listing).contains(language_key(c)) {
            keys(listing)
        } else {
            keys(listing).push(language_key(c))
        },
{
    assert(listing.push(c).drop_last() =~= listing);
}

/// Adding one compiler to a listing appends it to the members of its own
/// key and leaves the members of every other key alone.
pub proof fn lemma_members_push(listing: Seq<CompilerView>, c: CompilerView, key: Seq<char>)
    ensures
        members(listing.push(c), key) == if language_key(c) == key {
            members(listing, key).push(c)
        } else {
            members(listing, key)
        },
{
    reveal(Seq::filter);
    assert(listing.push(c).drop_last() =~= listing);
}

/// A key is among the keys of a listing exactly when some compiler of the
/// listing is filed under it.
pub proof fn lemma_keys_contains(listing: Seq<CompilerView>, key: Seq<char>)
    ensures
        keys(listing).contains(key) <==> exists|i: int|
            0 <= i < listing.len() && language_key(#[trigger] listing[i]) == key,
    decreases listing.len(),
{
    if listing.len() > 0 {
        let earlier = listing.drop_last();
        lemma_keys_contains(earlier, key);
        if keys(listing).contains(key) {
            if keys(earlier).contains(key) {
                let i = choose|i: int|
                    0 <= i < earlier.len() && language_key(#[trigger] earlier[i]) == key;
                assert(listing[i] == earlier[i]);
            } else {
                let j = choose|j: int| 0 <= j < keys(listing).len() && keys(listing)[j] == key;
                assert(language_key(listing[listing.len() - 1]) == key);
            }
        }
        if exists|i: int| 0 <= i < listing.len() && language_key(#[trigger] listing[i]) == key {
            let i = choose|i: int|
                0 <= i < listing.len() && language_key(#[trigger] listing[i]) == key;
            if i < earlier.len() {
                assert(earlier[i] == listing[i]);
                assert(keys(earlier).contains(key));
                let j = choose|j: int| 0 <= j < keys(earlier).len() && keys(earlier)[j] == key;
                assert(keys(listing)[j] == key);
            } else if !keys(earlier).contains(key) {
                assert(keys(listing).last() == key);
            }
        }
    }
}

/// No key occurs twice among the keys of a listing.
pub proof fn lemma_keys_distinct(listing: Seq<CompilerView>)
    ensures
        keys(listing).no_duplicates(),
    decreases listing.len(),
{
    if listing.len() > 0 {
        lemma_keys_distinct(listing.drop_last());
    }
}

/// The members of a key that is not among the keys of a listing are none.
pub proof fn lemma_members_of_absent_key(listing: Seq<CompilerView>, key: Seq<char>)
    requires
        !keys(listing).contains(key),
    ensures
        members(listing, key) == Seq::<CompilerView>::empty(),
{
    lemma_keys_contains(listing, key);
    listing.lemma_all_neg_filter_empty(filed_under(key));
    assert(members(listing, key) =~= Seq::<CompilerView>::empty());
}

/// Sorts a listing into language groups. A compiler is filed under its
/// language in lower case; a group is created when its language is first
/// seen, and later compilers of that language are appended to it, so the
/// groups and the compilers within each keep the order of the listing.
pub fn load(listing: Vec<Compiler>) -> (cache: CompilerCache)
    ensures
        language_views(cache@) == grouped(compiler_views(listing@)),
{
    let ghost all = compiler_views(listing@);
    let mut cache: CompilerCache = Vec::new();
    assert(language_views(cache@) =~= grouped(all.take(0)));
    for c in it: listing
        invariant
            it.seq() == listing@,
            all == compiler_views(listing@),
            language_views(cache@) == grouped(all.take(it.index() as int)),
    {
        let ghost seen = all.take(it.index() as int);
        let ghost before = language_views(cache@);
        proof {
            assert(all.take(it.index() + 1) =~= seen.push(c@));
            lemma_keys_push(seen, c@);
            lemma_keys_distinct(seen);
            lemma_first_named(before, language_key(c@));
        }
        let language_name = c.language.to_ascii_lowercase();
        match position(&cache, language_name.as_str()) {
            Some(at) => {
                cache[at].compilers.push(c);
                proof {
                    assert(keys(seen)[at as int] == language_key(c@));
                    assert(keys(seen).contains(language_key(c@)));
                    assert(compiler_views(cache@[at as int].compilers@)
                        =~= before[at as int].compilers.push(c@));
                    let after = grouped(seen.push(c@));
                    assert forall|i: int| 0 <= i < after.len() implies language_views(cache@)[i]
                        == after[i] by {
                        assert(before[i] == group_of(seen, keys(seen)[i]));
                        lemma_members_push(seen, c@, keys(seen)[i]);
                    }
                    assert(language_views(cache@) =~= after);
                }
            },
            None => {
                let mut lang = Language { name: language_name, compilers: Vec::new() };
                lang.compilers.push(c);
                assert(compiler_views(lang.compilers@) =~= seq![c@]);
                cache.push(lang);
                proof {
                    assert(!keys(seen).contains(language_key(c@))) by {
                        if keys(seen).contains(language_key(c@)) {
                            let j = choose|j: int|
                                0 <= j < keys(seen).len() && keys(seen)[j] == language_key(c@);
                            assert(before[j].name == language_key(c@));
                        }
                    }
                    lemma_members_of_absent_key(seen, language_key(c@));
                    let after = grouped(seen.push(c@));
                    assert forall|i: int| 0 <= i < after.len() implies language_views(cache@)[i]
                        == after[i] by {
                        lemma_members_push(seen, c@, keys(seen.push(c@))[i]);
                        if i < before.len() {
                            assert(before[i] == group_of(seen, keys(seen)[i]));
                            assert(keys(seen).contains(keys(seen)[i]));
                        } else {
                            assert(members(seen, language_key(c@)).push(c@) =~= seq![c@]);
                        }
                    }
                    assert(language_views(cache@) =~= after);
                }
            },
        }
    }
    assert(all.take(listing@.len() as int) =~= all);
    cache
}

} // verus!
