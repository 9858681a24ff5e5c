//! The renamed entries of a named import or export: names with their
//! aliases, where no name stands twice.

use vstd::prelude::*;
use crate::module::pair_views;
use crate::text::text_eq;

verus! {

/// The first place from `k` on at which `name` stands.
pub open spec fn alias_index_from(
    aliases: Seq<(Seq<char>, Seq<char>)>,
    name: Seq<char>,
    k: int,
) -> Option<int>
    decreases aliases.len() - k,
{
    if k < 0 || k >= aliases.len() {
        None
    } else if aliases[k].0 == name {
        Some(k)
    } else {
        alias_index_from(aliases, name, k + 1)
    }
}

/// The entries with `alias` for `name`: in place of the alias that `name`
/// had, or at the end where it had none.
pub open spec fn with_alias(
    aliases: Seq<(Seq<char>, Seq<char>)>,
    name: Seq<char>,
    alias: Seq<char>,
) -> Seq<(Seq<char>, Seq<char>)> {
    match alias_index_from(aliases, name, 0) {
        Some(i) => aliases.update(i, (name, alias)),
        None => aliases.push((name, alias)),
    }
}

/// The alias of `name` among the entries.
pub open spec fn alias_of(aliases: Seq<(Seq<char>, Seq<char>)>, name: Seq<char>) -> Option<
    Seq<char>,
> {
    match alias_index_from(aliases, name, 0) {
        Some(i) => Some(aliases[i].1),
        None => None,
    }
}

/// No name stands twice among the entries.
pub open spec fn distinct_names(aliases: Seq<(Seq<char>, Seq<char>)>) -> bool {
    forall|i: int, j: int|
        0 <= i < j < aliases.len() ==> (#[trigger] aliases[i]).0 != (#[trigger] aliases[j]).0
}

/// A place that the search gives holds the name, and no place between the
/// start of the search and it does.
pub proof fn lemma_alias_index_from(aliases: Seq<(Seq<char>, Seq<char>)>, name: Seq<char>, k: int)
    requires
        0 <= k,
    ensures
        match alias_index_from(aliases, name, k) {
            Some(i) => k <= i < aliases.len() && aliases[i].0 == name && forall|j: int|
                k <= j < i ==> (#[trigger] aliases[j]).0 != name,
            None => forall|j: int| k <= j < aliases.len() ==> (#[trigger] aliases[j]).0 != name,
        },
    decreases aliases.len() - k,
{
    if k < aliases.len() && aliases[k].0 != name {
        lemma_alias_index_from(aliases, name, k + 1);
    }
}

/// Giving a name an alias keeps the names distinct, and the name then has
/// that alias.
pub proof fn lemma_with_alias(aliases: Seq<(Seq<char>, Seq<char>)>, name: Seq<char>, alias: Seq<char>)
    requires
        distinct_names(aliases),
    ensures
        distinct_names(with_alias(aliases, name, alias)),
        alias_of(with_alias(aliases, name, alias), name) == Some(alias),
{
    lemma_alias_index_from(aliases, name, 0);
    let after = with_alias(aliases, name, alias);
    lemma_alias_index_from(after, name, 0);
    match alias_index_from(aliases, name, 0) {
        Some(i) => {
            assert(after[i].0 == name);
        },
        None => {
            assert(after[aliases.len() as int].0 == name);
        },
    }
}

/// Gives `name` the alias `alias`: in place of the alias that it had, or at
/// the end where it had none.
pub fn insert_alias(aliases: &mut Vec<(String, String)>, name: String, alias: String)
    ensures
        pair_views(final(aliases)@) == with_alias(pair_views(old(aliases)@), name@, alias@),
{
    let ghost before = pair_views(aliases@);
    let mut k: usize = 0;
    while k < aliases.len()
        invariant
            k <= aliases.len(),
            pair_views(aliases@) == before,
            before == pair_views(old(aliases)@),
            alias_index_from(before, name@, k as int) == alias_index_from(before, name@, 0),
        decreases aliases.len() - k,
    {
        if text_eq(aliases[k].0.as_str(), name.as_str()) {
            let ghost name_view = name@;
            let ghost alias_view = alias@;
            assert(before[k as int].0 == name_view);
            assert(alias_index_from(before, name_view, k as int) == Some(k as int));
            aliases.set(k, (name, alias));
            assert(pair_views(aliases@) =~= before.update(k as int, (name_view, alias_view)));
            return ;
        }
        k += 1;
    }
    let ghost name_view = name@;
    let ghost alias_view = alias@;
    aliases.push((name, alias));
    assert(pair_views(aliases@) =~= before.push((name_view, alias_view)));
}

/// The alias of `name` among the entries.
pub fn find_alias<'a>(aliases: &'a Vec<(String, String)>, name: &str) -> (alias: Option<&'a String>)
    ensures
        match alias {
            Some(a) => alias_of(pair_views(aliases@), name@) == Some(a@),
            None => alias_of(pair_views(aliases@), name@) is None,
        },
{
    let mut k: usize = 0;
    while k < aliases.len()
        invariant
            k <= aliases.len(),
            alias_index_from(pair_views(aliases@), name@, k as int) == alias_index_from(
                pair_views(aliases@),
                name@,
                0,
            ),
        decreases aliases.len() - k,
    {
        if text_eq(aliases[k].0.as_str(), name) {
            assert(pair_views(aliases@)[k as int].0 == name@);
            return Some(&aliases[k].1);
        }
        k += 1;
    }
    None
}

} // verus!
