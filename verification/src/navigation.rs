//! Navigation data of the sidebar: the tool registry's identifiers and the
//! user's favourite tools, kept in registry order.
use vstd::prelude::*;

use crate::text::{owned, str_equal};

verus! {

/// The character views of a list of strings.
pub open spec fn string_views(v: Seq<String>) -> Seq<Seq<char>> {
    v.map_values(|s: String| s@)
}

/// The identifiers of `registry`, in registry order, that occur in `favorites`.
pub open spec fn keep_members(registry: Seq<Seq<char>>, favorites: Seq<Seq<char>>) -> Seq<Seq<char>>
    decreases registry.len(),
{
    if registry.len() == 0 {
        Seq::empty()
    } else {
        let rest = keep_members(registry.drop_last(), favorites);
        if favorites.contains(registry.last()) {
            rest.push(registry.last())
        } else {
            rest
        }
    }
}

/// An identifier is kept exactly when it is registered and a favourite.
pub proof fn lemma_keep_members_contains(registry: Seq<Seq<char>>, favorites: Seq<Seq<char>>, id: Seq<char>)
    ensures
        keep_members(registry, favorites).contains(id) <==> (registry.contains(id) && favorites.contains(id)),
    decreases registry.len(),
{
    if registry.len() > 0 {
        let init = registry.drop_last();
        lemma_keep_members_contains(init, favorites, id);
        let rest = keep_members(init, favorites);
        if registry.contains(id) && id != registry.last() {
            let i = choose|i: int| 0 <= i < registry.len() && registry[i] == id;
            assert(init[i] == id);
        }
        if init.contains(id) {
            let i = choose|i: int| 0 <= i < init.len() && init[i] == id;
            assert(registry[i] == id);
        }
        if favorites.contains(registry.last()) {
            assert(rest.push(registry.last()).last() == registry.last());
            if rest.push(registry.last()).contains(id) && id != registry.last() {
                let i = choose|i: int| 0 <= i < rest.len() + 1 && rest.push(registry.last())[i] == id;
                assert(rest[i] == id);
            }
            if rest.contains(id) {
                let i = choose|i: int| 0 <= i < rest.len() && rest[i] == id;
                assert(rest.push(registry.last())[i] == id);
            }
        }
        assert(registry[registry.len() - 1] == registry.last());
    }
}

/// The result depends only on which identifiers are favourites: duplicates and
/// order among the favourites make no difference.
pub proof fn lemma_keep_members_by_membership(
    registry: Seq<Seq<char>>,
    favorites: Seq<Seq<char>>,
    others: Seq<Seq<char>>,
)
    requires
        forall|id: Seq<char>| registry.contains(id) ==> (favorites.contains(id) <==> others.contains(id)),
    ensures
        keep_members(registry, favorites) == keep_members(registry, others),
    decreases registry.len(),
{
    if registry.len() > 0 {
        let init = registry.drop_last();
        assert forall|id: Seq<char>| init.contains(id) implies (favorites.contains(id) <==> others.contains(id)) by {
            let i = choose|i: int| 0 <= i < init.len() && init[i] == id;
            assert(registry[i] == id);
        }
        lemma_keep_members_by_membership(init, favorites, others);
        assert(registry[registry.len() - 1] == registry.last());
    }
}

/// Normalising twice gives what normalising once gave.
pub proof fn lemma_keep_members_idempotent(registry: Seq<Seq<char>>, favorites: Seq<Seq<char>>)
    ensures
        keep_members(registry, keep_members(registry, favorites)) == keep_members(registry, favorites),
{
    let kept = keep_members(registry, favorites);
    assert forall|id: Seq<char>| registry.contains(id) implies (kept.contains(id) <==> favorites.contains(id)) by {
        lemma_keep_members_contains(registry, favorites, id);
    }
    lemma_keep_members_by_membership(registry, kept, favorites);
}

/// The kept identifiers appear in registry order, each once, when the registry
/// has no duplicates.
pub proof fn lemma_keep_members_no_duplicates(registry: Seq<Seq<char>>, favorites: Seq<Seq<char>>)
    requires
        registry.no_duplicates(),
    ensures
        keep_members(registry, favorites).no_duplicates(),
    decreases registry.len(),
{
    if registry.len() > 0 {
        let init = registry.drop_last();
        assert(init.no_duplicates()) by {
            assert forall|i: int, j: int| 0 <= i < init.len() && 0 <= j < init.len() && i != j implies init[i]
                != init[j] by {
                assert(init[i] == registry[i] && init[j] == registry[j]);
            }
        }
        lemma_keep_members_no_duplicates(init, favorites);
        let rest = keep_members(init, favorites);
        if favorites.contains(registry.last()) {
            lemma_keep_members_contains(init, favorites, registry.last());
            if init.contains(registry.last()) {
                let i = choose|i: int| 0 <= i < init.len() && init[i] == registry.last();
                assert(registry[i] == registry[registry.len() - 1]);
            }
            let t = rest.push(registry.last());
            assert forall|i: int, j: int| 0 <= i < t.len() && 0 <= j < t.len() && i != j implies t[i] != t[j] by {
                if i < rest.len() && j < rest.len() {
                    assert(t[i] == rest[i] && t[j] == rest[j]);
                } else if i < rest.len() {
                    assert(t[i] == rest[i]);
                    assert(rest.contains(rest[i]));
                } else {
                    assert(t[j] == rest[j]);
                    assert(rest.contains(rest[j]));
                }
            }
        }
    }
}

/// The identifiers of the registered tools, in registry order.
pub open spec fn registry_ids() -> Seq<Seq<char>> {
    seq![
        "file-lock"@,
        "port-inspector"@,
        "process-inspector"@,
        "dns-lookup"@,
        "ping"@,
        "tcp-probe"@,
        "mtr"@,
        "tcp-debug"@,
        "udp-debug"@,
        "serial-debug"@,
    ]
}

/// The identifiers of the registered tools, in the order the sidebar lists them.
pub fn registered_tool_ids() -> (ids: Vec<String>)
    ensures
        string_views(ids@) == registry_ids(),
{
    let ids = vec![
        owned("file-lock"),
        owned("port-inspector"),
        owned("process-inspector"),
        owned("dns-lookup"),
        owned("ping"),
        owned("tcp-probe"),
        owned("mtr"),
        owned("tcp-debug"),
        owned("udp-debug"),
        owned("serial-debug"),
    ];
    assert(string_views(ids@) =~= registry_ids());
    ids
}

/// Whether `id` is one of `favorites`.
fn is_member(favorites: &Vec<String>, id: &str) -> (b: bool)
    ensures
        b == string_views(favorites@).contains(id@),
{
    let mut i: usize = 0;
    while i < favorites.len()
        invariant
            i <= favorites@.len(),
            forall|j: int| 0 <= j < i ==> favorites@[j]@ != id@,
        decreases favorites.len() - i,
    {
        if str_equal(favorites[i].as_str(), id) {
            assert(string_views(favorites@)[i as int] == id@);
            return true;
        }
        i = i + 1;
    }
    proof {
        if string_views(favorites@).contains(id@) {
            let j = choose|j: int| 0 <= j < string_views(favorites@).len() && string_views(favorites@)[j] == id@;
            assert(favorites@[j]@ == id@);
        }
    }
    false
}

/// The registered tools that are favourites, in registry order; duplicate
/// and unknown favourites are ignored.
pub fn favorite_descriptors(registry: &Vec<String>, favorite_tools: &Vec<String>) -> (r: Vec<String>)
    ensures
        string_views(r@) == keep_members(string_views(registry@), string_views(favorite_tools@)),
{
    let mut r: Vec<String> = Vec::new();
    let mut i: usize = 0;
    while i < registry.len()
        invariant
            i <= registry@.len(),
            string_views(r@) == keep_members(string_views(registry@).take(i as int), string_views(favorite_tools@)),
        decreases registry.len() - i,
    {
        let ghost before = string_views(r@);
        let ghost prefix = string_views(registry@).take(i as int + 1);
        assert(prefix.drop_last() =~= string_views(registry@).take(i as int));
        assert(prefix.last() == registry@[i as int]@);
        if is_member(favorite_tools, registry[i].as_str()) {
            r.push(registry[i].clone());
            assert(string_views(r@) =~= before.push(registry@[i as int]@));
        }
        i = i + 1;
    }
    assert(string_views(registry@).take(registry@.len() as int) =~= string_views(registry@));
    r
}

/// Keeps, in registry order, the favourites that are registered tools, each
/// once; identifiers left by older versions are cleared.
pub fn normalize_favorite_tools(registry: &Vec<String>, favorite_tools: &mut Vec<String>)
    ensures
        string_views(final(favorite_tools)@) == keep_members(string_views(registry@), string_views(old(favorite_tools)@)),
{
    let kept = favorite_descriptors(registry, favorite_tools);
    *favorite_tools = kept;
}

} // verus!
