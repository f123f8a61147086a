//! The tables of a context as the template engine is handed them: nested
//! by the keys of their namespaces, shorter namespaces first, so that no
//! table replaces what stands under a longer namespace.

use vstd::prelude::*;
use crate::bindings::{
    context_entries, context_insert, context_new, table_child, table_copy, table_items,
    table_json, table_new,
};
use crate::context::Entry;
use crate::namespace::{
    child_of, holds_table, key_path, lemma_key_path_is_not_empty, lemma_put_elsewhere,
    lemma_put_is_found, lemma_put_keeps_tables, lemma_put_then_field, lookup, put_at, spec_put,
    split_key, Item,
};

verus! {

/// The most keys that the namespace of an entry has.
pub open spec fn depth(entries: Seq<Entry>) -> nat
    decreases entries.len(),
{
    if entries.len() == 0 {
        0
    } else {
        let rest = depth(entries.drop_last());
        let last = key_path(entries.last().key@).len();
        if last > rest {
            last
        } else {
            rest
        }
    }
}

/// `tree` with the tables of the entries whose namespace has `level` keys,
/// put in order.
pub open spec fn put_level(tree: Map<Seq<char>, Item>, entries: Seq<Entry>, level: nat) -> Map<
    Seq<char>,
    Item,
>
    decreases entries.len(),
{
    if entries.len() == 0 {
        tree
    } else {
        let before = put_level(tree, entries.drop_last(), level);
        let path = key_path(entries.last().key@);
        if path.len() == level {
            spec_put(before, path, table_items(entries.last().table))
        } else {
            before
        }
    }
}

/// The tables of the entries whose namespace has at most `levels` keys,
/// nested by those keys: shorter namespaces are put first, so that a table
/// never replaces what stands under a longer namespace.
pub open spec fn tree_upto(entries: Seq<Entry>, levels: nat) -> Map<Seq<char>, Item>
    decreases levels,
{
    if levels == 0 {
        Map::empty()
    } else {
        put_level(tree_upto(entries, (levels - 1) as nat), entries, levels)
    }
}

/// The tables of all entries, nested by the keys of their namespaces.
pub open spec fn tree_of(entries: Seq<Entry>) -> Map<Seq<char>, Item> {
    tree_upto(entries, depth(entries))
}

/// Whether `key` is the first key of the namespace of one of the entries.
pub open spec fn is_first_key(entries: Seq<Entry>, key: Seq<char>) -> bool {
    exists|i: int| 0 <= i < entries.len() && #[trigger] key_path(entries[i].key@)[0] == key
}

/// Whether the engine's context holds, under a key, the JSON text of a
/// table with what `tree` holds under that key.
pub open spec fn holds_subtree(inner: tera::Context, tree: Map<Seq<char>, Item>, key: Seq<char>) -> bool {
    exists|top: toml::map::Map<String, toml::Value>|
        #![trigger table_items(top)]
        table_items(top) == child_of(tree, key) && context_entries(inner).contains_key(key)
            && context_entries(inner)[key] == table_json(top)
}

/// Whether the engine's context is that of the entries: it holds a key for
/// each first key of a namespace, under it the nested tables of that key,
/// and nothing else.
pub open spec fn reflects(inner: tera::Context, entries: Seq<Entry>) -> bool {
    &&& forall|key: Seq<char>| #[trigger]
        context_entries(inner).contains_key(key) ==> is_first_key(entries, key)
    &&& forall|i: int|
        0 <= i < entries.len() ==> holds_subtree(
            inner,
            tree_of(entries),
            #[trigger] key_path(entries[i].key@)[0],
        )
}

/// Whether no later entry has the namespace of the entry at `i`.
pub open spec fn is_last_of_namespace(entries: Seq<Entry>, i: int) -> bool {
    forall|j: int|
        i < j < entries.len() ==> #[trigger] key_path(entries[j].key@) != key_path(
            entries[i].key@,
        )
}

/// Whether the namespace of an entry is `path` or lies under it.
pub open spec fn is_shadowed(entries: Seq<Entry>, path: Seq<Seq<char>>) -> bool {
    exists|j: int| 0 <= j < entries.len() && path.is_prefix_of(#[trigger] key_path(entries[j].key@))
}

/// The most keys that the namespace of an entry has.
fn deepest(entries: &Vec<Entry>) -> (levels: usize)
    ensures
        levels == depth(entries@),
{
    let mut levels: usize = 0;
    let mut i: usize = 0;
    assert(entries@.take(0) == Seq::<Entry>::empty());
    while i < entries.len()
        invariant
            i <= entries.len(),
            levels == depth(entries@.take(i as int)),
        decreases entries.len() - i,
    {
        assert(entries@.take(i + 1).drop_last() == entries@.take(i as int));
        let path = split_key(entries[i].key.as_str());
        if path.len() > levels {
            levels = path.len();
        }
        i = i + 1;
    }
    assert(entries@.take(entries.len() as int) == entries@);
    levels
}

/// The tables of the entries, nested by the keys of their namespaces.
fn nest(entries: &Vec<Entry>) -> (tree: toml::map::Map<String, toml::Value>)
    ensures
        table_items(tree) == tree_of(entries@),
{
    let levels = deepest(entries);
    let mut tree = table_new();
    let mut level: usize = 0;
    while level < levels
        invariant
            level <= levels,
            table_items(tree) == tree_upto(entries@, level as nat),
        decreases levels - level,
    {
        let mut i: usize = 0;
        assert(entries@.take(0) == Seq::<Entry>::empty());
        while i < entries.len()
            invariant
                i <= entries.len(),
                level < levels,
                table_items(tree) == put_level(
                    tree_upto(entries@, level as nat),
                    entries@.take(i as int),
                    (level + 1) as nat,
                ),
            decreases entries.len() - i,
        {
            assert(entries@.take(i + 1).drop_last() == entries@.take(i as int));
            let path = split_key(entries[i].key.as_str());
            if path.len() == level + 1 {
                assert(path.deep_view().skip(0) == path.deep_view());
                put_at(&mut tree, &path, 0, table_copy(&entries[i].table));
            }
            i = i + 1;
        }
        assert(entries@.take(entries.len() as int) == entries@);
        level = level + 1;
    }
    tree
}

/// The engine's context of the entries.
pub(crate) fn engine_context(entries: &Vec<Entry>) -> (inner: tera::Context)
    ensures
        reflects(inner, entries@),
{
    let tree = nest(entries);
    let mut inner = context_new();
    let mut i: usize = 0;
    while i < entries.len()
        invariant
            i <= entries.len(),
            table_items(tree) == tree_of(entries@),
            forall|key: Seq<char>| #[trigger]
                context_entries(inner).contains_key(key) ==> is_first_key(entries@, key),
            forall|j: int|
                0 <= j < i ==> holds_subtree(
                    inner,
                    tree_of(entries@),
                    #[trigger] key_path(entries@[j].key@)[0],
                ),
        decreases entries.len() - i,
    {
        let path = split_key(entries[i].key.as_str());
        let ghost first = key_path(entries@[i as int].key@)[0];
        let ghost before = inner;
        assert(path.deep_view()[0] == path[0]@);
        let top = match table_child(&tree, path[0].as_str()) {
            Some(top) => top,
            None => table_new(),
        };
        assert(table_items(top) == child_of(tree_of(entries@), first));
        context_insert(&mut inner, path[0].as_str(), &top);
        proof {
            assert(is_first_key(entries@, first));
            assert forall|j: int| 0 <= j < i + 1 implies holds_subtree(
                inner,
                tree_of(entries@),
                #[trigger] key_path(entries@[j].key@)[0],
            ) by {
                let key = key_path(entries@[j].key@)[0];
                if key == first {
                    assert(table_items(top) == child_of(tree_of(entries@), key));
                } else {
                    assert(holds_subtree(before, tree_of(entries@), key));
                    let old_top = choose|t: toml::map::Map<String, toml::Value>|
                        #![trigger table_items(t)]
                        table_items(t) == child_of(tree_of(entries@), key) && context_entries(
                            before,
                        ).contains_key(key) && context_entries(before)[key] == table_json(t);
                    assert(table_items(old_top) == child_of(tree_of(entries@), key));
                }
            }
        }
        i = i + 1;
    }
    inner
}

/// Every metadata file is reached by its dotted name. In the nested tables
/// that the engine is handed, a table stands at the namespace of every
/// entry, in whatever order the files were put in and whatever other
/// namespaces there are.
pub proof fn lemma_every_namespace_is_found(entries: Seq<Entry>, i: int)
    requires
        0 <= i < entries.len(),
    ensures
        holds_table(tree_of(entries), key_path(entries[i].key@)),
{
    lemma_key_path_is_not_empty(entries[i].key@);
    lemma_depth_covers(entries, i);
    lemma_tree_finds(entries, depth(entries), i);
}

/// What a file holds is read by its dotted name. In the nested tables that
/// the engine is handed, the last table that was put under a namespace
/// holds each of its own fields there, in whatever order the files were
/// put in. The one exception is a field at which, or under which, the
/// namespace of a file stands: there stands that file's table.
pub proof fn lemma_fields_are_found(entries: Seq<Entry>, i: int, field: Seq<char>)
    requires
        0 <= i < entries.len(),
        is_last_of_namespace(entries, i),
        !is_shadowed(entries, key_path(entries[i].key@).push(field)),
    ensures
        lookup(tree_of(entries), key_path(entries[i].key@).push(field)) == lookup(
            table_items(entries[i].table),
            seq![field],
        ),
{
    lemma_key_path_is_not_empty(entries[i].key@);
    lemma_depth_covers(entries, i);
    lemma_tree_holds_field(entries, depth(entries), i, field);
}

/// No namespace has more keys than the depth of the entries.
proof fn lemma_depth_covers(entries: Seq<Entry>, i: int)
    requires
        0 <= i < entries.len(),
    ensures
        key_path(entries[i].key@).len() <= depth(entries),
    decreases entries.len(),
{
    if i < entries.len() - 1 {
        assert(entries.drop_last()[i] == entries[i]);
        lemma_depth_covers(entries.drop_last(), i);
    }
}

/// Putting the tables of one level leaves a table at every path of that
/// level or above it.
proof fn lemma_level_keeps_tables(
    tree: Map<Seq<char>, Item>,
    entries: Seq<Entry>,
    level: nat,
    other: Seq<Seq<char>>,
)
    requires
        1 <= other.len() <= level,
        holds_table(tree, other),
    ensures
        holds_table(put_level(tree, entries, level), other),
    decreases entries.len(),
{
    if entries.len() > 0 {
        let before = put_level(tree, entries.drop_last(), level);
        let path = key_path(entries.last().key@);
        lemma_level_keeps_tables(tree, entries.drop_last(), level, other);
        if path.len() == level {
            if path == other {
                lemma_put_is_found(before, path, table_items(entries.last().table));
            } else {
                if path.is_prefix_of(other) {
                    assert(path =~= other);
                }
                lemma_put_keeps_tables(before, path, table_items(entries.last().table), other);
            }
        }
    }
}

/// Once the tables of a level are put, a table stands at the namespace of
/// every entry of that level.
proof fn lemma_level_finds(tree: Map<Seq<char>, Item>, entries: Seq<Entry>, level: nat, i: int)
    requires
        0 <= i < entries.len(),
        level >= 1,
        key_path(entries[i].key@).len() == level,
    ensures
        holds_table(put_level(tree, entries, level), key_path(entries[i].key@)),
    decreases entries.len(),
{
    let before = put_level(tree, entries.drop_last(), level);
    let path = key_path(entries.last().key@);
    let wanted = key_path(entries[i].key@);
    if i == entries.len() - 1 {
        lemma_put_is_found(before, path, table_items(entries.last().table));
    } else {
        assert(entries.drop_last()[i] == entries[i]);
        lemma_level_finds(tree, entries.drop_last(), level, i);
        if path.len() == level {
            if path == wanted {
                lemma_put_is_found(before, path, table_items(entries.last().table));
            } else {
                if path.is_prefix_of(wanted) {
                    assert(path =~= wanted);
                }
                lemma_put_keeps_tables(before, path, table_items(entries.last().table), wanted);
            }
        }
    }
}

/// Once the tables of all levels up to `levels` are put, a table stands at
/// the namespace of every entry with that many keys or fewer.
proof fn lemma_tree_finds(entries: Seq<Entry>, levels: nat, i: int)
    requires
        0 <= i < entries.len(),
        1 <= key_path(entries[i].key@).len() <= levels,
    ensures
        holds_table(tree_upto(entries, levels), key_path(entries[i].key@)),
    decreases levels,
{
    let below = tree_upto(entries, (levels - 1) as nat);
    if key_path(entries[i].key@).len() == levels {
        lemma_level_finds(below, entries, levels, i);
    } else {
        lemma_tree_finds(entries, (levels - 1) as nat, i);
        lemma_level_keeps_tables(below, entries, levels, key_path(entries[i].key@));
    }
}

/// Putting the tables of a level changes nothing at a path that the
/// namespaces of that level neither start nor lie under.
proof fn lemma_level_keeps_path(
    tree: Map<Seq<char>, Item>,
    entries: Seq<Entry>,
    level: nat,
    other: Seq<Seq<char>>,
)
    requires
        level >= 1,
        other.len() >= 1,
        forall|j: int|
            0 <= j < entries.len() && (#[trigger] key_path(entries[j].key@)).len() == level ==> {
                &&& !key_path(entries[j].key@).is_prefix_of(other)
                &&& !other.is_prefix_of(key_path(entries[j].key@))
            },
    ensures
        lookup(put_level(tree, entries, level), other) == lookup(tree, other),
    decreases entries.len(),
{
    if entries.len() > 0 {
        let rest = entries.drop_last();
        assert forall|j: int|
            0 <= j < rest.len() && (#[trigger] key_path(rest[j].key@)).len() == level implies {
            &&& !key_path(rest[j].key@).is_prefix_of(other)
            &&& !other.is_prefix_of(key_path(rest[j].key@))
        } by {
            assert(rest[j] == entries[j]);
        }
        lemma_level_keeps_path(tree, rest, level, other);
        let path = key_path(entries.last().key@);
        assert(path == key_path(entries[entries.len() - 1].key@));
        if path.len() == level {
            lemma_put_elsewhere(
                put_level(tree, rest, level),
                path,
                table_items(entries.last().table),
                other,
            );
        }
    }
}

/// Once the tables of its level are put, the last table of a namespace
/// holds its own fields there.
proof fn lemma_level_puts_field(
    tree: Map<Seq<char>, Item>,
    entries: Seq<Entry>,
    level: nat,
    i: int,
    field: Seq<char>,
)
    requires
        0 <= i < entries.len(),
        level >= 1,
        key_path(entries[i].key@).len() == level,
        is_last_of_namespace(entries, i),
    ensures
        lookup(put_level(tree, entries, level), key_path(entries[i].key@).push(field)) == lookup(
            table_items(entries[i].table),
            seq![field],
        ),
    decreases entries.len(),
{
    let rest = entries.drop_last();
    let before = put_level(tree, rest, level);
    let path = key_path(entries.last().key@);
    let wanted = key_path(entries[i].key@);
    if i == entries.len() - 1 {
        lemma_put_then_field(before, path, table_items(entries.last().table), field);
    } else {
        assert(rest[i] == entries[i]);
        assert forall|j: int| i < j < rest.len() implies #[trigger] key_path(rest[j].key@)
            != key_path(rest[i].key@) by {
            assert(rest[j] == entries[j]);
        }
        lemma_level_puts_field(tree, rest, level, i, field);
        if path.len() == level {
            assert(path == key_path(entries[entries.len() - 1].key@));
            assert(path != wanted);
            let whole = wanted.push(field);
            if path.is_prefix_of(whole) {
                assert(path =~= wanted) by {
                    assert forall|j: int| 0 <= j < path.len() implies path[j] == wanted[j] by {
                        assert(whole[j] == wanted[j]);
                    }
                }
            }
            lemma_put_elsewhere(before, path, table_items(entries.last().table), whole);
        }
    }
}

/// Once all levels are put, the last table of a namespace holds its own
/// fields there, but for those that a namespace of another file stands at
/// or under.
proof fn lemma_tree_holds_field(entries: Seq<Entry>, levels: nat, i: int, field: Seq<char>)
    requires
        0 <= i < entries.len(),
        1 <= key_path(entries[i].key@).len() <= levels,
        is_last_of_namespace(entries, i),
        !is_shadowed(entries, key_path(entries[i].key@).push(field)),
    ensures
        lookup(tree_upto(entries, levels), key_path(entries[i].key@).push(field)) == lookup(
            table_items(entries[i].table),
            seq![field],
        ),
    decreases levels,
{
    let below = tree_upto(entries, (levels - 1) as nat);
    let wanted = key_path(entries[i].key@);
    let whole = wanted.push(field);
    if wanted.len() == levels {
        lemma_level_puts_field(below, entries, levels, i, field);
    } else {
        lemma_tree_holds_field(entries, (levels - 1) as nat, i, field);
        assert forall|j: int|
            0 <= j < entries.len() && (#[trigger] key_path(entries[j].key@)).len() == levels implies {
            &&& !key_path(entries[j].key@).is_prefix_of(whole)
            &&& !whole.is_prefix_of(key_path(entries[j].key@))
        } by {
            let path = key_path(entries[j].key@);
            if path.is_prefix_of(whole) {
                assert(path.len() == whole.len());
                assert(path =~= whole);
                assert(whole.is_prefix_of(path));
            }
        }
        lemma_level_keeps_path(below, entries, levels, whole);
    }
}

} // verus!
