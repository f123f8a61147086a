//! Namespaces as paths of keys: what a table holds under a path, and how
//! a table is put at one.

use vstd::prelude::*;
use crate::bindings::{table_child, table_items, table_new, table_put};
use crate::text::{chars_of, find_first, first_index_of, lemma_first_index_of, string_between};

verus! {

/// What stands under a key: a table, with what it holds, or another value,
/// as its JSON text.
pub enum Item {
    Table(Map<Seq<char>, Item>),
    Value(Seq<char>),
}

/// The keys of a dotted namespace: what stands between its dots.
pub open spec fn key_path(key: Seq<char>) -> Seq<Seq<char>>
    decreases key.len(),
{
    let k = first_index_of(key, '.');
    if 0 <= k < key.len() {
        seq![key.take(k)] + key_path(key.skip(k + 1))
    } else {
        seq![key]
    }
}

/// The table that stands under `key`, or the empty one where the key is
/// absent or holds another value.
pub open spec fn child_of(items: Map<Seq<char>, Item>, key: Seq<char>) -> Map<Seq<char>, Item> {
    if items.contains_key(key) && items[key] is Table {
        items[key]->Table_0
    } else {
        Map::empty()
    }
}

/// What a table holds once `value` is put at the end of `path`: under the
/// last key stands `value`, in place of what stood there, and each key
/// before it holds a table, that which it held or a new one. Everything
/// beside the path stays.
pub open spec fn spec_put(
    items: Map<Seq<char>, Item>,
    path: Seq<Seq<char>>,
    value: Map<Seq<char>, Item>,
) -> Map<Seq<char>, Item>
    decreases path.len(),
{
    if path.len() == 0 {
        items
    } else if path.len() == 1 {
        items.insert(path[0], Item::Table(value))
    } else {
        items.insert(
            path[0],
            Item::Table(spec_put(child_of(items, path[0]), path.drop_first(), value)),
        )
    }
}

/// What stands at the end of `path`, if every key on it is there.
pub open spec fn lookup(items: Map<Seq<char>, Item>, path: Seq<Seq<char>>) -> Option<Item>
    decreases path.len(),
{
    if path.len() == 0 || !items.contains_key(path[0]) {
        None
    } else if path.len() == 1 {
        Some(items[path[0]])
    } else {
        match items[path[0]] {
            Item::Table(child) => lookup(child, path.drop_first()),
            Item::Value(_) => None,
        }
    }
}

/// Whether a table stands at the end of `path`.
pub open spec fn holds_table(items: Map<Seq<char>, Item>, path: Seq<Seq<char>>) -> bool {
    lookup(items, path) matches Some(Item::Table(_))
}

/// The keys of a dotted namespace.
pub fn split_key(key: &str) -> (path: Vec<String>)
    ensures
        path.deep_view() == key_path(key@),
        path.len() >= 1,
{
    let cs = chars_of(key);
    let mut path: Vec<String> = Vec::new();
    let mut start: usize = 0;
    proof {
        assert(cs@.skip(0) == cs@);
        assert(path.deep_view() == Seq::<Seq<char>>::empty());
        assert(Seq::<Seq<char>>::empty() + key_path(cs@) == key_path(cs@));
    }
    loop
        invariant
            start <= cs.len(),
            cs@ == key@,
            path.len() >= 1 || start == 0,
            key_path(cs@) == path.deep_view() + key_path(cs@.skip(start as int)),
        decreases cs.len() - start,
    {
        let ghost rest = cs@.skip(start as int);
        let ghost before = path.deep_view();
        let end = find_first(&cs, start, '.');
        let part = string_between(&cs, start, end);
        proof {
            lemma_first_index_of(rest, '.');
            assert(part@ == rest.take(first_index_of(rest, '.')));
        }
        path.push(part);
        assert(path.deep_view() == before.push(part@));
        if end == cs.len() {
            proof {
                assert(rest.take(rest.len() as int) == rest);
                assert(before + seq![rest] == before.push(rest));
            }
            return path;
        }
        proof {
            assert(rest.skip(end - start + 1) == cs@.skip(end + 1));
            assert(before + (seq![part@] + key_path(cs@.skip(end + 1))) == before.push(part@)
                + key_path(cs@.skip(end + 1)));
        }
        start = end + 1;
    }
}

/// Puts `meta` into `table` at the end of the path that starts at `at`.
pub(crate) fn put_at(
    table: &mut toml::map::Map<String, toml::Value>,
    path: &Vec<String>,
    at: usize,
    meta: toml::map::Map<String, toml::Value>,
)
    requires
        at < path.len(),
    ensures
        table_items(*final(table)) == spec_put(
            table_items(*old(table)),
            path.deep_view().skip(at as int),
            table_items(meta),
        ),
    decreases path.len() - at,
{
    let ghost keys = path.deep_view().skip(at as int);
    assert(keys[0] == path[at as int]@);
    assert(keys.drop_first() == path.deep_view().skip(at + 1));
    if at + 1 == path.len() {
        table_put(table, path[at].as_str(), meta);
    } else {
        let mut child = match table_child(table, path[at].as_str()) {
            Some(child) => child,
            None => table_new(),
        };
        assert(table_items(child) == child_of(table_items(*table), keys[0]));
        put_at(&mut child, path, at + 1, meta);
        table_put(table, path[at].as_str(), child);
    }
}

/// A namespace has at least one key.
pub proof fn lemma_key_path_is_not_empty(key: Seq<char>)
    ensures
        key_path(key).len() >= 1,
    decreases key.len(),
{
    let k = first_index_of(key, '.');
    if 0 <= k < key.len() {
        lemma_key_path_is_not_empty(key.skip(k + 1));
    }
}

/// A table that was put under a namespace is found there, key by key.
pub proof fn lemma_put_is_found(
    items: Map<Seq<char>, Item>,
    path: Seq<Seq<char>>,
    value: Map<Seq<char>, Item>,
)
    requires
        path.len() >= 1,
    ensures
        lookup(spec_put(items, path, value), path) == Some(Item::Table(value)),
    decreases path.len(),
{
    if path.len() > 1 {
        lemma_put_is_found(child_of(items, path[0]), path.drop_first(), value);
    }
}

/// Putting a table at the same place twice leaves the later one.
pub proof fn lemma_put_twice(
    items: Map<Seq<char>, Item>,
    path: Seq<Seq<char>>,
    earlier: Map<Seq<char>, Item>,
    later: Map<Seq<char>, Item>,
)
    ensures
        spec_put(spec_put(items, path, earlier), path, later) == spec_put(items, path, later),
    decreases path.len(),
{
    if path.len() == 1 {
        assert(items.insert(path[0], Item::Table(earlier)).insert(path[0], Item::Table(later))
            == items.insert(path[0], Item::Table(later)));
    } else if path.len() > 1 {
        let child = child_of(items, path[0]);
        let between = spec_put(child, path.drop_first(), earlier);
        lemma_put_twice(child, path.drop_first(), earlier, later);
        let first = items.insert(path[0], Item::Table(between));
        assert(child_of(first, path[0]) == between);
        assert(first.insert(path[0], Item::Table(spec_put(between, path.drop_first(), later)))
            == items.insert(path[0], Item::Table(spec_put(child, path.drop_first(), later))));
    }
}

/// A table that was put at a path holds its own fields there.
pub proof fn lemma_put_then_field(
    items: Map<Seq<char>, Item>,
    path: Seq<Seq<char>>,
    value: Map<Seq<char>, Item>,
    field: Seq<char>,
)
    requires
        path.len() >= 1,
    ensures
        lookup(spec_put(items, path, value), path.push(field)) == lookup(value, seq![field]),
    decreases path.len(),
{
    let whole = path.push(field);
    assert(whole[0] == path[0]);
    if path.len() == 1 {
        assert(whole.drop_first() =~= seq![field]);
    } else {
        assert(whole.drop_first() =~= path.drop_first().push(field));
        lemma_put_then_field(child_of(items, path[0]), path.drop_first(), value, field);
    }
}

/// Putting a table at a path leaves a table at every other path that the
/// first does not start.
pub proof fn lemma_put_keeps_tables(
    items: Map<Seq<char>, Item>,
    path: Seq<Seq<char>>,
    value: Map<Seq<char>, Item>,
    other: Seq<Seq<char>>,
)
    requires
        path.len() >= 1,
        other.len() >= 1,
        !path.is_prefix_of(other),
        holds_table(items, other),
    ensures
        holds_table(spec_put(items, path, value), other),
    decreases path.len(),
{
    let after = spec_put(items, path, value);
    if other[0] != path[0] {
        assert(after.contains_key(other[0]) && after[other[0]] == items[other[0]]);
    } else if path.len() == 1 {
        assert(path =~= other.subrange(0, 1));
        assert(path.is_prefix_of(other));
    } else if other.len() >= 2 {
        let child = child_of(items, path[0]);
        assert(items[other[0]] is Table);
        if path.drop_first().is_prefix_of(other.drop_first()) {
            assert(path =~= other.subrange(0, path.len() as int)) by {
                assert(path.drop_first() =~= other.drop_first().subrange(
                    0,
                    path.len() - 1,
                ));
                assert forall|j: int| 0 <= j < path.len() implies path[j] == other[j] by {
                    if j > 0 {
                        assert(path.drop_first()[j - 1] == other.drop_first()[j - 1]);
                    }
                }
            }
            assert(path.is_prefix_of(other));
        }
        lemma_put_keeps_tables(child, path.drop_first(), value, other.drop_first());
    }
}

/// Putting a table at a path changes nothing at a path that goes another
/// way.
pub proof fn lemma_put_elsewhere(
    items: Map<Seq<char>, Item>,
    path: Seq<Seq<char>>,
    value: Map<Seq<char>, Item>,
    other: Seq<Seq<char>>,
)
    requires
        path.len() >= 1,
        other.len() >= 1,
        !path.is_prefix_of(other),
        !other.is_prefix_of(path),
    ensures
        lookup(spec_put(items, path, value), other) == lookup(items, other),
    decreases path.len(),
{
    let after = spec_put(items, path, value);
    if other[0] != path[0] {
        assert(after.contains_key(other[0]) == items.contains_key(other[0]));
        if items.contains_key(other[0]) {
            assert(after[other[0]] == items[other[0]]);
        }
    } else {
        if path.len() == 1 {
            assert(path =~= other.subrange(0, 1));
            assert(path.is_prefix_of(other));
        }
        if other.len() == 1 {
            assert(other =~= path.subrange(0, 1));
            assert(other.is_prefix_of(path));
        }
        let p = path.drop_first();
        let o = other.drop_first();
        if p.is_prefix_of(o) {
            assert forall|j: int| 0 <= j < path.len() implies path[j] == other[j] by {
                if j > 0 {
                    assert(p[j - 1] == o[j - 1]);
                }
            }
            assert(path =~= other.subrange(0, path.len() as int));
            assert(path.is_prefix_of(other));
        }
        if o.is_prefix_of(p) {
            assert forall|j: int| 0 <= j < other.len() implies path[j] == other[j] by {
                if j > 0 {
                    assert(p[j - 1] == o[j - 1]);
                }
            }
            assert(other =~= path.subrange(0, other.len() as int));
            assert(other.is_prefix_of(path));
        }
        lemma_put_elsewhere(child_of(items, path[0]), p, value, o);
        if !(items.contains_key(path[0]) && items[path[0]] is Table) {
            assert(lookup(Map::<Seq<char>, Item>::empty(), o) is None);
        }
    }
}

} // verus!
