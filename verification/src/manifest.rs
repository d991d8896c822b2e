//! Build manifests: TOML tables as the `toml` crate holds them, a
//! mathematical model of what such a table contains, and the boundary to the
//! crate's parser, printer and map operations.

use vstd::prelude::*;

verus! {

/// `toml::map::Map`, of which `toml::Table` is the instance with `String`
/// keys and `toml::Value` values. Nothing of its inside is known here; what
/// it holds is `table_entries`.
#[verifier::external_type_specification]
#[verifier::external_body]
#[verifier::reject_recursive_types(K)]
#[verifier::reject_recursive_types(V)]
pub struct ExTomlMap<K, V>(toml::map::Map<K, V>);

/// `toml::Value`. Nothing of its inside is known here; what it is to a
/// merge is `value_node`.
#[verifier::external_type_specification]
#[verifier::external_body]
pub struct ExTomlValue(toml::Value);

/// What a TOML value is to a merge: either a table, whose entries are merged
/// key by key, or anything else, which is carried as it is.
pub enum Node {
    Leaf(toml::Value),
    Table(Map<Seq<char>, Node>),
}

/// The entries of a table: each key with what its value is.
pub uninterp spec fn table_entries(t: toml::Table) -> Map<Seq<char>, Node>;

/// What a value is: `Node::Table` of its entries for a table, `Node::Leaf`
/// of the value itself for every other kind.
pub uninterp spec fn value_node(v: toml::Value) -> Node;

/// Tells `toml::Value::Table` apart from the other variants. A table comes
/// back as `Ok` with the same entries; any other value comes back unchanged
/// as `Err`, and is a leaf.
#[verifier::external_body]
pub(crate) fn value_into_table(v: toml::Value) -> (r: Result<toml::Table, toml::Value>)
    ensures
        match r {
            Ok(t) => value_node(v) == Node::Table(table_entries(t)),
            Err(o) => o == v && value_node(v) == Node::Leaf(v),
        },
{
    match v {
        toml::Value::Table(t) => Ok(t),
        other => Err(other),
    }
}

/// `toml::Value::Table`: the value that holds the table `t`.
#[verifier::external_body]
pub(crate) fn value_from_table(t: toml::Table) -> (v: toml::Value)
    ensures
        value_node(v) == Node::Table(table_entries(t)),
{
    toml::Value::Table(t)
}

/// Whether the list `v` holds exactly the entries `m`, each key once.
pub open spec fn lists_entries(v: Seq<(String, toml::Value)>, m: Map<Seq<char>, Node>) -> bool {
    &&& forall|i: int|
        0 <= i < v.len() ==> m.contains_key((#[trigger] v[i]).0@) && m[v[i].0@] == value_node(
            v[i].1,
        )
    &&& forall|k: Seq<char>| m.contains_key(k) ==> listed(v, k)
    &&& forall|i: int, j: int|
        0 <= i < j < v.len() ==> (#[trigger] v[i]).0@ != (#[trigger] v[j]).0@
}

/// Whether `k` is the key of some entry of the list `v`.
pub open spec fn listed(v: Seq<(String, toml::Value)>, k: Seq<char>) -> bool {
    exists|i: int| 0 <= i < v.len() && (#[trigger] v[i]).0@ == k
}

/// `toml::Table::into_iter`, collected: the table's entries, each key once
/// with its value.
#[verifier::external_body]
pub(crate) fn table_into_entries(t: toml::Table) -> (v: Vec<(String, toml::Value)>)
    ensures
        lists_entries(v@, table_entries(t)),
{
    t.into_iter().collect()
}

/// `toml::Table::insert`: afterwards the table holds `value` under `key`,
/// in place of what it held there, and its other entries as before.
#[verifier::external_body]
pub(crate) fn table_insert(t: &mut toml::Table, key: String, value: toml::Value)
    ensures
        table_entries(*final(t)) == table_entries(*old(t)).insert(key@, value_node(value)),
{
    t.insert(key, value);
}

/// `toml::Table::remove`: takes out the entry under `key` and returns its
/// value, or returns `None` and leaves the table as it was where there is no
/// such entry.
#[verifier::external_body]
pub(crate) fn table_remove(t: &mut toml::Table, key: &str) -> (r: Option<toml::Value>)
    ensures
        table_entries(*final(t)) == table_entries(*old(t)).remove(key@),
        match r {
            Some(v) => lookup(table_entries(*old(t)), key@) == Some(value_node(v)),
            None => lookup(table_entries(*old(t)), key@) is None,
        },
{
    t.remove(key)
}

/// What the `toml` crate makes of a document: the entries of the table that
/// it parses to, or the text of its error.
pub uninterp spec fn toml_document(text: Seq<char>) -> Result<Map<Seq<char>, Node>, Seq<char>>;

/// The TOML text that the `toml` crate writes for a table with the given
/// entries, or the text of its error where it cannot write one.
pub uninterp spec fn toml_text(entries: Map<Seq<char>, Node>) -> Result<Seq<char>, Seq<char>>;

/// `toml::Table::from_str`: parses a TOML document. The table that comes
/// back, or the error, rendered by its `Display`, is the crate's reading of
/// `text` and depends on nothing else.
#[verifier::external_body]
pub(crate) fn parse_table(text: &str) -> (r: Result<toml::Table, String>)
    ensures
        match r {
            Ok(t) => toml_document(text@) matches Ok(m) && m == table_entries(t),
            Err(e) => toml_document(text@) matches Err(m) && m == e@,
        },
{
    match text.parse::<toml::Table>() {
        Ok(t) => Ok(t),
        Err(e) => Err(e.to_string()),
    }
}

/// `toml::to_string` on a table: the document that the crate writes for the
/// table's entries, or its error rendered by `Display`. The text depends on
/// the entries alone.
#[verifier::external_body]
pub(crate) fn print_table(t: &toml::Table) -> (r: Result<String, String>)
    ensures
        match r {
            Ok(s) => toml_text(table_entries(*t)) matches Ok(m) && m == s@,
            Err(e) => toml_text(table_entries(*t)) matches Err(m) && m == e@,
        },
{
    match toml::to_string(t) {
        Ok(s) => Ok(s),
        Err(e) => Err(e.to_string()),
    }
}

/// What `m` holds under `k`, if anything.
pub open spec fn lookup(m: Map<Seq<char>, Node>, k: Seq<char>) -> Option<Node> {
    if m.contains_key(k) {
        Some(m[k])
    } else {
        None
    }
}

/// The result of laying `over` on top of what the base holds in the same
/// place, or `None` where a table would have to be merged into a value that
/// is no table.
///
/// A leaf replaces whatever the base holds. A table is inserted as it is
/// where the base holds nothing, and is merged key by key where the base
/// holds a table: keys of the base that `over` lacks keep their values.
pub open spec fn merge_node(base: Option<Node>, over: Node) -> Option<Node>
    decreases over,
{
    match (base, over) {
        (Some(Node::Table(b)), Node::Table(o)) => {
            if forall|k: Seq<char>| #[trigger]
                o.contains_key(k) ==> merge_node(lookup(b, k), o[k]) is Some {
                Some(
                    Node::Table(
                        Map::new(
                            |k: Seq<char>| b.contains_key(k) || o.contains_key(k),
                            |k: Seq<char>|
                                if o.contains_key(k) {
                                    merge_node(lookup(b, k), o[k]).unwrap()
                                } else {
                                    b[k]
                                },
                        ),
                    ),
                )
            } else {
                None
            }
        },
        (Some(Node::Leaf(_)), Node::Table(_)) => None,
        _ => Some(over),
    }
}

/// The result of merging the entries `over` into the entries `base`, or
/// `None` where some table of `over` meets a value of `base` that is no table.
pub open spec fn merged(base: Map<Seq<char>, Node>, over: Map<Seq<char>, Node>) -> Option<
    Map<Seq<char>, Node>,
> {
    match merge_node(Some(Node::Table(base)), Node::Table(over)) {
        Some(Node::Table(m)) => Some(m),
        _ => None,
    }
}

/// A table of the override met a value of the base that is no table.
#[derive(Debug)]
pub struct MergeError {}

/// What a merge answers where a table meets a value that is no table.
pub open spec fn merge_message() -> Seq<char> {
    "cannot merge manifests: cannot merge table and non-table values"@
}

impl MergeError {
    /// The error in words.
    pub fn message(&self) -> (m: String)
        ensures
            m@ == merge_message(),
    {
        String::from_str("cannot merge manifests: cannot merge table and non-table values")
    }
}

/// The entries of a merge in progress: the keys of `over` that are no longer
/// in `rest` are merged, the others are as in `base`.
pub open spec fn merged_so_far(
    base: Map<Seq<char>, Node>,
    over: Map<Seq<char>, Node>,
    rest: Seq<(String, toml::Value)>,
) -> Map<Seq<char>, Node> {
    Map::new(
        |k: Seq<char>| base.contains_key(k) || (over.contains_key(k) && !listed(rest, k)),
        |k: Seq<char>|
            if over.contains_key(k) && !listed(rest, k) {
                merge_node(lookup(base, k), over[k]).unwrap()
            } else {
                base[k]
            },
    )
}

/// Merges the table `from` into the table `into`, key by key and table by
/// table, and fails where a table of `from` meets a value of `into` that is
/// no table.
pub fn merge_tables(into: toml::Table, from: toml::Table) -> (r: Result<toml::Table, MergeError>)
    ensures
        match r {
            Ok(t) => merged(table_entries(into), table_entries(from)) == Some(table_entries(t)),
            Err(_) => merged(table_entries(into), table_entries(from)) is None,
        },
    decreases Node::Table(table_entries(from)),
{
    let ghost base = table_entries(into);
    let ghost over = table_entries(from);
    let mut acc = into;
    let mut entries = table_into_entries(from);
    let ghost all = entries@;
    assert(table_entries(acc) =~= merged_so_far(base, over, entries@));
    while entries.len() > 0
        invariant
            base == table_entries(into),
            over == table_entries(from),
            lists_entries(all, over),
            entries.len() <= all.len(),
            entries@ == all.take(entries.len() as int),
            table_entries(acc) == merged_so_far(base, over, entries@),
            forall|k: Seq<char>| #[trigger]
                over.contains_key(k) && !listed(entries@, k) ==> merge_node(
                    lookup(base, k),
                    over[k],
                ) is Some,
        decreases entries.len(),
    {
        let ghost before = entries@;
        let ghost n = entries.len() - 1;
        let (key, value) = entries.pop().unwrap();
        proof {
            assert(before[n] == all[n]);
            assert(entries@ =~= all.take(n));
            assert(listed(before, key@));
            assert(!listed(entries@, key@));
            assert forall|k: Seq<char>| k != key@ implies listed(before, k) == listed(entries@, k) by {
                if listed(before, k) {
                    let i = choose|i: int| 0 <= i < before.len() && (#[trigger] before[i]).0@ == k;
                    assert(entries@[i].0@ == k);
                }
                if listed(entries@, k) {
                    let i = choose|i: int| 0 <= i < entries@.len() && (#[trigger] entries@[i]).0@ == k;
                    assert(before[i].0@ == k);
                }
            }
            assert(lookup(table_entries(acc), key@) == lookup(base, key@));
        }
        let placed = match value_into_table(value) {
            Err(leaf) => leaf,
            Ok(sub) => match table_remove(&mut acc, key.as_str()) {
                None => value_from_table(sub),
                Some(existing) => match value_into_table(existing) {
                    Err(_) => {
                        assert(merge_node(lookup(base, key@), over[key@]) is None);
                        return Err(MergeError {});
                    },
                    Ok(base_sub) => match merge_tables(base_sub, sub) {
                        Err(e) => {
                            assert(merge_node(lookup(base, key@), over[key@]) is None);
                            return Err(e);
                        },
                        Ok(m) => value_from_table(m),
                    },
                },
            },
        };
        assert(Some(value_node(placed)) == merge_node(lookup(base, key@), over[key@]));
        table_insert(&mut acc, key, placed);
        assert(table_entries(acc) =~= merged_so_far(base, over, entries@));
    }
    proof {
        assert(forall|k: Seq<char>| !listed(entries@, k));
        let m = Map::new(
            |k: Seq<char>| base.contains_key(k) || over.contains_key(k),
            |k: Seq<char>|
                if over.contains_key(k) {
                    merge_node(lookup(base, k), over[k]).unwrap()
                } else {
                    base[k]
                },
        );
        assert(table_entries(acc) =~= m);
        assert(forall|k: Seq<char>| #[trigger]
            over.contains_key(k) ==> merge_node(lookup(base, k), over[k]) is Some);
    }
    Ok(acc)
}

/// A table never merges into a value that is no table: where the override
/// holds a table under a key and the base a value of another kind, the
/// merge fails.
pub proof fn lemma_table_over_value_fails(
    base: Map<Seq<char>, Node>,
    over: Map<Seq<char>, Node>,
    key: Seq<char>,
)
    requires
        over.contains_key(key),
        over[key] is Table,
        base.contains_key(key),
        base[key] is Leaf,
    ensures
        merged(base, over) is None,
{
    assert(merge_node(lookup(base, key), over[key]) is None);
}

/// What a merge that succeeds holds under each key: the keys of both sides
/// and no others; under a key that only one side has, what that side holds;
/// under a key of the override that is no table, the override's value; and
/// under a key that is a table on both sides, the merge of the two tables.
pub proof fn lemma_merged_entries(
    base: Map<Seq<char>, Node>,
    over: Map<Seq<char>, Node>,
    key: Seq<char>,
)
    requires
        merged(base, over) is Some,
    ensures
        merged(base, over)->0.contains_key(key) <==> base.contains_key(key) || over.contains_key(
            key,
        ),
        base.contains_key(key) && !over.contains_key(key) ==> merged(base, over)->0[key]
            == base[key],
        over.contains_key(key) && !base.contains_key(key) ==> merged(base, over)->0[key]
            == over[key],
        over.contains_key(key) && over[key] is Leaf ==> merged(base, over)->0[key] == over[key],
        over.contains_key(key) && base.contains_key(key) && over[key] is Table ==> base[key] is Table
            && merged(base[key]->Table_0, over[key]->Table_0) is Some && merged(base, over)->0[key]
            == Node::Table(merged(base[key]->Table_0, over[key]->Table_0)->0),
{
    if over.contains_key(key) {
        assert(merge_node(lookup(base, key), over[key]) is Some);
    }
}

/// An override without entries changes nothing.
pub proof fn lemma_empty_override(base: Map<Seq<char>, Node>)
    ensures
        merged(base, Map::empty()) == Some(base),
{
    let over = Map::<Seq<char>, Node>::empty();
    assert(merged(base, over) is Some);
    assert(merged(base, over)->0 =~= base);
}

/// Merged into a base without entries, an override comes out as it is.
pub proof fn lemma_empty_base(over: Map<Seq<char>, Node>)
    ensures
        merged(Map::empty(), over) == Some(over),
{
    let base = Map::<Seq<char>, Node>::empty();
    assert forall|k: Seq<char>| #[trigger] over.contains_key(k) implies merge_node(
        lookup(base, k),
        over[k],
    ) == Some(over[k]) by {}
    assert(merged(base, over) is Some);
    assert(merged(base, over)->0 =~= over);
}

} // verus!
