//! A structured document as a tree of tables, texts and flags.
//!
//! A table is a list of entries. Where a table names a key more than once,
//! the last entry with that key is the one that counts.

use vstd::prelude::*;
use crate::bindings::{close, closed, open, opened};

verus! {

/// One `key = value` line, or one sub-table, of a table.
pub struct Entry {
    pub key: String,
    pub value: Node,
}

/// A value of a structured document.
///
/// Tables, texts and flags are what the library reads and rewrites. Every
/// other kind of value (numbers, dates, arrays), and whatever lies below
/// the levels that were opened, is carried through untouched.
pub enum Node {
    Text(String),
    Flag(bool),
    Table(Vec<Entry>),
    Other(toml::Value),
}

/// The mathematical value of a [`Node`].
pub enum NodeView {
    Text(Seq<char>),
    Flag(bool),
    Table(Seq<(Seq<char>, NodeView)>),
    Other(toml::Value),
}

/// What a value of a document holds, one level deep: the entries of a table
/// are values that are not opened yet.
pub enum Opened {
    Text(String),
    Flag(bool),
    Table(Vec<(String, toml::Value)>),
    Other(toml::Value),
}

/// The mathematical value of an [`Opened`].
pub enum OpenedView {
    Text(Seq<char>),
    Flag(bool),
    Table(Seq<(Seq<char>, toml::Value)>),
    Other(toml::Value),
}

impl View for Opened {
    type V = OpenedView;

    open spec fn view(&self) -> OpenedView {
        match self {
            Opened::Text(s) => OpenedView::Text(s@),
            Opened::Flag(b) => OpenedView::Flag(*b),
            Opened::Table(entries) => OpenedView::Table(
                entries@.map_values(|e: (String, toml::Value)| (e.0@, e.1)),
            ),
            Opened::Other(v) => OpenedView::Other(*v),
        }
    }
}

/// The number of levels of tables that are opened when a document is read.
/// A table that lies deeper is carried through like a number or a date.
pub const LEVELS: usize = 64;

impl Node {
    /// The mathematical value of this node.
    pub open spec fn value(&self) -> NodeView
        decreases self,
    {
        match self {
            Node::Text(s) => NodeView::Text(s@),
            Node::Flag(b) => NodeView::Flag(*b),
            Node::Table(entries) => NodeView::Table(rows(entries@)),
            Node::Other(v) => NodeView::Other(*v),
        }
    }
}

impl View for Node {
    type V = NodeView;

    open spec fn view(&self) -> NodeView {
        self.value()
    }
}

/// The rows of a table: each entry's key with its value.
pub open spec fn rows(entries: Seq<Entry>) -> Seq<(Seq<char>, NodeView)>
    decreases entries,
{
    Seq::new(
        entries.len(),
        |i: int|
            if 0 <= i < entries.len() {
                (entries[i].key@, entries[i].value.value())
            } else {
                (Seq::empty(), NodeView::Flag(false))
            },
    )
}

/// The index of the entry that `key` names in `table`: the last one with
/// that key.
pub open spec fn index_of(table: Seq<(Seq<char>, NodeView)>, key: Seq<char>) -> Option<int>
    decreases table.len(),
{
    if table.len() == 0 {
        None
    } else if table.last().0 == key {
        Some(table.len() - 1)
    } else {
        index_of(table.drop_last(), key)
    }
}

/// The value that `key` names in `table`.
pub open spec fn lookup(table: Seq<(Seq<char>, NodeView)>, key: Seq<char>) -> Option<NodeView> {
    match index_of(table, key) {
        Some(i) => Some(table[i].1),
        None => None,
    }
}

/// The value that `key` names in `node`; `None` where `node` is no table
/// or has no such key.
pub open spec fn child(node: NodeView, key: Seq<char>) -> Option<NodeView> {
    match node {
        NodeView::Table(table) => lookup(table, key),
        _ => None,
    }
}

/// `table` with the value of row `i` replaced by `value`.
pub open spec fn with_value(
    table: Seq<(Seq<char>, NodeView)>,
    i: int,
    value: NodeView,
) -> Seq<(Seq<char>, NodeView)> {
    table.update(i, (table[i].0, value))
}

/// `table` with the value that `key` names replaced by `value`; unchanged
/// where there is no such key.
pub open spec fn with_child(
    table: Seq<(Seq<char>, NodeView)>,
    key: Seq<char>,
    value: NodeView,
) -> Seq<(Seq<char>, NodeView)> {
    match index_of(table, key) {
        Some(i) => with_value(table, i, value),
        None => table,
    }
}

/// Where [`index_of`] finds a row, it is in range, has the key, and no
/// later row has it.
pub proof fn lemma_index_of(table: Seq<(Seq<char>, NodeView)>, key: Seq<char>)
    ensures
        index_of(table, key) matches Some(i) ==> 0 <= i < table.len() && table[i].0 == key && forall|
            j: int,
        | i < j < table.len() ==> (#[trigger] table[j]).0 != key,
        index_of(table, key) is None ==> forall|j: int|
            0 <= j < table.len() ==> (#[trigger] table[j]).0 != key,
    decreases table.len(),
{
    if table.len() > 0 {
        lemma_index_of(table.drop_last(), key);
        assert forall|j: int| 0 <= j < table.len() - 1 implies table[j] == table.drop_last()[j] by {}
    }
}

/// Replacing a row's value moves no key: every key names the same row as
/// before.
pub proof fn lemma_with_value_keeps_index(
    table: Seq<(Seq<char>, NodeView)>,
    i: int,
    value: NodeView,
    key: Seq<char>,
)
    requires
        0 <= i < table.len(),
    ensures
        index_of(with_value(table, i, value), key) == index_of(table, key),
    decreases table.len(),
{
    let after = with_value(table, i, value);
    if i == table.len() - 1 {
        assert(after.drop_last() =~= table.drop_last());
    } else {
        lemma_with_value_keeps_index(table.drop_last(), i, value, key);
        assert(after.drop_last() =~= with_value(table.drop_last(), i, value));
    }
}

/// The index of the last entry of `entries` with the key `key`.
pub fn find(entries: &Vec<Entry>, key: &String) -> (r: Option<usize>)
    ensures
        r matches Some(i) ==> index_of(rows(entries@), key@) == Some(i as int) && i < entries.len(),
        r is None ==> index_of(rows(entries@), key@) is None,
{
    let ghost table = rows(entries@);
    let mut i: usize = entries.len();
    assert(table.take(i as int) =~= table);
    while i > 0
        invariant
            i <= entries.len(),
            table == rows(entries@),
            index_of(table, key@) == index_of(table.take(i as int), key@),
        decreases i,
    {
        assert(table.take(i as int).drop_last() =~= table.take(i - 1));
        assert(table.take(i as int).last() == table[i - 1]);
        i -= 1;
        if entries[i].key == *key {
            return Some(i);
        }
    }
    None
}

impl Node {
    /// The value that `key` names in this table; `None` where this is no
    /// table or has no such key.
    pub fn get(&self, key: &str) -> (r: Option<&Node>)
        ensures
            r matches Some(n) ==> child(self@, key@) == Some(n@),
            r is None ==> child(self@, key@) is None,
    {
        match self {
            Node::Table(entries) => {
                let k = key.to_owned();
                match find(entries, &k) {
                    Some(i) => Some(&entries[i].value),
                    None => None,
                }
            },
            _ => None,
        }
    }

    /// The text that this node holds, if it is a text.
    pub fn as_text(&self) -> (r: Option<&String>)
        ensures
            r matches Some(s) ==> self@ == NodeView::Text(s@),
            r is None ==> !(self@ is Text),
    {
        match self {
            Node::Text(s) => Some(s),
            _ => None,
        }
    }

    /// The flag that this node holds, if it is a flag.
    pub fn as_flag(&self) -> (r: Option<bool>)
        ensures
            r matches Some(b) ==> self@ == NodeView::Flag(b),
            r is None ==> !(self@ is Flag),
    {
        match self {
            Node::Flag(b) => Some(*b),
            _ => None,
        }
    }

    /// The entries that this node holds, if it is a table.
    pub fn as_table(&self) -> (r: Option<&Vec<Entry>>)
        ensures
            r matches Some(entries) ==> self@ == NodeView::Table(rows(entries@)),
            r is None ==> !(self@ is Table),
    {
        match self {
            Node::Table(entries) => {
                Some(entries)
            },
            _ => None,
        }
    }
}

/// The trees of the entries `entries`, opened `depth` levels deep.
pub open spec fn trees_of(entries: Seq<(Seq<char>, toml::Value)>, depth: nat) -> Seq<
    (Seq<char>, NodeView),
>
    decreases depth, 1nat,
{
    Seq::new(entries.len(), |i: int| (entries[i].0, tree_of(entries[i].1, depth)))
}

/// The tree of the outside value `v`, opened `depth` levels deep: what lies
/// deeper stays as it is.
pub open spec fn tree_of(v: toml::Value, depth: nat) -> NodeView
    decreases depth, 0nat,
{
    if depth == 0 {
        NodeView::Other(v)
    } else {
        match opened(v) {
            OpenedView::Text(s) => NodeView::Text(s),
            OpenedView::Flag(b) => NodeView::Flag(b),
            OpenedView::Table(entries) => NodeView::Table(trees_of(entries, (depth - 1) as nat)),
            OpenedView::Other(x) => NodeView::Other(x),
        }
    }
}

/// The outside values of the rows `table`.
pub open spec fn values_of(table: Seq<(Seq<char>, NodeView)>) -> Seq<(Seq<char>, toml::Value)>
    decreases table,
{
    Seq::new(
        table.len(),
        |i: int|
            if 0 <= i < table.len() {
                (table[i].0, value_of(table[i].1))
            } else {
                (Seq::empty(), closed(OpenedView::Flag(false)))
            },
    )
}

/// The outside value that the tree `n` stands for.
pub open spec fn value_of(n: NodeView) -> toml::Value
    decreases n,
{
    match n {
        NodeView::Text(s) => closed(OpenedView::Text(s)),
        NodeView::Flag(b) => closed(OpenedView::Flag(b)),
        NodeView::Table(table) => closed(OpenedView::Table(values_of(table))),
        NodeView::Other(v) => v,
    }
}

/// Converts an outside value to a tree, opening `depth` levels of tables.
pub fn lift(v: toml::Value, depth: usize) -> (n: Node)
    ensures
        n@ == tree_of(v, depth as nat),
    decreases depth,
{
    if depth == 0 {
        return Node::Other(v);
    }
    match open(v) {
        Opened::Text(s) => Node::Text(s),
        Opened::Flag(b) => Node::Flag(b),
        Opened::Table(pairs) => {
            let ghost all = pairs@;
            let mut entries: Vec<Entry> = Vec::new();
            for pair in it: pairs.into_iter()
                invariant
                    depth > 0,
                    it.seq() == all,
                    entries@.len() == it.index(),
                    forall|j: int|
                        0 <= j < it.index() ==> (#[trigger] entries@[j]).key@ == all[j].0@
                            && entries@[j].value@ == tree_of(all[j].1, (depth - 1) as nat),
            {
                let (key, value) = pair;
                let child = lift(value, depth - 1);
                entries.push(Entry { key, value: child });
            }
            proof {
                assert(rows(entries@) =~= trees_of(opened(v)->Table_0, (depth - 1) as nat));
            }
            Node::Table(entries)
        },
        Opened::Other(x) => Node::Other(x),
    }
}

/// Converts a tree back to an outside value.
pub fn lower(n: &Node) -> (v: toml::Value)
    ensures
        v == value_of(n@),
    decreases n,
{
    match n {
        Node::Text(s) => close(Opened::Text(s.clone())),
        Node::Flag(b) => close(Opened::Flag(*b)),
        Node::Table(entries) => {
            let mut pairs: Vec<(String, toml::Value)> = Vec::new();
            let mut i: usize = 0;
            while i < entries.len()
                invariant
                    i <= entries.len(),
                    *n == Node::Table(*entries),
                    pairs@.len() == i,
                    forall|j: int|
                        0 <= j < i ==> (#[trigger] pairs@[j]).0@ == entries@[j].key@ && pairs@[j].1
                            == value_of(entries@[j].value@),
                decreases entries.len() - i,
            {
                proof {
                    assert(*entries == n->Table_0);
                    assert(decreases_to!(*n => n->Table_0));
                    assert(decreases_to!(n->Table_0 => n->Table_0@));
                    assert(decreases_to!(n->Table_0@ => n->Table_0@[i as int]));
                    assert(decreases_to!(n->Table_0@[i as int] => n->Table_0@[i as int].value));
                }
                let child = lower(&entries[i].value);
                pairs.push((entries[i].key.clone(), child));
                i += 1;
            }
            proof {
                let o = Opened::Table(pairs);
                assert(o@->Table_0 =~= values_of(rows(entries@)));
            }
            close(Opened::Table(pairs))
        },
        Node::Other(x) => x.clone(),
    }
}

} // verus!
