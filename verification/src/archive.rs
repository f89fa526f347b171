//! The archiver: from a directory tree to the entries of its backup and to
//! the bytes of the archive that holds them.

use crate::text::joined;
use crate::zip_store::{
    archive_error, directory_mode, directory_name, file_mode, zip_add_directory, zip_encoding,
    zip_finish, zip_new, zip_open, zip_start_file, zip_write_all, zip_written, ArchiveError,
    ArchiveWriter, Compression, EntryView, MAX_FILE_BYTES,
};
use vstd::prelude::*;
use vstd::string::*;

verus! {

/// One item of a directory tree: a file with its bytes, or a directory with
/// the items inside it, in the order in which the directory lists them.
pub enum Node {
    File { name: String, data: Vec<u8> },
    Dir { name: String, children: Vec<Node> },
}

/// One entry of a backup: the path relative to the root that is archived,
/// whether it stands for a directory, the permission bits to stamp on it,
/// how its bytes are to be kept, and the file's bytes (none for a
/// directory).
pub struct ArchiveEntry {
    pub name: String,
    pub is_dir: bool,
    pub mode: u32,
    pub method: Compression,
    pub data: Vec<u8>,
}

impl View for ArchiveEntry {
    type V = EntryView;

    open spec fn view(&self) -> EntryView {
        EntryView {
            name: self.name@,
            is_dir: self.is_dir,
            mode: self.mode,
            method: self.method,
            data: self.data@,
        }
    }
}

/// The views of `entries`, in order.
pub open spec fn entry_views(entries: Seq<ArchiveEntry>) -> Seq<EntryView> {
    entries.map_values(|e: ArchiveEntry| e@)
}

/// The path of the item `name` inside the directory at `prefix`; the root
/// has the empty prefix.
pub open spec fn child_path(prefix: Seq<char>, name: Seq<char>) -> Seq<char> {
    if prefix.len() == 0 {
        name
    } else {
        prefix + seq!['/'] + name
    }
}

/// The entry that stands for `node` itself when it lies in the directory
/// at `prefix`. Its bytes are stored as they are, without compression.
pub open spec fn own_entry(node: Node, prefix: Seq<char>, mode: u32) -> EntryView {
    match node {
        Node::File { name, data } => EntryView {
            name: child_path(prefix, name@),
            is_dir: false,
            mode,
            method: Compression::Stored,
            data: data@,
        },
        Node::Dir { name, children } => EntryView {
            name: child_path(prefix, name@),
            is_dir: true,
            mode,
            method: Compression::Stored,
            data: Seq::empty(),
        },
    }
}

/// The entries of `node` and of everything below it: its own entry first.
pub open spec fn node_entries(node: Node, prefix: Seq<char>, mode: u32) -> Seq<EntryView>
    decreases node,
{
    match node {
        Node::File { name, data } => seq![own_entry(node, prefix, mode)],
        Node::Dir { name, children } => seq![own_entry(node, prefix, mode)] + tree_entries(
            children@,
            child_path(prefix, name@),
            mode,
        ),
    }
}

/// The entries of the items `nodes` of the directory at `prefix`, item by
/// item in the given order, every entry stamped with `mode`.
pub open spec fn tree_entries(nodes: Seq<Node>, prefix: Seq<char>, mode: u32) -> Seq<EntryView>
    decreases nodes,
{
    if nodes.len() == 0 {
        Seq::empty()
    } else {
        tree_entries(nodes.drop_last(), prefix, mode) + node_entries(nodes.last(), prefix, mode)
    }
}

/// The number of items in `node` and below it.
pub open spec fn node_count(node: Node) -> nat
    decreases node,
{
    match node {
        Node::File { name, data } => 1,
        Node::Dir { name, children } => 1 + tree_count(children@),
    }
}

/// The number of items in `nodes` and below them.
pub open spec fn tree_count(nodes: Seq<Node>) -> nat
    decreases nodes,
{
    if nodes.len() == 0 {
        0
    } else {
        tree_count(nodes.drop_last()) + node_count(nodes.last())
    }
}

/// `e` is the entry of `node`, which lies in the directory at `prefix`, or
/// of an item below it.
pub open spec fn node_holds(node: Node, prefix: Seq<char>, mode: u32, e: EntryView) -> bool
    decreases node,
{
    e == own_entry(node, prefix, mode) || match node {
        Node::File { name, data } => false,
        Node::Dir { name, children } => tree_holds(children@, child_path(prefix, name@), mode, e),
    }
}

/// `e` is the entry of one of `nodes`, which lie in the directory at
/// `prefix`, or of an item below one of them.
pub open spec fn tree_holds(nodes: Seq<Node>, prefix: Seq<char>, mode: u32, e: EntryView) -> bool
    decreases nodes,
{
    if nodes.len() == 0 {
        false
    } else {
        tree_holds(nodes.drop_last(), prefix, mode, e) || node_holds(nodes.last(), prefix, mode, e)
    }
}

/// `e` lies below the directory at `prefix`: its name is `prefix`, a slash,
/// and something more.
pub open spec fn below(prefix: Seq<char>, name: Seq<char>) -> bool {
    (prefix + seq!['/']).is_prefix_of(name)
}

proof fn lemma_concat_contains(a: Seq<EntryView>, b: Seq<EntryView>, e: EntryView)
    ensures
        (a + b).contains(e) <==> a.contains(e) || b.contains(e),
{
    if a.contains(e) {
        let i = choose|i: int| 0 <= i < a.len() && a[i] == e;
        assert((a + b)[i] == e);
    }
    if b.contains(e) {
        let i = choose|i: int| 0 <= i < b.len() && b[i] == e;
        assert((a + b)[a.len() + i] == e);
    }
    if (a + b).contains(e) {
        let i = choose|i: int| 0 <= i < (a + b).len() && (a + b)[i] == e;
        if i < a.len() {
            assert(a[i] == e);
        } else {
            assert(b[i - a.len()] == e);
        }
    }
}

/// Every item of the tree has exactly one entry: there are as many entries
/// as items.
pub proof fn lemma_tree_entries_len(nodes: Seq<Node>, prefix: Seq<char>, mode: u32)
    ensures
        tree_entries(nodes, prefix, mode).len() == tree_count(nodes),
    decreases nodes,
{
    if nodes.len() > 0 {
        lemma_tree_entries_len(nodes.drop_last(), prefix, mode);
        lemma_node_entries_len(nodes.last(), prefix, mode);
    }
}

/// An item and what lies below it have as many entries as they are items.
pub proof fn lemma_node_entries_len(node: Node, prefix: Seq<char>, mode: u32)
    ensures
        node_entries(node, prefix, mode).len() == node_count(node),
    decreases node,
{
    match node {
        Node::File { name, data } => {},
        Node::Dir { name, children } => {
            lemma_tree_entries_len(children@, child_path(prefix, name@), mode);
        },
    }
}

/// The entries of a tree are those of its items and no others: an entry is
/// listed exactly if it is the entry of an item of the tree, under that
/// item's path from the root and, for a file, with that file's bytes.
pub proof fn lemma_tree_entries_holds(
    nodes: Seq<Node>,
    prefix: Seq<char>,
    mode: u32,
    e: EntryView,
)
    ensures
        tree_entries(nodes, prefix, mode).contains(e) <==> tree_holds(nodes, prefix, mode, e),
    decreases nodes,
{
    if nodes.len() > 0 {
        let front = nodes.drop_last();
        let last = nodes.last();
        lemma_tree_entries_holds(front, prefix, mode, e);
        lemma_node_entries_holds(last, prefix, mode, e);
        lemma_concat_contains(
            tree_entries(front, prefix, mode),
            node_entries(last, prefix, mode),
            e,
        );
    }
}

/// The entries of an item are its own and those of the items below it.
pub proof fn lemma_node_entries_holds(node: Node, prefix: Seq<char>, mode: u32, e: EntryView)
    ensures
        node_entries(node, prefix, mode).contains(e) <==> node_holds(node, prefix, mode, e),
    decreases node,
{
    let own = seq![own_entry(node, prefix, mode)];
    assert(own[0] == own_entry(node, prefix, mode));
    match node {
        Node::File { name, data } => {},
        Node::Dir { name, children } => {
            let inner = child_path(prefix, name@);
            lemma_tree_entries_holds(children@, inner, mode, e);
            lemma_concat_contains(own, tree_entries(children@, inner, mode), e);
        },
    }
}

/// A directory with a name comes before what it holds: its own entry is
/// the first of its entries, and the entries of its items follow, all
/// below its path.
pub proof fn lemma_directory_first(node: Node, prefix: Seq<char>, mode: u32)
    requires
        node is Dir,
        node->Dir_name@.len() > 0,
    ensures
        node_entries(node, prefix, mode)[0] == own_entry(node, prefix, mode),
        node_entries(node, prefix, mode).skip(1) == tree_entries(
            node->children@,
            own_entry(node, prefix, mode).name,
            mode,
        ),
        forall|i: int|
            1 <= i < node_entries(node, prefix, mode).len() ==> below(
                own_entry(node, prefix, mode).name,
                #[trigger] node_entries(node, prefix, mode)[i].name,
            ),
{
    let inner = own_entry(node, prefix, mode).name;
    let rest = tree_entries(node->children@, inner, mode);
    assert(node_entries(node, prefix, mode).skip(1) =~= rest);
    lemma_tree_entries_below(node->children@, inner, mode);
    assert forall|i: int| 1 <= i < node_entries(node, prefix, mode).len() implies below(
        inner,
        #[trigger] node_entries(node, prefix, mode)[i].name,
    ) by {
        assert(node_entries(node, prefix, mode)[i] == rest[i - 1]);
    }
}

/// Every entry of the items of the directory at `prefix` carries the given
/// mode and has a name that continues `prefix`, after a slash unless
/// `prefix` is empty.
pub proof fn lemma_tree_entries_below(nodes: Seq<Node>, prefix: Seq<char>, mode: u32)
    ensures
        forall|i: int|
            0 <= i < tree_entries(nodes, prefix, mode).len() ==> {
                &&& (#[trigger] tree_entries(nodes, prefix, mode)[i]).mode == mode
                &&& prefix.is_prefix_of(tree_entries(nodes, prefix, mode)[i].name)
                &&& prefix.len() > 0 ==> below(prefix, tree_entries(nodes, prefix, mode)[i].name)
            },
    decreases nodes,
{
    if nodes.len() > 0 {
        let front = tree_entries(nodes.drop_last(), prefix, mode);
        let back = node_entries(nodes.last(), prefix, mode);
        lemma_tree_entries_below(nodes.drop_last(), prefix, mode);
        lemma_node_entries_below(nodes.last(), prefix, mode);
        assert forall|i: int| 0 <= i < tree_entries(nodes, prefix, mode).len() implies {
            &&& (#[trigger] tree_entries(nodes, prefix, mode)[i]).mode == mode
            &&& prefix.is_prefix_of(tree_entries(nodes, prefix, mode)[i].name)
            &&& prefix.len() > 0 ==> below(prefix, tree_entries(nodes, prefix, mode)[i].name)
        } by {
            if i < front.len() {
                assert(tree_entries(nodes, prefix, mode)[i] == front[i]);
            } else {
                assert(tree_entries(nodes, prefix, mode)[i] == back[i - front.len()]);
            }
        }
    }
}

/// The entries of an item of the directory at `prefix` stay below `prefix`.
pub proof fn lemma_node_entries_below(node: Node, prefix: Seq<char>, mode: u32)
    ensures
        forall|i: int|
            0 <= i < node_entries(node, prefix, mode).len() ==> {
                &&& (#[trigger] node_entries(node, prefix, mode)[i]).mode == mode
                &&& prefix.is_prefix_of(node_entries(node, prefix, mode)[i].name)
                &&& prefix.len() > 0 ==> below(prefix, node_entries(node, prefix, mode)[i].name)
            },
    decreases node,
{
    let own = own_entry(node, prefix, mode);
    assert(prefix.is_prefix_of(own.name) && (prefix.len() > 0 ==> below(prefix, own.name))) by {
        if prefix.len() > 0 {
            assert((prefix + seq!['/']).is_prefix_of(own.name));
            assert(prefix.is_prefix_of(prefix + seq!['/']));
        }
    }
    match node {
        Node::File { name, data } => {},
        Node::Dir { name, children } => {
            let inner = child_path(prefix, name@);
            lemma_tree_entries_below(children@, inner, mode);
            let rest = tree_entries(children@, inner, mode);
            assert forall|i: int| 0 <= i < node_entries(node, prefix, mode).len() implies {
                &&& (#[trigger] node_entries(node, prefix, mode)[i]).mode == mode
                &&& prefix.is_prefix_of(node_entries(node, prefix, mode)[i].name)
                &&& prefix.len() > 0 ==> below(prefix, node_entries(node, prefix, mode)[i].name)
            } by {
                if i > 0 {
                    assert(node_entries(node, prefix, mode)[i] == rest[i - 1]);
                    assert(inner.is_prefix_of(rest[i - 1].name));
                }
            }
        },
    }
}

/// A name that an item of a directory can have: not empty, without a
/// slash, and neither `.` nor `..`.
pub open spec fn valid_name(name: Seq<char>) -> bool {
    &&& name.len() > 0
    &&& !name.contains('/')
    &&& name != seq!['.']
    &&& name != seq!['.', '.']
}

/// The name of `node`.
pub open spec fn node_name(node: Node) -> Seq<char> {
    match node {
        Node::File { name, data } => name@,
        Node::Dir { name, children } => name@,
    }
}

/// `node` and every item below it have names that a directory can hold.
pub open spec fn valid_node(node: Node) -> bool
    decreases node,
{
    valid_name(node_name(node)) && match node {
        Node::File { name, data } => true,
        Node::Dir { name, children } => valid_tree(children@),
    }
}

/// Every item of `nodes` and below has a name that a directory can hold.
pub open spec fn valid_tree(nodes: Seq<Node>) -> bool
    decreases nodes,
{
    if nodes.len() == 0 {
        true
    } else {
        valid_tree(nodes.drop_last()) && valid_node(nodes.last())
    }
}

/// Every one of `names` is a name that a directory can hold.
pub open spec fn valid_names(names: Seq<Seq<char>>) -> bool {
    forall|i: int| 0 <= i < names.len() ==> valid_name(#[trigger] names[i])
}

/// `path` is written by the names `parts`, joined by slashes, which lead
/// from the directory reached by `parents` to something inside it: `parts`
/// begins with `parents`, goes at least one name further, and holds only
/// names that a directory can hold.
pub open spec fn leads_inside(
    parents: Seq<Seq<char>>,
    parts: Seq<Seq<char>>,
    path: Seq<char>,
) -> bool {
    &&& valid_names(parts)
    &&& parents.is_prefix_of(parts)
    &&& parts.len() > parents.len()
    &&& path == joined(parts, seq!['/'])
}

/// `path` names something inside the directory reached by `parents`. For
/// the root, which no name leads to, this says that `path` is relative and
/// descends name by name: it does not start at the filesystem root and
/// never steps up to a parent.
pub open spec fn lies_inside(parents: Seq<Seq<char>>, path: Seq<char>) -> bool {
    exists|parts: Seq<Seq<char>>| #[trigger] leads_inside(parents, parts, path)
}

/// The path of an item is the path of its directory with its name joined
/// on.
proof fn lemma_child_path(parents: Seq<Seq<char>>, name: Seq<char>)
    requires
        valid_names(parents),
        valid_name(name),
    ensures
        child_path(joined(parents, seq!['/']), name) == joined(parents.push(name), seq!['/']),
        leads_inside(parents, parents.push(name), joined(parents.push(name), seq!['/'])),
{
    let parts = parents.push(name);
    assert(parts.drop_last() =~= parents);
    assert(parts.last() == name);
    if parents.len() > 0 {
        assert(valid_name(parents.last()));
        if parents.len() > 1 {
            assert(joined(parents, seq!['/']) == joined(parents.drop_last(), seq!['/']) + seq![
                '/',
            ] + parents.last());
        }
        assert(joined(parents, seq!['/']).len() > 0);
    }
    assert forall|i: int| 0 <= i < parts.len() implies valid_name(#[trigger] parts[i]) by {
        if i < parents.len() {
            assert(parts[i] == parents[i]);
        }
    }
}

/// What lies inside a directory lies inside the directory that holds it.
proof fn lemma_lies_inside_parent(parents: Seq<Seq<char>>, name: Seq<char>, path: Seq<char>)
    requires
        lies_inside(parents.push(name), path),
    ensures
        lies_inside(parents, path),
{
    let parts = choose|parts: Seq<Seq<char>>| #[trigger]
        leads_inside(parents.push(name), parts, path);
    assert(parents.is_prefix_of(parents.push(name)));
    assert(parents.is_prefix_of(parts));
    assert(leads_inside(parents, parts, path));
}

/// In a tree of valid names no entry leaves the directory that is
/// archived: the name of every entry is made of valid names joined by
/// slashes, so it is relative to the root and never steps out of it.
pub proof fn lemma_entries_stay_inside(nodes: Seq<Node>, mode: u32)
    requires
        valid_tree(nodes),
    ensures
        forall|i: int|
            0 <= i < tree_entries(nodes, Seq::empty(), mode).len() ==> lies_inside(
                Seq::empty(),
                (#[trigger] tree_entries(nodes, Seq::empty(), mode)[i]).name,
            ),
{
    assert(joined(Seq::<Seq<char>>::empty(), seq!['/']) =~= Seq::<char>::empty());
    lemma_tree_entries_inside(nodes, Seq::empty(), mode);
}

/// The entries of the items of the directory reached by `parents` lie
/// inside that directory.
pub proof fn lemma_tree_entries_inside(nodes: Seq<Node>, parents: Seq<Seq<char>>, mode: u32)
    requires
        valid_tree(nodes),
        valid_names(parents),
    ensures
        forall|i: int|
            0 <= i < tree_entries(nodes, joined(parents, seq!['/']), mode).len() ==> lies_inside(
                parents,
                (#[trigger] tree_entries(nodes, joined(parents, seq!['/']), mode)[i]).name,
            ),
    decreases nodes,
{
    if nodes.len() > 0 {
        let prefix = joined(parents, seq!['/']);
        let front = tree_entries(nodes.drop_last(), prefix, mode);
        let back = node_entries(nodes.last(), prefix, mode);
        lemma_tree_entries_inside(nodes.drop_last(), parents, mode);
        lemma_node_entries_inside(nodes.last(), parents, mode);
        assert forall|i: int| 0 <= i < tree_entries(nodes, prefix, mode).len() implies lies_inside(
            parents,
            (#[trigger] tree_entries(nodes, prefix, mode)[i]).name,
        ) by {
            if i < front.len() {
                assert(tree_entries(nodes, prefix, mode)[i] == front[i]);
            } else {
                assert(tree_entries(nodes, prefix, mode)[i] == back[i - front.len()]);
            }
        }
    }
}

/// The entries of an item of the directory reached by `parents` lie
/// inside that directory.
pub proof fn lemma_node_entries_inside(node: Node, parents: Seq<Seq<char>>, mode: u32)
    requires
        valid_node(node),
        valid_names(parents),
    ensures
        forall|i: int|
            0 <= i < node_entries(node, joined(parents, seq!['/']), mode).len() ==> lies_inside(
                parents,
                (#[trigger] node_entries(node, joined(parents, seq!['/']), mode)[i]).name,
            ),
    decreases node,
{
    let prefix = joined(parents, seq!['/']);
    let name = node_name(node);
    let own = own_entry(node, prefix, mode);
    lemma_child_path(parents, name);
    assert(leads_inside(parents, parents.push(name), own.name));
    match node {
        Node::File { name, data } => {},
        Node::Dir { name, children } => {
            let inner = parents.push(name@);
            lemma_tree_entries_inside(children@, inner, mode);
            let rest = tree_entries(children@, joined(inner, seq!['/']), mode);
            assert forall|i: int|
                0 <= i < node_entries(node, prefix, mode).len() implies lies_inside(
                parents,
                (#[trigger] node_entries(node, prefix, mode)[i]).name,
            ) by {
                if i > 0 {
                    assert(node_entries(node, prefix, mode)[i] == rest[i - 1]);
                    lemma_lies_inside_parent(parents, name@, rest[i - 1].name);
                }
            }
        },
    }
}

/// What the zip writer records for the entry `e`: a directory under its
/// name closed by a slash, stored and without bytes, a file under its own
/// name with its method and its bytes, each with the type bit beside the
/// permission bits.
pub open spec fn stored_entry(e: EntryView) -> EntryView {
    if e.is_dir {
        EntryView {
            name: directory_name(e.name),
            is_dir: true,
            mode: directory_mode(e.mode),
            method: Compression::Stored,
            data: Seq::empty(),
        }
    } else {
        EntryView {
            name: e.name,
            is_dir: false,
            mode: file_mode(e.mode),
            method: e.method,
            data: e.data,
        }
    }
}

/// The writer can take `entries`: no file among them has more than
/// `MAX_FILE_BYTES` bytes.
pub open spec fn writable(entries: Seq<EntryView>) -> bool {
    forall|j: int|
        0 <= j < entries.len() ==> (#[trigger] entries[j]).is_dir || entries[j].data.len()
            <= MAX_FILE_BYTES
}

/// What the zip writer records for `entries`, in order.
pub open spec fn stored_entries(entries: Seq<EntryView>) -> Seq<EntryView> {
    entries.map_values(|e: EntryView| stored_entry(e))
}

/// The archive holds the tree and nothing else: it records as many
/// entries as the tree has items, and an entry is recorded exactly if it
/// is what the writer makes of the entry of an item of the tree, which
/// carries that item's path from the root and, for a file, its bytes.
pub proof fn lemma_archive_holds_tree(nodes: Seq<Node>, mode: u32, s: EntryView)
    ensures
        stored_entries(tree_entries(nodes, Seq::empty(), mode)).len() == tree_count(nodes),
        stored_entries(tree_entries(nodes, Seq::empty(), mode)).contains(s) <==> exists|
            e: EntryView,
        |
            tree_holds(nodes, Seq::empty(), mode, e) && s == #[trigger] stored_entry(e),
{
    let entries = tree_entries(nodes, Seq::empty(), mode);
    let archive = stored_entries(entries);
    lemma_tree_entries_len(nodes, Seq::empty(), mode);
    if archive.contains(s) {
        let i = choose|i: int| 0 <= i < archive.len() && archive[i] == s;
        lemma_tree_entries_holds(nodes, Seq::empty(), mode, entries[i]);
        assert(entries.contains(entries[i]));
        assert(s == stored_entry(entries[i]));
    }
    if exists|e: EntryView|
        tree_holds(nodes, Seq::empty(), mode, e) && s == #[trigger] stored_entry(e) {
        let e = choose|e: EntryView|
            tree_holds(nodes, Seq::empty(), mode, e) && s == #[trigger] stored_entry(e);
        lemma_tree_entries_holds(nodes, Seq::empty(), mode, e);
        let i = choose|i: int| 0 <= i < entries.len() && entries[i] == e;
        assert(archive[i] == s);
    }
}

/// The writer can take a tree exactly if none of its files has more than
/// `MAX_FILE_BYTES` bytes.
pub proof fn lemma_writable_tree(nodes: Seq<Node>, prefix: Seq<char>, mode: u32)
    ensures
        writable(tree_entries(nodes, prefix, mode)) <==> forall|e: EntryView|
            #[trigger] tree_holds(nodes, prefix, mode, e) ==> e.is_dir || e.data.len()
                <= MAX_FILE_BYTES,
{
    let entries = tree_entries(nodes, prefix, mode);
    if writable(entries) {
        assert forall|e: EntryView| #[trigger] tree_holds(nodes, prefix, mode, e) implies e.is_dir
            || e.data.len() <= MAX_FILE_BYTES by {
            lemma_tree_entries_holds(nodes, prefix, mode, e);
            let i = choose|i: int| 0 <= i < entries.len() && entries[i] == e;
            assert(entries[i].is_dir || entries[i].data.len() <= MAX_FILE_BYTES);
        }
    }
    if forall|e: EntryView| #[trigger]
        tree_holds(nodes, prefix, mode, e) ==> e.is_dir || e.data.len() <= MAX_FILE_BYTES {
        assert forall|j: int| 0 <= j < entries.len() implies (#[trigger] entries[j]).is_dir
            || entries[j].data.len() <= MAX_FILE_BYTES by {
            lemma_tree_entries_holds(nodes, prefix, mode, entries[j]);
            assert(entries.contains(entries[j]));
        }
    }
}

/// The entries of the first `i + 1` items are those of the first `i`
/// followed by those of item `i`.
proof fn lemma_tree_entries_step(nodes: Seq<Node>, i: int, prefix: Seq<char>, mode: u32)
    requires
        0 <= i < nodes.len(),
    ensures
        tree_entries(nodes.take(i + 1), prefix, mode) == tree_entries(nodes.take(i), prefix, mode)
            + node_entries(nodes[i], prefix, mode),
{
    assert(nodes.take(i + 1).drop_last() =~= nodes.take(i));
    assert(nodes.take(i + 1).last() == nodes[i]);
}

/// The path of the item `name` inside the directory at `prefix`.
pub fn child_path_string(prefix: &str, name: &str) -> (r: String)
    ensures
        r@ == child_path(prefix@, name@),
{
    if prefix.unicode_len() == 0 {
        String::from_str(name)
    } else {
        proof {
            reveal_strlit("/");
        }
        let mut path = String::from_str(prefix);
        path.append("/");
        path.append(name);
        assert(path@ =~= child_path(prefix@, name@));
        path
    }
}

/// Walks the items `nodes` of the directory at `prefix` and adds their
/// entries to `out`: each item's own entry, then, for a directory, the
/// entries of what it holds. Every entry is stamped with `mode`.
pub fn zip_folder_recursive(nodes: &Vec<Node>, prefix: &str, mode: u32, out: &mut Vec<ArchiveEntry>)
    ensures
        entry_views(final(out)@) == entry_views(old(out)@) + tree_entries(nodes@, prefix@, mode),
    decreases nodes,
{
    let mut i: usize = 0;
    while i < nodes.len()
        invariant
            0 <= i <= nodes.len(),
            entry_views(out@) == entry_views(old(out)@) + tree_entries(
                nodes@.take(i as int),
                prefix@,
                mode,
            ),
        decreases nodes.len() - i,
    {
        let ghost before = entry_views(out@);
        proof {
            lemma_tree_entries_step(nodes@, i as int, prefix@, mode);
        }
        match &nodes[i] {
            Node::File { name, data } => {
                let entry = ArchiveEntry {
                    name: child_path_string(prefix, name.as_str()),
                    is_dir: false,
                    mode,
                    method: Compression::Stored,
                    data: data.clone(),
                };
                out.push(entry);
                assert(entry_views(out@) =~= before + node_entries(nodes@[i as int], prefix@, mode));
            },
            Node::Dir { name, children } => {
                let path = child_path_string(prefix, name.as_str());
                let entry = ArchiveEntry {
                    name: path.clone(),
                    is_dir: true,
                    mode,
                    method: Compression::Stored,
                    data: Vec::new(),
                };
                out.push(entry);
                assert(entry_views(out@) =~= before + seq![
                    own_entry(nodes@[i as int], prefix@, mode),
                ]);
                zip_folder_recursive(children, path.as_str(), mode, out);
                assert(entry_views(out@) =~= before + node_entries(nodes@[i as int], prefix@, mode));
            },
        }
        i += 1;
    }
    proof {
        assert(nodes@.take(nodes.len() as int) =~= nodes@);
    }
}

/// The entries of the backup of the tree whose top-level items are
/// `nodes`, all stamped with `mode`, the permission bits of the root.
pub fn archive_entries(nodes: &Vec<Node>, mode: u32) -> (entries: Vec<ArchiveEntry>)
    ensures
        entry_views(entries@) == tree_entries(nodes@, Seq::empty(), mode),
{
    let root = "";
    proof {
        reveal_strlit("");
        assert(root@ =~= Seq::<char>::empty());
    }
    let mut entries: Vec<ArchiveEntry> = Vec::new();
    zip_folder_recursive(nodes, root, mode, &mut entries);
    assert(entry_views(entries@) =~= tree_entries(nodes@, Seq::empty(), mode));
    entries
}

/// Hands `entries` to the zip writer in order, a file entry followed by
/// its bytes, and stops at the first error that the writer reports. An
/// open writer takes them all exactly if no file among them is too large,
/// and is then still open. With no entries the writer is asked nothing, so
/// nothing can fail.
pub(crate) fn write_entries(w: &mut ArchiveWriter, entries: &Vec<ArchiveEntry>) -> (r: Result<
    (),
    ArchiveError,
>)
    ensures
        zip_open(*old(w)) ==> (r is Ok <==> writable(entry_views(entries@))),
        r is Ok ==> zip_written(*final(w)) == zip_written(*old(w)) + stored_entries(
            entry_views(entries@),
        ),
        r is Ok && zip_open(*old(w)) ==> zip_open(*final(w)),
        entries@.len() == 0 ==> r is Ok,
{
    let mut i: usize = 0;
    while i < entries.len()
        invariant
            0 <= i <= entries.len(),
            zip_written(*w) == zip_written(*old(w)) + stored_entries(
                entry_views(entries@.take(i as int)),
            ),
            zip_open(*old(w)) ==> zip_open(*w) && writable(entry_views(entries@.take(i as int))),
        decreases entries.len() - i,
    {
        let ghost before = zip_written(*w);
        let entry = &entries[i];
        assert(entry_views(entries@)[i as int] == entry@);
        if entry.is_dir {
            match zip_add_directory(w, entry.name.as_str(), entry.mode) {
                Ok(()) => {},
                Err(e) => {
                    return Err(archive_error(e));
                },
            }
        } else {
            match zip_start_file(w, entry.name.as_str(), entry.mode, entry.method) {
                Ok(()) => {},
                Err(e) => {
                    return Err(archive_error(e));
                },
            }
            assert(zip_written(*w).last().data.len() == 0);
            match zip_write_all(w, entry.data.as_slice()) {
                Ok(()) => {},
                Err(e) => {
                    return Err(archive_error(e));
                },
            }
        }
        proof {
            let done = entry_views(entries@.take(i as int));
            let next = entry_views(entries@.take(i as int + 1));
            assert(entries@.take(i as int + 1).drop_last() =~= entries@.take(i as int));
            assert(zip_written(*w) =~= before.push(stored_entry(entries@[i as int]@)));
            assert(stored_entries(next) =~= stored_entries(done).push(
                stored_entry(entries@[i as int]@),
            ));
            if zip_open(*old(w)) {
                assert(next[i as int] == entry@);
                assert(entry.is_dir || entry.data@.len() <= MAX_FILE_BYTES);
                assert forall|j: int| 0 <= j < next.len() implies (#[trigger] next[j]).is_dir
                    || next[j].data.len() <= MAX_FILE_BYTES by {
                    if j < i {
                        assert(next[j] == done[j]);
                    }
                }
            }
        }
        i += 1;
    }
    assert(entries@.take(entries.len() as int) =~= entries@);
    Ok(())
}

/// Builds the archive of the tree whose top-level items are `nodes`: every
/// directory and every file below the root becomes one stored entry under
/// its path relative to the root, a directory before what it holds, each
/// stamped with the permission bits `mode` of the root. The archive is
/// built exactly if no file of the tree has more than `MAX_FILE_BYTES`
/// bytes; a larger file is refused by the writer.
pub fn zip_folder(nodes: &Vec<Node>, mode: u32) -> (r: Result<Vec<u8>, ArchiveError>)
    ensures
        r is Ok <==> writable(tree_entries(nodes@, Seq::empty(), mode)),
        r is Ok ==> r->Ok_0@ == zip_encoding(
            stored_entries(tree_entries(nodes@, Seq::empty(), mode)),
        ),
{
    let entries = archive_entries(nodes, mode);
    let mut writer = zip_new();
    match write_entries(&mut writer, &entries) {
        Ok(()) => {},
        Err(e) => {
            return Err(e);
        },
    }
    assert(zip_written(writer) =~= stored_entries(tree_entries(nodes@, Seq::empty(), mode)));
    match zip_finish(writer) {
        Ok(bytes) => Ok(bytes),
        Err(e) => Err(archive_error(e)),
    }
}

} // verus!
