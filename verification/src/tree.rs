//! The tree of files of a volume.

use crate::text::chars_of;
use vstd::prelude::*;

verus! {

/// A page: where it lies in its volume, and its text.
#[derive(Debug, Clone)]
pub struct WikiPage {
    pub path: String,
    pub content: String,
}

/// A file or a directory of a volume; a directory comes with what it holds.
#[derive(Debug)]
pub struct FileNode {
    pub name: String,
    pub path: String,
    pub is_dir: bool,
    pub children: Option<Vec<FileNode>>,
}

/// The paths of the files at and below a node: the node's own where it is
/// no directory, then those of its children, one child after the other.
pub open spec fn file_paths(node: FileNode) -> Seq<Seq<char>>
    decreases node, 1int,
{
    let own: Seq<Seq<char>> = if node.is_dir {
        seq![]
    } else {
        seq![node.path@]
    };
    match node.children {
        Some(children) => own + paths_below(node, children@.len() as int),
        None => own,
    }
}

/// The paths of the files at and below the first `count` children of a node.
pub open spec fn paths_below(node: FileNode, count: int) -> Seq<Seq<char>>
    decreases node, 0int, count,
{
    match node.children {
        Some(children) => if 0 < count <= children@.len() {
            paths_below(node, count - 1) + file_paths(children@[count - 1])
        } else {
            seq![]
        },
        None => seq![],
    }
}

/// The texts of a list of strings.
pub open spec fn texts(list: Seq<String>) -> Seq<Seq<char>> {
    list.map_values(|s: String| s@)
}

/// Adds the paths of the files at and below `node` to `acc`.
pub fn flatten_tree(node: &FileNode, acc: &mut Vec<String>)
    ensures
        texts(final(acc)@) == texts(old(acc)@) + file_paths(*node),
    decreases node,
{
    let ghost own: Seq<Seq<char>> = if node.is_dir {
        seq![]
    } else {
        seq![node.path@]
    };
    if !node.is_dir {
        acc.push(node.path.clone());
    }
    assert(texts(acc@) =~= texts(old(acc)@) + own);
    if let Some(children) = &node.children {
        let ghost before = texts(acc@);
        let mut k: usize = 0;
        assert(texts(acc@) =~= before + paths_below(*node, 0));
        while k < children.len()
            invariant
                k <= children.len(),
                node.children == Some(*children),
                texts(acc@) == before + paths_below(*node, k as int),
            decreases children.len() - k,
        {
            flatten_tree(&children[k], acc);
            assert(texts(acc@) =~= before + paths_below(*node, k + 1));
            k += 1;
        }
        assert(texts(acc@) =~= texts(old(acc)@) + file_paths(*node));
    }
}

/// Whether a file is hidden: its name starts with a dot.
pub open spec fn hidden_name(name: Seq<char>) -> bool {
    name.len() > 0 && name[0] == '.'
}

/// Tells whether a file is hidden, so that the tree leaves it out.
pub fn is_hidden(name: &str) -> (yes: bool)
    ensures
        yes == hidden_name(name@),
{
    let chars = chars_of(name);
    chars.len() > 0 && chars[0] == '.'
}

/// Whether `left` comes before `right` in the order of texts: character by
/// character, by the characters' numbers, a text before its extensions.
pub open spec fn text_before(left: Seq<char>, right: Seq<char>) -> bool
    decreases left.len(),
{
    if right.len() == 0 {
        false
    } else if left.len() == 0 {
        true
    } else if left[0] != right[0] {
        (left[0] as int) < (right[0] as int)
    } else {
        text_before(left.drop_first(), right.drop_first())
    }
}

/// Whether `left` comes before `right` in a listing: directories before
/// files, and by name among each.
pub open spec fn node_before(left: FileNode, right: FileNode) -> bool {
    if left.is_dir != right.is_dir {
        left.is_dir
    } else {
        text_before(left.name@, right.name@)
    }
}

/// Whether a listing is in order: no node comes before one that precedes it.
pub open spec fn in_order(nodes: Seq<FileNode>) -> bool {
    forall|i: int, j: int| 0 <= i < j < nodes.len() ==> !node_before(nodes[j], nodes[i])
}

/// Of two texts at most one comes before the other, and a text that comes
/// neither before a second nor after a third stands between them.
pub proof fn lemma_text_order(a: Seq<char>, b: Seq<char>, c: Seq<char>)
    ensures
        !(text_before(a, b) && text_before(b, a)),
        !text_before(b, a) && !text_before(c, b) ==> !text_before(c, a),
    decreases a.len() + b.len() + c.len(),
{
    if a.len() > 0 && b.len() > 0 {
        let rest = if c.len() > 0 {
            c.drop_first()
        } else {
            c
        };
        lemma_text_order(a.drop_first(), b.drop_first(), rest);
        if a[0] != b[0] {
            assert(a[0] as int != b[0] as int);
        }
        if c.len() > 0 && b[0] != c[0] {
            assert(b[0] as int != c[0] as int);
        }
        if c.len() > 0 && a[0] != c[0] {
            assert(a[0] as int != c[0] as int);
        }
    }
}

/// The order of nodes is one in which a listing can be put: of two nodes at
/// most one comes before the other, and a node that comes neither before a
/// second nor after a third stands between them.
pub proof fn lemma_node_order(a: FileNode, b: FileNode, c: FileNode)
    ensures
        !(node_before(a, b) && node_before(b, a)),
        !node_before(b, a) && !node_before(c, b) ==> !node_before(c, a),
{
    lemma_text_order(a.name@, b.name@, c.name@);
}

/// Tells whether one character has the smaller number.
fn char_before(left: char, right: char) -> (yes: bool)
    ensures
        yes == ((left as int) < (right as int)),
{
    left < right
}

/// Tells whether `left` comes before `right` in the order of texts.
pub fn name_before(left: &str, right: &str) -> (yes: bool)
    ensures
        yes == text_before(left@, right@),
{
    let a = chars_of(left);
    let b = chars_of(right);
    let mut i: usize = 0;
    assert(a@.skip(0) =~= a@ && b@.skip(0) =~= b@);
    while i < a.len() && i < b.len()
        invariant
            i <= a.len(),
            i <= b.len(),
            a@ == left@,
            b@ == right@,
            text_before(a@, b@) == text_before(a@.skip(i as int), b@.skip(i as int)),
        decreases a.len() - i,
    {
        assert(a@.skip(i as int)[0] == a@[i as int] && b@.skip(i as int)[0] == b@[i as int]);
        if a[i] != b[i] {
            return char_before(a[i], b[i]);
        }
        assert(a@.skip(i as int).drop_first() =~= a@.skip(i + 1));
        assert(b@.skip(i as int).drop_first() =~= b@.skip(i + 1));
        i += 1;
    }
    i < b.len()
}

/// Tells whether `left` comes before `right` in a listing.
pub fn comes_before(left: &FileNode, right: &FileNode) -> (yes: bool)
    ensures
        yes == node_before(*left, *right),
{
    if left.is_dir != right.is_dir {
        left.is_dir
    } else {
        name_before(left.name.as_str(), right.name.as_str())
    }
}

/// A listing that is in order with one more node: the node stands behind
/// the last node that it does not come before.
pub open spec fn placed(sorted: Seq<FileNode>, node: FileNode) -> Seq<FileNode>
    decreases sorted.len(),
{
    if sorted.len() > 0 && node_before(node, sorted.last()) {
        placed(sorted.drop_last(), node).push(sorted.last())
    } else {
        sorted.push(node)
    }
}

/// A listing put in order: each node in turn is placed among those before
/// it, so that nodes of which none comes before the other keep their order.
pub open spec fn ordered(nodes: Seq<FileNode>) -> Seq<FileNode>
    decreases nodes.len(),
{
    if nodes.len() == 0 {
        seq![]
    } else {
        placed(ordered(nodes.drop_last()), nodes.last())
    }
}

/// Placing a node puts it at the place behind which every node comes after it.
proof fn lemma_placed(sorted: Seq<FileNode>, node: FileNode, at: int)
    requires
        0 <= at <= sorted.len(),
        forall|k: int| at <= k < sorted.len() ==> node_before(node, sorted[k]),
        at > 0 ==> !node_before(node, sorted[at - 1]),
    ensures
        placed(sorted, node) == sorted.insert(at, node),
    decreases sorted.len(),
{
    if at < sorted.len() {
        let shorter = sorted.drop_last();
        assert forall|k: int| at <= k < shorter.len() implies node_before(node, shorter[k]) by {
            assert(shorter[k] == sorted[k]);
        }
        if at > 0 {
            assert(shorter[at - 1] == sorted[at - 1]);
        }
        lemma_placed(shorter, node, at);
        assert(shorter.insert(at, node).push(sorted.last()) =~= sorted.insert(at, node));
    } else {
        assert(sorted.push(node) =~= sorted.insert(at, node));
    }
}

/// Puts a listing in order: directories first, then files, each by name.
/// The listing holds the same nodes as before, and nodes of which none
/// comes before the other keep their order.
pub fn sort_nodes(nodes: Vec<FileNode>) -> (sorted: Vec<FileNode>)
    ensures
        sorted@ == ordered(nodes@),
        in_order(sorted@),
        sorted@.to_multiset() == nodes@.to_multiset(),
        sorted@.len() == nodes@.len(),
{
    broadcast use vstd::multiset::group_multiset_axioms;

    let mut rest = nodes;
    let mut sorted: Vec<FileNode> = Vec::new();
    let ghost mut done: int = 0;
    proof {
        sorted@.to_multiset_ensures();
        assert(sorted@.to_multiset() =~= vstd::multiset::Multiset::empty());
        assert(sorted@.to_multiset().add(rest@.to_multiset()) =~= nodes@.to_multiset());
        assert(nodes@.take(0) =~= Seq::<FileNode>::empty());
        assert(nodes@.skip(0) =~= nodes@);
    }
    while rest.len() > 0
        invariant
            0 <= done,
            done + rest@.len() == nodes@.len(),
            rest@ == nodes@.skip(done),
            sorted@ == ordered(nodes@.take(done)),
            in_order(sorted@),
            sorted@.to_multiset().add(rest@.to_multiset()) == nodes@.to_multiset(),
        decreases rest.len(),
    {
        let ghost taken_from = rest@;
        let ghost before = sorted@;
        let node = rest.remove(0);
        let mut at: usize = sorted.len();
        while at > 0 && comes_before(&node, &sorted[at - 1])
            invariant
                at <= sorted.len(),
                in_order(sorted@),
                forall|k: int| at <= k < sorted@.len() ==> node_before(node, sorted@[k]),
            decreases at,
        {
            at -= 1;
        }
        sorted.insert(at, node);
        proof {
            assert forall|i: int, j: int| 0 <= i < j < sorted@.len() implies !node_before(
                sorted@[j],
                sorted@[i],
            ) by {
                if j == at {
                    if at > 0 {
                        lemma_node_order(before[i], before[at - 1], node);
                    }
                } else if i == at {
                    lemma_node_order(node, before[j - 1], node);
                } else {
                    let oi = if i < at { i } else { i - 1 };
                    let oj = if j < at { j } else { j - 1 };
                    assert(!node_before(before[oj], before[oi]));
                }
            }
            vstd::seq_lib::to_multiset_insert(before, at as int, node);
            vstd::seq_lib::to_multiset_remove(taken_from, 0);
            vstd::seq_lib::to_multiset_contains(taken_from, node);
            assert(taken_from[0] == node);
            assert(taken_from.contains(node));
            assert(sorted@.to_multiset().add(rest@.to_multiset()) =~= before.to_multiset().add(
                taken_from.to_multiset(),
            ));
            lemma_placed(before, node, at as int);
            assert(node == nodes@[done]);
            assert(nodes@.take(done + 1).drop_last() =~= nodes@.take(done));
            assert(nodes@.take(done + 1).last() == node);
            assert(rest@ =~= nodes@.skip(done + 1));
            done = done + 1;
        }
    }
    proof {
        rest@.to_multiset_ensures();
        assert(rest@.to_multiset() =~= vstd::multiset::Multiset::empty());
        assert(sorted@.to_multiset() =~= nodes@.to_multiset());
        vstd::seq_lib::to_multiset_len(sorted@);
        vstd::seq_lib::to_multiset_len(nodes@);
        assert(nodes@.take(done) =~= nodes@);
    }
    sorted
}

} // verus!
