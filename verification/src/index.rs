//! The persisted index record: per package scope/name, a table from
//! version+target keys to published metadata, including a documentation
//! tree searched by an explicit worklist with a pinned order.

use vstd::prelude::*;
use crate::manifest::DependencyType;
use crate::specifiers::DependencySpecifiers;
use crate::strutil::str_eq;
use crate::target::Target;
use crate::version::VersionId;

verus! {

/// A node of the documentation tree: a page with a content-addressed
/// hash, or a category with an ordered list of children.
#[derive(Debug)]
pub enum DocEntryKind {
    /// A single page: its name and the hash its content is stored under.
    Page { name: String, hash: String },
    /// A named category holding child nodes in order.
    Category { name: String, items: Vec<DocEntryKind> },
}

/// The pinned search order over a forest of documentation nodes: the
/// later nodes of the list are examined first, and a category's whole
/// subtree is examined before any node that stands earlier in its list.
/// This mirrors a worklist kept as a stack, filled in list order.
pub open spec fn doc_find_list(nodes: Seq<DocEntryKind>, name: Seq<char>) -> Option<Seq<char>>
    decreases nodes,
{
    if nodes.len() == 0 {
        None
    } else {
        match doc_find_node(nodes.last(), name) {
            Some(h) => Some(h),
            None => doc_find_list(nodes.drop_last(), name),
        }
    }
}

/// The search of a single node under the pinned order.
pub open spec fn doc_find_node(node: DocEntryKind, name: Seq<char>) -> Option<Seq<char>>
    decreases node,
{
    match node {
        DocEntryKind::Page { name: page_name, hash } => if page_name@ == name {
            Some(hash@)
        } else {
            None
        },
        DocEntryKind::Category { items, .. } => doc_find_list(items@, name),
    }
}

/// The number of nodes of one tree.
pub open spec fn doc_node_size(node: DocEntryKind) -> nat
    decreases node,
{
    match node {
        DocEntryKind::Page { .. } => 1,
        DocEntryKind::Category { items, .. } => 1 + doc_list_size(items@),
    }
}

/// The number of nodes of a forest.
pub open spec fn doc_list_size(nodes: Seq<DocEntryKind>) -> nat
    decreases nodes,
{
    if nodes.len() == 0 {
        0
    } else {
        doc_list_size(nodes.drop_last()) + doc_node_size(nodes.last())
    }
}

/// Sizes add up over concatenation.
proof fn lemma_doc_list_size_concat(a: Seq<DocEntryKind>, b: Seq<DocEntryKind>)
    ensures
        doc_list_size(a + b) == doc_list_size(a) + doc_list_size(b),
    decreases b.len(),
{
    if b.len() == 0 {
        assert(a + b =~= a);
    } else {
        lemma_doc_list_size_concat(a, b.drop_last());
        assert((a + b).drop_last() =~= a + b.drop_last());
        assert((a + b).last() == b.last());
    }
}

/// Search distributes over concatenation: the back part is examined
/// first, the front part only when the back part held no match.
proof fn lemma_doc_find_concat(a: Seq<DocEntryKind>, b: Seq<DocEntryKind>, name: Seq<char>)
    ensures
        doc_find_list(a + b, name) == (match doc_find_list(b, name) {
            Some(h) => Some(h),
            None => doc_find_list(a, name),
        }),
    decreases b.len(),
{
    if b.len() == 0 {
        assert(a + b =~= a);
    } else {
        lemma_doc_find_concat(a, b.drop_last(), name);
        assert((a + b).drop_last() =~= a + b.drop_last());
        assert((a + b).last() == b.last());
    }
}

/// The nodes a stack of references stands for.
pub open spec fn nodes_of(stack: Seq<&DocEntryKind>) -> Seq<DocEntryKind> {
    stack.map_values(|n: &DocEntryKind| *n)
}

/// Searches the documentation forest for a page of the given name, by
/// an explicit worklist kept as a stack. The order is part of the
/// contract: it is exactly `doc_find_list`, so of several pages with
/// the same name the one found is pinned, not left to chance.
pub fn find_doc(docs: &Vec<DocEntryKind>, doc_name: &str) -> (r: Option<String>)
    ensures
        match r {
            Some(h) => doc_find_list(docs@, doc_name@) == Some(h@),
            None => doc_find_list(docs@, doc_name@) is None,
        },
{
    let mut stack: Vec<&DocEntryKind> = Vec::new();
    let mut i: usize = 0;
    while i < docs.len()
        invariant
            i <= docs@.len(),
            stack@.len() == i,
            nodes_of(stack@) =~= docs@.take(i as int),
        decreases docs@.len() - i,
    {
        stack.push(&docs[i]);
        proof {
            assert(nodes_of(stack@) =~= docs@.take(i + 1));
        }
        i += 1;
    }
    proof {
        assert(docs@.take(docs@.len() as int) =~= docs@);
    }
    loop
        invariant
            doc_find_list(nodes_of(stack@), doc_name@) == doc_find_list(docs@, doc_name@),
        decreases doc_list_size(nodes_of(stack@)),
    {
        let ghost full = nodes_of(stack@);
        let node = match stack.pop() {
            Some(n) => n,
            None => {
                proof {
                    assert(full.len() == 0);
                }
                return None;
            },
        };
        proof {
            assert(full.len() == stack@.len() + 1);
            assert(full.last() == *node);
            assert(full.drop_last() =~= nodes_of(stack@));
        }
        match node {
            DocEntryKind::Page { name, hash } => {
                if str_eq(name.as_str(), doc_name) {
                    proof {
                        assert(doc_find_node(*node, doc_name@) == Some(hash@));
                        assert(doc_find_list(full, doc_name@) == Some(hash@));
                    }
                    return Some(hash.clone());
                }
                proof {
                    assert(doc_find_node(*node, doc_name@) is None);
                    assert(doc_find_list(nodes_of(stack@), doc_name@) == doc_find_list(
                        full,
                        doc_name@,
                    ));
                    assert(doc_list_size(full) == doc_list_size(nodes_of(stack@))
                        + doc_node_size(*node));
                    assert(doc_node_size(*node) == 1);
                }
            },
            DocEntryKind::Category { items, .. } => {
                proof {
                    assert(doc_find_node(*node, doc_name@) == doc_find_list(items@, doc_name@));
                    assert(doc_node_size(*node) == 1 + doc_list_size(items@));
                }
                let ghost before = nodes_of(stack@);
                let mut j: usize = 0;
                while j < items.len()
                    invariant
                        j <= items@.len(),
                        stack@.len() == before.len() + j,
                        before == full.drop_last(),
                        nodes_of(stack@) =~= before + items@.take(j as int),
                    decreases items@.len() - j,
                {
                    let e = &items[j];
                    let ghost snap = stack@;
                    stack.push(e);
                    proof {
                        assert(stack@ == snap.push(e));
                        assert(*e == items@[j as int]);
                        assert forall|k: int|
                            0 <= k < stack@.len() implies nodes_of(stack@)[k] == (before
                            + items@.take(j + 1))[k] by {
                            if k < snap.len() {
                                assert(stack@[k] == snap[k]);
                                assert(nodes_of(snap)[k] == (before + items@.take(j as int))[k]);
                            } else {
                                assert(stack@[k] == e);
                            }
                        }
                        assert(nodes_of(stack@) =~= before + items@.take(j + 1));
                    }
                    j += 1;
                }
                proof {
                    assert(items@.take(items@.len() as int) =~= items@);
                    assert(nodes_of(stack@) =~= before + items@);
                    lemma_doc_find_concat(before, items@, doc_name@);
                    lemma_doc_list_size_concat(before, items@);
                    assert(doc_list_size(full) == doc_list_size(before) + doc_node_size(
                        full.last(),
                    ));
                    assert(doc_list_size(nodes_of(stack@)) == doc_list_size(before)
                        + doc_list_size(items@));
                    assert(doc_list_size(nodes_of(stack@)) < doc_list_size(full));
                }
            },
        }
    }
}

/// One published version+target of a package: its target description,
/// optional metadata texts, the moment of publishing, its dependency
/// table and its documentation tree.
#[derive(Debug)]
pub struct IndexFileEntry {
    pub target: Target,
    pub description: Option<String>,
    pub license: Option<String>,
    pub authors: Vec<String>,
    pub repository: Option<String>,
    /// Seconds since the Unix epoch.
    pub published_at: i64,
    pub dependencies: Vec<(String, (DependencySpecifiers, DependencyType))>,
    pub docs: Vec<DocEntryKind>,
}

/// The index record of one package: all its published entries, keyed by
/// version and target kind. Insertion order carries no meaning.
#[derive(Debug)]
pub struct IndexFile {
    pub entries: Vec<(VersionId, IndexFileEntry)>,
}

impl IndexFile {
    /// Well-formedness of a loaded record: every key's target kind is
    /// the kind of the entry's target, and no two entries share a key.
    pub open spec fn wf(self) -> bool {
        &&& forall|i: int|
            0 <= i < self.entries@.len() ==> (#[trigger] self.entries@[i]).0.target
                == self.entries@[i].1.target.spec_kind()
        &&& forall|i: int, j: int|
            0 <= i < j < self.entries@.len() ==> !(self.entries@[i].0.version.sem()
                == self.entries@[j].0.version.sem() && #[trigger] self.entries@[i].0.target
                == #[trigger] self.entries@[j].0.target)
    }
}

} // verus!
