//! A model of one directory tree and the verified traversal over it.
//!
//! Nodes stand for what one scan can observe of a filesystem entry: a
//! regular file, a listable directory with its children, a directory whose
//! listing fails, or an entry of another kind (a symlink or special file).
//! Files and failing directories carry a label standing for their path.
//! The traversal visits every regular file exactly once, turns each
//! unlistable directory into exactly one diagnostic, and never lets either
//! stop the rest of the tree from being scanned.

use vstd::multiset::Multiset;
use vstd::prelude::*;

verus! {

/// One entry of a directory tree, as a single scan observes it.
pub enum FsNode {
    /// A regular file, labelled by its path.
    File(u64),
    /// A directory whose listing succeeds, with its child entries.
    Dir(Vec<FsNode>),
    /// A directory whose listing fails, labelled by its path.
    UnlistableDir(u64),
    /// An entry of any other kind; the scan passes it over silently.
    Other(u64),
}

/// The labels of the regular files a scan of `n` visits, in visiting order.
pub open spec fn files_of(n: FsNode) -> Seq<u64>
    decreases n,
{
    match n {
        FsNode::File(id) => seq![id],
        FsNode::Dir(children) => files_under(children@),
        FsNode::UnlistableDir(_) => Seq::empty(),
        FsNode::Other(_) => Seq::empty(),
    }
}

/// The files visited under a sequence of sibling entries, in order.
pub open spec fn files_under(s: Seq<FsNode>) -> Seq<u64>
    decreases s,
{
    if s.len() == 0 {
        Seq::empty()
    } else {
        files_under(s.drop_last()) + files_of(s[s.len() - 1])
    }
}

/// The labels of the directories whose listing fails under `n`: one
/// diagnostic each, in visiting order.
pub open spec fn diags_of(n: FsNode) -> Seq<u64>
    decreases n,
{
    match n {
        FsNode::File(_) => Seq::empty(),
        FsNode::Dir(children) => diags_under(children@),
        FsNode::UnlistableDir(id) => seq![id],
        FsNode::Other(_) => Seq::empty(),
    }
}

/// The diagnostics produced under a sequence of sibling entries, in order.
pub open spec fn diags_under(s: Seq<FsNode>) -> Seq<u64>
    decreases s,
{
    if s.len() == 0 {
        Seq::empty()
    } else {
        diags_under(s.drop_last()) + diags_of(s[s.len() - 1])
    }
}

/// How many regular files labelled `id` the tree `n` holds.
pub open spec fn file_count(n: FsNode, id: u64) -> nat
    decreases n,
{
    match n {
        FsNode::File(f) => if f == id {
            1nat
        } else {
            0nat
        },
        FsNode::Dir(children) => file_count_under(children@, id),
        FsNode::UnlistableDir(_) => 0nat,
        FsNode::Other(_) => 0nat,
    }
}

/// How many regular files labelled `id` a run of sibling entries holds.
pub open spec fn file_count_under(s: Seq<FsNode>, id: u64) -> nat
    decreases s,
{
    if s.len() == 0 {
        0nat
    } else {
        file_count_under(s.drop_last(), id) + file_count(s[s.len() - 1], id)
    }
}

/// Scan the tree depth-first: return the regular files visited, in order,
/// and one diagnostic per directory whose listing fails. A failing
/// directory never prevents any sibling entry from being scanned.
#[verifier::loop_isolation(false)]
pub fn visit_files(n: &FsNode) -> (r: (Vec<u64>, Vec<u64>))
    ensures
        r.0@ == files_of(*n),
        r.1@ == diags_of(*n),
    decreases *n,
{
    match n {
        FsNode::File(id) => {
            let mut files: Vec<u64> = Vec::new();
            files.push(*id);
            proof {
                assert(files@ =~= files_of(*n));
            }
            (files, Vec::new())
        },
        FsNode::UnlistableDir(id) => {
            let mut diags: Vec<u64> = Vec::new();
            diags.push(*id);
            proof {
                assert(diags@ =~= diags_of(*n));
            }
            (Vec::new(), diags)
        },
        FsNode::Other(_) => (Vec::new(), Vec::new()),
        FsNode::Dir(children) => {
            let mut files: Vec<u64> = Vec::new();
            let mut diags: Vec<u64> = Vec::new();
            let mut i: usize = 0;
            while i < children.len()
                invariant
                    i <= children@.len(),
                    files@ == files_under(children@.take(i as int)),
                    diags@ == diags_under(children@.take(i as int)),
                decreases children@.len() - i,
            {
                proof {
                    assert(decreases_to!(*n => children@[i as int]));
                }
                let (mut f, mut d) = visit_files(&children[i]);
                files.append(&mut f);
                diags.append(&mut d);
                proof {
                    let t = children@.take(i + 1);
                    assert(t.drop_last() =~= children@.take(i as int));
                    assert(t[t.len() - 1] == children@[i as int]);
                }
                i = i + 1;
            }
            proof {
                assert(children@.take(children@.len() as int) =~= children@);
            }
            (files, diags)
        },
    }
}

/// Splitting a run of sibling entries anywhere splits what scanning them
/// yields: files and diagnostics of the whole run are those of the left
/// part followed by those of the right part.
pub proof fn lemma_under_split(s: Seq<FsNode>, i: int)
    requires
        0 <= i <= s.len(),
    ensures
        files_under(s) == files_under(s.take(i)) + files_under(s.skip(i)),
        diags_under(s) == diags_under(s.take(i)) + diags_under(s.skip(i)),
    decreases s.len(),
{
    if i == s.len() {
        assert(s.take(i) =~= s);
        assert(s.skip(i) =~= Seq::<FsNode>::empty());
        assert(files_under(s) + files_under(Seq::<FsNode>::empty()) =~= files_under(s));
        assert(diags_under(s) + diags_under(Seq::<FsNode>::empty()) =~= diags_under(s));
    } else {
        let dl = s.drop_last();
        lemma_under_split(dl, i);
        assert(dl.take(i) =~= s.take(i));
        assert(s.skip(i).drop_last() =~= dl.skip(i));
        assert(s.skip(i)[s.skip(i).len() - 1] == s[s.len() - 1]);
        assert(files_under(s) =~= files_under(s.take(i)) + files_under(s.skip(i)));
        assert(diags_under(s) =~= diags_under(s.take(i)) + diags_under(s.skip(i)));
    }
}

/// Concatenating two runs of sibling entries concatenates what scanning
/// them yields.
pub proof fn lemma_under_concat(a: Seq<FsNode>, b: Seq<FsNode>)
    ensures
        files_under(a + b) == files_under(a) + files_under(b),
        diags_under(a + b) == diags_under(a) + diags_under(b),
{
    lemma_under_split(a + b, a.len() as int);
    assert((a + b).take(a.len() as int) =~= a);
    assert((a + b).skip(a.len() as int) =~= b);
}

/// One unlistable sibling never hides the others: a directory entry whose
/// listing fails contributes exactly one diagnostic and no files, and every
/// file under the sibling entries on either side of it is still visited.
pub proof fn lemma_unlistable_sibling_isolated(s: Seq<FsNode>, i: int, id: u64)
    requires
        0 <= i < s.len(),
        s[i] == FsNode::UnlistableDir(id),
    ensures
        files_under(s) == files_under(s.take(i)) + files_under(s.skip(i + 1)),
        diags_under(s) == diags_under(s.take(i)) + seq![id] + diags_under(s.skip(i + 1)),
{
    lemma_under_split(s, i);
    lemma_under_split(s.skip(i), 1);
    assert(s.skip(i).take(1) =~= seq![s[i]]);
    assert(s.skip(i).skip(1) =~= s.skip(i + 1));
    assert(seq![s[i]].drop_last() =~= Seq::<FsNode>::empty());
    assert(seq![s[i]][0] == s[i]);
    assert(files_under(Seq::<FsNode>::empty()) =~= Seq::<u64>::empty());
    assert(diags_under(Seq::<FsNode>::empty()) =~= Seq::<u64>::empty());
    assert(files_of(s[i]) =~= Seq::<u64>::empty());
    assert(diags_of(s[i]) =~= seq![id]);
    assert(files_under(seq![s[i]]) =~= Seq::<u64>::empty());
    assert(diags_under(seq![s[i]]) =~= seq![id]);
    assert(files_under(s) =~= files_under(s.take(i)) + files_under(s.skip(i + 1)));
    assert(diags_under(s) =~= diags_under(s.take(i)) + seq![id] + diags_under(s.skip(i + 1)));
}

/// The number of entries a tree holds, counting every nested entry.
pub open spec fn size_of(n: FsNode) -> nat
    decreases n,
{
    match n {
        FsNode::Dir(children) => 1 + size_under(children@),
        _ => 1,
    }
}

/// The number of entries a run of sibling entries holds, nested included.
pub open spec fn size_under(s: Seq<FsNode>) -> nat
    decreases s,
{
    if s.len() == 0 {
        0
    } else {
        size_under(s.drop_last()) + size_of(s[s.len() - 1])
    }
}

proof fn lemma_size_under_concat(a: Seq<FsNode>, b: Seq<FsNode>)
    ensures
        size_under(a + b) == size_under(a) + size_under(b),
    decreases b.len(),
{
    if b.len() == 0 {
        assert(a + b =~= a);
    } else {
        lemma_size_under_concat(a, b.drop_last());
        assert((a + b).drop_last() =~= a + b.drop_last());
        assert((a + b)[(a + b).len() - 1] == b[b.len() - 1]);
    }
}

/// The multiset of an empty run of labels is empty.
proof fn lemma_empty_labels_multiset()
    ensures
        Seq::<u64>::empty().to_multiset() == Multiset::<u64>::empty(),
{
    broadcast use vstd::seq_lib::group_to_multiset_ensures;
    broadcast use vstd::multiset::group_multiset_axioms;

    vstd::seq_lib::to_multiset_len(Seq::<u64>::empty());
    vstd::multiset::lemma_multiset_empty_len(Seq::<u64>::empty().to_multiset());
}

/// Scan the tree with an explicit worklist instead of recursion, as a
/// caller wary of deep nesting may prefer. The files visited and the
/// diagnostics produced are exactly those of the recursive scan, counted
/// with multiplicity; only the (unspecified) visiting order differs.
pub fn visit_files_worklist(root: FsNode) -> (r: (Vec<u64>, Vec<u64>))
    ensures
        r.0@.to_multiset() == files_of(root).to_multiset(),
        r.1@.to_multiset() == diags_of(root).to_multiset(),
{
    broadcast use vstd::seq_lib::group_to_multiset_ensures;
    broadcast use vstd::multiset::group_multiset_axioms;

    let ghost root_files = files_of(root).to_multiset();
    let ghost root_diags = diags_of(root).to_multiset();
    let mut stack: Vec<FsNode> = Vec::new();
    let mut files: Vec<u64> = Vec::new();
    let mut diags: Vec<u64> = Vec::new();
    stack.push(root);
    proof {
        lemma_empty_labels_multiset();
        assert(stack@.drop_last() =~= Seq::<FsNode>::empty());
        assert(files_under(Seq::<FsNode>::empty()) == Seq::<u64>::empty());
        assert(diags_under(Seq::<FsNode>::empty()) == Seq::<u64>::empty());
        assert(stack@[0] == root);
        assert(files_under(stack@) =~= files_of(root));
        assert(diags_under(stack@) =~= diags_of(root));
        assert(files@.to_multiset().add(files_under(stack@).to_multiset()) =~= root_files);
        assert(diags@.to_multiset().add(diags_under(stack@).to_multiset()) =~= root_diags);
    }
    loop
        invariant
            files@.to_multiset().add(files_under(stack@).to_multiset()) == root_files,
            diags@.to_multiset().add(diags_under(stack@).to_multiset()) == root_diags,
        ensures
            stack@.len() == 0,
        decreases size_under(stack@),
    {
        let ghost prev = stack@;
        let ghost files0 = files@;
        let ghost diags0 = diags@;
        let n = match stack.pop() {
            Some(n) => n,
            None => {
                break ;
            },
        };
        let ghost popped = n;
        let ghost rest = stack@;
        proof {
            assert(rest =~= prev.drop_last());
            assert(popped == prev[prev.len() - 1]);
            assert(files_under(prev) == files_under(rest) + files_of(popped));
            assert(diags_under(prev) == diags_under(rest) + diags_of(popped));
            assert(size_under(prev) == size_under(rest) + size_of(popped));
            vstd::seq_lib::lemma_multiset_commutative(files_under(rest), files_of(popped));
            vstd::seq_lib::lemma_multiset_commutative(diags_under(rest), diags_of(popped));
            lemma_empty_labels_multiset();
        }
        match n {
            FsNode::File(id) => {
                files.push(id);
                proof {
                    vstd::seq_lib::to_multiset_build(files0, id);
                    vstd::seq_lib::to_multiset_build(Seq::<u64>::empty(), id);
                    assert(files_of(popped) =~= Seq::<u64>::empty().push(id));
                    assert(files@.to_multiset().add(files_under(stack@).to_multiset())
                        =~= root_files);
                    assert(diags@.to_multiset().add(diags_under(stack@).to_multiset())
                        =~= root_diags);
                }
            },
            FsNode::UnlistableDir(id) => {
                diags.push(id);
                proof {
                    vstd::seq_lib::to_multiset_build(diags0, id);
                    vstd::seq_lib::to_multiset_build(Seq::<u64>::empty(), id);
                    assert(diags_of(popped) =~= Seq::<u64>::empty().push(id));
                    assert(files@.to_multiset().add(files_under(stack@).to_multiset())
                        =~= root_files);
                    assert(diags@.to_multiset().add(diags_under(stack@).to_multiset())
                        =~= root_diags);
                }
            },
            FsNode::Other(_) => {
                proof {
                    assert(files@.to_multiset().add(files_under(stack@).to_multiset())
                        =~= root_files);
                    assert(diags@.to_multiset().add(diags_under(stack@).to_multiset())
                        =~= root_diags);
                }
            },
            FsNode::Dir(mut children) => {
                let ghost ch = children@;
                proof {
                    lemma_under_concat(rest, ch);
                    lemma_size_under_concat(rest, ch);
                    vstd::seq_lib::lemma_multiset_commutative(files_under(rest), files_under(ch));
                    vstd::seq_lib::lemma_multiset_commutative(diags_under(rest), diags_under(ch));
                    assert(files_of(popped) == files_under(ch));
                    assert(diags_of(popped) == diags_under(ch));
                    assert(size_of(popped) == 1 + size_under(ch));
                }
                stack.append(&mut children);
                proof {
                    assert(stack@ =~= rest + ch);
                    assert(files@.to_multiset().add(files_under(stack@).to_multiset())
                        =~= root_files);
                    assert(diags@.to_multiset().add(diags_under(stack@).to_multiset())
                        =~= root_diags);
                }
            },
        }
    }
    proof {
        lemma_empty_labels_multiset();
        assert(files_under(stack@) == Seq::<u64>::empty());
        assert(diags_under(stack@) == Seq::<u64>::empty());
        assert(files@.to_multiset() =~= root_files);
        assert(diags@.to_multiset() =~= root_diags);
    }
    (files, diags)
}

/// Every regular file in the tree is visited exactly once, whatever the
/// nesting depth: for each label, the visited files carry it exactly as
/// often as the tree holds a file with it.
pub proof fn lemma_every_file_once(n: FsNode, id: u64)
    ensures
        files_of(n).to_multiset().count(id) == file_count(n, id),
    decreases n,
{
    broadcast use vstd::seq_lib::group_to_multiset_ensures;
    broadcast use vstd::multiset::group_multiset_axioms;

    match n {
        FsNode::File(f) => {
            assert(seq![f] =~= Seq::<u64>::empty().push(f));
            assert(Seq::<u64>::empty().push(f).to_multiset() =~= Seq::<
                u64,
            >::empty().to_multiset().insert(f));
            assert(Seq::<u64>::empty().to_multiset().count(id) == 0);
        },
        FsNode::Dir(children) => {
            lemma_every_file_once_under(children@, id);
        },
        FsNode::UnlistableDir(_) => {
            assert(Seq::<u64>::empty().to_multiset().count(id) == 0);
        },
        FsNode::Other(_) => {
            assert(Seq::<u64>::empty().to_multiset().count(id) == 0);
        },
    }
}

/// As `lemma_every_file_once`, over a run of sibling entries.
pub proof fn lemma_every_file_once_under(s: Seq<FsNode>, id: u64)
    ensures
        files_under(s).to_multiset().count(id) == file_count_under(s, id),
    decreases s,
{
    broadcast use vstd::seq_lib::group_to_multiset_ensures;
    broadcast use vstd::multiset::group_multiset_axioms;

    if s.len() == 0 {
        assert(Seq::<u64>::empty().to_multiset().count(id) == 0);
    } else {
        lemma_every_file_once_under(s.drop_last(), id);
        lemma_every_file_once(s[s.len() - 1], id);
        vstd::seq_lib::lemma_multiset_commutative(
            files_under(s.drop_last()),
            files_of(s[s.len() - 1]),
        );
    }
}

} // verus!
