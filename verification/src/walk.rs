//! The walk over the input tree: which path is looked at next, and which
//! files are handed to the engine.
//!
//! The walk reads no directory. At each step the caller says what stands at
//! the current path, a directory with its entries or a file, and the walk
//! answers with the file to process, if there is one.

use crate::config::{Config, ConfigModel};
use vstd::prelude::*;
use vstd::string::*;

verus! {

/// What stands at a path.
#[derive(Debug)]
pub enum Found {
    /// A directory, with the paths of its entries in the order they were listed.
    Directory { entries: Vec<String> },
    /// Anything else.
    File,
}

/// The mathematical value of a `Found`.
pub enum FoundModel {
    Directory { entries: Seq<Seq<char>> },
    File,
}

impl View for Found {
    type V = FoundModel;

    open spec fn view(&self) -> FoundModel {
        match self {
            Found::Directory { entries } => FoundModel::Directory { entries: entries.deep_view() },
            Found::File => FoundModel::File,
        }
    }
}

/// The paths that are still to be looked at, the next one first, once the
/// first of `pending` was found to be `found`: the entries of a directory
/// come before everything that was pending.
pub open spec fn pending_after(pending: Seq<Seq<char>>, found: FoundModel) -> Seq<Seq<char>> {
    if pending.len() == 0 {
        pending
    } else {
        match found {
            FoundModel::Directory { entries } => entries + pending.drop_first(),
            FoundModel::File => pending.drop_first(),
        }
    }
}

/// The file to process once the first of `pending` was found to be
/// `found`: that path, if it is a file that the configuration selects.
pub open spec fn file_to_process(
    pending: Seq<Seq<char>>,
    found: FoundModel,
    config: ConfigModel,
) -> Option<Seq<char>> {
    if pending.len() > 0 && found is File && config.selects(pending[0]) {
        Some(pending[0])
    } else {
        None
    }
}

/// A walk in progress.
#[derive(Debug)]
pub struct DirectoryWalk {
    /// The paths still to be looked at, the next one last.
    stack: Vec<String>,
}

impl View for DirectoryWalk {
    type V = Seq<Seq<char>>;

    /// The paths still to be looked at, the next one first.
    closed spec fn view(&self) -> Seq<Seq<char>> {
        self.stack.deep_view().reverse()
    }
}

impl DirectoryWalk {
    /// A walk that starts at `root`.
    pub fn new(root: String) -> (walk: Self)
        ensures
            walk@ == seq![root@],
    {
        let mut stack: Vec<String> = Vec::new();
        stack.push(root);
        assert(stack.deep_view().reverse() =~= seq![root@]);
        DirectoryWalk { stack }
    }

    /// The path to look at next; `None` when the walk is over.
    pub fn current(&self) -> (r: Option<&String>)
        ensures
            match r {
                Some(path) => self@.len() > 0 && path@ == self@[0],
                None => self@.len() == 0,
            },
    {
        let n = self.stack.len();
        if n == 0 {
            None
        } else {
            Some(&self.stack[n - 1])
        }
    }
}

/// One step of the walk: takes what was found at the current path, and
/// returns the file to process, if the path is a file that `config`
/// selects. The entries of a directory are looked at before anything that
/// was pending, in the order they were listed. A walk that is over stays so.
pub fn process_directory(walk: &mut DirectoryWalk, found: Found, config: &Config) -> (file: Option<
    String,
>)
    ensures
        final(walk)@ == pending_after(old(walk)@, found@),
        file.deep_view() == file_to_process(old(walk)@, found@, config@),
{
    let ghost before = walk.stack.deep_view();
    match walk.stack.pop() {
        None => None,
        Some(path) => {
            let ghost rest = walk.stack.deep_view();
            assert(rest =~= before.drop_last());
            assert(before.reverse()[0] == path@);
            assert(before.reverse().drop_first() =~= rest.reverse());
            match found {
                Found::File => {
                    if config.selects(path.as_str()) {
                        Some(path)
                    } else {
                        None
                    }
                },
                Found::Directory { entries } => {
                    let mut entries = entries;
                    let ghost listed = entries.deep_view();
                    assert(Seq::<Seq<char>>::empty() + rest.reverse() =~= rest.reverse());
                    assert(listed.take(listed.len() as int) =~= listed);
                    loop
                        invariant
                            entries.deep_view() + walk.stack.deep_view().reverse() == listed
                                + rest.reverse(),
                        ensures
                            walk.stack.deep_view().reverse() == listed + rest.reverse(),
                        decreases entries.len(),
                    {
                        let ghost left = entries.deep_view();
                        let ghost stacked = walk.stack.deep_view();
                        match entries.pop() {
                            None => {
                                assert(left + stacked.reverse() =~= stacked.reverse());
                                break ;
                            },
                            Some(entry) => {
                                walk.stack.push(entry);
                                assert(entries.deep_view() =~= left.drop_last());
                                assert(walk.stack.deep_view() =~= stacked.push(entry@));
                                assert(left.drop_last() + stacked.push(entry@).reverse() =~= left
                                    + stacked.reverse());
                            },
                        }
                    }
                    None
                },
            }
        },
    }
}


/// A tree of files and directories, each with its path.
pub enum TreeModel {
    File { path: Seq<char> },
    Directory { path: Seq<char>, entries: Seq<TreeModel> },
}

impl TreeModel {
    /// The path of the root of the tree.
    pub open spec fn root(self) -> Seq<char> {
        match self {
            TreeModel::File { path } => path,
            TreeModel::Directory { path, .. } => path,
        }
    }

    /// What stands at the root of the tree.
    pub open spec fn found(self) -> FoundModel {
        match self {
            TreeModel::File { .. } => FoundModel::File,
            TreeModel::Directory { entries, .. } => FoundModel::Directory { entries: roots(entries) },
        }
    }

    /// The trees that are looked at in place of this one once it was looked at.
    pub open spec fn below(self) -> Seq<TreeModel> {
        match self {
            TreeModel::File { .. } => Seq::empty(),
            TreeModel::Directory { entries, .. } => entries,
        }
    }

    /// The number of files and directories of the tree.
    pub open spec fn size(self) -> nat
        decreases self,
    {
        match self {
            TreeModel::File { .. } => 1,
            TreeModel::Directory { entries, .. } => 1 + forest_size(entries),
        }
    }

    /// The files of the tree that `config` selects, in pre-order: the files
    /// of a directory are those of its entries, in the order of the entries.
    pub open spec fn selected(self, config: ConfigModel) -> Seq<Seq<char>>
        decreases self,
    {
        match self {
            TreeModel::File { path } => if config.selects(path) {
                seq![path]
            } else {
                Seq::empty()
            },
            TreeModel::Directory { entries, .. } => selected_in(entries, config),
        }
    }
}

/// The paths of the roots of the trees.
pub open spec fn roots(forest: Seq<TreeModel>) -> Seq<Seq<char>> {
    Seq::new(forest.len(), |i: int| forest[i].root())
}

/// The number of files and directories of the trees.
pub open spec fn forest_size(forest: Seq<TreeModel>) -> nat
    decreases forest,
{
    if forest.len() == 0 {
        0
    } else {
        forest[0].size() + forest_size(forest.drop_first())
    }
}

/// The files of the trees that `config` selects: those of the first tree,
/// then those of the next, and so on.
pub open spec fn selected_in(forest: Seq<TreeModel>, config: ConfigModel) -> Seq<Seq<char>>
    decreases forest,
{
    if forest.len() == 0 {
        Seq::empty()
    } else {
        forest[0].selected(config) + selected_in(forest.drop_first(), config)
    }
}

/// The size of trees put together is the sum of their sizes.
pub proof fn lemma_forest_size_add(a: Seq<TreeModel>, b: Seq<TreeModel>)
    ensures
        forest_size(a + b) == forest_size(a) + forest_size(b),
    decreases a.len(),
{
    if a.len() == 0 {
        assert(a + b =~= b);
    } else {
        assert((a + b).drop_first() =~= a.drop_first() + b);
        lemma_forest_size_add(a.drop_first(), b);
    }
}

/// The selected files of trees put together are those of the first part,
/// then those of the second.
pub proof fn lemma_selected_in_add(a: Seq<TreeModel>, b: Seq<TreeModel>, config: ConfigModel)
    ensures
        selected_in(a + b, config) == selected_in(a, config) + selected_in(b, config),
    decreases a.len(),
{
    if a.len() == 0 {
        assert(a + b =~= b);
        assert(Seq::<Seq<char>>::empty() + selected_in(b, config) =~= selected_in(b, config));
    } else {
        assert((a + b).drop_first() =~= a.drop_first() + b);
        lemma_selected_in_add(a.drop_first(), b, config);
        assert(a[0].selected(config) + (selected_in(a.drop_first(), config) + selected_in(b, config))
            =~= (a[0].selected(config) + selected_in(a.drop_first(), config)) + selected_in(
            b,
            config,
        ));
    }
}

/// Each step of a walk leaves less to look at.
pub proof fn lemma_step_decreases(forest: Seq<TreeModel>)
    requires
        forest.len() > 0,
    ensures
        forest_size(forest[0].below() + forest.drop_first()) < forest_size(forest),
{
    let head = forest[0];
    let rest = forest.drop_first();
    lemma_forest_size_add(head.below(), rest);
    assert(forest_size(forest) == head.size() + forest_size(rest));
    match head {
        TreeModel::File { .. } => {
            assert(forest_size(head.below()) == 0);
            assert(head.size() == 1);
        },
        TreeModel::Directory { entries, .. } => {
            assert(head.size() == 1 + forest_size(entries));
        },
    }
}

/// The files that a walk hands out, from the trees that are pending until
/// nothing is pending: at each step the first pending tree is looked at
/// and replaced by what stands below it.
pub open spec fn walked(forest: Seq<TreeModel>, config: ConfigModel) -> Seq<Seq<char>>
    decreases forest_size(forest),
{
    if forest.len() == 0 {
        Seq::empty()
    } else {
        proof {
            lemma_step_decreases(forest);
        }
        let first = match file_to_process(roots(forest), forest[0].found(), config) {
            Some(path) => seq![path],
            None => Seq::empty(),
        };
        first + walked(forest[0].below() + forest.drop_first(), config)
    }
}

/// One step of a walk over trees is one step of the walk over their paths:
/// when the first pending path is found to be what the first pending tree
/// is, the paths that are pending afterwards are the roots of what stands
/// below that tree and of the other trees.
pub proof fn law_step_follows_the_tree(forest: Seq<TreeModel>)
    requires
        forest.len() > 0,
    ensures
        pending_after(roots(forest), forest[0].found()) == roots(
            forest[0].below() + forest.drop_first(),
        ),
{
    assert(pending_after(roots(forest), forest[0].found()) =~= roots(
        forest[0].below() + forest.drop_first(),
    ));
}

/// A walk hands out the selected files of the pending trees in pre-order.
pub proof fn law_walk_is_pre_order(forest: Seq<TreeModel>, config: ConfigModel)
    ensures
        walked(forest, config) == selected_in(forest, config),
    decreases forest_size(forest),
{
    if forest.len() > 0 {
        let head = forest[0];
        let rest = forest.drop_first();
        lemma_step_decreases(forest);
        law_walk_is_pre_order(head.below() + rest, config);
        lemma_selected_in_add(head.below(), rest, config);
        assert(roots(forest)[0] == head.root());
        let next = walked(head.below() + rest, config);
        let found = file_to_process(roots(forest), head.found(), config);
        let first = match found {
            Some(path) => seq![path],
            None => Seq::<Seq<char>>::empty(),
        };
        assert(walked(forest, config) == first + next);
        assert(selected_in(forest, config) == head.selected(config) + selected_in(rest, config));
        match head {
            TreeModel::File { path } => {
                assert(head.below() + rest =~= rest);
                assert(first == head.selected(config));
            },
            TreeModel::Directory { entries, .. } => {
                assert(found is None);
                assert(first + next =~= next);
                assert(head.selected(config) == selected_in(entries, config));
            },
        }
    }
}

/// A walk that starts at the root of a tree hands out the files of the
/// tree that the configuration selects, in pre-order.
pub proof fn law_walk_of_a_tree(tree: TreeModel, config: ConfigModel)
    ensures
        roots(seq![tree]) == seq![tree.root()],
        walked(seq![tree], config) == tree.selected(config),
{
    let forest = seq![tree];
    law_walk_is_pre_order(forest, config);
    assert(roots(forest) =~= seq![tree.root()]);
    assert(forest.drop_first() =~= Seq::<TreeModel>::empty());
    assert(forest[0] == tree);
    assert(selected_in(forest.drop_first(), config) =~= Seq::<Seq<char>>::empty());
    assert(selected_in(forest, config) == tree.selected(config) + selected_in(
        forest.drop_first(),
        config,
    ));
    assert(tree.selected(config) + Seq::<Seq<char>>::empty() =~= tree.selected(config));
}

} // verus!
