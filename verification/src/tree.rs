//! A model of the target directory, and what a run does to it.
//!
//! The model knows what stands directly in the target directory and which
//! files stand in its folders. A run is the steps of a plan, one after the
//! other; it succeeds if each move finds its file in place and the folder of
//! its category there or free to be created.

use vstd::prelude::*;
use crate::name::{extension_of, Platform};
use crate::plan::{category_of, join, move_step, plan_of, step_for, StepView};
use crate::scan::{scanned, taken, Entry, File, Policy};
use crate::table::fallback_category;
use crate::transfer::{MoveState, Reply};

verus! {

/// What kind of thing a name in the target directory leads to.
pub struct Kind {
    pub is_dir: bool,
    pub is_symlink: bool,
}

/// The target directory and one level below it.
pub struct Tree {
    /// What stands directly in the target directory, by name.
    pub top: Map<Seq<char>, Kind>,
    /// The files in the folders of the target directory, each as the name of
    /// the folder and the name of the file.
    pub inner: Set<(Seq<char>, Seq<char>)>,
}

impl Tree {
    /// A file, not a folder, stands under `name` in the target directory.
    pub open spec fn has_file(self, name: Seq<char>) -> bool {
        self.top.contains_key(name) && !self.top[name].is_dir
    }

    /// The folder `folder` stands in the target directory.
    pub open spec fn has_folder(self, folder: Seq<char>) -> bool {
        self.top.contains_key(folder) && self.top[folder].is_dir
    }

    /// The name `folder` is free in the target directory or leads to a
    /// folder.
    pub open spec fn admits_folder(self, folder: Seq<char>) -> bool {
        self.top.contains_key(folder) ==> self.top[folder].is_dir
    }

    /// `entry` is what stands under its name in the target directory.
    pub open spec fn holds(self, entry: Entry) -> bool {
        &&& self.top.contains_key(entry.name)
        &&& self.top[entry.name] == Kind { is_dir: entry.is_dir, is_symlink: entry.is_symlink }
    }

    /// `entries` is a reading of the target directory: each entry stands in
    /// it, and each name in it is read.
    pub open spec fn read_as(self, entries: Seq<Entry>) -> bool {
        &&& forall|i: int| 0 <= i < entries.len() ==> self.holds(#[trigger] entries[i])
        &&& forall|name: Seq<char>| #[trigger]
            self.top.contains_key(name) ==> exists|i: int| 0 <= i < entries.len() && (#[trigger] entries[i]).name == name
    }

    /// The tree after the file `name` went into the folder `category`, which
    /// was created if its name was free.
    pub open spec fn moved(self, name: Seq<char>, category: Seq<char>) -> Tree {
        let folder = if self.top.contains_key(category) {
            self.top[category]
        } else {
            Kind { is_dir: true, is_symlink: false }
        };
        Tree {
            top: self.top.remove(name).insert(category, folder),
            inner: self.inner.insert((category, name)),
        }
    }

    /// The tree after `step`, if the step succeeds.
    pub open spec fn apply(self, step: StepView) -> Option<Tree> {
        match step {
            StepView::Skip { .. } => Some(self),
            StepView::Move { name, category, .. } => if self.has_file(name) && self.admits_folder(category) {
                Some(self.moved(name, category))
            } else {
                None
            },
        }
    }

    /// The tree after the steps of `plan`, if all of them succeed.
    pub open spec fn run(self, plan: Seq<StepView>) -> Option<Tree>
        decreases plan.len(),
    {
        if plan.len() == 0 {
            Some(self)
        } else {
            match self.run(plan.drop_last()) {
                Some(tree) => tree.apply(plan.last()),
                None => None,
            }
        }
    }

    /// How the directory answers when the caller does what `state` asks for
    /// in the move of the file `name` into the folder `category`.
    pub open spec fn answer(self, state: MoveState, name: Seq<char>, category: Seq<char>) -> Reply {
        match state {
            MoveState::CheckFolder => if self.has_folder(category) {
                Reply::Success
            } else {
                Reply::Failure
            },
            MoveState::CreateFolder => if self.top.contains_key(category) {
                Reply::AlreadyExists
            } else {
                Reply::Success
            },
            MoveState::Rename => if self.has_file(name) && self.has_folder(category) {
                Reply::Success
            } else {
                Reply::Failure
            },
            _ => Reply::Success,
        }
    }

    /// The tree after the caller did what `state` asks for.
    pub open spec fn acted(self, state: MoveState, name: Seq<char>, category: Seq<char>) -> Tree {
        if state is CreateFolder && !self.top.contains_key(category) {
            Tree { top: self.top.insert(category, Kind { is_dir: true, is_symlink: false }), inner: self.inner }
        } else if state is Rename && self.has_file(name) && self.has_folder(category) {
            Tree { top: self.top.remove(name), inner: self.inner.insert((category, name)) }
        } else {
            self
        }
    }

    /// The state and the tree after one round: the caller does what `state`
    /// asks for, and the state follows the answer.
    pub open spec fn round(self, state: MoveState, name: Seq<char>, category: Seq<char>) -> (MoveState, Tree) {
        (state.after(self.answer(state, name, category)), self.acted(state, name, category))
    }

    /// The state and the tree after the three rounds of a move.
    pub open spec fn carried(self, name: Seq<char>, category: Seq<char>) -> (MoveState, Tree) {
        let one = self.round(MoveState::CheckFolder, name, category);
        let two = one.1.round(one.0, name, category);
        two.1.round(two.0, name, category)
    }
}

/// Carried out round by round, a move ends well just where the step
/// succeeds, and then leaves the tree that the step gives.
pub proof fn rounds_carry_out_move(tree: Tree, step: StepView)
    requires
        step is Move,
    ensures
        tree.carried(step->name, step->category).0.is_final(),
        tree.carried(step->name, step->category).0 is Moved <==> tree.apply(step) is Some,
        tree.apply(step) is Some ==> tree.carried(step->name, step->category).1 == tree.apply(step).unwrap(),
{
    let name = step->name;
    let category = step->category;
    if tree.apply(step) is Some {
        let end = tree.carried(name, category).1;
        let want = tree.moved(name, category);
        assert(end.top =~= want.top);
        assert(end.inner =~= want.inner);
    }
}

/// After a run that succeeds, a file that one of its steps moved stands in
/// the folder of its category, that folder stands in the target directory,
/// and no file stands under the name of the moved file there.
pub proof fn lemma_moved_file(tree: Tree, plan: Seq<StepView>, i: int)
    requires
        0 <= i < plan.len(),
        plan[i] is Move,
        tree.run(plan) is Some,
    ensures
        tree.run(plan).unwrap().inner.contains((plan[i]->category, plan[i]->name)),
        tree.run(plan).unwrap().has_folder(plan[i]->category),
        !tree.run(plan).unwrap().has_file(plan[i]->name),
    decreases plan.len(),
{
    let front = plan.drop_last();
    if i < plan.len() - 1 {
        assert(front[i] == plan[i]);
        lemma_moved_file(tree, front, i);
    }
}

/// A run that succeeds leaves in place whatever stands in the target
/// directory under a name that none of its steps moves.
pub proof fn lemma_unmoved_file(tree: Tree, plan: Seq<StepView>, name: Seq<char>)
    requires
        tree.top.contains_key(name),
        forall|i: int| 0 <= i < plan.len() && (#[trigger] plan[i]) is Move ==> plan[i]->name != name,
        tree.run(plan) is Some,
    ensures
        tree.run(plan).unwrap().top.contains_key(name),
        tree.run(plan).unwrap().top[name] == tree.top[name],
    decreases plan.len(),
{
    if plan.len() > 0 {
        let front = plan.drop_last();
        assert forall|i: int| 0 <= i < front.len() && (#[trigger] front[i]) is Move implies front[i]->name
            != name by {
            assert(front[i] == plan[i]);
        }
        lemma_unmoved_file(tree, front, name);
        assert(plan[plan.len() - 1] == plan.last());
    }
}

/// A run adds no file to the target directory: a file that stands there
/// after the run stood there before, and is of the same kind.
pub proof fn lemma_no_new_file(tree: Tree, plan: Seq<StepView>, name: Seq<char>)
    requires
        tree.run(plan) is Some,
        tree.run(plan).unwrap().has_file(name),
    ensures
        tree.has_file(name),
        tree.top[name] == tree.run(plan).unwrap().top[name],
    decreases plan.len(),
{
    if plan.len() > 0 {
        lemma_no_new_file(tree, plan.drop_last(), name);
    }
}

/// The scan takes each entry that the policy admits: its file is among the
/// scanned ones.
pub proof fn lemma_scanned_has(entries: Seq<Entry>, policy: Policy, i: int)
    requires
        0 <= i < entries.len(),
        taken(entries[i], policy),
    ensures
        exists|k: int|
            0 <= k < scanned(entries, policy).len() && (#[trigger] scanned(entries, policy)[k]).name
                == entries[i].name,
    decreases entries.len(),
{
    let front = entries.drop_last();
    if i < entries.len() - 1 {
        assert(front[i] == entries[i]);
        lemma_scanned_has(front, policy, i);
        let k = choose|k: int|
            0 <= k < scanned(front, policy).len() && (#[trigger] scanned(front, policy)[k]).name
                == entries[i].name;
        assert(scanned(entries, policy)[k] == scanned(front, policy)[k]);
    } else {
        let k = scanned(front, policy).len() as int;
        assert(scanned(entries, policy)[k].name == entries[i].name);
    }
}

/// Each scanned file comes from an entry that the policy admits.
pub proof fn lemma_scanned_from(entries: Seq<Entry>, policy: Policy, k: int)
    requires
        0 <= k < scanned(entries, policy).len(),
    ensures
        exists|i: int|
            0 <= i < entries.len() && taken(#[trigger] entries[i], policy) && entries[i].name == scanned(
                entries,
                policy,
            )[k].name,
    decreases entries.len(),
{
    if entries.len() > 0 {
        let front = entries.drop_last();
        if k < scanned(front, policy).len() {
            lemma_scanned_from(front, policy, k);
            let i = choose|i: int|
                0 <= i < front.len() && taken(#[trigger] front[i], policy) && front[i].name == scanned(
                    front,
                    policy,
                )[k].name;
            assert(entries[i] == front[i]);
        } else {
            assert(taken(entries[entries.len() - 1], policy));
        }
    }
}

/// A file with an extension that the table holds gets a move into the folder
/// of the category of that extension. After a run that succeeds the folder
/// stands in the target directory, the file stands in the folder, and no file
/// stands under its name in the target directory.
pub proof fn known_extension_is_moved(
    tree: Tree,
    files: Seq<File>,
    table: Map<Seq<char>, Seq<char>>,
    base: Seq<char>,
    platform: Platform,
    i: int,
)
    requires
        0 <= i < files.len(),
        extension_of(files[i].name) is Some,
        table.contains_key(extension_of(files[i].name).unwrap()),
        tree.run(plan_of(files, table, base, platform)) is Some,
    ensures
        plan_of(files, table, base, platform)[i] == move_step(
            files[i].name,
            table[extension_of(files[i].name).unwrap()],
            base,
            platform,
        ),
        tree.run(plan_of(files, table, base, platform)).unwrap().has_folder(
            table[extension_of(files[i].name).unwrap()],
        ),
        tree.run(plan_of(files, table, base, platform)).unwrap().inner.contains(
            (table[extension_of(files[i].name).unwrap()], files[i].name),
        ),
        !tree.run(plan_of(files, table, base, platform)).unwrap().has_file(files[i].name),
{
    lemma_moved_file(tree, plan_of(files, table, base, platform), i);
}

/// A file with an extension that the table lacks gets a move into the folder
/// of the fallback category. After a run that succeeds that folder stands in
/// the target directory, the file stands in it, and no file stands under its
/// name in the target directory.
pub proof fn unknown_extension_goes_to_fallback(
    tree: Tree,
    files: Seq<File>,
    table: Map<Seq<char>, Seq<char>>,
    base: Seq<char>,
    platform: Platform,
    i: int,
)
    requires
        0 <= i < files.len(),
        extension_of(files[i].name) is Some,
        !table.contains_key(extension_of(files[i].name).unwrap()),
        tree.run(plan_of(files, table, base, platform)) is Some,
    ensures
        plan_of(files, table, base, platform)[i] == move_step(files[i].name, fallback_category(), base, platform),
        tree.run(plan_of(files, table, base, platform)).unwrap().has_folder(fallback_category()),
        tree.run(plan_of(files, table, base, platform)).unwrap().inner.contains(
            (fallback_category(), files[i].name),
        ),
        !tree.run(plan_of(files, table, base, platform)).unwrap().has_file(files[i].name),
{
    lemma_moved_file(tree, plan_of(files, table, base, platform), i);
}

/// A file without extension gets a step that only reports it, and a run that
/// succeeds leaves it in the target directory as it was.
pub proof fn no_extension_stays(
    tree: Tree,
    files: Seq<File>,
    table: Map<Seq<char>, Seq<char>>,
    base: Seq<char>,
    platform: Platform,
    i: int,
)
    requires
        0 <= i < files.len(),
        extension_of(files[i].name) is None,
        tree.top.contains_key(files[i].name),
        tree.run(plan_of(files, table, base, platform)) is Some,
    ensures
        plan_of(files, table, base, platform)[i] == (StepView::Skip { path: join(base, files[i].name, platform) }),
        tree.run(plan_of(files, table, base, platform)).unwrap().top.contains_key(files[i].name),
        tree.run(plan_of(files, table, base, platform)).unwrap().top[files[i].name] == tree.top[files[i].name],
{
    let plan = plan_of(files, table, base, platform);
    assert forall|k: int| 0 <= k < plan.len() && (#[trigger] plan[k]) is Move implies plan[k]->name
        != files[i].name by {
        assert(plan[k] == step_for(files[k].name, table, base, platform));
    }
    lemma_unmoved_file(tree, plan, files[i].name);
}

/// A second run right after a run that succeeded moves nothing: each of its
/// steps only reports a file, and the tree stays as the first run left it.
pub proof fn second_run_moves_nothing(
    tree: Tree,
    first: Seq<Entry>,
    second: Seq<Entry>,
    policy: Policy,
    table: Map<Seq<char>, Seq<char>>,
    base: Seq<char>,
    platform: Platform,
)
    requires
        tree.read_as(first),
        tree.run(plan_of(scanned(first, policy), table, base, platform)) is Some,
        tree.run(plan_of(scanned(first, policy), table, base, platform)).unwrap().read_as(second),
    ensures
        forall|k: int|
            0 <= k < scanned(second, policy).len() ==> (#[trigger] plan_of(
                scanned(second, policy),
                table,
                base,
                platform,
            )[k]) is Skip,
        tree.run(plan_of(scanned(first, policy), table, base, platform)).unwrap().run(
            plan_of(scanned(second, policy), table, base, platform),
        ) == tree.run(plan_of(scanned(first, policy), table, base, platform)),
{
    let files = scanned(first, policy);
    let plan = plan_of(files, table, base, platform);
    let after = tree.run(plan).unwrap();
    let again = scanned(second, policy);
    let plan2 = plan_of(again, table, base, platform);
    assert forall|k: int| 0 <= k < again.len() implies (#[trigger] plan2[k]) is Skip by {
        let name = again[k].name;
        lemma_scanned_from(second, policy, k);
        let j = choose|j: int|
            0 <= j < second.len() && taken(#[trigger] second[j], policy) && second[j].name == name;
        assert(after.holds(second[j]));
        assert(after.has_file(name));
        lemma_no_new_file(tree, plan, name);
        let i = choose|i: int| 0 <= i < first.len() && (#[trigger] first[i]).name == name;
        assert(tree.holds(first[i]));
        assert(taken(first[i], policy));
        lemma_scanned_has(first, policy, i);
        let m = choose|m: int| 0 <= m < files.len() && (#[trigger] files[m]).name == name;
        assert(plan[m] == step_for(name, table, base, platform));
        if category_of(name, table) is Some {
            lemma_moved_file(tree, plan, m);
        }
    }
    lemma_skips_change_nothing(after, plan2);
}

/// A plan of steps that only report leaves the tree as it is.
pub proof fn lemma_skips_change_nothing(tree: Tree, plan: Seq<StepView>)
    requires
        forall|k: int| 0 <= k < plan.len() ==> (#[trigger] plan[k]) is Skip,
    ensures
        tree.run(plan) == Some(tree),
    decreases plan.len(),
{
    if plan.len() > 0 {
        let front = plan.drop_last();
        assert forall|k: int| 0 <= k < front.len() implies (#[trigger] front[k]) is Skip by {
            assert(front[k] == plan[k]);
        }
        lemma_skips_change_nothing(tree, front);
        assert(plan[plan.len() - 1] is Skip);
    }
}

} // verus!
