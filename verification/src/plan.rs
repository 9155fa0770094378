//! Classification of files and the steps of a run.

use vstd::prelude::*;
use vstd::string::StringExecFns;
use crate::error::SortError;
use crate::name::{extension, extension_of, is_dir_name, Platform};
use crate::scan::{File, FileEntry};
use crate::table::{fallback_category, lemma_builtin_categories, ClassificationTable};

verus! {

/// The category of the file `name` under `table`: that of its extension, the
/// fallback category where the table lacks the extension, none where the
/// name has no extension.
pub open spec fn category_of(name: Seq<char>, table: Map<Seq<char>, Seq<char>>) -> Option<Seq<char>> {
    match extension_of(name) {
        Some(ext) => Some(
            if table.contains_key(ext) {
                table[ext]
            } else {
                fallback_category()
            },
        ),
        None => None,
    }
}

/// The path of `child` directly below `base`, written with the separator of
/// `platform`.
pub open spec fn join(base: Seq<char>, child: Seq<char>, platform: Platform) -> Seq<char> {
    base + seq![platform.separator()] + child
}

/// What a run does with one file.
#[derive(Debug, PartialEq, Eq)]
pub enum Step {
    /// The file has no extension: it is reported and stays where it is.
    Skip {
        /// The path of the file.
        path: String,
    },
    /// The file goes into the folder of its category, which is created first
    /// where it does not exist yet.
    Move {
        /// The name of the file.
        name: String,
        /// Its category.
        category: String,
        /// The path of the folder of the category.
        dir: String,
        /// The path of the file before the move.
        from: String,
        /// The path of the file after the move.
        to: String,
    },
}

/// A step, as specifications see it.
pub enum StepView {
    Skip { path: Seq<char> },
    Move { name: Seq<char>, category: Seq<char>, dir: Seq<char>, from: Seq<char>, to: Seq<char> },
}

impl View for Step {
    type V = StepView;

    open spec fn view(&self) -> StepView {
        match self {
            Step::Skip { path } => StepView::Skip { path: path@ },
            Step::Move { name, category, dir, from, to } => StepView::Move {
                name: name@,
                category: category@,
                dir: dir@,
                from: from@,
                to: to@,
            },
        }
    }
}

impl DeepView for Step {
    type V = StepView;

    open spec fn deep_view(&self) -> StepView {
        self@
    }
}

/// The move of the file `name` from the directory `base` into the folder
/// `category` directly below it.
pub open spec fn move_step(name: Seq<char>, category: Seq<char>, base: Seq<char>, platform: Platform) -> StepView {
    StepView::Move {
        name,
        category,
        dir: join(base, category, platform),
        from: join(base, name, platform),
        to: join(join(base, category, platform), name, platform),
    }
}

/// The step for the file `name` in the directory `base` under `table`.
pub open spec fn step_for(
    name: Seq<char>,
    table: Map<Seq<char>, Seq<char>>,
    base: Seq<char>,
    platform: Platform,
) -> StepView {
    match category_of(name, table) {
        Some(category) => move_step(name, category, base, platform),
        None => StepView::Skip { path: join(base, name, platform) },
    }
}

/// The steps for `files`, one for each and in their order.
pub open spec fn plan_of(
    files: Seq<File>,
    table: Map<Seq<char>, Seq<char>>,
    base: Seq<char>,
    platform: Platform,
) -> Seq<StepView> {
    files.map_values(|file: File| step_for(file.name, table, base, platform))
}

/// The path of `child` directly below `base`, written with the separator of
/// `platform`.
pub fn join_path(base: &str, child: &str, platform: Platform) -> (path: String)
    ensures
        path@ == join(base@, child@, platform),
{
    let separator = platform.main_separator();
    let mut path = base.to_owned();
    path.push(separator);
    path.append(child);
    proof {
        assert(base@.push(separator) =~= base@ + seq![separator]);
    }
    path
}

/// The category of the file `name`.
pub fn classify(name: &str, table: &ClassificationTable) -> (r: Result<String, SortError>)
    ensures
        match r {
            Ok(category) => category_of(name@, table@) == Some(category@) && is_dir_name(
                category@,
                table.host(),
            ),
            Err(e) => e == SortError::NoExtension && category_of(name@, table@) is None,
        },
{
    match extension(name) {
        Some(ext) => match table.get(ext.as_str()) {
            Some(category) => Ok(category.clone()),
            None => {
                proof {
                    lemma_builtin_categories(table.host());
                }
                Ok("Others".to_owned())
            },
        },
        None => Err(SortError::NoExtension),
    }
}

impl FileEntry {
    /// The path of the file in the directory `base` on `platform`.
    pub fn path(&self, base: &str, platform: Platform) -> (path: String)
        ensures
            path@ == join(base@, self.name@, platform),
    {
        join_path(base, self.name.as_str(), platform)
    }
}

/// The step for one file of the directory `base`. Paths are written for the
/// platform of `table`.
pub fn plan_file(file: &FileEntry, table: &ClassificationTable, base: &str) -> (step: Step)
    ensures
        step@ == step_for(file.name@, table@, base@, table.host()),
        step@ is Move ==> is_dir_name(step@->category, table.host()),
{
    let platform = table.platform();
    match classify(file.name.as_str(), table) {
        Ok(category) => {
            let dir = join_path(base, category.as_str(), platform);
            let from = join_path(base, file.name.as_str(), platform);
            let to = join_path(dir.as_str(), file.name.as_str(), platform);
            Step::Move { name: file.name.clone(), category, dir, from, to }
        },
        Err(_) => Step::Skip { path: join_path(base, file.name.as_str(), platform) },
    }
}

/// The steps of a run over `files`, which stand directly in the directory
/// `base`: one step for each file, in their order. Paths are written for the
/// platform of `table`.
pub fn sort_files(files: &Vec<FileEntry>, table: &ClassificationTable, base: &str) -> (plan: Vec<Step>)
    ensures
        plan.deep_view() == plan_of(files.deep_view(), table@, base@, table.host()),
        forall|i: int|
            0 <= i < plan.len() && (#[trigger] plan[i])@ is Move ==> is_dir_name(plan[i]@->category, table.host()),
{
    let mut plan: Vec<Step> = Vec::new();
    let mut i: usize = 0;
    while i < files.len()
        invariant
            i <= files.len(),
            plan.len() == i,
            forall|j: int|
                0 <= j < i ==> (#[trigger] plan[j])@ == step_for(files[j].name@, table@, base@, table.host()),
            forall|j: int|
                0 <= j < i && (#[trigger] plan[j])@ is Move ==> is_dir_name(plan[j]@->category, table.host()),
        decreases files.len() - i,
    {
        let step = plan_file(&files[i], table, base);
        plan.push(step);
        i = i + 1;
    }
    proof {
        assert(plan.deep_view() =~= plan_of(files.deep_view(), table@, base@, table.host()));
    }
    plan
}

} // verus!
