//! The classification table: which category each extension belongs to.

use vstd::prelude::*;
use vstd::hash_map::StringHashMap;
use crate::name::{dir_name, is_dir_name, Platform};

verus! {

/// A table is sound for a platform when each of its categories can name a
/// folder there.
pub open spec fn sound(table: Map<Seq<char>, Seq<char>>, platform: Platform) -> bool {
    forall|key: Seq<char>| table.contains_key(key) ==> is_dir_name(#[trigger] table[key], platform)
}

/// Extensions, without the dot, and the category of each, for the host that
/// the table was made for. An extension is matched as it is written: `jpg`
/// and `JPG` are two extensions.
pub struct ClassificationTable {
    platform: Platform,
    rules: StringHashMap<String>,
}

impl View for ClassificationTable {
    type V = Map<Seq<char>, Seq<char>>;

    closed spec fn view(&self) -> Map<Seq<char>, Seq<char>> {
        self.rules@.map_values(|category: String| category@)
    }
}

impl ClassificationTable {
    #[verifier::type_invariant]
    spec fn well_formed(self) -> bool {
        forall|key: Seq<char>| #[trigger]
            self.rules@.contains_key(key) ==> is_dir_name(self.rules@[key]@, self.platform)
    }

    /// The platform that the table was made for.
    pub closed spec fn host(&self) -> Platform {
        self.platform
    }

    /// The table without any extension, for `platform`.
    pub fn new(platform: Platform) -> (table: Self)
        ensures
            table@ == Map::<Seq<char>, Seq<char>>::empty(),
            table.host() == platform,
    {
        let table = ClassificationTable { platform, rules: StringHashMap::new() };
        proof {
            assert(table@ =~= Map::<Seq<char>, Seq<char>>::empty());
        }
        table
    }

    /// The platform that the table was made for.
    pub fn platform(&self) -> (platform: Platform)
        ensures
            platform == self.host(),
    {
        self.platform
    }

    /// How many extensions the table holds.
    pub fn len(&self) -> (n: usize)
        ensures
            n == self@.len(),
    {
        proof {
            assert(self@.dom() =~= self.rules@.dom());
        }
        self.rules.len()
    }

    /// The category of `extension`, if the table has one for it.
    pub fn get(&self, extension: &str) -> (r: Option<&String>)
        ensures
            sound(self@, self.host()),
            match r {
                Some(category) => self@.contains_key(extension@) && category@ == self@[extension@],
                None => !self@.contains_key(extension@),
            },
    {
        proof {
            use_type_invariant(self);
        }
        self.rules.get(extension)
    }

    /// Gives `extension` the category `category`, in place of the one it had,
    /// if any. A category that cannot name a folder on the table's platform
    /// is refused, and the table stays as it was.
    pub fn insert(&mut self, extension: String, category: String) -> (accepted: bool)
        ensures
            final(self).host() == old(self).host(),
            accepted == is_dir_name(category@, old(self).host()),
            accepted ==> final(self)@ == old(self)@.insert(extension@, category@),
            !accepted ==> final(self)@ == old(self)@,
            sound(final(self)@, final(self).host()),
    {
        proof {
            use_type_invariant(&*self);
        }
        if !dir_name(category.as_str(), self.platform) {
            return false;
        }
        let mut rules: StringHashMap<String> = StringHashMap::new();
        std::mem::swap(&mut rules, &mut self.rules);
        let ghost before = rules@;
        rules.insert(extension, category);
        proof {
            assert(rules@.map_values(|c: String| c@) =~= before.map_values(|c: String| c@).insert(
                extension@,
                category@,
            ));
        }
        self.rules = rules;
        true
    }
}

/// The category of a file whose extension the table does not hold.
pub open spec fn fallback_category() -> Seq<char> {
    "Others"@
}

/// The built-in table.
pub open spec fn default_table() -> Map<Seq<char>, Seq<char>> {
    map![
        "pdf"@ => "Documents"@,
        "txt"@ => "Documents"@,
        "docx"@ => "Documents"@,
        "doc"@ => "Documents"@,
        "ppt"@ => "Slides"@,
        "pptx"@ => "Slides"@,
        "png"@ => "Pictures"@,
        "jpg"@ => "Pictures"@,
        "jpeg"@ => "Pictures"@,
        "csv"@ => "Spreadsheets"@,
        "xlsx"@ => "Spreadsheets"@,
        "xls"@ => "Spreadsheets"@,
        "zip"@ => "Compressed"@,
        "rar"@ => "Compressed"@,
        "tar"@ => "Compressed"@,
        "gz"@ => "Compressed"@,
        "7z"@ => "Compressed"@,
        "dmg"@ => "Applications"@,
        "exe"@ => "Applications"@,
        "app"@ => "Applications"@,
    ]
}

/// A text of three or more characters, none of them a slash of either
/// kind, can name a folder on every platform.
proof fn lemma_plain_word(s: Seq<char>, platform: Platform)
    requires
        s.len() >= 3,
        forall|i: int| 0 <= i < s.len() ==> s[i] != '/' && s[i] != '\\',
    ensures
        is_dir_name(s, platform),
{
    assert(seq!['.'].len() == 1);
    assert(seq!['.', '.'].len() == 2);
}

/// The categories of the built-in table, and the fallback, can name folders
/// on every platform.
pub proof fn lemma_builtin_categories(platform: Platform)
    ensures
        is_dir_name("Documents"@, platform),
        is_dir_name("Slides"@, platform),
        is_dir_name("Pictures"@, platform),
        is_dir_name("Spreadsheets"@, platform),
        is_dir_name("Compressed"@, platform),
        is_dir_name("Applications"@, platform),
        is_dir_name(fallback_category(), platform),
{
    assert(is_dir_name("Documents"@, platform)) by {
        reveal_strlit("Documents");
        lemma_plain_word("Documents"@, platform);
    }
    assert(is_dir_name("Slides"@, platform)) by {
        reveal_strlit("Slides");
        lemma_plain_word("Slides"@, platform);
    }
    assert(is_dir_name("Pictures"@, platform)) by {
        reveal_strlit("Pictures");
        lemma_plain_word("Pictures"@, platform);
    }
    assert(is_dir_name("Spreadsheets"@, platform)) by {
        reveal_strlit("Spreadsheets");
        lemma_plain_word("Spreadsheets"@, platform);
    }
    assert(is_dir_name("Compressed"@, platform)) by {
        reveal_strlit("Compressed");
        lemma_plain_word("Compressed"@, platform);
    }
    assert(is_dir_name("Applications"@, platform)) by {
        reveal_strlit("Applications");
        lemma_plain_word("Applications"@, platform);
    }
    assert(is_dir_name("Others"@, platform)) by {
        reveal_strlit("Others");
        lemma_plain_word("Others"@, platform);
    }
}

fn put(table: &mut ClassificationTable, extension: &str, category: &str)
    requires
        is_dir_name(category@, old(table).host()),
    ensures
        final(table).host() == old(table).host(),
        final(table)@ == old(table)@.insert(extension@, category@),
{
    table.insert(extension.to_owned(), category.to_owned());
}

/// The built-in table, used where no configuration is given or the one given
/// is not valid.
pub fn read_default_config(platform: Platform) -> (table: ClassificationTable)
    ensures
        table@ == default_table(),
        table.host() == platform,
{
    proof {
        lemma_builtin_categories(platform);
    }
    let mut table = ClassificationTable::new(platform);
    put(&mut table, "pdf", "Documents");
    put(&mut table, "txt", "Documents");
    put(&mut table, "docx", "Documents");
    put(&mut table, "doc", "Documents");
    put(&mut table, "ppt", "Slides");
    put(&mut table, "pptx", "Slides");
    put(&mut table, "png", "Pictures");
    put(&mut table, "jpg", "Pictures");
    put(&mut table, "jpeg", "Pictures");
    put(&mut table, "csv", "Spreadsheets");
    put(&mut table, "xlsx", "Spreadsheets");
    put(&mut table, "xls", "Spreadsheets");
    put(&mut table, "zip", "Compressed");
    put(&mut table, "rar", "Compressed");
    put(&mut table, "tar", "Compressed");
    put(&mut table, "gz", "Compressed");
    put(&mut table, "7z", "Compressed");
    put(&mut table, "dmg", "Applications");
    put(&mut table, "exe", "Applications");
    put(&mut table, "app", "Applications");
    table
}

} // verus!
