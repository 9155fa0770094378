//! The configuration text: one `extension:category` pair on each line.

use vstd::prelude::*;
use crate::error::SortError;
use crate::name::{is_dir_name, Platform};
use crate::table::{default_table, read_default_config, sound, ClassificationTable};

verus! {

/// `line` without the carriage return at its end, if it has one.
pub open spec fn strip_cr(line: Seq<char>) -> Seq<char> {
    if line.len() > 0 && line.last() == '\r' {
        line.drop_last()
    } else {
        line
    }
}

/// The lines of `text` that a line feed ends, each without that line feed and
/// without a carriage return before it, and the rest of `text` after its last
/// line feed.
pub open spec fn cut(text: Seq<char>) -> (Seq<Seq<char>>, Seq<char>)
    decreases text.len(),
{
    if text.len() == 0 {
        (Seq::empty(), Seq::empty())
    } else {
        let (done, rest) = cut(text.drop_last());
        if text.last() == '\n' {
            (done.push(strip_cr(rest)), Seq::empty())
        } else {
            (done, rest.push(text.last()))
        }
    }
}

/// The lines of `text`. A line ends at a line feed or at the end of the text;
/// nothing after the last line feed is no line.
pub open spec fn lines_of(text: Seq<char>) -> Seq<Seq<char>> {
    let (done, rest) = cut(text);
    if rest.len() == 0 {
        done
    } else {
        done.push(rest)
    }
}

/// `c` occurs in `s` at `i` and nowhere else.
pub open spec fn only_at(s: Seq<char>, c: char, i: int) -> bool {
    &&& 0 <= i < s.len()
    &&& forall|j: int| 0 <= j < s.len() ==> (s[j] == c <==> j == i)
}

/// The extension and the category that `line` gives: what stands before and
/// after its colon, if it has exactly one.
pub open spec fn entry_of(line: Seq<char>) -> Option<(Seq<char>, Seq<char>)> {
    if exists|i: int| only_at(line, ':', i) {
        let i = choose|i: int| only_at(line, ':', i);
        Some((line.take(i), line.skip(i + 1)))
    } else {
        None
    }
}

/// The table that `lines` describe, a later line replacing an earlier one for
/// the same extension. There is none if some line has no colon or more than
/// one, or names a category that cannot name a folder on `platform`.
pub open spec fn table_of(lines: Seq<Seq<char>>, platform: Platform) -> Option<Map<Seq<char>, Seq<char>>>
    decreases lines.len(),
{
    if lines.len() == 0 {
        Some(Map::empty())
    } else {
        match (table_of(lines.drop_last(), platform), entry_of(lines.last())) {
            (Some(table), Some(entry)) => if is_dir_name(entry.1, platform) {
                Some(table.insert(entry.0, entry.1))
            } else {
                None
            },
            _ => None,
        }
    }
}

/// The table of a run: the one that the configuration text describes, or the
/// built-in one where there is no text or the text is not valid.
pub open spec fn chosen_table(config: Option<Seq<char>>, platform: Platform) -> Map<Seq<char>, Seq<char>> {
    match config {
        Some(text) => match table_of(lines_of(text), platform) {
            Some(table) => table,
            None => default_table(),
        },
        None => default_table(),
    }
}

/// Cuts `text` into its lines.
pub fn lines(text: &str) -> (r: Vec<String>)
    ensures
        r.deep_view() == lines_of(text@),
{
    let mut done: Vec<String> = Vec::new();
    let mut line = String::new();
    // a carriage return was read and is not yet part of `line`
    let mut held = false;
    for c in it: text.chars()
        invariant
            it.seq() == text@,
            cut(text@.take(it.index() as int)).0 == done.deep_view(),
            cut(text@.take(it.index() as int)).1 == if held {
                line@.push('\r')
            } else {
                line@
            },
            !held && line@.len() > 0 ==> line@.last() != '\r',
    {
        let ghost p = it.index() as int;
        proof {
            assert(text@.take(p + 1).drop_last() == text@.take(p));
            assert(text@.take(p + 1).last() == c);
        }
        if c == '\n' {
            let ghost before = done.deep_view();
            proof {
                if held {
                    assert(line@.push('\r').drop_last() == line@);
                }
            }
            done.push(line);
            proof {
                assert(done.deep_view() =~= before.push(line@));
            }
            line = String::new();
            held = false;
        } else if c == '\r' {
            if held {
                line.push('\r');
            }
            held = true;
        } else {
            if held {
                line.push('\r');
                held = false;
            }
            line.push(c);
        }
    }
    proof {
        assert(text@.take(text@.len() as int) == text@);
    }
    if held {
        line.push('\r');
    }
    if !line.as_str().is_empty() {
        let ghost before = done.deep_view();
        done.push(line);
        proof {
            assert(done.deep_view() =~= before.push(line@));
        }
    }
    done
}

/// Reads one line of the configuration.
pub fn parse_line(line: &str) -> (r: Option<(String, String)>)
    ensures
        match r {
            Some(entry) => entry_of(line@) == Some((entry.0@, entry.1@)),
            None => entry_of(line@) is None,
        },
{
    let mut extension = String::new();
    let mut category = String::new();
    let mut found = false;
    let ghost mut at: int = -1;
    for c in it: line.chars()
        invariant
            it.seq() == line@,
            found <==> at >= 0,
            -1 <= at < it.index(),
            !found ==> extension@ == line@.take(it.index() as int),
            !found ==> category@.len() == 0,
            !found ==> forall|j: int| 0 <= j < it.index() ==> line@[j] != ':',
            found ==> only_at(line@.take(it.index() as int), ':', at),
            found ==> extension@ == line@.take(at),
            found ==> category@ == line@.subrange(at + 1, it.index() as int),
    {
        let ghost p = it.index() as int;
        proof {
            assert(line@.take(p + 1) == line@.take(p).push(c));
        }
        if c == ':' {
            if found {
                proof {
                    assert forall|i: int| !only_at(line@, ':', i) by {
                        if only_at(line@, ':', i) {
                            assert(line@.take(p)[at] == ':');
                            assert(line@[at] == ':');
                            assert(line@[p] == ':');
                        }
                    }
                }
                return None;
            }
            found = true;
            proof {
                at = p;
                assert(line@.subrange(p + 1, p + 1) =~= category@);
            }
        } else if found {
            category.push(c);
            proof {
                assert(line@.subrange(at + 1, p + 1) == line@.subrange(at + 1, p).push(c));
            }
        } else {
            extension.push(c);
        }
    }
    proof {
        assert(line@.take(line@.len() as int) == line@);
        if found {
            assert(line@.subrange(at + 1, line@.len() as int) == line@.skip(at + 1));
            assert(only_at(line@, ':', at));
            let w = choose|i: int| only_at(line@, ':', i);
            assert(line@[at] == ':');
            assert(w == at);
        } else {
            assert forall|i: int| !only_at(line@, ':', i) by {
                if only_at(line@, ':', i) {
                    assert(line@[i] == ':');
                }
            }
        }
    }
    if found {
        Some((extension, category))
    } else {
        None
    }
}

/// Reads a configuration text into a table for `platform`.
pub fn read_config(text: &str, platform: Platform) -> (r: Result<ClassificationTable, SortError>)
    ensures
        match r {
            Ok(table) => table_of(lines_of(text@), platform) == Some(table@) && table.host() == platform
                && sound(table@, platform),
            Err(e) => e == SortError::InvalidConfig && table_of(lines_of(text@), platform) is None,
        },
{
    let all = lines(text);
    let mut table = ClassificationTable::new(platform);
    let mut i: usize = 0;
    proof {
        assert(all.deep_view().take(0) =~= Seq::<Seq<char>>::empty());
    }
    while i < all.len()
        invariant
            i <= all.len(),
            all.deep_view() == lines_of(text@),
            table_of(all.deep_view().take(i as int), platform) == Some(table@),
            table.host() == platform,
            sound(table@, platform),
        decreases all.len() - i,
    {
        let ghost seen = all.deep_view().take(i as int);
        let ghost next = all.deep_view().take(i + 1);
        proof {
            assert(next.drop_last() == seen);
            assert(next.last() == all[i as int]@);
        }
        match parse_line(all[i].as_str()) {
            Some((extension, category)) => {
                if !table.insert(extension, category) {
                    proof {
                        lemma_table_of_prefix(all.deep_view(), platform, i + 1);
                    }
                    return Err(SortError::InvalidConfig);
                }
            },
            None => {
                proof {
                    lemma_table_of_prefix(all.deep_view(), platform, i + 1);
                }
                return Err(SortError::InvalidConfig);
            },
        }
        i = i + 1;
    }
    proof {
        assert(all.deep_view().take(all.len() as int) == all.deep_view());
    }
    Ok(table)
}

/// Lines have no table if the first `n` of them have none.
pub proof fn lemma_table_of_prefix(lines: Seq<Seq<char>>, platform: Platform, n: int)
    requires
        0 <= n <= lines.len(),
        table_of(lines.take(n), platform) is None,
    ensures
        table_of(lines, platform) is None,
    decreases lines.len(),
{
    if n < lines.len() {
        assert(lines.drop_last().take(n) == lines.take(n));
        lemma_table_of_prefix(lines.drop_last(), platform, n);
    } else {
        assert(lines.take(n) == lines);
    }
}

/// The table of a run on `platform`, from the configuration text if there
/// is one.
pub fn load_table(config: Option<&str>, platform: Platform) -> (table: ClassificationTable)
    ensures
        table.host() == platform,
        table@ == chosen_table(
            match config {
                Some(text) => Some(text@),
                None => None,
            },
            platform,
        ),
{
    match config {
        Some(text) => match read_config(text, platform) {
            Ok(table) => table,
            Err(_) => read_default_config(platform),
        },
        None => read_default_config(platform),
    }
}

} // verus!
