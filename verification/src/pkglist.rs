//! Expansion of a package list: one entry per line, `#` lines are
//! comments, and a trimmed line that starts with `groups/` names another
//! list to splice in at that point.  Reading files and recursing into
//! groups is the caller's business; this module decides what each line
//! means, and how deep the group nesting may go.

use vstd::prelude::*;
use vstd::string::StrSliceExecFns;

use crate::strconv::has_char_prefix;
use crate::strconv::starts_with_str;
use crate::strconv::trim_str;
use crate::strconv::trimmed_of;
use crate::vercmp::str_views;

verus! {

/// What one line contributes, at the level of character sequences.
pub enum EntryModel {
    /// A package name, trimmed.
    Package(Seq<char>),
    /// A nested group list to splice in, trimmed.
    Group(Seq<char>),
}

/// What one line contributes.
#[derive(Debug, Clone, PartialEq, Eq)]
pub enum ListEntry {
    /// A package name, trimmed.
    Package(String),
    /// A nested group list to splice in, trimmed.
    Group(String),
}

impl View for ListEntry {
    type V = EntryModel;

    open spec fn view(&self) -> EntryModel {
        match self {
            ListEntry::Package(s) => EntryModel::Package(s@),
            ListEntry::Group(s) => EntryModel::Group(s@),
        }
    }
}

/// How one line is read: a line opening with `#` is a comment and
/// contributes nothing; otherwise the line is trimmed, and it names a
/// group when it starts with `groups/`, a package otherwise.
pub open spec fn classify_line(line: Seq<char>) -> Option<EntryModel> {
    if line.len() > 0 && line[0] == '#' {
        None
    } else {
        let t = trimmed_of(line);
        if has_char_prefix(t, "groups/"@) {
            Some(EntryModel::Group(t))
        } else {
            Some(EntryModel::Package(t))
        }
    }
}

/// The entries of all the lines, comments dropped, in order.
pub open spec fn entries_spec(lines: Seq<Seq<char>>) -> Seq<EntryModel>
    decreases lines.len(),
{
    if lines.len() == 0 {
        Seq::empty()
    } else {
        let rest = entries_spec(lines.drop_first());
        match classify_line(lines[0]) {
            Some(e) => seq![e] + rest,
            None => rest,
        }
    }
}

/// The views of a sequence of entries.
pub open spec fn entry_views(es: Seq<ListEntry>) -> Seq<EntryModel> {
    es.map_values(|e: ListEntry| e@)
}

/// How deep group lists may nest before expansion gives up.
pub fn group_depth_ok(depth: usize) -> (b: bool)
    ensures
        b == (depth <= 32),
{
    depth <= 32
}

/// Read every line of one package list; see [`classify_line`].  The
/// caller splices each group's own expansion in place of its entry.
pub fn expand_package_list(lines: &Vec<String>) -> (r: Vec<ListEntry>)
    ensures
        entry_views(r@) == entries_spec(str_views(lines@)),
{
    let ghost models = str_views(lines@);
    let mut out: Vec<ListEntry> = Vec::new();
    let n = lines.len();
    let mut i: usize = 0;
    proof {
        assert(models.skip(0) =~= models);
    }
    while i < n
        invariant
            i <= n,
            n == lines@.len(),
            models == str_views(lines@),
            entries_spec(models) =~= entry_views(out@) + entries_spec(models.skip(i as int)),
        decreases n - i,
    {
        proof {
            assert(models.skip(i as int)[0] == lines@[i as int]@);
            assert(models.skip(i as int).drop_first() =~= models.skip(i as int + 1));
        }
        let line = &lines[i];
        let is_comment = if line.as_str().unicode_len() > 0 {
            line.as_str().get_char(0) == '#'
        } else {
            false
        };
        if !is_comment {
            let trimmed = trim_str(line.as_str());
            let ghost old_out = out@;
            if starts_with_str(trimmed.as_str(), "groups/") {
                out.push(ListEntry::Group(trimmed));
                proof {
                    assert(entry_views(out@) =~= entry_views(old_out).push(
                        EntryModel::Group(trimmed_of(lines@[i as int]@)),
                    ));
                }
            } else {
                out.push(ListEntry::Package(trimmed));
                proof {
                    assert(entry_views(out@) =~= entry_views(old_out).push(
                        EntryModel::Package(trimmed_of(lines@[i as int]@)),
                    ));
                }
            }
        }
        i += 1;
    }
    proof {
        assert(models.skip(n as int).len() == 0);
        assert(entry_views(out@) =~= entries_spec(models));
    }
    out
}

} // verus!
