//! The breakpoints of a session, by source file.

use crate::types::SourceBreakpoint;
use vstd::prelude::*;

verus! {

/// The breakpoints of one source file.
#[derive(Debug, PartialEq, Eq)]
pub struct FileBreakpoints {
    pub path: String,
    pub breakpoints: Vec<SourceBreakpoint>,
}

impl View for FileBreakpoints {
    type V = (Seq<char>, Seq<SourceBreakpoint>);

    open spec fn view(&self) -> (Seq<char>, Seq<SourceBreakpoint>) {
        (self.path@, self.breakpoints@)
    }
}

impl Clone for FileBreakpoints {
    fn clone(&self) -> (res: Self)
        ensures
            res@ == self@,
    {
        FileBreakpoints { path: self.path.clone(), breakpoints: clone_breakpoints(&self.breakpoints) }
    }
}

/// A copy of a list of breakpoints.
pub fn clone_breakpoints(list: &Vec<SourceBreakpoint>) -> (res: Vec<SourceBreakpoint>)
    ensures
        res@ == list@,
{
    let mut res: Vec<SourceBreakpoint> = Vec::new();
    let mut i: usize = 0;
    while i < list.len()
        invariant
            i <= list.len(),
            res@ == list@.subrange(0, i as int),
        decreases list.len() - i,
    {
        res.push(list[i].clone());
        i += 1;
        assert(res@ =~= list@.subrange(0, i as int));
    }
    assert(list@.subrange(0, i as int) =~= list@);
    res
}

/// The files of a list, each with its breakpoints.
pub open spec fn files_view(files: Seq<FileBreakpoints>) -> Seq<(Seq<char>, Seq<SourceBreakpoint>)> {
    files.map_values(|f: FileBreakpoints| f@)
}

/// No path stands twice in the table.
pub open spec fn distinct_paths(table: Seq<(Seq<char>, Seq<SourceBreakpoint>)>) -> bool {
    forall|i: int, j: int|
        0 <= i < j < table.len() ==> (#[trigger] table[i]).0 != (#[trigger] table[j]).0
}

/// Whether the table has an entry for `path`.
pub open spec fn has_path(table: Seq<(Seq<char>, Seq<SourceBreakpoint>)>, path: Seq<char>) -> bool {
    exists|i: int| 0 <= i < table.len() && (#[trigger] table[i]).0 == path
}

/// Where the entry for `path` stands, if the table has one.
pub open spec fn index_of_path(
    table: Seq<(Seq<char>, Seq<SourceBreakpoint>)>,
    path: Seq<char>,
) -> int {
    choose|i: int| 0 <= i < table.len() && (#[trigger] table[i]).0 == path
}

/// The table after `path` got `breakpoints`: in place of what it had, or
/// as a new last entry.
pub open spec fn with_entry(
    table: Seq<(Seq<char>, Seq<SourceBreakpoint>)>,
    path: Seq<char>,
    breakpoints: Seq<SourceBreakpoint>,
) -> Seq<(Seq<char>, Seq<SourceBreakpoint>)> {
    if has_path(table, path) {
        table.update(index_of_path(table, path), (path, breakpoints))
    } else {
        table.push((path, breakpoints))
    }
}

/// The breakpoints of every source file that has any, in the order in
/// which the files came in. A file has one entry at most.
#[derive(Debug, PartialEq, Eq)]
pub struct BreakpointTable {
    entries: Vec<FileBreakpoints>,
}

impl View for BreakpointTable {
    type V = Seq<(Seq<char>, Seq<SourceBreakpoint>)>;

    closed spec fn view(&self) -> Seq<(Seq<char>, Seq<SourceBreakpoint>)> {
        files_view(self.entries@)
    }
}

impl BreakpointTable {
    #[verifier::type_invariant]
    spec fn paths_are_distinct(&self) -> bool {
        distinct_paths(files_view(self.entries@))
    }

    /// A table without files.
    pub fn new() -> (table: Self)
        ensures
            table@ == Seq::<(Seq<char>, Seq<SourceBreakpoint>)>::empty(),
    {
        let table = BreakpointTable { entries: Vec::new() };
        assert(files_view(table.entries@) =~= Seq::empty());
        table
    }

    /// The number of files.
    pub fn len(&self) -> (n: usize)
        ensures
            n == self@.len(),
    {
        self.entries.len()
    }

    /// The files, each with its breakpoints. No path stands twice.
    pub fn entries(&self) -> (files: &Vec<FileBreakpoints>)
        ensures
            files_view(files@) == self@,
            distinct_paths(self@),
    {
        proof {
            use_type_invariant(self);
        }
        &self.entries
    }

    /// A copy of the files, each with its breakpoints.
    pub fn clone_entries(&self) -> (files: Vec<FileBreakpoints>)
        ensures
            files_view(files@) == self@,
    {
        let mut files: Vec<FileBreakpoints> = Vec::new();
        let mut i: usize = 0;
        while i < self.entries.len()
            invariant
                i <= self.entries.len(),
                files@.len() == i,
                forall|k: int| 0 <= k < i ==> (#[trigger] files@[k])@ == self.entries@[k]@,
            decreases self.entries.len() - i,
        {
            files.push(self.entries[i].clone());
            i += 1;
        }
        assert(files_view(files@) =~= files_view(self.entries@));
        files
    }

    /// Sets the breakpoints of `path`, in place of those it had.
    pub fn insert(&mut self, path: String, breakpoints: Vec<SourceBreakpoint>)
        ensures
            final(self)@ == with_entry(old(self)@, path@, breakpoints@),
    {
        proof {
            use_type_invariant(&*self);
        }
        let ghost before = self@;
        let mut entries: Vec<FileBreakpoints> = Vec::new();
        std::mem::swap(&mut self.entries, &mut entries);
        let n: usize = entries.len();
        let mut at: usize = 0;
        while at < n && !(entries[at].path == path)
            invariant
                at <= n,
                n == entries@.len(),
                files_view(entries@) == before,
                forall|k: int| 0 <= k < at ==> (#[trigger] before[k]).0 != path@,
            decreases n - at,
        {
            at += 1;
        }
        if at < n {
            assert(before[at as int].0 == path@);
            proof {
                let chosen = index_of_path(before, path@);
                if chosen != at {
                    assert(before[chosen].0 == before[at as int].0);
                }
            }
            entries.set(at, FileBreakpoints { path, breakpoints });
            proof {
                let after = files_view(entries@);
                assert(after =~= before.update(at as int, (path@, breakpoints@)));
                assert forall|a: int, b: int| 0 <= a < b < after.len() implies (
                #[trigger] after[a]).0 != (#[trigger] after[b]).0 by {
                    assert(after[a].0 == before[a].0);
                    assert(after[b].0 == before[b].0);
                }
            }
        } else {
            assert(!has_path(before, path@));
            entries.push(FileBreakpoints { path, breakpoints });
            proof {
                let after = files_view(entries@);
                assert(after =~= before.push((path@, breakpoints@)));
                assert forall|a: int, b: int| 0 <= a < b < after.len() implies (
                #[trigger] after[a]).0 != (#[trigger] after[b]).0 by {
                    if b < before.len() {
                        assert(after[a].0 == before[a].0);
                        assert(after[b].0 == before[b].0);
                    } else {
                        assert(after[a] == before[a]);
                    }
                }
            }
        }
        std::mem::swap(&mut self.entries, &mut entries);
    }
}

impl Clone for BreakpointTable {
    fn clone(&self) -> (res: Self)
        ensures
            res@ == self@,
    {
        proof {
            use_type_invariant(self);
        }
        BreakpointTable { entries: self.clone_entries() }
    }
}

} // verus!
