//! The index of projects: which store belongs to which project name.

use vstd::prelude::*;

verus! {

/// The mathematical value of one line of the index.
pub struct ProjectView {
    pub name: Seq<char>,
    pub path: Seq<char>,
}

/// One line of the index: a project name and the path of the file that
/// holds its store.
#[derive(Debug, Clone, PartialEq, Eq)]
pub struct ProjectIndex {
    pub name: String,
    pub path: String,
}

impl View for ProjectIndex {
    type V = ProjectView;

    open spec fn view(&self) -> ProjectView {
        ProjectView { name: self.name@, path: self.path@ }
    }
}

/// The values of a sequence of index lines, in order.
pub open spec fn projects_view(projects: Seq<ProjectIndex>) -> Seq<ProjectView> {
    Seq::new(projects.len(), |i: int| projects[i]@)
}

/// The index as it is kept on disk: a list of lines, in which a name may
/// occur more than once.
#[derive(Debug, Clone, PartialEq, Eq)]
pub struct IndexFile {
    pub project_indexes: Vec<ProjectIndex>,
}

impl View for IndexFile {
    type V = Seq<ProjectView>;

    open spec fn view(&self) -> Seq<ProjectView> {
        projects_view(self.project_indexes@)
    }
}

/// The mapping from name to path that a list of lines builds up when they
/// are entered one after the other: of two lines with one name the later
/// one stays.
pub open spec fn map_of(lines: Seq<ProjectView>) -> Map<Seq<char>, Seq<char>>
    decreases lines.len(),
{
    if lines.len() == 0 {
        Map::empty()
    } else {
        map_of(lines.drop_last()).insert(lines.last().name, lines.last().path)
    }
}

/// Whether no name occurs twice in a list of lines.
pub open spec fn distinct_names(lines: Seq<ProjectView>) -> bool {
    forall|i: int, j: int|
        0 <= i < j < lines.len() ==> (#[trigger] lines[i]).name != (#[trigger] lines[j]).name
}

/// Whether some line of the list has the given name.
pub open spec fn has_name(lines: Seq<ProjectView>, name: Seq<char>) -> bool {
    exists|i: int| 0 <= i < lines.len() && (#[trigger] lines[i]).name == name
}

/// The names that a list maps are those of its lines.
pub proof fn lemma_map_of_names(lines: Seq<ProjectView>, name: Seq<char>)
    ensures
        map_of(lines).contains_key(name) <==> has_name(lines, name),
    decreases lines.len(),
{
    if lines.len() > 0 {
        let front = lines.drop_last();
        lemma_map_of_names(front, name);
        if has_name(front, name) {
            let i = choose|i: int| 0 <= i < front.len() && (#[trigger] front[i]).name == name;
            assert(lines[i].name == name);
        }
        if has_name(lines, name) {
            let i = choose|i: int| 0 <= i < lines.len() && (#[trigger] lines[i]).name == name;
            if i < lines.len() - 1 {
                assert(front[i].name == name);
            }
        }
    }
}

/// In a list without a repeated name, each line is mapped to its own path.
pub proof fn lemma_map_of_line(lines: Seq<ProjectView>, i: int)
    requires
        distinct_names(lines),
        0 <= i < lines.len(),
    ensures
        map_of(lines).contains_key(lines[i].name),
        map_of(lines)[lines[i].name] == lines[i].path,
    decreases lines.len(),
{
    let front = lines.drop_last();
    if i < lines.len() - 1 {
        assert(distinct_names(front)) by {
            assert forall|a: int, b: int| 0 <= a < b < front.len() implies (#[trigger] front[a]).name
                != (#[trigger] front[b]).name by {
                assert(lines[a].name != lines[b].name);
            }
        }
        lemma_map_of_line(front, i);
        assert(front[i] == lines[i]);
        assert(lines[i].name != lines[lines.len() - 1].name);
    }
}

/// Replacing the path of one line of a list without a repeated name maps
/// that name to the new path and leaves the rest.
pub proof fn lemma_map_of_update(lines: Seq<ProjectView>, i: int, path: Seq<char>)
    requires
        distinct_names(lines),
        0 <= i < lines.len(),
    ensures
        distinct_names(lines.update(i, ProjectView { name: lines[i].name, path })),
        map_of(lines.update(i, ProjectView { name: lines[i].name, path })) == map_of(lines).insert(
            lines[i].name,
            path,
        ),
    decreases lines.len(),
{
    let line = ProjectView { name: lines[i].name, path };
    let changed = lines.update(i, line);
    let front = lines.drop_last();
    assert(distinct_names(changed)) by {
        assert forall|a: int, b: int| 0 <= a < b < changed.len() implies (#[trigger] changed[a]).name
            != (#[trigger] changed[b]).name by {
            assert(lines[a].name != lines[b].name);
        }
    }
    if i == lines.len() - 1 {
        assert(changed.drop_last() =~= front);
        assert(map_of(changed) =~= map_of(lines).insert(lines[i].name, path));
    } else {
        assert(distinct_names(front)) by {
            assert forall|a: int, b: int| 0 <= a < b < front.len() implies (#[trigger] front[a]).name
                != (#[trigger] front[b]).name by {
                assert(lines[a].name != lines[b].name);
            }
        }
        lemma_map_of_update(front, i, path);
        assert(front[i] == lines[i]);
        assert(changed.drop_last() =~= front.update(i, line));
        assert(changed.last() == lines.last());
        assert(lines[i].name != lines[lines.len() - 1].name);
        assert(map_of(changed) =~= map_of(lines).insert(lines[i].name, path));
    }
}

/// Taking one line out of a list without a repeated name unmaps its name
/// and leaves the rest.
pub proof fn lemma_map_of_remove(lines: Seq<ProjectView>, i: int)
    requires
        distinct_names(lines),
        0 <= i < lines.len(),
    ensures
        distinct_names(lines.remove(i)),
        map_of(lines.remove(i)) == map_of(lines).remove(lines[i].name),
    decreases lines.len(),
{
    let rest = lines.remove(i);
    let front = lines.drop_last();
    assert(distinct_names(rest)) by {
        assert forall|a: int, b: int| 0 <= a < b < rest.len() implies (#[trigger] rest[a]).name != (
        #[trigger] rest[b]).name by {
            let a0 = if a < i {
                a
            } else {
                a + 1
            };
            let b0 = if b < i {
                b
            } else {
                b + 1
            };
            assert(lines[a0].name != lines[b0].name);
        }
    }
    assert(distinct_names(front)) by {
        assert forall|a: int, b: int| 0 <= a < b < front.len() implies (#[trigger] front[a]).name
            != (#[trigger] front[b]).name by {
            assert(lines[a].name != lines[b].name);
        }
    }
    if i == lines.len() - 1 {
        assert(rest =~= front);
        lemma_map_of_names(front, lines[i].name);
        if has_name(front, lines[i].name) {
            let k = choose|k: int| 0 <= k < front.len() && (#[trigger] front[k]).name == lines[i].name;
            assert(lines[k].name != lines[i].name);
        }
        assert(map_of(rest) =~= map_of(lines).remove(lines[i].name));
    } else {
        lemma_map_of_remove(front, i);
        assert(front[i] == lines[i]);
        assert(rest.drop_last() =~= front.remove(i));
        assert(rest.last() == lines.last());
        assert(lines[i].name != lines[lines.len() - 1].name);
        assert(map_of(rest) =~= map_of(lines).remove(lines[i].name));
    }
}

/// The projects by name: a mapping from each name to one path.
#[derive(Debug, Clone, PartialEq, Eq)]
pub struct ProjectMap {
    projects: Vec<ProjectIndex>,
}

impl View for ProjectMap {
    type V = Map<Seq<char>, Seq<char>>;

    closed spec fn view(&self) -> Map<Seq<char>, Seq<char>> {
        map_of(projects_view(self.projects@))
    }
}

impl ProjectMap {
    /// The invariant of the mapping: no name is held twice.
    pub closed spec fn well_formed(&self) -> bool {
        distinct_names(projects_view(self.projects@))
    }

    /// The mapping without any project.
    pub fn new() -> (made: ProjectMap)
        ensures
            made.well_formed(),
            made@ == Map::<Seq<char>, Seq<char>>::empty(),
    {
        ProjectMap { projects: Vec::new() }
    }

    /// Where the line with the given name stands, if there is one.
    fn position(&self, name: &String) -> (found: Option<usize>)
        ensures
            match found {
                Some(i) => i < self.projects@.len() && self.projects@[i as int].name@ == name@,
                None => !has_name(projects_view(self.projects@), name@),
            },
    {
        let n: usize = self.projects.len();
        let mut i: usize = 0;
        while i < n
            invariant
                n == self.projects@.len(),
                i <= n,
                forall|k: int| 0 <= k < i ==> self.projects@[k].name@ != name@,
            decreases n - i,
        {
            if self.projects[i].name == *name {
                return Some(i);
            }
            i += 1;
        }
        proof {
            let lines = projects_view(self.projects@);
            if has_name(lines, name@) {
                let k = choose|k: int| 0 <= k < lines.len() && (#[trigger] lines[k]).name == name@;
                assert(self.projects@[k].name@ != name@);
            }
        }
        None
    }

    /// The path of the project with the given name, if the mapping holds
    /// one.
    pub fn get(&self, name: &String) -> (path: Option<&String>)
        requires
            self.well_formed(),
        ensures
            match path {
                Some(p) => self@.contains_key(name@) && self@[name@] == p@,
                None => !self@.contains_key(name@),
            },
    {
        proof {
            lemma_map_of_names(projects_view(self.projects@), name@);
        }
        match self.position(name) {
            Some(i) => {
                proof {
                    lemma_map_of_line(projects_view(self.projects@), i as int);
                }
                Some(&self.projects[i].path)
            },
            None => None,
        }
    }

    /// Maps `name` to `path`, in place of the path it was mapped to, if
    /// any.
    pub fn insert(&mut self, name: String, path: String)
        requires
            old(self).well_formed(),
        ensures
            final(self).well_formed(),
            final(self)@ == old(self)@.insert(name@, path@),
    {
        let ghost before = projects_view(self.projects@);
        match self.position(&name) {
            Some(i) => {
                self.projects.set(i, ProjectIndex { name, path });
                proof {
                    lemma_map_of_update(before, i as int, path@);
                    assert(projects_view(self.projects@) =~= before.update(
                        i as int,
                        ProjectView { name: before[i as int].name, path: path@ },
                    ));
                }
            },
            None => {
                self.projects.push(ProjectIndex { name, path });
                proof {
                    let after = projects_view(self.projects@);
                    assert(after.drop_last() =~= before);
                    assert forall|a: int, b: int| 0 <= a < b < after.len() implies (
                    #[trigger] after[a]).name != (#[trigger] after[b]).name by {
                        if b < after.len() - 1 {
                            assert(before[a].name != before[b].name);
                        } else {
                            assert(before[a].name == after[a].name);
                        }
                    }
                }
            },
        }
    }

    /// Takes the project with the given name out of the mapping and hands
    /// back the path it had, if any.
    pub fn remove(&mut self, name: &String) -> (path: Option<String>)
        requires
            old(self).well_formed(),
        ensures
            final(self).well_formed(),
            final(self)@ == old(self)@.remove(name@),
            match path {
                Some(p) => old(self)@.contains_key(name@) && old(self)@[name@] == p@,
                None => !old(self)@.contains_key(name@),
            },
    {
        proof {
            lemma_map_of_names(projects_view(self.projects@), name@);
        }
        let ghost before = projects_view(self.projects@);
        match self.position(name) {
            Some(i) => {
                proof {
                    lemma_map_of_line(before, i as int);
                    lemma_map_of_remove(before, i as int);
                }
                let line = self.projects.remove(i);
                proof {
                    assert(projects_view(self.projects@) =~= before.remove(i as int));
                }
                Some(line.path)
            },
            None => {
                proof {
                    assert(self@.remove(name@) =~= self@);
                }
                None
            },
        }
    }

    /// The mapping that the lines of an index build up when they are
    /// entered in order: of two lines with one name the later one stays.
    pub fn from_index(index: IndexFile) -> (made: ProjectMap)
        ensures
            made.well_formed(),
            made@ == map_of(index@),
    {
        let mut made = ProjectMap::new();
        let mut lines = index.project_indexes;
        let ghost all = index@;
        let n: usize = lines.len();
        let mut rest: Vec<ProjectIndex> = Vec::new();
        // Take the lines from the back, then enter them front to back.
        while lines.len() > 0
            invariant
                lines@.len() + rest@.len() == n,
                all.len() == n,
                forall|k: int| 0 <= k < lines@.len() ==> lines@[k]@ == all[k],
                forall|k: int|
                    0 <= k < rest@.len() ==> (#[trigger] rest@[k])@ == all[n - 1 - k],
            decreases lines@.len(),
        {
            let line = lines.pop().unwrap();
            rest.push(line);
        }
        let mut done: usize = 0;
        while rest.len() > 0
            invariant
                done + rest@.len() == n,
                all.len() == n,
                forall|k: int|
                    0 <= k < rest@.len() ==> (#[trigger] rest@[k])@ == all[n - 1 - k],
                made.well_formed(),
                made@ == map_of(all.take(done as int)),
            decreases rest@.len(),
        {
            let line = rest.pop().unwrap();
            proof {
                assert(line@ == all[done as int]);
                assert(all.take(done + 1).drop_last() =~= all.take(done as int));
            }
            made.insert(line.name, line.path);
            done += 1;
        }
        proof {
            assert(all.take(n as int) =~= all);
        }
        made
    }

    /// The lines of the mapping, one for each name: an index that builds
    /// up this mapping again.
    pub fn to_index(&self) -> (index: IndexFile)
        requires
            self.well_formed(),
        ensures
            map_of(index@) == self@,
            distinct_names(index@),
    {
        let n: usize = self.projects.len();
        let mut lines: Vec<ProjectIndex> = Vec::new();
        let mut i: usize = 0;
        while i < n
            invariant
                n == self.projects@.len(),
                i <= n,
                lines@.len() == i,
                forall|k: int| 0 <= k < i ==> (#[trigger] lines@[k])@ == self.projects@[k]@,
            decreases n - i,
        {
            let line = ProjectIndex {
                name: self.projects[i].name.clone(),
                path: self.projects[i].path.clone(),
            };
            lines.push(line);
            i += 1;
        }
        proof {
            assert(projects_view(lines@) =~= projects_view(self.projects@));
        }
        IndexFile { project_indexes: lines }
    }
}

} // verus!
