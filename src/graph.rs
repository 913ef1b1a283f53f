use vstd::prelude::*;
use crate::ast::{Location, Node};
use crate::error::{ErrorKind, RuntimeError};

verus! {

/// A component name used in a file, and the file it is imported from.
#[derive(Debug, PartialEq)]
pub struct Import {
    pub id: String,
    pub file_path: String,
}

/// A loaded file: its parsed document and its import table.
#[derive(Debug, PartialEq)]
pub struct Dependency {
    pub file_path: String,
    pub expression: Node,
    pub dependencies: Vec<Import>,
}

/// The loaded files, looked up by path; the first entry for a path is the one used.
#[derive(Debug, PartialEq)]
pub struct DependencyGraph {
    pub dependencies: Vec<Dependency>,
}

pub open spec fn is_first_dep(deps: Seq<Dependency>, path: Seq<char>, i: usize) -> bool {
    &&& i < deps.len()
    &&& deps[i as int].file_path@ == path
    &&& forall|j: int| 0 <= j < i ==> deps[j].file_path@ != path
}

/// The index of the entry for `path`.
pub open spec fn dep_index(deps: Seq<Dependency>, path: Seq<char>) -> Option<usize> {
    if exists|i: usize| is_first_dep(deps, path, i) {
        Some(choose|i: usize| is_first_dep(deps, path, i))
    } else {
        None
    }
}

pub open spec fn is_first_import(imps: Seq<Import>, id: Seq<char>, i: usize) -> bool {
    &&& i < imps.len()
    &&& imps[i as int].id@ == id
    &&& forall|j: int| 0 <= j < i ==> imps[j].id@ != id
}

/// The file that `id` is imported from, by the first import of that name.
pub open spec fn import_path(imps: Seq<Import>, id: Seq<char>) -> Option<Seq<char>> {
    if exists|i: usize| is_first_import(imps, id, i) {
        Some(imps[(choose|i: usize| is_first_import(imps, id, i)) as int].file_path@)
    } else {
        None
    }
}

pub open spec fn no_location() -> Location {
    Location { start: 0, end: 0 }
}

pub open spec fn unresolved(loc: Location) -> RuntimeError {
    RuntimeError { kind: ErrorKind::UnresolvedReference, location: loc }
}

pub open spec fn cyclic() -> RuntimeError {
    RuntimeError { kind: ErrorKind::CyclicDependency, location: no_location() }
}

/// Depth-first walk of the imports from `path`: each file once, before its
/// imports, in import order. `stack` holds the files being walked, `seen` the
/// files already listed; `fuel` bounds the depth.
pub open spec fn flatten_file(
    deps: Seq<Dependency>,
    path: Seq<char>,
    fuel: nat,
    stack: Seq<usize>,
    seen: Seq<usize>,
) -> Result<Seq<usize>, RuntimeError>
    decreases fuel, 0int,
{
    match dep_index(deps, path) {
        None => Err(unresolved(no_location())),
        Some(k) => if stack.contains(k) || fuel == 0 {
            Err(cyclic())
        } else if seen.contains(k) {
            Ok(seen)
        } else {
            flatten_imports(deps, deps[k as int].dependencies@, 0, (fuel - 1) as nat, stack.push(k), seen.push(k))
        },
    }
}

pub open spec fn flatten_imports(
    deps: Seq<Dependency>,
    imps: Seq<Import>,
    i: int,
    fuel: nat,
    stack: Seq<usize>,
    seen: Seq<usize>,
) -> Result<Seq<usize>, RuntimeError>
    decreases fuel, imps.len() - i + 1,
{
    if i < 0 || i >= imps.len() {
        Ok(seen)
    } else {
        match flatten_file(deps, imps[i].file_path@, fuel, stack, seen) {
            Err(e) => Err(e),
            Ok(seen2) => flatten_imports(deps, imps, i + 1, fuel, stack, seen2),
        }
    }
}

/// The file at `path` followed by everything it imports, directly or not.
pub open spec fn flatten_spec(deps: Seq<Dependency>, path: Seq<char>) -> Result<Seq<usize>, RuntimeError> {
    flatten_file(deps, path, deps.len() as nat, Seq::empty(), Seq::empty())
}

pub fn contains_index(v: &Vec<usize>, k: usize) -> (r: bool)
    ensures
        r == v@.contains(k),
{
    let mut i: usize = 0;
    while i < v.len()
        invariant
            i <= v@.len(),
            forall|j: int| 0 <= j < i ==> v@[j] != k,
        decreases v.len() - i,
    {
        if v[i] == k {
            return true;
        }
        i += 1;
    }
    false
}

pub fn find_import<'a>(imps: &'a Vec<Import>, id: &String) -> (r: Option<&'a String>)
    ensures
        match r {
            Some(p) => import_path(imps@, id@) == Some(p@),
            None => import_path(imps@, id@) is None,
        },
{
    let mut i: usize = 0;
    while i < imps.len()
        invariant
            i <= imps@.len(),
            forall|j: int| 0 <= j < i ==> imps@[j].id@ != id@,
        decreases imps.len() - i,
    {
        if imps[i].id == *id {
            proof {
                assert(is_first_import(imps@, id@, i));
                let c = choose|c: usize| is_first_import(imps@, id@, c);
                assert(c == i);
            }
            return Some(&imps[i].file_path);
        }
        i += 1;
    }
    None
}

impl DependencyGraph {
    /// A graph with no files.
    pub fn new() -> (r: DependencyGraph)
        ensures
            r.dependencies@.len() == 0,
    {
        DependencyGraph { dependencies: Vec::new() }
    }

    /// The index of the entry for `path`.
    pub fn find(&self, path: &String) -> (r: Option<usize>)
        ensures
            r == dep_index(self.dependencies@, path@),
    {
        let deps = &self.dependencies;
        let mut i: usize = 0;
        while i < deps.len()
            invariant
                i <= deps@.len(),
                deps@ == self.dependencies@,
                forall|j: int| 0 <= j < i ==> deps@[j].file_path@ != path@,
            decreases deps.len() - i,
        {
            if deps[i].file_path == *path {
                proof {
                    assert(is_first_dep(deps@, path@, i));
                    let c = choose|c: usize| is_first_dep(deps@, path@, c);
                    assert(c == i);
                }
                return Some(i);
            }
            i += 1;
        }
        None
    }

    fn flatten_file(
        &self,
        path: &String,
        fuel: usize,
        stack: &mut Vec<usize>,
        seen: &mut Vec<usize>,
    ) -> (r: Result<(), RuntimeError>)
        ensures
            final(stack)@ == old(stack)@,
            match flatten_file(self.dependencies@, path@, fuel as nat, old(stack)@, old(seen)@) {
                Ok(s) => r is Ok && final(seen)@ == s,
                Err(e) => r == Err::<(), RuntimeError>(e),
            },
        decreases fuel, 0int,
    {
        match self.find(path) {
            None => Err(RuntimeError { kind: ErrorKind::UnresolvedReference, location: Location { start: 0, end: 0 } }),
            Some(k) => {
                if contains_index(stack, k) || fuel == 0 {
                    Err(RuntimeError { kind: ErrorKind::CyclicDependency, location: Location { start: 0, end: 0 } })
                } else if contains_index(seen, k) {
                    Ok(())
                } else {
                    let ghost s0 = stack@;
                    stack.push(k);
                    seen.push(k);
                    let r = self.flatten_imports(&self.dependencies[k].dependencies, 0, fuel - 1, stack, seen);
                    stack.pop();
                    proof {
                        assert(stack@ =~= s0);
                    }
                    r
                }
            },
        }
    }

    fn flatten_imports(
        &self,
        imps: &Vec<Import>,
        i: usize,
        fuel: usize,
        stack: &mut Vec<usize>,
        seen: &mut Vec<usize>,
    ) -> (r: Result<(), RuntimeError>)
        requires
            i <= imps@.len(),
        ensures
            final(stack)@ == old(stack)@,
            match flatten_imports(self.dependencies@, imps@, i as int, fuel as nat, old(stack)@, old(seen)@) {
                Ok(s) => r is Ok && final(seen)@ == s,
                Err(e) => r == Err::<(), RuntimeError>(e),
            },
        decreases fuel, imps@.len() - i + 1,
    {
        if i >= imps.len() {
            return Ok(());
        }
        match self.flatten_file(&imps[i].file_path, fuel, stack, seen) {
            Err(e) => Err(e),
            Ok(()) => self.flatten_imports(imps, i + 1, fuel, stack, seen),
        }
    }

    /// The indices of the entry for `file_path` and of every file it imports,
    /// directly or not: each once, a file before its imports, in import order.
    pub fn flatten(&self, file_path: &String) -> (r: Result<Vec<usize>, RuntimeError>)
        ensures
            match flatten_spec(self.dependencies@, file_path@) {
                Ok(s) => r is Ok && r->Ok_0@ == s,
                Err(e) => r == Err::<Vec<usize>, RuntimeError>(e),
            },
    {
        let mut stack: Vec<usize> = Vec::new();
        let mut seen: Vec<usize> = Vec::new();
        proof {
            assert(stack@ =~= Seq::<usize>::empty());
            assert(seen@ =~= Seq::<usize>::empty());
        }
        match self.flatten_file(file_path, self.dependencies.len(), &mut stack, &mut seen) {
            Ok(()) => Ok(seen),
            Err(e) => Err(e),
        }
    }
}

} // verus!
