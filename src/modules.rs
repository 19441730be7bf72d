use vstd::prelude::*;
use crate::naming::views;
use crate::templates::same_tuple;

verus! {

/// One enclosing scope of a declaration: a named namespace or record, or
/// an anonymous namespace.
#[derive(Debug, Clone)]
pub enum Scope {
    Named(String),
    Anonymous,
}

/// The module segment of a scope. An anonymous scope gets a segment that
/// only the generated output uses.
pub open spec fn segment_of(s: Scope) -> Seq<char> {
    match s {
        Scope::Named(n) => n@,
        Scope::Anonymous => "anonymous"@,
    }
}

/// The module path that mirrors a scope path, one segment per scope.
pub fn module_segments(scopes: &Vec<Scope>) -> (r: Vec<String>)
    ensures
        views(r@) == scopes@.map_values(|s: Scope| segment_of(s)),
{
    let mut r: Vec<String> = Vec::new();
    let mut i: usize = 0;
    while i < scopes.len()
        invariant
            0 <= i <= scopes@.len(),
            views(r@) == scopes@.take(i as int).map_values(|s: Scope| segment_of(s)),
        decreases scopes@.len() - i,
    {
        let seg = match &scopes[i] {
            Scope::Named(n) => n.clone(),
            Scope::Anonymous => String::from_str("anonymous"),
        };
        let ghost before = r@;
        r.push(seg);
        assert(views(r@) =~= views(before).push(seg@));
        assert(views(r@) =~= scopes@.take(i as int + 1).map_values(|s: Scope| segment_of(s)));
        i += 1;
    }
    assert(scopes@.take(scopes@.len() as int) =~= scopes@);
    r
}

/// The non-empty prefixes of a path are its enclosing modules.
pub open spec fn is_enclosing(path: Seq<Seq<char>>, m: Seq<Seq<char>>) -> bool {
    1 <= m.len() <= path.len() && m == path.take(m.len() as int)
}

/// The modules of a generated wrapper, each listed once.
pub struct ModuleTree {
    modules: Vec<Vec<String>>,
}

impl View for ModuleTree {
    type V = Seq<Seq<Seq<char>>>;

    closed spec fn view(&self) -> Seq<Seq<Seq<char>>> {
        self.modules@.map_values(|m: Vec<String>| views(m@))
    }
}

impl ModuleTree {
    pub fn new() -> (r: Self)
        ensures
            r@ == Seq::<Seq<Seq<char>>>::empty(),
    {
        ModuleTree { modules: Vec::new() }
    }

    /// Whether the tree holds the module at `path`.
    pub fn contains(&self, path: &Vec<String>) -> (r: bool)
        ensures
            r == self@.contains(views(path@)),
    {
        let mut i: usize = 0;
        while i < self.modules.len()
            invariant
                0 <= i <= self.modules@.len(),
                forall|j: int| 0 <= j < i ==> views(self.modules@[j]@) != views(path@),
            decreases self.modules@.len() - i,
        {
            if same_tuple(&self.modules[i], path) {
                assert(self@[i as int] == views(path@));
                return true;
            }
            i += 1;
        }
        false
    }

    /// Adds the module at `path` and every module that encloses it; those
    /// already present are not listed again.
    pub fn add_path(&mut self, path: &Vec<String>)
        ensures
            forall|m: Seq<Seq<char>>| is_enclosing(views(path@), m) ==> final(self)@.contains(m),
            forall|m: Seq<Seq<char>>| #[trigger] final(self)@.contains(m)
                ==> old(self)@.contains(m) || is_enclosing(views(path@), m),
            old(self)@.no_duplicates() ==> final(self)@.no_duplicates(),
    {
        let ghost start = self@;
        let mut prefix: Vec<String> = Vec::new();
        let mut i: usize = 0;
        while i < path.len()
            invariant
                0 <= i <= path@.len(),
                views(prefix@) == views(path@).take(i as int),
                forall|k: int| 1 <= k <= i ==> self@.contains(#[trigger] views(path@).take(k)),
                forall|m: Seq<Seq<char>>| #[trigger] self@.contains(m) ==> start.contains(m) || is_enclosing(views(path@), m),
                start.no_duplicates() ==> self@.no_duplicates(),
            decreases path@.len() - i,
        {
            let ghost p0 = prefix@;
            prefix.push(path[i].clone());
            assert(views(prefix@) =~= views(p0).push(path@[i as int]@));
            assert(views(prefix@) =~= views(path@).take(i as int + 1));
            if !self.contains(&prefix) {
                let ghost before = self@;
                self.modules.push(prefix.clone());
                assert(self@ =~= before.push(views(prefix@)));
                assert forall|m: Seq<Seq<char>>| #[trigger] self@.contains(m) implies start.contains(m) || is_enclosing(views(path@), m) by {
                    if m != views(prefix@) {
                        let j = choose|j: int| 0 <= j < self@.len() && self@[j] == m;
                        assert(before[j] == m);
                        assert(before.contains(m));
                    } else {
                        assert(views(path@).take(i as int + 1).len() == i + 1);
                    }
                }
                assert forall|k: int| 1 <= k <= i + 1 implies self@.contains(#[trigger] views(path@).take(k)) by {
                    if k <= i {
                        let j = choose|j: int| 0 <= j < before.len() && before[j] == views(path@).take(k);
                        assert(self@[j] == views(path@).take(k));
                    } else {
                        assert(self@[self@.len() - 1] == views(path@).take(k));
                    }
                }
            }
            i += 1;
        }
        assert forall|m: Seq<Seq<char>>| is_enclosing(views(path@), m) implies self@.contains(m) by {
            assert(self@.contains(views(path@).take(m.len() as int)));
        }
    }
}

} // verus!
