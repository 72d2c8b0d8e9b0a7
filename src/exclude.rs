use vstd::prelude::*;

verus! {

/// Names to skip during a walk, matched exactly against a path's last component.
pub struct ExclusionSet {
    names: Vec<String>,
}

impl View for ExclusionSet {
    type V = Set<Seq<char>>;

    closed spec fn view(&self) -> Set<Seq<char>> {
        Set::new(|n: Seq<char>| exists|i: int| 0 <= i < self.names@.len() && (#[trigger] self.names@[i])@ == n)
    }
}

/// A path that is one plain component: every platform reads it as its own file name.
pub open spec fn is_plain_name(p: Seq<char>) -> bool {
    &&& p.len() > 0
    &&& p != seq!['.']
    &&& p != seq!['.', '.']
    &&& forall|i: int| 0 <= i < p.len() ==> #[trigger] p[i] != '/' && p[i] != '\\' && p[i] != ':'
}

/// Relies on `std::path::Path::file_name`: the last component of a path, if it
/// has one; a path made of one plain name is its own last component.
#[verifier::external_body]
fn base_name(path: &str) -> (r: Option<String>)
    ensures
        is_plain_name(path@) ==> r is Some && r->0@ == path@,
{
    std::path::Path::new(path).file_name().and_then(|n| n.to_str()).map(|n| n.to_string())
}

impl ExclusionSet {
    /// The empty set.
    pub fn new() -> (r: ExclusionSet)
        ensures
            r@ == Set::<Seq<char>>::empty(),
    {
        let r = ExclusionSet { names: Vec::new() };
        assert(r@ =~= Set::<Seq<char>>::empty());
        r
    }

    /// Adds `name` to the set.
    pub fn insert(&mut self, name: String)
        ensures
            final(self)@ == old(self)@.insert(name@),
    {
        let ghost before = self.names@;
        self.names.push(name);
        proof {
            assert forall|n: Seq<char>| #[trigger] self@.contains(n) == old(self)@.insert(name@).contains(n) by {
                if old(self)@.contains(n) {
                    let i = choose|i: int| 0 <= i < before.len() && (#[trigger] before[i])@ == n;
                    assert(self.names@[i] == before[i]);
                }
                if self@.contains(n) && n != name@ {
                    let i = choose|i: int| 0 <= i < self.names@.len() && (#[trigger] self.names@[i])@ == n;
                    assert(before[i] == self.names@[i]);
                }
                if n == name@ {
                    assert(self.names@[before.len() as int]@ == n);
                }
            }
            assert(self@ =~= old(self)@.insert(name@));
        }
    }

    /// Builds the set of the given names.
    pub fn from_names(names: Vec<String>) -> (r: ExclusionSet)
        ensures
            r@ == names@.map_values(|s: String| s@).to_set(),
    {
        let r = ExclusionSet { names };
        proof {
            let m = names@.map_values(|s: String| s@);
            assert forall|n: Seq<char>| #[trigger] r@.contains(n) == m.to_set().contains(n) by {
                if r@.contains(n) {
                    let i = choose|i: int| 0 <= i < names@.len() && (#[trigger] names@[i])@ == n;
                    assert(m[i] == n);
                }
                if m.to_set().contains(n) {
                    let i = choose|i: int| 0 <= i < m.len() && m[i] == n;
                    assert(names@[i]@ == n);
                }
            }
            assert(r@ =~= m.to_set());
        }
        r
    }

    /// Whether `name` is in the set, by exact (case-sensitive) comparison.
    pub fn contains(&self, name: &String) -> (r: bool)
        ensures
            r == self@.contains(name@),
    {
        let mut i: usize = 0;
        while i < self.names.len()
            invariant
                i <= self.names@.len(),
                forall|j: int| 0 <= j < i ==> (#[trigger] self.names@[j])@ != name@,
            decreases self.names@.len() - i,
        {
            if self.names[i] == *name {
                assert(self.names@[i as int]@ == name@);
                return true;
            }
            i = i + 1;
        }
        false
    }

    /// Whether a path whose last component is `name` is excluded; a path
    /// without a usable last component (`None`) never is.
    pub fn excludes_base_name(&self, name: &Option<String>) -> (r: bool)
        ensures
            r == (name matches Some(n) && self@.contains(n@)),
    {
        match name {
            Some(n) => self.contains(n),
            None => false,
        }
    }
}

/// Whether `path` is skipped: its last component is in `excluded_names`. A
/// path whose last component cannot be taken is not skipped.
pub fn should_exclude(path: &str, excluded_names: &ExclusionSet) -> (r: bool)
    ensures
        is_plain_name(path@) ==> r == excluded_names@.contains(path@),
        r ==> exists|n: Seq<char>| excluded_names@.contains(n),
{
    let name = base_name(path);
    excluded_names.excludes_base_name(&name)
}

} // verus!
