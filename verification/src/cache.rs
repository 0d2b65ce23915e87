//! A template cache: compiled templates keyed by the path they were parsed
//! from, each handed out as a shared handle. The cache never returns two
//! different compiled instances for one path within its lifetime; it is
//! cleared explicitly by the caller, never behind its back.

use vstd::prelude::*;

verus! {

/// Compiled templates by path. `T` is whatever a template backend compiles a
/// template file into.
pub struct TemplateCache<T> {
    entries: Vec<(String, std::rc::Rc<T>)>,
}

/// The mapping a list of cache entries stands for; a later entry for the same
/// path would win, though the cache never makes one.
pub open spec fn cache_map<T>(s: Seq<(String, std::rc::Rc<T>)>) -> Map<Seq<char>, std::rc::Rc<T>>
    decreases s.len(),
{
    if s.len() == 0 {
        Map::empty()
    } else {
        cache_map(s.drop_last()).insert(s.last().0@, s.last().1)
    }
}

impl<T> View for TemplateCache<T> {
    type V = Map<Seq<char>, std::rc::Rc<T>>;

    closed spec fn view(&self) -> Map<Seq<char>, std::rc::Rc<T>> {
        cache_map(self.entries@)
    }
}

/// A second handle to the same shared value.
///
/// Relies on `Rc::clone`: the clone is the same allocation, so it carries the
/// same value.
#[verifier::external_body]
pub(crate) fn rc_clone<T>(rc: &std::rc::Rc<T>) -> (r: std::rc::Rc<T>)
    ensures
        r == *rc,
{
    std::rc::Rc::clone(rc)
}

impl<T> TemplateCache<T> {
    /// An empty cache.
    pub fn new() -> (r: TemplateCache<T>)
        ensures
            r@ == Map::<Seq<char>, std::rc::Rc<T>>::empty(),
    {
        let c = TemplateCache { entries: Vec::new() };
        proof {
            assert(c@ =~= Map::<Seq<char>, std::rc::Rc<T>>::empty());
        }
        c
    }

    /// The cached handle for a path, where there is one: always the handle
    /// that was stored, never a fresh instance.
    pub fn get(&self, path: &String) -> (r: Option<std::rc::Rc<T>>)
        ensures
            match r {
                Some(t) => self@.contains_key(path@) && t == self@[path@],
                None => !self@.contains_key(path@),
            },
    {
        let mut i = self.entries.len();
        proof {
            assert(self.entries@.take(i as int) =~= self.entries@);
        }
        while i > 0
            invariant
                0 <= i <= self.entries@.len(),
                cache_map(self.entries@.take(i as int)).contains_key(path@) == self@.contains_key(
                    path@,
                ),
                cache_map(self.entries@.take(i as int)).contains_key(path@) ==> cache_map(
                    self.entries@.take(i as int),
                )[path@] == self@[path@],
            decreases i,
        {
            proof {
                assert(self.entries@.take(i as int).last() == self.entries@[i as int - 1]);
                assert(self.entries@.take(i as int).drop_last() =~= self.entries@.take(i as int - 1));
            }
            if self.entries[i - 1].0.eq(path) {
                return Some(rc_clone(&self.entries[i - 1].1));
            }
            i -= 1;
        }
        proof {
            assert(self.entries@.take(0).len() == 0);
        }
        None
    }

    /// Stores the compiled template for a path it does not hold yet and
    /// returns the shared handle that every later `get` for the path returns.
    pub fn insert(&mut self, path: String, template: T) -> (r: std::rc::Rc<T>)
        requires
            !old(self)@.contains_key(path@),
        ensures
            r == template,
            final(self)@ == old(self)@.insert(path@, r),
    {
        let rc = std::rc::Rc::new(template);
        let out = rc_clone(&rc);
        let ghost entries_old = self.entries@;
        self.entries.push((path, rc));
        proof {
            assert(self.entries@.drop_last() =~= entries_old);
        }
        out
    }

    /// Drops every entry. The cache does not watch the filesystem: call this
    /// when template files may have changed.
    pub fn clear(&mut self)
        ensures
            final(self)@ == Map::<Seq<char>, std::rc::Rc<T>>::empty(),
    {
        self.entries.clear();
        proof {
            assert(self@ =~= Map::<Seq<char>, std::rc::Rc<T>>::empty());
        }
    }
}

} // verus!
