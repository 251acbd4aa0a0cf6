//! The scope chain: frames of bindings, the innermost searched first.

use vstd::hash_map::StringHashMap;
use vstd::prelude::*;

verus! {

/// The bindings of one frame: a value for each name declared in it.
pub type Frame<T> = Map<Seq<char>, T>;

/// The value bound to `name` in the innermost frame that binds it. The
/// frames stand outermost first.
pub open spec fn lookup<T>(frames: Seq<Frame<T>>, name: Seq<char>) -> Option<T>
    decreases frames.len(),
{
    if frames.len() == 0 {
        None
    } else if frames.last().contains_key(name) {
        Some(frames.last()[name])
    } else {
        lookup(frames.drop_last(), name)
    }
}

/// The index of the innermost frame that binds `name`.
pub open spec fn holder<T>(frames: Seq<Frame<T>>, name: Seq<char>) -> Option<int>
    decreases frames.len(),
{
    if frames.len() == 0 {
        None
    } else if frames.last().contains_key(name) {
        Some(frames.len() - 1)
    } else {
        holder(frames.drop_last(), name)
    }
}

/// The frames with `name` bound to `value` in frame `at`.
pub open spec fn bind<T>(frames: Seq<Frame<T>>, at: int, name: Seq<char>, value: T) -> Seq<
    Frame<T>,
> {
    frames.update(at, frames[at].insert(name, value))
}

/// The frames with `name` bound to `value` in the innermost frame.
pub open spec fn declare<T>(frames: Seq<Frame<T>>, name: Seq<char>, value: T) -> Seq<Frame<T>> {
    bind(frames, frames.len() - 1, name, value)
}

/// The frames with `value` given to `name` where it is bound, and in the
/// innermost frame where no frame binds it.
pub open spec fn assign<T>(frames: Seq<Frame<T>>, name: Seq<char>, value: T) -> Seq<Frame<T>> {
    match holder(frames, name) {
        Some(at) => bind(frames, at, name, value),
        None => declare(frames, name, value),
    }
}

/// One frame of a scope: the variables declared in one block.
#[verifier::reject_recursive_types(T)]
pub struct GenericScope<T> {
    pub variables: StringHashMap<T>,
}

impl<T> View for GenericScope<T> {
    type V = Frame<T>;

    open spec fn view(&self) -> Frame<T> {
        self.variables@
    }
}

/// A chain of frames. Its view holds the frames outermost first; there is
/// always at least one.
#[verifier::reject_recursive_types(T)]
pub struct Scope<T> {
    outer: Vec<GenericScope<T>>,
    innermost: GenericScope<T>,
}

impl<T> View for Scope<T> {
    type V = Seq<Frame<T>>;

    closed spec fn view(&self) -> Seq<Frame<T>> {
        self.outer@.map_values(|frame: GenericScope<T>| frame@).push(self.innermost@)
    }
}

impl<T> Scope<T> {
    /// A scope of one empty frame.
    pub fn new() -> (scope: Self)
        ensures
            scope@ == seq![Map::<Seq<char>, T>::empty()],
    {
        let scope = Self {
            outer: Vec::new(),
            innermost: GenericScope { variables: StringHashMap::new() },
        };
        assert(scope@ =~= seq![Map::<Seq<char>, T>::empty()]);
        scope
    }

    /// This scope with a new, empty frame inside its innermost one.
    pub fn child(self) -> (scope: Self)
        ensures
            scope@ == self@.push(Map::empty()),
    {
        let mut outer = self.outer;
        outer.push(self.innermost);
        let scope = Self { outer, innermost: GenericScope { variables: StringHashMap::new() } };
        assert(scope@ =~= self@.push(Map::empty()));
        scope
    }

    /// This scope without its innermost frame, or `None` where it has no
    /// other.
    pub fn parent(self) -> (scope: Option<Self>)
        ensures
            self@.len() > 0,
            match scope {
                Some(scope) => self@.len() > 1 && scope@ == self@.drop_last(),
                None => self@.len() == 1,
            },
    {
        let mut outer = self.outer;
        match outer.pop() {
            Some(innermost) => {
                let scope = Self { outer, innermost };
                assert(scope@ =~= self@.drop_last());
                Some(scope)
            },
            None => None,
        }
    }

    /// The value bound to `name`, looked for from the innermost frame
    /// outwards.
    pub fn get(&self, name: &str) -> (value: Option<&T>)
        ensures
            match value {
                Some(value) => lookup(self@, name@) == Some(*value),
                None => lookup(self@, name@) is None,
            },
    {
        match self.innermost.variables.get(name) {
            Some(value) => {
                return Some(value);
            },
            None => {},
        }
        let ghost frames = self.outer@.map_values(|frame: GenericScope<T>| frame@);
        assert(self@.drop_last() =~= frames);
        assert(frames.take(frames.len() as int) =~= frames);
        let mut i = self.outer.len();
        while i > 0
            invariant
                i <= self.outer.len(),
                frames == self.outer@.map_values(|frame: GenericScope<T>| frame@),
                lookup(self@, name@) == lookup(frames.take(i as int), name@),
            decreases i,
        {
            i -= 1;
            assert(frames.take(i + 1).drop_last() =~= frames.take(i as int));
            match self.outer[i].variables.get(name) {
                Some(value) => {
                    return Some(value);
                },
                None => {},
            }
        }
        None
    }

    /// A scope always has a frame.
    pub proof fn lemma_has_frame(&self)
        ensures
            self@.len() > 0,
    {
    }

    /// Binds `name` to `value` in the innermost frame.
    pub fn insert(&mut self, name: &str, value: T)
        ensures
            final(self)@ == declare(old(self)@, name@, value),
    {
        self.innermost.variables.insert(name.to_owned(), value);
        assert(self@ =~= declare(old(self)@, name@, value));
    }

    /// Gives `value` to `name` in the innermost frame that binds it, and
    /// binds it in the innermost frame where none does.
    pub fn set(&mut self, name: &str, value: T)
        ensures
            final(self)@ == assign(old(self)@, name@, value),
    {
        if self.innermost.variables.contains_key(name) {
            self.innermost.variables.insert(name.to_owned(), value);
            assert(self@ =~= assign(old(self)@, name@, value));
            return ;
        }
        let ghost frames = self.outer@.map_values(|frame: GenericScope<T>| frame@);
        assert(old(self)@.drop_last() =~= frames);
        assert(frames.take(frames.len() as int) =~= frames);
        let mut i = self.outer.len();
        while i > 0
            invariant
                i <= self.outer.len(),
                *self == *old(self),
                frames == self.outer@.map_values(|frame: GenericScope<T>| frame@),
                holder(self@, name@) == holder(frames.take(i as int), name@),
            decreases i,
        {
            i -= 1;
            assert(frames.take(i + 1).drop_last() =~= frames.take(i as int));
            if self.outer[i].variables.contains_key(name) {
                self.outer[i].variables.insert(name.to_owned(), value);
                assert(self@ =~= assign(old(self)@, name@, value));
                return ;
            }
        }
        self.innermost.variables.insert(name.to_owned(), value);
        assert(self@ =~= assign(old(self)@, name@, value));
    }
}

} // verus!
