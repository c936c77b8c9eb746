use vstd::prelude::*;

verus! {

/// A half-open byte range `[.0, .1)` of the source text.
#[derive(Debug, Clone, Copy, PartialEq, Eq, Hash)]
pub struct Loc(pub usize, pub usize);

impl Loc {
    /// The span runs from its start to its end, never backwards.
    pub open spec fn wf(self) -> bool {
        self.0 <= self.1
    }

    /// The span lies inside a source text of `len` bytes.
    pub open spec fn within(self, len: int) -> bool {
        self.0 <= self.1 <= len
    }

    /// The smallest span that covers both `self` and `other`.
    pub open spec fn spec_merge(self, other: Loc) -> Loc {
        Loc(
            if self.0 <= other.0 { self.0 } else { other.0 },
            if self.1 >= other.1 { self.1 } else { other.1 },
        )
    }

    pub fn merge(&self, other: &Loc) -> (r: Loc)
        ensures
            r == self.spec_merge(*other),
            self.wf() && other.wf() ==> r.wf(),
            r.0 <= self.0 && r.0 <= other.0 && self.1 <= r.1 && other.1 <= r.1,
    {
        let start = if self.0 <= other.0 { self.0 } else { other.0 };
        let end = if self.1 >= other.1 { self.1 } else { other.1 };
        Loc(start, end)
    }
}

/// A value paired with the span of source text it was derived from.
#[derive(Debug, Clone, Copy, PartialEq, Eq, Hash)]
pub struct Annotation<T> {
    pub value: T,
    pub loc: Loc,
}

impl<T> Annotation<T> {
    pub fn new(value: T, loc: Loc) -> (r: Self)
        ensures
            r == (Annotation { value, loc }),
    {
        Self { value, loc }
    }
}

} // verus!
