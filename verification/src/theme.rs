//! Themes, as far as the editor looks into them.

use vstd::prelude::*;

verus! {

/// The scope that a theme must style to be usable.
pub const REQUIRED_SCOPE: &'static str = "ui.selection";

/// What the editor says of a theme that does not style the required scope.
pub const INVALID_THEME: &'static str = "Invalid theme: `ui.selection` required";

/// A theme: the scopes that it gives a style to.
#[derive(Debug, Clone)]
pub struct Theme {
    pub scopes: Vec<String>,
}

impl Theme {
    /// True if the theme styles the scope `name`.
    pub open spec fn has_scope(self, name: Seq<char>) -> bool {
        exists|i: int| 0 <= i < self.scopes@.len() && (#[trigger] self.scopes@[i])@ == name
    }

    /// True if the theme styles the scope without which nothing can be drawn.
    pub open spec fn is_usable(self) -> bool {
        self.has_scope(REQUIRED_SCOPE@)
    }

    /// A theme that styles `scopes`.
    pub fn new(scopes: Vec<String>) -> (theme: Theme)
        ensures
            theme.scopes == scopes,
    {
        Theme { scopes }
    }

    /// The first place at which the theme names the scope `name`.
    pub fn find_scope_index(&self, name: &str) -> (r: Option<usize>)
        ensures
            r is Some <==> self.has_scope(name@),
            match r {
                Some(i) => i < self.scopes@.len() && self.scopes@[i as int]@ == name@ && forall|
                    j: int,
                |
                    0 <= j < i ==> (#[trigger] self.scopes@[j])@ != name@,
                None => true,
            },
    {
        let wanted = name.to_owned();
        let mut i: usize = 0;
        while i < self.scopes.len()
            invariant
                i <= self.scopes.len(),
                wanted@ == name@,
                forall|j: int| 0 <= j < i ==> (#[trigger] self.scopes@[j])@ != name@,
            decreases self.scopes.len() - i,
        {
            if self.scopes[i] == wanted {
                return Some(i);
            }
            i += 1;
        }
        None
    }
}

} // verus!
