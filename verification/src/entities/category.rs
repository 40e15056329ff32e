//! A marketplace category: its code and its human-readable title.

use vstd::prelude::*;
use vstd::string::StringExecFns;

verus! {

/// A category of the marketplace's taxonomy.
#[derive(Debug)]
pub struct KaspiCategory {
    pub code: String,
    pub title: String,
}

impl KaspiCategory {
    /// The rendering of a category: its code followed by its title in
    /// parentheses.
    pub open spec fn label_spec(&self) -> Seq<char> {
        self.code@ + "("@ + self.title@ + ")"@
    }

    /// Renders the category as `code(title)`.
    pub fn label(&self) -> (r: String)
        ensures
            r@ == self.label_spec(),
    {
        let mut out = self.code.clone();
        out.append("(");
        out.append(self.title.as_str());
        out.append(")");
        out
    }
}

} // verus!
