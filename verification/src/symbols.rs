//! Well-known attribute and key names of the device derive layer.

use crate::iobuffer::eq_bytes;
use vstd::string::StringSliceAdditionalSpecFns;
use vstd::prelude::*;

verus! {

/// A well-known attribute or key name, compared against identifiers and
/// paths by its byte encoding.
#[derive(Clone, Copy, Debug)]
pub struct Symbol(pub &'static str);

impl Symbol {
    /// Wraps a name.
    pub fn new(name: &'static str) -> (s: Symbol)
        ensures
            s.0@ == name@,
    {
        Symbol(name)
    }

    /// The wrapped name.
    pub fn as_str(&self) -> (r: &'static str)
        ensures
            r@ == self.0@,
    {
        self.0
    }

    /// Whether an identifier's text is this symbol's name, compared by the
    /// UTF-8 encodings of the two.
    pub fn matches(&self, ident: &str) -> (r: bool)
        ensures
            r <==> self.0.spec_bytes() == ident.spec_bytes(),
    {
        eq_bytes(self.0.as_bytes(), ident.as_bytes())
    }
}

} // verus!
