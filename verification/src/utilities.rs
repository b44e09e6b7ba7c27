//! Classification of `repr` attributes for the device derive layer.
//!
//! The derive layer only accepts plain-data definitions whose memory layout
//! the host runtime can rely on. This module holds the decision logic: what
//! a sequence of recognized `repr(...)` items declares ([`Repr::detect_repr`])
//! and whether a definition so classified is acceptable
//! ([`assert_is_repr_c_struct`]). Reading the items out of a syntax tree is
//! the caller's concern.

use vstd::prelude::*;

verus! {

/// The data-layout ABI a type declares.
#[derive(Clone, Debug)]
pub enum Abi {
    /// The default layout.
    Rust,
    /// `repr(C)`.
    C,
    /// `repr(transparent)`.
    Transparent,
    /// Any other layout identifier.
    Other(String),
}

impl Default for Abi {
    fn default() -> (r: Abi)
        ensures
            r is Rust,
    {
        Abi::Rust
    }
}

/// The `repr` facts a definition declares.
#[derive(Clone, Debug)]
pub struct Repr {
    /// The declared ABI.
    pub abi: Abi,
    /// Whether a `repr` attribute was declared in the definition.
    pub present: bool,
    /// The declared alignment, if any.
    pub align: Option<usize>,
    /// The declared packing, if any (`repr(packed)` declares 1).
    pub packed: Option<usize>,
}

impl Default for Repr {
    fn default() -> (r: Repr)
        ensures
            r == spec_repr_default(),
    {
        Repr { abi: Abi::Rust, present: false, align: None, packed: None }
    }
}

/// One recognized item of a `repr(...)` attribute.
#[derive(Clone, Debug)]
pub enum ReprMeta {
    /// `repr(C)`.
    C,
    /// `repr(Rust)`.
    Rust,
    /// `repr(transparent)`.
    Transparent,
    /// `repr(align(n))`.
    Align(usize),
    /// `repr(packed)` or `repr(packed(n))`; a bare `packed` declares 1.
    Packed(usize),
    /// Any other identifier.
    Other(String),
}

/// The default facts: Rust ABI, nothing declared.
pub open spec fn spec_repr_default() -> Repr {
    Repr { abi: Abi::Rust, present: false, align: None, packed: None }
}

/// How one recognized item updates the declared facts.
pub open spec fn spec_apply_meta(r: Repr, m: ReprMeta) -> Repr {
    match m {
        ReprMeta::C => Repr { abi: Abi::C, present: r.present, align: r.align, packed: r.packed },
        ReprMeta::Rust => Repr {
            abi: Abi::Rust,
            present: r.present,
            align: r.align,
            packed: r.packed,
        },
        ReprMeta::Transparent => Repr {
            abi: Abi::Transparent,
            present: r.present,
            align: r.align,
            packed: r.packed,
        },
        ReprMeta::Align(n) => Repr {
            abi: r.abi,
            present: r.present,
            align: Some(n),
            packed: r.packed,
        },
        ReprMeta::Packed(n) => Repr {
            abi: r.abi,
            present: r.present,
            align: r.align,
            packed: Some(n),
        },
        ReprMeta::Other(s) => Repr {
            abi: Abi::Other(s),
            present: r.present,
            align: r.align,
            packed: r.packed,
        },
    }
}

/// The facts that a list of recognized items declares, folded in order over
/// the default; `present` records whether any `repr` attribute occurred.
pub open spec fn spec_detect(metas: Seq<ReprMeta>, present: bool) -> Repr
    decreases metas.len(),
{
    if metas.len() == 0 {
        Repr { abi: Abi::Rust, present: present, align: None, packed: None }
    } else {
        spec_apply_meta(spec_detect(metas.drop_last(), present), metas.last())
    }
}

impl Repr {
    /// Folds the recognized `repr` items of a definition's attributes, in
    /// the order they occur, into the declared layout facts. `present` says
    /// whether any `repr` attribute occurred at all.
    pub fn detect_repr(metas: &Vec<ReprMeta>, present: bool) -> (r: Repr)
        ensures
            r == spec_detect(metas@, present),
    {
        let mut repr = Repr { abi: Abi::Rust, present: present, align: None, packed: None };
        let mut i: usize = 0;
        while i < metas.len()
            invariant
                i <= metas@.len(),
                repr == spec_detect(metas@.take(i as int), present),
            decreases metas@.len() - i,
        {
            let next = match &metas[i] {
                ReprMeta::C => Repr {
                    abi: Abi::C,
                    present: repr.present,
                    align: repr.align,
                    packed: repr.packed,
                },
                ReprMeta::Rust => Repr {
                    abi: Abi::Rust,
                    present: repr.present,
                    align: repr.align,
                    packed: repr.packed,
                },
                ReprMeta::Transparent => Repr {
                    abi: Abi::Transparent,
                    present: repr.present,
                    align: repr.align,
                    packed: repr.packed,
                },
                ReprMeta::Align(n) => Repr {
                    abi: repr.abi,
                    present: repr.present,
                    align: Some(*n),
                    packed: repr.packed,
                },
                ReprMeta::Packed(n) => Repr {
                    abi: repr.abi,
                    present: repr.present,
                    align: repr.align,
                    packed: Some(*n),
                },
                ReprMeta::Other(s) => Repr {
                    abi: Abi::Other(s.clone()),
                    present: repr.present,
                    align: repr.align,
                    packed: repr.packed,
                },
            };
            repr = next;
            proof {
                assert(metas@.take(i + 1).drop_last() =~= metas@.take(i as int));
                assert(metas@.take(i + 1).last() == metas@[i as int]);
            }
            i = i + 1;
        }
        proof {
            assert(metas@.take(metas@.len() as int) =~= metas@);
        }
        repr
    }
}

/// What kind of data definition a derive input declares.
#[derive(Clone, Copy, Debug, PartialEq, Eq, Structural)]
pub enum DataKind {
    Struct,
    Enum,
    Union,
}

/// Why a derive input's layout was rejected.
#[derive(Clone, Copy, Debug, PartialEq, Eq, Structural)]
pub enum ReprCheckError {
    /// The input is not a struct.
    NotAStruct,
    /// The struct does not declare a `repr(C)` layout.
    NotReprC,
}

/// Decides whether a derive input is a struct whose layout the host runtime
/// can rely on: `repr(C)`, or `repr(transparent)`, whose layout depends on
/// the wrapped field and cannot be judged here.
pub fn assert_is_repr_c_struct(kind: &DataKind, repr: &Repr) -> (r: Result<(), ReprCheckError>)
    ensures
        match r {
            Ok(_) => kind is Struct && (repr.abi is C || repr.abi is Transparent),
            Err(e) => (e is NotAStruct && !(kind is Struct)) || (e is NotReprC && kind is Struct
                && !(repr.abi is C) && !(repr.abi is Transparent)),
        },
{
    match kind {
        DataKind::Struct => match &repr.abi {
            Abi::C => Ok(()),
            Abi::Transparent => Ok(()),
            _ => Err(ReprCheckError::NotReprC),
        },
        _ => Err(ReprCheckError::NotAStruct),
    }
}

} // verus!
