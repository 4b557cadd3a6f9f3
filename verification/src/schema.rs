//! The schema model: the structural description of an enum and its cases,
//! and runtime values of the described type.

use vstd::prelude::*;

verus! {

/// The shape of one case: no data, `n` unnamed positional fields, or an
/// ordered list of uniquely named fields.
#[derive(Debug)]
pub enum Arity {
    Unit,
    Positional { count: usize },
    Named { fields: Vec<String> },
}

/// One declared case of the sum type.
#[derive(Debug)]
pub struct CaseSpec {
    /// Identifier of the case, unique within the enum.
    pub tag: String,
    /// The case's shape.
    pub arity: Arity,
    /// Explicit template text attached by the user; `None` means
    /// "use the default".
    pub override_template: Option<String>,
    /// Whether the user wrote a template annotation at all; distinguishes
    /// "no override" from "override equal to the default text".
    pub has_explicit_attribute: bool,
}

/// An ordered sequence of cases plus the enum's own name. The order is
/// declaration order.
#[derive(Debug)]
pub struct EnumSpec {
    pub name: String,
    pub cases: Vec<CaseSpec>,
}

/// A runtime value of the described sum type: the index of its case in
/// declaration order, and the text representation of each field, in field
/// declaration order.
#[derive(Debug)]
pub struct EnumValue {
    pub case: usize,
    pub args: Vec<String>,
}

/// No two sequences of the list are equal.
pub open spec fn seqs_distinct(s: Seq<Seq<char>>) -> bool {
    forall|i: int, j: int| 0 <= i < j < s.len() ==> s[i] != s[j]
}

impl Arity {
    /// How many fields a value of this shape carries.
    pub open spec fn spec_field_count(&self) -> nat {
        match self {
            Arity::Unit => 0,
            Arity::Positional { count } => *count as nat,
            Arity::Named { fields } => fields@.len(),
        }
    }

    pub fn field_count(&self) -> (n: usize)
        ensures
            n == self.spec_field_count(),
    {
        match self {
            Arity::Unit => 0,
            Arity::Positional { count } => *count,
            Arity::Named { fields } => fields.len(),
        }
    }
}

impl CaseSpec {
    /// A case is well formed when its attribute flag agrees with the
    /// presence of an override and its field names are unique.
    pub open spec fn wf(&self) -> bool {
        &&& self.has_explicit_attribute == self.override_template is Some
        &&& match self.arity {
            Arity::Named { fields } => seqs_distinct(fields.deep_view()),
            _ => true,
        }
    }
}

impl EnumSpec {
    /// A schema is well formed when every case is and the tags are unique.
    pub open spec fn wf(&self) -> bool {
        &&& forall|i: int| 0 <= i < self.cases@.len() ==> (#[trigger] self.cases@[i]).wf()
        &&& forall|i: int, j: int|
            0 <= i < j < self.cases@.len() ==> self.cases@[i].tag@ != self.cases@[j].tag@
    }
}

impl EnumValue {
    /// The value names an existing case and carries one text per field.
    pub open spec fn wf_for(&self, e: &EnumSpec) -> bool {
        &&& (self.case as int) < e.cases@.len()
        &&& self.args@.len() == e.cases@[self.case as int].arity.spec_field_count()
    }

    pub fn valid_for(&self, e: &EnumSpec) -> (r: bool)
        ensures
            r == self.wf_for(e),
    {
        self.case < e.cases.len() && self.args.len() == e.cases[self.case].arity.field_count()
    }
}

impl PartialEq for EnumValue {
    fn eq(&self, other: &EnumValue) -> (r: bool) {
        if self.case != other.case || self.args.len() != other.args.len() {
            proof {
                if self.case == other.case {
                    assert(self.args.deep_view().len() != other.args.deep_view().len());
                }
            }
            false
        } else {
            let n: usize = self.args.len();
            let mut i: usize = 0;
            let mut same = true;
            while i < n
                invariant
                    n == self.args@.len() == other.args@.len(),
                    i <= n,
                    same == (forall|k: int| 0 <= k < i ==> self.args@[k]@ == other.args@[k]@),
                decreases n - i,
            {
                if !(self.args[i] == other.args[i]) {
                    same = false;
                }
                i += 1;
            }
            proof {
                if same {
                    assert(self.args.deep_view() =~= other.args.deep_view());
                } else {
                    let k = choose|k: int|
                        0 <= k < n && self.args@[k]@ != other.args@[k]@;
                    assert(self.args.deep_view()[k] != other.args.deep_view()[k]);
                }
            }
            same
        }
    }
}

impl vstd::std_specs::cmp::PartialEqSpecImpl for EnumValue {
    open spec fn obeys_eq_spec() -> bool {
        true
    }

    open spec fn eq_spec(&self, other: &EnumValue) -> bool {
        self.case == other.case && self.args.deep_view() == other.args.deep_view()
    }
}

} // verus!
