//! The conversion capabilities a downstream engine supplies to resolve
//! deferred values: font-relative and viewport-relative bases, the
//! percentage base, and custom-property lookup.
//!
//! Each exec method is pinned to a spec-level counterpart, so that callers
//! can state exactly what a resolved value is.

use vstd::prelude::*;
use crate::numbers::CssNumber;
use crate::numbers::CssUnsignedNumber;
use crate::tokens::CssToken;

verus! {

/// Font-relative length bases (`em`, `ex`, `ch`, `rem`).
pub trait FontRelativeLengthConversion<Number: CssNumber> {
    spec fn spec_em(&self) -> Number;

    spec fn spec_ex(&self) -> Number;

    spec fn spec_ch(&self) -> Number;

    spec fn spec_rem(&self) -> Number;

    fn em(&self) -> (r: Number)
        ensures
            r == self.spec_em(),
            r.valid(),
    ;

    fn ex(&self) -> (r: Number)
        ensures
            r == self.spec_ex(),
            r.valid(),
    ;

    fn ch(&self) -> (r: Number)
        ensures
            r == self.spec_ch(),
            r.valid(),
    ;

    fn rem(&self) -> (r: Number)
        ensures
            r == self.spec_rem(),
            r.valid(),
    ;
}

/// Viewport-relative length bases (`vw`, `vh`, `vmin`, `vmax`).
pub trait ViewportPercentageLengthConversion<Number: CssNumber> {
    spec fn spec_vw(&self) -> Number;

    spec fn spec_vh(&self) -> Number;

    spec fn spec_vmin(&self) -> Number;

    spec fn spec_vmax(&self) -> Number;

    fn vw(&self) -> (r: Number)
        ensures
            r == self.spec_vw(),
            r.valid(),
    ;

    fn vh(&self) -> (r: Number)
        ensures
            r == self.spec_vh(),
            r.valid(),
    ;

    fn vmin(&self) -> (r: Number)
        ensures
            r == self.spec_vmin(),
            r.valid(),
    ;

    fn vmax(&self) -> (r: Number)
        ensures
            r == self.spec_vmax(),
            r.valid(),
    ;
}

/// The absolute value that one hundred percent stands for.
pub trait PercentageConversion<Number: CssNumber> {
    spec fn spec_one_hundred_percent(&self) -> Number;

    fn one_hundred_percent_in_absolute_units(&self) -> (r: Number)
        ensures
            r == self.spec_one_hundred_percent(),
            r.valid(),
    ;
}

/// Custom-property lookup for `var()` evaluation: the raw value of a
/// variable, already tokenised, or nothing where the variable is unset.
pub trait CssVariableConversion {
    spec fn spec_css_variable_value(&self, name: Seq<char>) -> Option<Seq<CssToken>>;

    fn cssVariableValue(
        &self,
        css_variable_lower_case_name_without_leading_double_dash: &str,
    ) -> (r: Option<Vec<CssToken>>)
        ensures
            self.spec_css_variable_value(css_variable_lower_case_name_without_leading_double_dash@)
                matches Some(tokens) ==> (r matches Some(v) && v@ == tokens),
            self.spec_css_variable_value(css_variable_lower_case_name_without_leading_double_dash@)
                is None ==> r is None,
    ;
}

/// First-match lookup of a variable name in a raw-value table.
pub open spec fn variable_lookup_from(
    entries: Seq<(String, Vec<CssToken>)>,
    name: Seq<char>,
    i: int,
) -> Option<Seq<CssToken>>
    decreases entries.len() - i,
{
    if i < 0 || i >= entries.len() {
        None
    } else if entries[i].0@ == name {
        Some(entries[i].1@)
    } else {
        variable_lookup_from(entries, name, i + 1)
    }
}

/// A concrete custom-property table: variable names (without their leading
/// double dash) mapped to raw, already tokenised values.
pub struct CssVariableTable {
    pub entries: Vec<(String, Vec<CssToken>)>,
}

impl CssVariableConversion for CssVariableTable {
    closed spec fn spec_css_variable_value(&self, name: Seq<char>) -> Option<Seq<CssToken>> {
        variable_lookup_from(self.entries@, name, 0)
    }

    fn cssVariableValue(
        &self,
        css_variable_lower_case_name_without_leading_double_dash: &str,
    ) -> (r: Option<Vec<CssToken>>) {
        let mut i: usize = 0;
        while i < self.entries.len()
            invariant
                0 <= i <= self.entries@.len(),
                variable_lookup_from(
                    self.entries@,
                    css_variable_lower_case_name_without_leading_double_dash@,
                    i as int,
                ) == variable_lookup_from(
                    self.entries@,
                    css_variable_lower_case_name_without_leading_double_dash@,
                    0,
                ),
            decreases self.entries@.len() - i,
        {
            if crate::ascii::str_exact_eq(
                self.entries[i].0.as_str(),
                css_variable_lower_case_name_without_leading_double_dash,
            ) {
                let mut out: Vec<CssToken> = Vec::new();
                let mut j: usize = 0;
                while j < self.entries[i].1.len()
                    invariant
                        0 <= i < self.entries@.len(),
                        0 <= j <= self.entries@[i as int].1@.len(),
                        out@ =~= self.entries@[i as int].1@.subrange(0, j as int),
                    decreases self.entries@[i as int].1@.len() - j,
                {
                    let t = self.entries[i].1[j].clone();
                    out.push(t);
                    proof {
                        assert(out@ =~= self.entries@[i as int].1@.subrange(0, j + 1));
                    }
                    j = j + 1;
                }
                proof {
                    assert(out@ =~= self.entries@[i as int].1@);
                }
                return Some(out);
            }
            i = i + 1;
        }
        None
    }
}

/// A fixed set of conversion bases, as a concrete rendering context
/// supplies them. Every base it hands out is a valid number, which its
/// constructor demands and its type invariant keeps.
#[derive(Debug, Clone, Copy, PartialEq, Eq, Structural)]
pub struct Device {
    em: CssUnsignedNumber,
    ex: CssUnsignedNumber,
    ch: CssUnsignedNumber,
    rem: CssUnsignedNumber,
    vw: CssUnsignedNumber,
    vh: CssUnsignedNumber,
    vmin: CssUnsignedNumber,
    vmax: CssUnsignedNumber,
    percentage_base: CssUnsignedNumber,
}

impl Device {
    #[verifier::type_invariant]
    spec fn inv(self) -> bool {
        &&& self.em.valid()
        &&& self.ex.valid()
        &&& self.ch.valid()
        &&& self.rem.valid()
        &&& self.vw.valid()
        &&& self.vh.valid()
        &&& self.vmin.valid()
        &&& self.vmax.valid()
        &&& self.percentage_base.valid()
    }

    pub fn new(
        em: CssUnsignedNumber,
        ex: CssUnsignedNumber,
        ch: CssUnsignedNumber,
        rem: CssUnsignedNumber,
        vw: CssUnsignedNumber,
        vh: CssUnsignedNumber,
        vmin: CssUnsignedNumber,
        vmax: CssUnsignedNumber,
        percentage_base: CssUnsignedNumber,
    ) -> (r: Device)
        requires
            em.valid(),
            ex.valid(),
            ch.valid(),
            rem.valid(),
            vw.valid(),
            vh.valid(),
            vmin.valid(),
            vmax.valid(),
            percentage_base.valid(),
        ensures
            r.spec_em() == em,
            r.spec_ex() == ex,
            r.spec_ch() == ch,
            r.spec_rem() == rem,
            r.spec_vw() == vw,
            r.spec_vh() == vh,
            r.spec_vmin() == vmin,
            r.spec_vmax() == vmax,
            r.spec_one_hundred_percent() == percentage_base,
    {
        Device { em, ex, ch, rem, vw, vh, vmin, vmax, percentage_base }
    }
}

impl FontRelativeLengthConversion<CssUnsignedNumber> for Device {
    closed spec fn spec_em(&self) -> CssUnsignedNumber {
        self.em
    }

    closed spec fn spec_ex(&self) -> CssUnsignedNumber {
        self.ex
    }

    closed spec fn spec_ch(&self) -> CssUnsignedNumber {
        self.ch
    }

    closed spec fn spec_rem(&self) -> CssUnsignedNumber {
        self.rem
    }

    fn em(&self) -> (r: CssUnsignedNumber) {
        proof {
            use_type_invariant(self);
        }
        self.em
    }

    fn ex(&self) -> (r: CssUnsignedNumber) {
        proof {
            use_type_invariant(self);
        }
        self.ex
    }

    fn ch(&self) -> (r: CssUnsignedNumber) {
        proof {
            use_type_invariant(self);
        }
        self.ch
    }

    fn rem(&self) -> (r: CssUnsignedNumber) {
        proof {
            use_type_invariant(self);
        }
        self.rem
    }
}

impl ViewportPercentageLengthConversion<CssUnsignedNumber> for Device {
    closed spec fn spec_vw(&self) -> CssUnsignedNumber {
        self.vw
    }

    closed spec fn spec_vh(&self) -> CssUnsignedNumber {
        self.vh
    }

    closed spec fn spec_vmin(&self) -> CssUnsignedNumber {
        self.vmin
    }

    closed spec fn spec_vmax(&self) -> CssUnsignedNumber {
        self.vmax
    }

    fn vw(&self) -> (r: CssUnsignedNumber) {
        proof {
            use_type_invariant(self);
        }
        self.vw
    }

    fn vh(&self) -> (r: CssUnsignedNumber) {
        proof {
            use_type_invariant(self);
        }
        self.vh
    }

    fn vmin(&self) -> (r: CssUnsignedNumber) {
        proof {
            use_type_invariant(self);
        }
        self.vmin
    }

    fn vmax(&self) -> (r: CssUnsignedNumber) {
        proof {
            use_type_invariant(self);
        }
        self.vmax
    }
}

impl PercentageConversion<CssUnsignedNumber> for Device {
    closed spec fn spec_one_hundred_percent(&self) -> CssUnsignedNumber {
        self.percentage_base
    }

    fn one_hundred_percent_in_absolute_units(&self) -> (r: CssUnsignedNumber) {
        proof {
            use_type_invariant(self);
        }
        self.percentage_base
    }
}

} // verus!
