//! The birth/survival rule tables of a world.

use vstd::prelude::*;

use crate::common::ParseError;
use crate::common::rule_parser::{birth_digits, parse_rules, survival_digits, valid_rules_str};

verus! {

/// The neighbor counts that make a dead cell be born and a live cell
/// survive. Both lists hold values 0–8 when built by [`Rules::parse`];
/// membership is all that matters, order and duplicates carry no meaning.
#[derive(Debug)]
pub struct Rules {
    pub birth: Vec<u32>,
    pub survival: Vec<u32>,
}

impl Rules {
    /// Reads a `B<digits>/S<digits>` rule string — `"B3/S23"` is Conway's
    /// Life — into the two rule tables.
    pub fn parse(rules: &str) -> (res: Result<Rules, ParseError>)
        ensures
            res is Ok <==> valid_rules_str(rules@),
            res matches Ok(r) ==> r.birth@ == birth_digits(rules@) && r.survival@
                == survival_digits(rules@),
    {
        match parse_rules(rules) {
            Ok(groups) => {
                let (birth, survival) = groups;
                Ok(Rules { birth, survival })
            },
            Err(e) => Err(e),
        }
    }
}

impl Clone for Rules {
    /// A clone keeps both tables exactly.
    fn clone(&self) -> (res: Self)
        ensures
            res.birth@ == self.birth@,
            res.survival@ == self.survival@,
    {
        let res = Rules { birth: self.birth.clone(), survival: self.survival.clone() };
        proof {
            assert(res.birth@ =~= self.birth@);
            assert(res.survival@ =~= self.survival@);
        }
        res
    }
}

} // verus!
