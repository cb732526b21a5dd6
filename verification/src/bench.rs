//! The image sizes a benchmark runs over.

use vstd::prelude::*;
use crate::text::{decimal_text, push_decimal};

verus! {

#[derive(Debug)]
pub struct BenchmarkCase {
    pub name: String,
    pub width: u32,
    pub height: u32,
}

/// A case is the square of side `side` under the name `name`.
pub open spec fn is_square_case(case: BenchmarkCase, name: Seq<char>, side: u32) -> bool {
    case.name@ == name && case.width == side && case.height == side
}

/// The three standard cases: small, medium and large squares.
pub fn default_cases() -> (cases: Vec<BenchmarkCase>)
    ensures
        cases.len() == 3,
        is_square_case(cases[0], "small"@, 512),
        is_square_case(cases[1], "medium"@, 1024),
        is_square_case(cases[2], "large"@, 2048),
{
    let mut cases: Vec<BenchmarkCase> = Vec::new();
    cases.push(BenchmarkCase { name: "small".to_string(), width: 512, height: 512 });
    cases.push(BenchmarkCase { name: "medium".to_string(), width: 1024, height: 1024 });
    cases.push(BenchmarkCase { name: "large".to_string(), width: 2048, height: 2048 });
    cases
}

/// One case as text: name, colon, width, `x`, height.
pub open spec fn case_text(case: BenchmarkCase) -> Seq<char> {
    case.name@ + ":"@ + decimal_text(case.width as nat) + "x"@ + decimal_text(case.height as nat)
}

/// The cases as one line, separated by a comma and a space.
pub open spec fn described(cases: Seq<BenchmarkCase>) -> Seq<char>
    decreases cases.len(),
{
    if cases.len() == 0 {
        Seq::empty()
    } else if cases.len() == 1 {
        case_text(cases[0])
    } else {
        described(cases.drop_last()) + ", "@ + case_text(cases.last())
    }
}

pub fn describe(cases: &[BenchmarkCase]) -> (line: String)
    ensures
        line@ == described(cases@),
{
    let mut line: String = String::new();
    let mut i: usize = 0;
    assert(cases@.take(0) =~= Seq::empty());
    while i < cases.len()
        invariant
            i <= cases.len(),
            line@ == described(cases@.take(i as int)),
        decreases cases.len() - i,
    {
        let ghost before = line@;
        proof {
            let grown = cases@.take(i + 1);
            assert(grown.drop_last() =~= cases@.take(i as int));
            assert(grown.last() == cases@[i as int]);
            if i == 0 {
                assert(grown[0] == cases@[0]);
            }
        }
        if i > 0 {
            line.append(", ");
        }
        let ghost start = line@;
        line.append(cases[i].name.as_str());
        line.append(":");
        push_decimal(&mut line, cases[i].width as u64);
        line.append("x");
        push_decimal(&mut line, cases[i].height as u64);
        assert(line@ =~= start + case_text(cases@[i as int]));
        assert(Seq::<char>::empty() + case_text(cases@[i as int]) =~= case_text(cases@[i as int]));
        i = i + 1;
    }
    assert(cases@.take(i as int) =~= cases@);
    line
}

} // verus!
