//! Column letters and their numeric ids.
use vstd::prelude::*;

verus! {

/// Why column letters were refused.
#[derive(Debug, Clone, Copy, PartialEq, Eq, Structural)]
pub enum RefError {
    EmptyReference,
    MalformedReference,
}

impl RefError {
    /// The error's description.
    pub fn message(&self) -> (r: &'static str)
        ensures
            *self == RefError::EmptyReference ==> r@ == "empty reference"@,
            *self == RefError::MalformedReference ==> r@ == "malformed reference"@,
    {
        match self {
            RefError::EmptyReference => "empty reference",
            RefError::MalformedReference => "malformed reference",
        }
    }
}

pub open spec fn is_upper(c: char) -> bool {
    'A' <= c <= 'Z'
}

pub open spec fn all_upper(s: Seq<char>) -> bool {
    forall|i: int| 0 <= i < s.len() ==> is_upper(#[trigger] s[i])
}

/// The value of column letters read as a bijective base-26 numeral
/// (`A` is 1, `Z` is 26, `AA` is 27).
pub open spec fn column_number(s: Seq<char>) -> int
    decreases s.len(),
{
    if s.len() == 0 {
        0
    } else {
        column_number(s.drop_last()) * 26 + (s.last() as int - 'A' as int + 1)
    }
}

/// Letters have a value of at least 1.
proof fn lemma_column_number_positive(s: Seq<char>)
    requires
        all_upper(s),
    ensures
        s.len() > 0 ==> column_number(s) >= 1,
        column_number(s) >= 0,
    decreases s.len(),
{
    if s.len() > 0 {
        let t = s.drop_last();
        assert(all_upper(t)) by {
            assert forall|i: int| 0 <= i < t.len() implies is_upper(#[trigger] t[i]) by {
                assert(t[i] == s[i]);
            }
        }
        lemma_column_number_positive(t);
        assert(is_upper(s[s.len() - 1]));
    }
}

/// A longer run of letters never has a smaller value.
proof fn lemma_column_number_grows(s: Seq<char>, i: int)
    requires
        0 <= i <= s.len(),
        all_upper(s),
    ensures
        column_number(s.take(i)) <= column_number(s),
    decreases s.len() - i,
{
    if i < s.len() {
        lemma_column_number_grows(s, i + 1);
        assert(s.take(i + 1).drop_last() =~= s.take(i));
        assert(is_upper(s[i]));
        assert(all_upper(s.take(i)));
        lemma_column_number_positive(s.take(i));
    } else {
        assert(s.take(i) =~= s);
    }
}

/// The 0-based id of a column given by its letters (`A` is 0, `AA` is 26).
pub fn column_to_id(col: &str) -> (r: Result<usize, RefError>)
    ensures
        col@.len() == 0 <==> r == Err::<usize, RefError>(RefError::EmptyReference),
        r is Ok <==> (col@.len() > 0 && all_upper(col@) && column_number(col@) <= usize::MAX),
        r matches Ok(id) ==> id == column_number(col@) - 1,
        col@.len() > 0 && !(all_upper(col@) && column_number(col@) <= usize::MAX)
            ==> r == Err::<usize, RefError>(RefError::MalformedReference),
{
    let len = col.unicode_len();
    if len == 0 {
        return Err(RefError::EmptyReference);
    }
    let mut sum: usize = 0;
    let mut i: usize = 0;
    while i < len
        invariant
            len == col@.len(),
            0 <= i <= len,
            all_upper(col@.take(i as int)),
            sum == column_number(col@.take(i as int)),
        decreases len - i,
    {
        let c = col.get_char(i);
        assert(col@.take(i as int + 1).drop_last() =~= col@.take(i as int));
        if !('A' <= c && c <= 'Z') {
            assert(!is_upper(col@[i as int]));
            return Err(RefError::MalformedReference);
        }
        let digit: usize = (c as u32 - 'A' as u32 + 1) as usize;
        assert(all_upper(col@.take(i as int + 1)));
        if sum > (usize::MAX - digit) / 26 {
            proof {
                assert(sum * 26 + digit > usize::MAX) by (nonlinear_arith)
                    requires sum > (usize::MAX - digit) / 26, digit <= 26;
                if all_upper(col@) {
                    lemma_column_number_grows(col@, i as int + 1);
                }
            }
            return Err(RefError::MalformedReference);
        }
        proof {
            assert(sum * 26 + digit <= usize::MAX) by (nonlinear_arith)
                requires sum <= (usize::MAX - digit) / 26, digit <= 26;
        }
        sum = sum * 26 + digit;
        i = i + 1;
    }
    assert(col@.take(len as int) =~= col@);
    proof {
        lemma_column_number_positive(col@);
    }
    Ok(sum - 1)
}

} // verus!
