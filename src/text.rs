//! Comparison of texts.
use vstd::prelude::*;

verus! {

/// `c` with ASCII lower-case letters made upper-case.
pub open spec fn folded(c: char) -> char {
    if 'a' <= c <= 'z' { ((c as u32) - 32) as char } else { c }
}

/// Three-way comparison of texts, character by character, ignoring ASCII case:
/// -1, 0 or 1.
pub open spec fn text_order(a: Seq<char>, b: Seq<char>) -> int
    decreases a.len(),
{
    if a.len() == 0 {
        if b.len() == 0 { 0 } else { -1 }
    } else if b.len() == 0 {
        1
    } else if (folded(a[0]) as u32) < (folded(b[0]) as u32) {
        -1
    } else if (folded(a[0]) as u32) > (folded(b[0]) as u32) {
        1
    } else {
        text_order(a.drop_first(), b.drop_first())
    }
}

fn fold_char(c: char) -> (r: u32)
    ensures
        r == folded(c) as u32,
{
    if 'a' <= c && c <= 'z' {
        (c as u32) - 32
    } else {
        c as u32
    }
}

/// Compares two texts as `text_order` does.
pub fn compare_text(a: &str, b: &str) -> (r: i8)
    ensures
        r as int == text_order(a@, b@),
{
    let la = a.unicode_len();
    let lb = b.unicode_len();
    let mut i: usize = 0;
    assert(a@.skip(0) =~= a@);
    assert(b@.skip(0) =~= b@);
    while i < la && i < lb
        invariant
            la == a@.len(),
            lb == b@.len(),
            i <= la,
            i <= lb,
            text_order(a@, b@) == text_order(a@.skip(i as int), b@.skip(i as int)),
        decreases la - i,
    {
        let x = fold_char(a.get_char(i));
        let y = fold_char(b.get_char(i));
        assert(a@.skip(i as int)[0] == a@[i as int]);
        assert(b@.skip(i as int)[0] == b@[i as int]);
        if x < y {
            return -1;
        }
        if x > y {
            return 1;
        }
        assert(a@.skip(i as int).drop_first() =~= a@.skip(i as int + 1));
        assert(b@.skip(i as int).drop_first() =~= b@.skip(i as int + 1));
        i = i + 1;
    }
    if i < la {
        1
    } else if i < lb {
        -1
    } else {
        0
    }
}

/// Whether two texts are the same, character for character.
pub fn same_text(a: &str, b: &str) -> (r: bool)
    ensures
        r == (a@ == b@),
{
    let la = a.unicode_len();
    let lb = b.unicode_len();
    if la != lb {
        return false;
    }
    let mut i: usize = 0;
    while i < la
        invariant
            la == a@.len(),
            lb == b@.len(),
            la == lb,
            i <= la,
            a@.take(i as int) == b@.take(i as int),
        decreases la - i,
    {
        if a.get_char(i) != b.get_char(i) {
            return false;
        }
        assert(a@.take(i as int + 1) =~= a@.take(i as int).push(a@[i as int]));
        assert(b@.take(i as int + 1) =~= b@.take(i as int).push(b@[i as int]));
        i = i + 1;
    }
    assert(a@ =~= a@.take(la as int));
    assert(b@ =~= b@.take(la as int));
    true
}

} // verus!
