//! Case-insensitive substring search, used by the list query's `search`
//! filter. Folding is ASCII-only: `'A'..='Z'` map to their lower-case
//! counterparts, every other character compares exactly.

use vstd::prelude::*;

verus! {

/// ASCII lower-case folding of one character.
pub open spec fn lower_char(c: char) -> char {
    if 65 <= c as u32 && c as u32 <= 90 {
        (((c as u8) + 32) as char)
    } else {
        c
    }
}

/// The needle matches the haystack at offset `i`, under ASCII folding.
pub open spec fn match_at(hay: Seq<char>, needle: Seq<char>, i: int) -> bool {
    forall|j: int| 0 <= j < needle.len() ==> lower_char(hay[i + j]) == #[trigger] lower_char(needle[j])
}

/// The haystack contains the needle as a substring, under ASCII folding. An
/// empty needle matches every haystack.
pub open spec fn contains_ci(hay: Seq<char>, needle: Seq<char>) -> bool {
    exists|i: int| 0 <= i <= hay.len() - needle.len() && #[trigger] match_at(hay, needle, i)
}

fn lower_char_exec(c: char) -> (r: char)
    ensures
        r == lower_char(c),
{
    let u = c as u32;
    if 65 <= u && u <= 90 {
        ((c as u8) + 32) as char
    } else {
        c
    }
}

/// Decides `contains_ci` by direct scan.
pub fn str_contains_ci(hay: &str, needle: &str) -> (r: bool)
    ensures
        r == contains_ci(hay@, needle@),
{
    let hl = hay.unicode_len();
    let nl = needle.unicode_len();
    if nl > hl {
        assert(!contains_ci(hay@, needle@));
        return false;
    }
    let mut i: usize = 0;
    while i <= hl - nl
        invariant
            nl <= hl,
            hl == hay@.len(),
            nl == needle@.len(),
            i <= hl - nl + 1,
            forall|i2: int| 0 <= i2 < i ==> !#[trigger] match_at(hay@, needle@, i2),
        decreases hl - nl + 1 - i,
    {
        let mut j: usize = 0;
        let mut mismatch = false;
        while j < nl
            invariant
                nl <= hl,
                hl == hay@.len(),
                nl == needle@.len(),
                i <= hl - nl,
                j <= nl,
                !mismatch ==> forall|j2: int|
                    0 <= j2 < j ==> lower_char(hay@[i + j2]) == #[trigger] lower_char(needle@[j2]),
                mismatch ==> !match_at(hay@, needle@, i as int),
            decreases nl - j,
        {
            let hc = hay.get_char(i + j);
            let nc = needle.get_char(j);
            if lower_char_exec(hc) != lower_char_exec(nc) {
                assert(!match_at(hay@, needle@, i as int)) by {
                    assert(lower_char(hay@[i + j]) != lower_char(needle@[j as int]));
                }
                mismatch = true;
                j = nl;
            } else {
                j += 1;
            }
        }
        if !mismatch {
            assert(match_at(hay@, needle@, i as int));
            return true;
        }
        i += 1;
    }
    assert(!contains_ci(hay@, needle@));
    false
}

} // verus!
