//! Tests on strings.
use vstd::prelude::*;

verus! {

/// Whether two strings hold the same characters.
pub fn same_text(a: &str, b: &str) -> (same: bool)
    ensures
        same == (a@ == b@),
{
    a.to_owned() == b.to_owned()
}

/// Whether `part` occurs in `whole` at `at`.
pub open spec fn occurs_at(whole: Seq<char>, part: Seq<char>, at: int) -> bool {
    &&& 0 <= at <= whole.len() - part.len()
    &&& whole.subrange(at, at + part.len()) == part
}

/// Whether `part` occurs in `whole`.
pub open spec fn occurs(whole: Seq<char>, part: Seq<char>) -> bool {
    exists|at: int| occurs_at(whole, part, at)
}

/// The characters of a string as a vector.
fn characters(text: &str) -> (chars: Vec<char>)
    ensures
        chars@ == text@,
{
    let mut chars: Vec<char> = Vec::new();
    for c in iter: text.chars()
        invariant
            iter.seq() == text@,
            chars@ == text@.take(iter.index() as int),
    {
        chars.push(c);
    }
    assert(text@.take(text@.len() as int) == text@);
    chars
}

/// Whether `part` occurs in `whole`. The empty string occurs in every string.
pub fn contains(whole: &str, part: &str) -> (found: bool)
    ensures
        found == occurs(whole@, part@),
{
    let w: Vec<char> = characters(whole);
    let p: Vec<char> = characters(part);
    if p.len() > w.len() {
        return false;
    }
    let last: usize = w.len() - p.len();
    let mut at: usize = 0;
    loop
        invariant
            w@ == whole@,
            p@ == part@,
            p.len() <= w.len(),
            last == w.len() - p.len(),
            at <= last,
            forall|k: int| 0 <= k < at ==> !occurs_at(whole@, part@, k),
        decreases last - at,
    {
        let mut matched: usize = 0;
        while matched < p.len() && w[at + matched] == p[matched]
            invariant
                p.len() <= w.len(),
                at <= w.len() - p.len(),
                matched <= p.len(),
                forall|k: int| 0 <= k < matched ==> w@[at + k] == p@[k],
            decreases p.len() - matched,
        {
            matched = matched + 1;
        }
        if matched == p.len() {
            assert(w@.subrange(at as int, at + p@.len()) =~= p@);
            assert(occurs_at(whole@, part@, at as int));
            return true;
        }
        assert(!occurs_at(whole@, part@, at as int)) by {
            assert(w@.subrange(at as int, at + p@.len())[matched as int] != p@[matched as int]);
        }
        if at == last {
            return false;
        }
        at = at + 1;
    }
}

/// `text` without one leading plus sign, if it has one.
pub open spec fn without_plus(text: Seq<char>) -> Seq<char> {
    if text.len() > 0 && text[0] == '+' {
        text.subrange(1, text.len() as int)
    } else {
        text
    }
}

/// `text` without one leading plus sign, if it has one.
pub fn strip_plus(text: &str) -> (rest: &str)
    ensures
        rest@ == without_plus(text@),
{
    let length: usize = text.unicode_len();
    if length > 0 && text.get_char(0) == '+' {
        text.substring_char(1, length)
    } else {
        text
    }
}

} // verus!
