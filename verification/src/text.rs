//! Comparison of texts.
use vstd::prelude::*;

verus! {

/// Whether two texts are the same.
pub fn same_text(a: &str, b: &str) -> (r: bool)
    ensures
        r == (a@ == b@),
{
    a.to_owned() == b.to_owned()
}

/// The code of a letter in lower case; other characters keep theirs.
pub open spec fn lower_code(c: char) -> int {
    if 'A' <= c <= 'Z' {
        c as int + 32
    } else {
        c as int
    }
}

/// Whether a text, with its Latin capital letters in lower case, is the given name.
pub open spec fn named(text: Seq<char>, name: Seq<char>) -> bool {
    &&& text.len() == name.len()
    &&& forall|i: int| 0 <= i < text.len() ==> lower_code(#[trigger] text[i]) == name[i] as int
}

/// Decides whether a text, with its Latin capital letters in lower case, is the given name.
pub fn is_named(text: &str, name: &str) -> (r: bool)
    ensures
        r == named(text@, name@),
{
    let n: usize = text.unicode_len();
    if n != name.unicode_len() {
        return false;
    }
    let mut i: usize = 0;
    while i < n
        invariant
            i <= n,
            n == text@.len(),
            n == name@.len(),
            forall|k: int| 0 <= k < i ==> lower_code(#[trigger] text@[k]) == name@[k] as int,
        decreases n - i,
    {
        let c: char = text.get_char(i);
        let code: u32 = if 'A' <= c && c <= 'Z' {
            c as u32 + 32
        } else {
            c as u32
        };
        if code != name.get_char(i) as u32 {
            assert(lower_code(text@[i as int]) != name@[i as int] as int);
            return false;
        }
        i = i + 1;
    }
    true
}

/// A text bears a name where it is the name but for capitals: each character is that of the
/// name, or the capital of it.
pub proof fn law_names_ignore_capitals(text: Seq<char>, name: Seq<char>)
    requires
        forall|i: int| 0 <= i < name.len() ==> !('A' <= #[trigger] name[i] <= 'Z'),
    ensures
        named(name, name),
        named(text, name) <==> text.len() == name.len() && forall|i: int|
            0 <= i < text.len() ==> #[trigger] text[i] == name[i] || ('A' <= text[i] <= 'Z' && name[i] as int
                == text[i] as int + 32),
{
    if named(text, name) {
        assert forall|i: int| 0 <= i < text.len() implies #[trigger] text[i] == name[i] || ('A' <= text[i] <= 'Z'
            && name[i] as int == text[i] as int + 32) by {
            assert(lower_code(text[i]) == name[i] as int);
            assert(text[i] as int == name[i] as int ==> text[i] == name[i]);
        }
    }
    if text.len() == name.len() && forall|i: int|
        0 <= i < text.len() ==> #[trigger] text[i] == name[i] || ('A' <= text[i] <= 'Z' && name[i] as int
            == text[i] as int + 32) {
        assert forall|i: int| 0 <= i < text.len() implies lower_code(#[trigger] text[i]) == name[i] as int by {
            if text[i] == name[i] {
                assert(!('A' <= name[i] <= 'Z'));
            }
        }
    }
}

} // verus!
