use vstd::prelude::*;

verus! {

/// Relies on `String::push` from std: it appends one character at the end.
#[verifier::external_body]
pub(crate) fn push_char(s: &mut String, c: char)
    ensures
        final(s)@ == old(s)@.push(c),
{
    s.push(c)
}

/// Relies on `str::chars` from std: the characters of the text, in order.
#[verifier::external_body]
pub(crate) fn chars_of(t: &String) -> (r: Vec<char>)
    ensures
        r@ == t@,
{
    t.chars().collect()
}


/// The character at `i`, or NUL outside the text.
pub open spec fn char_at(t: Seq<char>, i: int) -> char {
    if 0 <= i < t.len() {
        t[i]
    } else {
        '\0'
    }
}

/// A template partial call starts at `i`: `{{>` or `{{#>`, either with an
/// optional `~` after the braces.
pub open spec fn partial_at(t: Seq<char>, i: int) -> bool {
    let j = if char_at(t, i + 2) == '~' {
        i + 3
    } else {
        i + 2
    };
    &&& char_at(t, i) == '{'
    &&& char_at(t, i + 1) == '{'
    &&& (char_at(t, j) == '>' || (char_at(t, j) == '#' && char_at(t, j + 1) == '>'))
}

/// The text holds a template partial call.
pub open spec fn has_partial(t: Seq<char>) -> bool {
    exists|i: int| 0 <= i < t.len() && #[trigger] partial_at(t, i)
}

fn char_in(c: &Vec<char>, i: usize) -> (r: char)
    ensures
        r == char_at(c@, i as int),
{
    if i < c.len() {
        c[i]
    } else {
        '\0'
    }
}

/// Whether the text holds a template partial call.
pub fn has_partial_call(text: &String) -> (r: bool)
    ensures
        r == has_partial(text@),
{
    let c = chars_of(text);
    let mut i: usize = 0;
    while i < c.len()
        invariant
            0 <= i <= c.len(),
            c@ == text@,
            forall|k: int| 0 <= k < i ==> !#[trigger] partial_at(text@, k),
        decreases c.len() - i,
    {
        if 2 < c.len() - i && c[i] == '{' && c[i + 1] == '{' {
            let j = if c[i + 2] == '~' { i + 3 } else { i + 2 };
            if j < c.len() {
                let hit = c[j] == '>' || (c[j] == '#' && char_in(&c, j + 1) == '>');
                if hit {
                    assert(partial_at(text@, i as int));
                    return true;
                }
            }
        }
        assert(!partial_at(text@, i as int));
        i = i + 1;
    }
    false
}

} // verus!
