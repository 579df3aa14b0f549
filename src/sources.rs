use vstd::prelude::*;
use crate::text::{chars_of, push_char};

verus! {

/// Why a list of sources was refused.
#[derive(Debug, Clone, Copy, PartialEq, Eq, Structural)]
pub enum SourceError {
    /// The standard-input sentinel names more than one source.
    DuplicateStdin,
}

/// The source name that stands for the standard input stream.
pub open spec fn stdin_name() -> Seq<char> {
    seq!['-']
}

/// Some two distinct positions of `names` both hold the stdin sentinel.
pub open spec fn stdin_repeated(names: Seq<String>) -> bool {
    exists|i: int, j: int|
        0 <= i < j < names.len() && #[trigger] names[i]@ == stdin_name() && #[trigger] names[j]@
            == stdin_name()
}

/// Whether `name` is the stdin sentinel.
pub fn is_stdin(name: &String) -> (r: bool)
    ensures
        r == (name@ == stdin_name()),
{
    let dash = "-".to_owned();
    proof {
        reveal_strlit("-");
        assert(dash@ =~= stdin_name());
    }
    *name == dash
}

/// Accepts a list of source names unless the stdin sentinel occurs in it
/// more than once. Nothing is read.
pub fn check_sources(names: &Vec<String>) -> (r: Result<(), SourceError>)
    ensures
        r is Err <==> stdin_repeated(names@),
        r is Err ==> r == Err::<(), SourceError>(SourceError::DuplicateStdin),
{
    let mut seen: Option<usize> = None;
    let mut i: usize = 0;
    while i < names.len()
        invariant
            0 <= i <= names.len(),
            seen is None ==> forall|k: int| 0 <= k < i ==> names@[k]@ != stdin_name(),
            seen matches Some(s) ==> s < i && names@[s as int]@ == stdin_name(),
            forall|a: int, b: int|
                0 <= a < b < i ==> !(#[trigger] names@[a]@ == stdin_name() && #[trigger] names@[b]@
                    == stdin_name()),
        decreases names.len() - i,
    {
        if is_stdin(&names[i]) {
            match seen {
                Some(s) => {
                    assert(names@[s as int]@ == stdin_name() && names@[i as int]@ == stdin_name());
                    return Err(SourceError::DuplicateStdin);
                },
                None => {
                    seen = Some(i);
                },
            }
        }
        i = i + 1;
    }
    Ok(())
}

/// The fragments put one after the other, each preceded by a newline.
pub open spec fn joined(texts: Seq<Seq<char>>) -> Seq<char>
    decreases texts.len(),
{
    if texts.len() == 0 {
        Seq::empty()
    } else {
        joined(texts.drop_last()) + seq!['\n'] + texts.last()
    }
}

pub open spec fn views(texts: Seq<String>) -> Seq<Seq<char>> {
    texts.map_values(|t: String| t@)
}

fn push_text(s: &mut String, t: &String)
    ensures
        final(s)@ == old(s)@ + t@,
{
    let mut k: usize = 0;
    let ghost start = s@;
    let chars: Vec<char> = chars_of(t);
    while k < chars.len()
        invariant
            0 <= k <= chars.len(),
            chars@ == t@,
            s@ == start + t@.take(k as int),
        decreases chars.len() - k,
    {
        push_char(s, chars[k]);
        assert(t@.take(k as int + 1) =~= t@.take(k as int).push(t@[k as int]));
        k = k + 1;
    }
    assert(t@.take(k as int) =~= t@);
}

/// Concatenates the fragments in order into one document, each preceded by a
/// newline.
pub fn join_fragments(texts: &Vec<String>) -> (r: String)
    ensures
        r@ == joined(views(texts@)),
{
    let mut acc = String::new();
    let mut i: usize = 0;
    while i < texts.len()
        invariant
            0 <= i <= texts.len(),
            acc@ == joined(views(texts@.take(i as int))),
        decreases texts.len() - i,
    {
        push_char(&mut acc, '\n');
        push_text(&mut acc, &texts[i]);
        assert(views(texts@.take(i as int + 1)).drop_last() =~= views(texts@.take(i as int)));
        i = i + 1;
    }
    assert(texts@.take(i as int) =~= texts@);
    acc
}

} // verus!
