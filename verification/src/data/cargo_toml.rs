//! The version of the package, as its `Cargo.toml` gives it.

use vstd::prelude::*;

verus! {

/// The text without its double quotes.
pub open spec fn unquoted(text: Seq<char>) -> Seq<char>
    decreases text.len(),
{
    if text.len() == 0 {
        Seq::empty()
    } else if text.last() == '"' {
        unquoted(text.drop_last())
    } else {
        unquoted(text.drop_last()).push(text.last())
    }
}

/// `String::push`: the character is appended to the string.
#[verifier::external_body]
fn push_char(text: &mut String, c: char)
    ensures
        final(text)@ == old(text)@.push(c),
{
    text.push(c)
}

/// The version that `Cargo.toml` gives: `rendered` is the value that the
/// file holds under `package.version`, as it is written in JSON, and the
/// version is that text without its double quotes.
pub fn get_version(rendered: &str) -> (version: String)
    ensures
        version@ == unquoted(rendered@),
{
    let mut version = String::new();
    let count = rendered.unicode_len();
    let mut i: usize = 0;
    assert(rendered@.take(0) =~= Seq::<char>::empty());
    while i < count
        invariant
            i <= count,
            count == rendered@.len(),
            version@ == unquoted(rendered@.take(i as int)),
        decreases count - i,
    {
        proof {
            let upto = rendered@.take(i + 1);
            assert(upto.drop_last() =~= rendered@.take(i as int));
            assert(upto.last() == rendered@[i as int]);
        }
        let c = rendered.get_char(i);
        if c != '"' {
            push_char(&mut version, c);
        }
        i += 1;
    }
    assert(rendered@.take(count as int) =~= rendered@);
    version
}

} // verus!
