//! Escaping of display text for the MarkdownV2 transport format.

use vstd::prelude::*;

use crate::chars::push_char;

verus! {

/// The characters that the transport treats as markup and that must therefore
/// be preceded by a backslash in rendered text.
pub open spec fn needs_escape(c: char) -> bool {
    c == '.' || c == '-' || c == '{' || c == '}' || c == '!'
}

/// The escaped form of one character.
pub open spec fn escaped_char(c: char) -> Seq<char> {
    if needs_escape(c) {
        seq!['\\', c]
    } else {
        seq![c]
    }
}

/// The escaped form of a whole text, character by character, in order.
pub open spec fn escape_seq(s: Seq<char>) -> Seq<char>
    decreases s.len(),
{
    if s.len() == 0 {
        Seq::empty()
    } else {
        escape_seq(s.drop_last()) + escaped_char(s.last())
    }
}

/// Escapes the characters that MarkdownV2 treats as markup by putting a
/// backslash in front of each; every other character is kept unchanged.
pub fn escape_markdown_v2(text: String) -> (r: String)
    ensures
        r@ == escape_seq(text@),
{
    let s: &str = text.as_str();
    let n: usize = s.unicode_len();
    let mut out: String = String::new();
    let mut i: usize = 0;
    while i < n
        invariant
            n == s@.len(),
            s@ == text@,
            i <= n,
            out@ == escape_seq(s@.take(i as int)),
        decreases n - i,
    {
        let c = s.get_char(i);
        let ghost pre = out@;
        if c == '.' || c == '-' || c == '{' || c == '}' || c == '!' {
            push_char(&mut out, '\\');
        }
        push_char(&mut out, c);
        i = i + 1;
        proof {
            let t = s@.take(i as int);
            assert(t.drop_last() =~= s@.take(i as int - 1));
            assert(t.last() == s@[i as int - 1]);
            assert(out@ =~= pre + escaped_char(c));
        }
    }
    proof {
        assert(s@.take(n as int) =~= s@);
    }
    out
}

} // verus!
