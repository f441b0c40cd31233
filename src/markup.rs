use crate::sanitize::{occurs_at, occurs_at_exec};
use vstd::prelude::*;
use vstd::string::*;

verus! {

/// The HTML that the markdown renderer produces for a text.
pub uninterp spec fn html_of(text: Seq<char>) -> Seq<char>;

/// The most characters that may open a level of markdown nesting in a rendered text.
pub const NESTING_LIMIT: usize = 200;

/// Characters that each level of nested markdown (quote, list, emphasis, line) uses up.
pub open spec fn nesting_mark(c: char) -> bool {
    c == '>' || c == '*' || c == '_' || c == '-' || c == '+' || c == '.' || c == '\n' || ('0'
        <= c && c <= '9')
}

/// How many nesting marks `s` holds.
pub open spec fn nesting_marks(s: Seq<char>) -> int
    decreases s.len(),
{
    if s.len() == 0 {
        0
    } else {
        nesting_marks(s.drop_last()) + if nesting_mark(s.last()) {
            1int
        } else {
            0int
        }
    }
}

pub open spec fn all_ascii(s: Seq<char>) -> bool {
    forall|i: int| 0 <= i < s.len() ==> (s[i] as u32) < 128
}

/// Whether a code fence (three backticks) occurs in `s`.
pub open spec fn has_fence(s: Seq<char>) -> bool {
    exists|i: int| occurs_at(s, i, "```"@)
}

/// Characters that can end a list-item marker (`-`, `+`, `*`, `1.`, `1`, `i.`).
pub open spec fn list_marker(c: char) -> bool {
    c == '-' || c == '+' || c == '*' || c == '.' || ('0' <= c && c <= '9')
}

/// Whether position `i` holds a list marker followed by one space and then the end of
/// the line or of the text: a list item that may have empty content.
pub open spec fn empty_item_at(s: Seq<char>, i: int) -> bool {
    &&& 0 <= i
    &&& i + 1 < s.len()
    &&& list_marker(s[i])
    &&& s[i + 1] == ' '
    &&& (i + 2 == s.len() || s[i + 2] == '\n' || s[i + 2] == '\r')
}

pub open spec fn has_empty_item(s: Seq<char>) -> bool {
    exists|i: int| empty_item_at(s, i)
}

/// The texts that the renderer takes without failing:
/// - a code fence is sliced at byte 3 of its line, so it needs an ASCII text;
/// - a list item with empty content parses to no block, whose first block is then read,
///   so no item may be empty;
/// - quotes, lists and emphasis recurse once per level, so nesting is kept shallow.
pub open spec fn renderable(s: Seq<char>) -> bool {
    &&& all_ascii(s) || !has_fence(s)
    &&& !has_empty_item(s)
    &&& nesting_marks(s) <= NESTING_LIMIT
}

/// Whether `text` can be rendered.
pub fn is_renderable(text: &str) -> (r: bool)
    ensures
        r == renderable(text@),
{
    let n = text.unicode_len();
    let mut ascii = true;
    let mut fence = false;
    let mut empty_item = false;
    let mut marks: usize = 0;
    let mut i: usize = 0;
    proof {
        reveal_strlit("```");
    }
    while i < n
        invariant
            n == text@.len(),
            i <= n,
            marks <= i,
            marks == nesting_marks(text@.subrange(0, i as int)),
            ascii == (forall|j: int| 0 <= j < i ==> (text@[j] as u32) < 128),
            fence == (exists|j: int| 0 <= j < i && occurs_at(text@, j, "```"@)),
            empty_item == (exists|j: int| 0 <= j < i && empty_item_at(text@, j)),
            "```"@ == seq!['`', '`', '`'],
        decreases n - i,
    {
        let c = text.get_char(i);
        assert(text@.subrange(0, i + 1).drop_last() == text@.subrange(0, i as int));
        if (c as u32) >= 128 {
            ascii = false;
        }
        if c == '`' && occurs_at_exec(text, n, i, "```") {
            fence = true;
        }
        assert(c != '`' ==> !occurs_at(text@, i as int, "```"@)) by {
            if c != '`' && occurs_at(text@, i as int, "```"@) {
                assert(text@.subrange(i as int, i + 3)[0] == text@[i as int]);
            }
        }
        let here = if (c == '-' || c == '+' || c == '*' || c == '.' || ('0' <= c && c <= '9'))
            && i + 1 < n && text.get_char(i + 1) == ' ' {
            if i + 2 == n {
                true
            } else {
                let after = text.get_char(i + 2);
                after == '\n' || after == '\r'
            }
        } else {
            false
        };
        assert(here == empty_item_at(text@, i as int));
        if here {
            empty_item = true;
        }
        if c == '>' || c == '*' || c == '_' || c == '-' || c == '+' || c == '.' || c == '\n' || (
        '0' <= c && c <= '9') {
            marks = marks + 1;
        }
        i = i + 1;
    }
    assert(text@.subrange(0, n as int) == text@);
    assert(fence == has_fence(text@)) by {
        if has_fence(text@) {
            let j = choose|j: int| occurs_at(text@, j, "```"@);
            assert(0 <= j < n);
        }
    }
    assert(empty_item == has_empty_item(text@)) by {
        if has_empty_item(text@) {
            let j = choose|j: int| empty_item_at(text@, j);
            assert(0 <= j < n);
        }
    }
    (ascii || !fence) && !empty_item && marks <= NESTING_LIMIT
}

/// Relies on `markdown::to_html`: renders markdown to HTML; the output depends on the
/// text alone. The renderer panics on a code fence in a line whose byte 3 falls inside a
/// multi-byte character, and on a list item with empty content, and recurses once per
/// level of nesting: the text must be `renderable`.
#[verifier::external_body]
pub(crate) fn render_markdown(text: &str) -> (r: String)
    requires
        renderable(text@),
    ensures
        r@ == html_of(text@),
{
    markdown::to_html(text)
}

} // verus!
