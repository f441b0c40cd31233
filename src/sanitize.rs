use vstd::prelude::*;
use vstd::string::*;

verus! {

/// The zero-width space placed after the sigil of a broadcast mention.
pub open spec fn zero_width_space() -> char {
    '\u{200B}'
}

/// Whether `p` occurs in `s` starting at position `i`.
pub open spec fn occurs_at(s: Seq<char>, i: int, p: Seq<char>) -> bool {
    0 <= i && i + p.len() <= s.len() && s.subrange(i, i + p.len()) == p
}

/// Whether a broadcast mention starts at position `i`: Discord's `@everyone` and
/// `@here`, or Matrix's `@room`.
pub open spec fn broadcast_at(s: Seq<char>, i: int) -> bool {
    0 <= i < s.len() && s[i] == '@' && (occurs_at(s, i + 1, "everyone"@) || occurs_at(
        s,
        i + 1,
        "here"@,
    ) || occurs_at(s, i + 1, "room"@))
}

/// The text from position `i` on, with a zero-width space inserted after the sigil of
/// every broadcast mention.
pub open spec fn sanitized_from(s: Seq<char>, i: int) -> Seq<char>
    decreases s.len() - i,
{
    if i < 0 || i >= s.len() {
        Seq::empty()
    } else if broadcast_at(s, i) {
        seq!['@', zero_width_space()] + sanitized_from(s, i + 1)
    } else {
        seq![s[i]] + sanitized_from(s, i + 1)
    }
}

pub open spec fn sanitized(s: Seq<char>) -> Seq<char> {
    sanitized_from(s, 0)
}

/// Whether `p` occurs in `s` (of `n` characters) at position `from`.
pub(crate) fn occurs_at_exec(s: &str, n: usize, from: usize, p: &str) -> (r: bool)
    requires
        n == s@.len(),
        from <= n,
    ensures
        r == occurs_at(s@, from as int, p@),
{
    let m = p.unicode_len();
    if m > n - from {
        return false;
    }
    let mut k: usize = 0;
    while k < m
        invariant
            m == p@.len(),
            n == s@.len(),
            from + m <= n,
            k <= m,
            s@.subrange(from as int, from + k) == p@.subrange(0, k as int),
        decreases m - k,
    {
        if s.get_char(from + k) != p.get_char(k) {
            assert(s@.subrange(from as int, from + m)[k as int] != p@[k as int]);
            return false;
        }
        assert(s@.subrange(from as int, from + k + 1) == s@.subrange(from as int, from + k).push(
            s@[from + k],
        ));
        assert(p@.subrange(0, k + 1) == p@.subrange(0, k as int).push(p@[k as int]));
        k = k + 1;
    }
    assert(p@.subrange(0, m as int) == p@);
    true
}

/// Neutralizes broadcast mentions by placing a zero-width space right after their `@`.
pub fn sanitize(message: String) -> (r: String)
    ensures
        r@ == sanitized(message@),
{
    let s = message.as_str();
    let n = s.unicode_len();
    let mut out = String::new();
    let mut start: usize = 0;
    let mut i: usize = 0;
    while i < n
        invariant
            n == s@.len(),
            s@ == message@,
            start <= i <= n,
            out@ + s@.subrange(start as int, i as int) + sanitized_from(s@, i as int) == sanitized(
                s@,
            ),
        decreases n - i,
    {
        let c = s.get_char(i);
        let marker = c == '@' && (occurs_at_exec(s, n, i + 1, "everyone")
            || occurs_at_exec(s, n, i + 1, "here") || occurs_at_exec(s, n, i + 1, "room"));
        assert(marker == broadcast_at(s@, i as int));
        if marker {
            let ghost prev = out@;
            let piece = s.substring_char(start, i + 1);
            out.append(piece);
            let zw = "\u{200B}";
            proof {
                reveal_strlit("\u{200B}");
            }
            out.append(zw);
            assert(s@.subrange(start as int, i + 1) == s@.subrange(start as int, i as int).push('@'));
            assert(out@ + s@.subrange(i + 1, i + 1) + sanitized_from(s@, i + 1) =~= prev
                + s@.subrange(start as int, i as int) + sanitized_from(s@, i as int));
            start = i + 1;
        } else {
            assert(out@ + s@.subrange(start as int, i + 1) + sanitized_from(s@, i + 1) =~= out@
                + s@.subrange(start as int, i as int) + sanitized_from(s@, i as int));
        }
        i = i + 1;
    }
    let rest = s.substring_char(start, n);
    out.append(rest);
    assert(out@ =~= sanitized(s@));
    out
}

} // verus!
