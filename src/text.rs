use crate::chat_service::{discord_service, Message, MessageView};
use crate::sanitize::{occurs_at, occurs_at_exec};
use vstd::prelude::*;
use vstd::string::*;

verus! {

/// `s` without its leading run of `c`.
pub open spec fn trim_start(s: Seq<char>, c: char) -> Seq<char>
    decreases s.len(),
{
    if s.len() > 0 && s[0] == c {
        trim_start(s.drop_first(), c)
    } else {
        s
    }
}

/// `s` without its trailing run of `c`.
pub open spec fn trim_end(s: Seq<char>, c: char) -> Seq<char>
    decreases s.len(),
{
    if s.len() > 0 && s.last() == c {
        trim_end(s.drop_last(), c)
    } else {
        s
    }
}

/// The first position at or after `i` that holds `c`, or the length when none does.
pub open spec fn index_of_from(s: Seq<char>, c: char, i: int) -> int
    decreases s.len() - i,
{
    if i < 0 || i >= s.len() {
        s.len() as int
    } else if s[i] == c {
        i
    } else {
        index_of_from(s, c, i + 1)
    }
}

pub proof fn lemma_index_of_from(s: Seq<char>, c: char, i: int)
    requires
        0 <= i <= s.len(),
    ensures
        i <= index_of_from(s, c, i) <= s.len(),
        index_of_from(s, c, i) < s.len() ==> s[index_of_from(s, c, i)] == c,
        forall|k: int| i <= k < index_of_from(s, c, i) ==> s[k] != c,
    decreases s.len() - i,
{
    if i < s.len() && s[i] != c {
        lemma_index_of_from(s, c, i + 1);
    }
}

/// A line without the carriage return that ends it, if any.
pub open spec fn strip_cr(l: Seq<char>) -> Seq<char> {
    if l.len() > 0 && l.last() == '\r' {
        l.drop_last()
    } else {
        l
    }
}

/// The lines of `s` from position `i` on, split at line feeds; a final line feed
/// opens no further line.
pub open spec fn lines_from(s: Seq<char>, i: int) -> Seq<Seq<char>>
    decreases s.len() - i,
{
    if i < 0 || i >= s.len() {
        Seq::empty()
    } else {
        let j = index_of_from(s, '\n', i);
        if j < i {
            Seq::empty()
        } else if j >= s.len() {
            seq![strip_cr(s.subrange(i, j))]
        } else {
            seq![strip_cr(s.subrange(i, j))] + lines_from(s, j + 1)
        }
    }
}

/// Whether a line is part of a quoted reply preamble: empty, or starting with `"> "`.
pub open spec fn preamble_line(l: Seq<char>) -> bool {
    l.len() == 0 || occurs_at(l, 0, "> "@)
}

/// The lines from the first one outside the preamble on, each ended by a line feed.
pub open spec fn kept_lines(ls: Seq<Seq<char>>, started: bool) -> Seq<char>
    decreases ls.len(),
{
    if ls.len() == 0 {
        Seq::empty()
    } else if started || !preamble_line(ls[0]) {
        ls[0] + "\n"@ + kept_lines(ls.drop_first(), true)
    } else {
        kept_lines(ls.drop_first(), false)
    }
}

/// A message body without the quoted preamble of the message it replies to.
pub open spec fn stripped(s: Seq<char>) -> Seq<char> {
    kept_lines(lines_from(s, 0), false)
}

/// Finds the end of the line that starts at `i`.
fn line_end(s: &str, n: usize, i: usize) -> (r: usize)
    requires
        n == s@.len(),
        i <= n,
    ensures
        r == index_of_from(s@, '\n', i as int),
{
    let mut j = i;
    while j < n && s.get_char(j) != '\n'
        invariant
            n == s@.len(),
            i <= j <= n,
            index_of_from(s@, '\n', j as int) == index_of_from(s@, '\n', i as int),
        decreases n - j,
    {
        j = j + 1;
    }
    j
}

/// Drops the quoted preamble (leading empty lines and lines starting with `"> "`) that
/// a reply carries, keeping every line from the first other one on.
pub fn strip_reply(msg: String) -> (r: String)
    ensures
        r@ == stripped(msg@),
{
    let s = msg.as_str();
    let n = s.unicode_len();
    let mut out = String::new();
    let mut started = false;
    let mut i: usize = 0;
    while i < n
        invariant
            n == s@.len(),
            s@ == msg@,
            i <= n,
            out@ + kept_lines(lines_from(s@, i as int), started) == stripped(s@),
        decreases n - i,
    {
        let j = line_end(s, n, i);
        proof {
            lemma_index_of_from(s@, '\n', i as int);
        }
        let line = if j > i && s.get_char(j - 1) == '\r' {
            s.substring_char(i, j - 1)
        } else {
            s.substring_char(i, j)
        };
        assert(line@ == strip_cr(s@.subrange(i as int, j as int)));
        let ghost ls = lines_from(s@, i as int);
        let ghost next: int = if j < n { j + 1 } else { n as int };
        assert(ls[0] == line@ && ls.drop_first() == lines_from(s@, next));
        let preamble = line.unicode_len() == 0 || occurs_at_exec(line, line.unicode_len(), 0, "> ");
        if started || !preamble {
            let ghost prev = out@;
            out.append(line);
            out.append("\n");
            assert(out@ + kept_lines(lines_from(s@, next), true) =~= prev + kept_lines(
                ls,
                started,
            ));
            started = true;
        }
        i = if j < n {
            j + 1
        } else {
            n
        };
    }
    assert(lines_from(s@, i as int) == Seq::<Seq<char>>::empty());
    assert(out@ + Seq::<char>::empty() == out@);
    out
}

/// Drops the leading run of `c` from `s`.
fn trim_start_char(s: &str, c: char) -> (r: &str)
    ensures
        r@ == trim_start(s@, c),
{
    let n = s.unicode_len();
    let mut i: usize = 0;
    assert(s@.subrange(0, n as int) == s@);
    while i < n && s.get_char(i) == c
        invariant
            n == s@.len(),
            i <= n,
            trim_start(s@.subrange(i as int, n as int), c) == trim_start(s@, c),
        decreases n - i,
    {
        assert(s@.subrange(i as int, n as int).drop_first() == s@.subrange(i + 1, n as int));
        i = i + 1;
    }
    s.substring_char(i, n)
}

/// Drops the trailing run of `c` from `s`.
fn trim_end_char(s: &str, c: char) -> (r: &str)
    ensures
        r@ == trim_end(s@, c),
{
    let n = s.unicode_len();
    let mut j: usize = n;
    assert(s@.subrange(0, n as int) == s@);
    while j > 0 && s.get_char(j - 1) == c
        invariant
            n == s@.len(),
            j <= n,
            trim_end(s@.subrange(0, j as int), c) == trim_end(s@, c),
        decreases j,
    {
        assert(s@.subrange(0, j as int).drop_last() == s@.subrange(0, j - 1));
        j = j - 1;
    }
    s.substring_char(0, j)
}

/// The user part of a Matrix mention `<@local:server>`: without the angle brackets and
/// the sigil.
pub open spec fn mention_user(ping: Seq<char>) -> Seq<char> {
    trim_end(trim_start(trim_start(ping, '<'), '@'), '>')
}

/// The local part of a Matrix user id: what stands before the first `:`.
pub open spec fn localpart_of(user: Seq<char>) -> Seq<char> {
    user.subrange(0, index_of_from(user, ':', 0))
}

/// How a Matrix mention reads on Discord: an account that the bridge puppets (its local
/// part starts with `bot_localpart`) becomes a mention of the remote user it stands for;
/// any other mention loses its angle brackets.
pub open spec fn mapped_ping(ping: Seq<char>, bot_localpart: Seq<char>) -> Seq<char> {
    let local = localpart_of(mention_user(ping));
    if occurs_at(local, 0, bot_localpart) {
        "<@"@ + local.subrange(bot_localpart.len() as int, local.len() as int) + ">"@
    } else {
        trim_end(trim_start(ping, '<'), '>')
    }
}

/// Maps a Matrix mention to the text that mentions the same person on Discord.
pub fn find_ping(ping: String, bot_localpart: &str) -> (r: String)
    ensures
        r@ == mapped_ping(ping@, bot_localpart@),
{
    let user = trim_end_char(trim_start_char(trim_start_char(ping.as_str(), '<'), '@'), '>');
    let un = user.unicode_len();
    let colon = first_index_of(user, un, ':');
    proof {
        lemma_index_of_from(user@, ':', 0);
    }
    let local = user.substring_char(0, colon);
    let ln = local.unicode_len();
    if occurs_at_exec(local, ln, 0, bot_localpart) {
        let rest = local.substring_char(bot_localpart.unicode_len(), ln);
        let mut out = String::from_str("<@");
        out.append(rest);
        out.append(">");
        out
    } else {
        String::from_str(trim_end_char(trim_start_char(ping.as_str(), '<'), '>'))
    }
}

/// The first position of `c` in `s`, or the length when there is none.
fn first_index_of(s: &str, n: usize, c: char) -> (r: usize)
    requires
        n == s@.len(),
    ensures
        r == index_of_from(s@, c, 0),
{
    let mut j: usize = 0;
    while j < n && s.get_char(j) != c
        invariant
            n == s@.len(),
            j <= n,
            index_of_from(s@, c, j as int) == index_of_from(s@, c, 0),
        decreases n - j,
    {
        j = j + 1;
    }
    j
}

/// The Discord web link to a message.
pub open spec fn discord_url(m: MessageView) -> Seq<char> {
    "https://discord.com/channels/"@ + m.server_id + "/"@ + m.room_id + "/"@ + m.id
}

/// Builds the Discord web link to `m`.
pub fn discord_message_url(m: &Message) -> (r: String)
    ensures
        r@ == discord_url(m@),
{
    let mut out = String::from_str("https://discord.com/channels/");
    out.append(m.server_id.as_str());
    out.append("/");
    out.append(m.room_id.as_str());
    out.append("/");
    out.append(m.id.as_str());
    out
}

/// The most characters of the quoted line that a reply header shows.
pub const QUOTE_WIDTH: usize = 64;

/// The quoted line, cut to `QUOTE_WIDTH` characters followed by `...` when longer.
pub open spec fn shortened(l: Seq<char>) -> Seq<char> {
    if l.len() > QUOTE_WIDTH {
        l.subrange(0, QUOTE_WIDTH as int) + "..."@
    } else {
        l
    }
}

/// The first line of `s`, or nothing when `s` has no line.
pub open spec fn first_line(s: Seq<char>) -> Seq<char> {
    if lines_from(s, 0).len() > 0 {
        lines_from(s, 0)[0]
    } else {
        Seq::empty()
    }
}

/// The header that quotes a replied-to message: `"> {ping} {line}"`, where the line is
/// the first line of the quoted body (without its own preamble), shortened, and turned
/// into a link to the Discord copy when there is one.
pub open spec fn quote_header(ping: Seq<char>, quoted: Seq<char>, link: Option<MessageView>) -> Seq<
    char,
> {
    let line = shortened(first_line(stripped(quoted)));
    let shown = match link {
        Some(m) => if m.service == discord_service() {
            "["@ + line + "]("@ + discord_url(m) + ")"@
        } else {
            line
        },
        None => line,
    };
    "> "@ + ping + " "@ + shown
}

/// A reply body for Discord, which cannot thread replies: the quote header, a line
/// feed, and the body without its quoted preamble.
pub open spec fn quoted_reply(
    ping: Seq<char>,
    quoted: Seq<char>,
    link: Option<MessageView>,
    body: Seq<char>,
) -> Seq<char> {
    quote_header(ping, quoted, link) + "\n"@ + stripped(body)
}

fn first_line_of(s: &str) -> (r: &str)
    ensures
        r@ == first_line(s@),
{
    let n = s.unicode_len();
    if n == 0 {
        return s;
    }
    let j = line_end(s, n, 0);
    proof {
        lemma_index_of_from(s@, '\n', 0);
    }
    if j > 0 && s.get_char(j - 1) == '\r' {
        s.substring_char(0, j - 1)
    } else {
        s.substring_char(0, j)
    }
}

/// Composes a reply for Discord from the author mention of the replied-to message, its
/// body, the message to link to, and the new body.
pub fn reply_quote(author_ping: &str, quoted_body: String, link: &Option<Message>, body: String) -> (r:
    String)
    ensures
        r@ == quoted_reply(
            author_ping@,
            quoted_body@,
            crate::chat_service::opt_view(*link),
            body@,
        ),
{
    let quoted = strip_reply(quoted_body);
    let line = first_line_of(quoted.as_str());
    let ln = line.unicode_len();
    let mut header = if ln > QUOTE_WIDTH {
        let mut cut = String::from_str(line.substring_char(0, QUOTE_WIDTH));
        cut.append("...");
        cut
    } else {
        String::from_str(line)
    };
    match link {
        Some(m) => {
            if m.service == crate::chat_service::discord_name() {
                let mut linked = String::from_str("[");
                linked.append(header.as_str());
                linked.append("](");
                let url = discord_message_url(m);
                linked.append(url.as_str());
                linked.append(")");
                header = linked;
            }
        },
        None => {},
    }
    let mut out = String::from_str("> ");
    out.append(author_ping);
    out.append(" ");
    out.append(header.as_str());
    out.append("\n");
    let rest = strip_reply(body);
    out.append(rest.as_str());
    out
}

} // verus!
