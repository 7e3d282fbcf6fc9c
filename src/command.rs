use vstd::prelude::*;

use crate::error::Error;

verus! {

/// A command of the bot, named by the first word after the prefix.
#[derive(Clone, Copy, Debug, PartialEq, Eq, Structural)]
pub enum Command {
    /// Deal a hand and send it privately.
    Hand,
    /// Challenge the mentioned user.
    Challenge,
    /// List one's own challenges.
    List,
    /// Accept the challenge of the mentioned user.
    Accept,
}

/// Unicode's `White_Space` property.
pub open spec fn is_white_space(c: char) -> bool {
    let v = c as u32;
    (0x9 <= v <= 0xd) || v == 0x20 || v == 0x85 || v == 0xa0 || v == 0x1680 || (0x2000 <= v
        <= 0x200a) || v == 0x2028 || v == 0x2029 || v == 0x202f || v == 0x205f || v == 0x3000
}

/// Whether the character is white space.
pub fn white_space(c: char) -> (r: bool)
    ensures
        r == is_white_space(c),
{
    let v = c as u32;
    (0x9 <= v && v <= 0xd) || v == 0x20 || v == 0x85 || v == 0xa0 || v == 0x1680 || (0x2000 <= v
        && v <= 0x200a) || v == 0x2028 || v == 0x2029 || v == 0x202f || v == 0x205f || v == 0x3000
}

/// The first position at or after `i` that holds no white space (or the end).
pub open spec fn skip_space(s: Seq<char>, i: int) -> int
    decreases s.len() - i,
{
    if i < 0 || i >= s.len() || !is_white_space(s[i]) {
        i
    } else {
        skip_space(s, i + 1)
    }
}

/// The first position at or after `i` that holds white space (or the end).
pub open spec fn skip_word(s: Seq<char>, i: int) -> int
    decreases s.len() - i,
{
    if i < 0 || i >= s.len() || is_white_space(s[i]) {
        i
    } else {
        skip_word(s, i + 1)
    }
}

/// The first word after the one-character prefix; empty when there is none.
pub open spec fn command_word(s: Seq<char>) -> Seq<char> {
    let start = skip_space(s, 1);
    s.subrange(start, skip_word(s, start))
}

/// The text starts with the command prefix `!`.
pub open spec fn has_prefix(s: Seq<char>) -> bool {
    s.len() > 0 && s[0] == '!'
}

/// Whether a message is addressed to the bot: it starts with `!`.
pub fn is_command(content: &str) -> (r: bool)
    ensures
        r == has_prefix(content@),
{
    content.unicode_len() > 0 && content.get_char(0) == '!'
}

/// The command word of a message: the first word after the prefix, which
/// is the message's first character.
pub fn extract_command(content: &str) -> (r: &str)
    requires
        content@.len() > 0,
    ensures
        r@ == command_word(content@),
{
    let n = content.unicode_len();
    let mut start: usize = 1;
    while start < n && white_space(content.get_char(start))
        invariant
            1 <= start <= n,
            n == content@.len(),
            skip_space(content@, start as int) == skip_space(content@, 1),
        decreases n - start,
    {
        start += 1;
    }
    let mut end: usize = start;
    while end < n && !white_space(content.get_char(end))
        invariant
            start <= end <= n,
            n == content@.len(),
            skip_word(content@, end as int) == skip_word(content@, start as int),
        decreases n - end,
    {
        end += 1;
    }
    content.substring_char(start, end)
}

/// The two texts hold the same characters.
pub fn same_text(a: &str, b: &str) -> (r: bool)
    ensures
        r == (a@ == b@),
{
    let n = a.unicode_len();
    if n != b.unicode_len() {
        return false;
    }
    let mut i: usize = 0;
    while i < n
        invariant
            i <= n,
            n == a@.len(),
            n == b@.len(),
            forall|j: int| 0 <= j < i ==> a@[j] == b@[j],
        decreases n - i,
    {
        if a.get_char(i) != b.get_char(i) {
            return false;
        }
        i += 1;
    }
    proof {
        assert(a@ =~= b@);
    }
    true
}

/// The command that a word names, if it names one.
pub open spec fn command_named(word: Seq<char>) -> Option<Command> {
    if word == "hand"@ {
        Some(Command::Hand)
    } else if word == "challenge"@ {
        Some(Command::Challenge)
    } else if word == "list"@ {
        Some(Command::List)
    } else if word == "accept"@ {
        Some(Command::Accept)
    } else {
        None
    }
}

/// The command that `word` names, or `UnknownCommand` holding the word.
pub fn parse_command(word: &str) -> (r: Result<Command, Error>)
    ensures
        command_named(word@) matches Some(c) ==> r == Ok::<Command, Error>(c),
        command_named(word@) is None ==> (r matches Err(Error::UnknownCommand(w)) && w@ == word@),
{
    if same_text(word, "hand") {
        Ok(Command::Hand)
    } else if same_text(word, "challenge") {
        Ok(Command::Challenge)
    } else if same_text(word, "list") {
        Ok(Command::List)
    } else if same_text(word, "accept") {
        Ok(Command::Accept)
    } else {
        Err(Error::UnknownCommand(word.to_owned()))
    }
}

} // verus!
