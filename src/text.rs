use vstd::prelude::*;

use crate::error::Error;
use crate::matchmaker::ChallengeList;
use crate::models::{Card, Challenge, Color, Element};

verus! {

/// The character of a decimal digit.
pub open spec fn digit_char(d: int) -> char {
    if d == 0 {
        '0'
    } else if d == 1 {
        '1'
    } else if d == 2 {
        '2'
    } else if d == 3 {
        '3'
    } else if d == 4 {
        '4'
    } else if d == 5 {
        '5'
    } else if d == 6 {
        '6'
    } else if d == 7 {
        '7'
    } else if d == 8 {
        '8'
    } else {
        '9'
    }
}

/// The decimal digits of `n`, most significant first, without leading zeros.
pub open spec fn decimal(n: nat) -> Seq<char>
    decreases n,
{
    if n < 10 {
        seq![digit_char(n as int)]
    } else {
        decimal(n / 10).push(digit_char((n % 10) as int))
    }
}

/// How a message mentions a user.
pub open spec fn mention_text(id: u64) -> Seq<char> {
    "<@"@ + decimal(id as nat) + ">"@
}

fn digit_str(d: u64) -> (r: &'static str)
    requires
        d < 10,
    ensures
        r@ == seq![digit_char(d as int)],
{
    proof {
        reveal_strlit("0");
        reveal_strlit("1");
        reveal_strlit("2");
        reveal_strlit("3");
        reveal_strlit("4");
        reveal_strlit("5");
        reveal_strlit("6");
        reveal_strlit("7");
        reveal_strlit("8");
        reveal_strlit("9");
    }
    if d == 0 {
        "0"
    } else if d == 1 {
        "1"
    } else if d == 2 {
        "2"
    } else if d == 3 {
        "3"
    } else if d == 4 {
        "4"
    } else if d == 5 {
        "5"
    } else if d == 6 {
        "6"
    } else if d == 7 {
        "7"
    } else if d == 8 {
        "8"
    } else {
        "9"
    }
}

/// Appends the decimal digits of `n`.
pub fn push_decimal(s: &mut String, n: u64)
    ensures
        final(s)@ == old(s)@ + decimal(n as nat),
    decreases n,
{
    if n >= 10 {
        push_decimal(s, n / 10);
    }
    s.append(digit_str(n % 10));
    proof {
        if n >= 10 {
            assert(final(s)@ =~= old(s)@ + decimal(n as nat));
        } else {
            assert(final(s)@ =~= old(s)@ + decimal(n as nat));
        }
    }
}

/// The decimal digits of `n`.
pub fn decimal_string(n: u64) -> (r: String)
    ensures
        r@ == decimal(n as nat),
{
    let mut s = String::new();
    push_decimal(&mut s, n);
    proof {
        assert(s@ =~= decimal(n as nat));
    }
    s
}

/// Appends a mention of the user.
pub fn push_mention(s: &mut String, id: u64)
    ensures
        final(s)@ == old(s)@ + mention_text(id),
{
    s.append("<@");
    push_decimal(s, id);
    s.append(">");
    proof {
        assert(final(s)@ =~= old(s)@ + mention_text(id));
    }
}

/// A mention of the user, as the chat shows it.
pub fn mention(id: u64) -> (r: String)
    ensures
        r@ == mention_text(id),
{
    let mut s = String::new();
    push_mention(&mut s, id);
    proof {
        assert(s@ =~= mention_text(id));
    }
    s
}

/// What the bot replies when a command is refused or fails.
pub open spec fn error_text(e: Error) -> Seq<char> {
    match e {
        Error::NoTarget => "You need to challenge at least one user"@,
        Error::TooManyTargets => "You can only challenge one user at a time"@,
        Error::SelfChallenge => "You cannot challenge yourself, silly!"@,
        Error::AlreadyPendingWith(u) => "You already have a pending challenge with "@
            + mention_text(u),
        Error::AlreadyOngoingWith(u) => "You already have an ongoing challenge with "@
            + mention_text(u),
        Error::NoAcceptTarget => "You need to tell me whose challenge to accept"@,
        Error::TooManyAcceptTargets => "You can only accept one person's challenge at a time"@,
        Error::ParticipantAlreadyOngoing(u) => mention_text(u)
            + " already has an ongoing challenge"@,
        Error::NoSuchPendingChallenge(u) => "There's no challenge to accept from "@
            + mention_text(u),
        Error::StoreUnavailable => "Chucks. Something went wrong on my side... :crying_cat_face:"@,
        Error::UnknownCommand(c) => "Could not handle command: "@ + c@,
    }
}

impl Error {
    /// The reply for this error.
    pub fn message(&self) -> (r: String)
        ensures
            r@ == error_text(*self),
    {
        match self {
            Error::NoTarget => String::from_str("You need to challenge at least one user"),
            Error::TooManyTargets => String::from_str("You can only challenge one user at a time"),
            Error::SelfChallenge => String::from_str("You cannot challenge yourself, silly!"),
            Error::AlreadyPendingWith(u) => {
                let mut s = String::from_str("You already have a pending challenge with ");
                push_mention(&mut s, *u);
                s
            },
            Error::AlreadyOngoingWith(u) => {
                let mut s = String::from_str("You already have an ongoing challenge with ");
                push_mention(&mut s, *u);
                s
            },
            Error::NoAcceptTarget => String::from_str(
                "You need to tell me whose challenge to accept",
            ),
            Error::TooManyAcceptTargets => String::from_str(
                "You can only accept one person's challenge at a time",
            ),
            Error::ParticipantAlreadyOngoing(u) => {
                let mut s = mention(*u);
                s.append(" already has an ongoing challenge");
                s
            },
            Error::NoSuchPendingChallenge(u) => {
                let mut s = String::from_str("There's no challenge to accept from ");
                push_mention(&mut s, *u);
                s
            },
            Error::StoreUnavailable => String::from_str(
                "Chucks. Something went wrong on my side... :crying_cat_face:",
            ),
            Error::UnknownCommand(c) => {
                let mut s = String::from_str("Could not handle command: ");
                s.append(c.as_str());
                s
            },
        }
    }
}

/// The announcement that `challenger` has challenged `challenged`.
pub open spec fn challenged_text(challenger: u64, challenged: u64) -> Seq<char> {
    mention_text(challenger) + " has challenged "@ + mention_text(challenged)
}

/// The announcement that `acceptor` has accepted the challenge of `owner`.
pub open spec fn accepted_text(acceptor: u64, owner: u64) -> Seq<char> {
    mention_text(acceptor) + " has accepted "@ + mention_text(owner) + "'s challenge!"@
}

/// Announces a new challenge, mentioning both users.
pub fn challenged_message(challenger: u64, challenged: u64) -> (r: String)
    ensures
        r@ == challenged_text(challenger, challenged),
{
    let mut s = mention(challenger);
    s.append(" has challenged ");
    push_mention(&mut s, challenged);
    s
}

/// Announces an accepted challenge, mentioning both users.
pub fn accepted_message(acceptor: u64, owner: u64) -> (r: String)
    ensures
        r@ == accepted_text(acceptor, owner),
{
    let mut s = mention(acceptor);
    s.append(" has accepted ");
    push_mention(&mut s, owner);
    s.append("'s challenge!");
    s
}

/// The line that lists one challenge of `user`, naming the other participant.
pub open spec fn listing_line(c: Challenge, user: u64, ongoing: bool) -> Seq<char> {
    "You have "@ + (if ongoing {
        "an ongoing "@
    } else {
        "a pending "@
    }) + "challenge with "@ + mention_text(c.other_of(user)) + "\n"@
}

/// The lines that list the challenges, in order.
pub open spec fn listing_lines(cs: Seq<Challenge>, user: u64, ongoing: bool) -> Seq<char>
    decreases cs.len(),
{
    if cs.len() == 0 {
        Seq::empty()
    } else {
        listing_lines(cs.drop_last(), user, ongoing) + listing_line(cs.last(), user, ongoing)
    }
}

/// The bold heading of a section of the list.
pub open spec fn heading_text(ongoing: bool) -> Seq<char> {
    if ongoing {
        "**Ongoing Challenge:**\n"@
    } else {
        "**Pending Challenges:**\n"@
    }
}

/// A section of the list: nothing when there is no challenge in it.
pub open spec fn section_text(cs: Seq<Challenge>, user: u64, ongoing: bool) -> Seq<char> {
    if cs.len() == 0 {
        Seq::empty()
    } else {
        heading_text(ongoing) + listing_lines(cs, user, ongoing)
    }
}

/// The reply to the `list` command.
pub open spec fn list_text(pending: Seq<Challenge>, ongoing: Seq<Challenge>, user: u64) -> Seq<
    char,
> {
    if pending.len() == 0 && ongoing.len() == 0 {
        "You don't have any pending or active challenges :cold_sweat:"@
    } else {
        section_text(pending, user, false) + section_text(ongoing, user, true)
    }
}

fn push_section(s: &mut String, cs: &Vec<Challenge>, user: u64, ongoing: bool)
    ensures
        final(s)@ == old(s)@ + section_text(cs@, user, ongoing),
{
    if cs.len() == 0 {
        proof {
            assert(final(s)@ =~= old(s)@ + section_text(cs@, user, ongoing));
        }
        return;
    }
    if ongoing {
        s.append("**Ongoing Challenge:**\n");
    } else {
        s.append("**Pending Challenges:**\n");
    }
    let ghost start = s@;
    let mut i: usize = 0;
    while i < cs.len()
        invariant
            i <= cs@.len(),
            s@ == start + listing_lines(cs@.subrange(0, i as int), user, ongoing),
        decreases cs@.len() - i,
    {
        let c = cs[i];
        let ghost before = s@;
        s.append("You have ");
        if ongoing {
            s.append("an ongoing ");
        } else {
            s.append("a pending ");
        }
        s.append("challenge with ");
        push_mention(s, c.other_participant(user));
        s.append("\n");
        proof {
            assert(s@ =~= before + listing_line(c, user, ongoing));
            assert(cs@.subrange(0, i + 1).drop_last() =~= cs@.subrange(0, i as int));
            assert(s@ =~= start + listing_lines(cs@.subrange(0, i + 1), user, ongoing));
        }
        i += 1;
    }
    proof {
        assert(cs@.subrange(0, cs@.len() as int) =~= cs@);
        assert(s@ =~= old(s)@ + section_text(cs@, user, ongoing));
    }
}

/// The reply to the `list` command for `user`: the pending challenges, then
/// the ongoing one, each line naming the other participant.
pub fn list_message(list: &ChallengeList, user: u64) -> (r: String)
    ensures
        r@ == list_text(list.pending@, list.ongoing@, user),
{
    if list.is_empty() {
        return String::from_str("You don't have any pending or active challenges :cold_sweat:");
    }
    let mut s = String::new();
    push_section(&mut s, &list.pending, user, false);
    push_section(&mut s, &list.ongoing, user, true);
    proof {
        assert(s@ =~= list_text(list.pending@, list.ongoing@, user));
    }
    s
}

/// The name of a colour.
pub open spec fn color_text(c: Color) -> Seq<char> {
    match c {
        Color::RED => "Red"@,
        Color::GREEN => "Green"@,
        Color::BLUE => "Blue"@,
    }
}

/// The name of an element.
pub open spec fn element_text(e: Element) -> Seq<char> {
    match e {
        Element::FIRE => "Fire"@,
        Element::SNOW => "Snow"@,
        Element::WATER => "Water"@,
    }
}

impl Color {
    /// The colour's name.
    pub fn name(&self) -> (r: &'static str)
        ensures
            r@ == color_text(*self),
    {
        match self {
            Color::RED => "Red",
            Color::GREEN => "Green",
            Color::BLUE => "Blue",
        }
    }
}

impl Element {
    /// The element's name.
    pub fn name(&self) -> (r: &'static str)
        ensures
            r@ == element_text(*self),
    {
        match self {
            Element::FIRE => "Fire",
            Element::SNOW => "Snow",
            Element::WATER => "Water",
        }
    }
}

/// The emoji that numbers the card at position `i` of a hand.
pub open spec fn emoji_text(i: int) -> Seq<char> {
    if i == 0 {
        ":one:"@
    } else if i == 1 {
        ":two:"@
    } else if i == 2 {
        ":three:"@
    } else if i == 3 {
        ":four:"@
    } else if i == 4 {
        ":five:"@
    } else {
        ":100:"@
    }
}

/// The line that shows the card at position `i` of a hand.
pub open spec fn card_line(i: int, c: Card) -> Seq<char> {
    emoji_text(i) + " "@ + color_text(c.color) + " "@ + element_text(c.element) + " "@ + decimal(
        c.value as nat,
    ) + "\n"@
}

/// The lines that show the cards, in order.
pub open spec fn hand_lines(cards: Seq<Card>) -> Seq<char>
    decreases cards.len(),
{
    if cards.len() == 0 {
        Seq::empty()
    } else {
        hand_lines(cards.drop_last()) + card_line(cards.len() - 1, cards.last())
    }
}

/// The message that shows a hand.
pub open spec fn hand_text(cards: Seq<Card>) -> Seq<char> {
    "Your hand has the following cards:\n"@ + hand_lines(cards)
}

fn emoji(i: usize) -> (r: &'static str)
    ensures
        r@ == emoji_text(i as int),
{
    if i == 0 {
        ":one:"
    } else if i == 1 {
        ":two:"
    } else if i == 2 {
        ":three:"
    } else if i == 3 {
        ":four:"
    } else if i == 4 {
        ":five:"
    } else {
        ":100:"
    }
}

/// The message that shows a hand, one numbered line per card.
pub fn hand_message(hand: &Vec<Card>) -> (r: String)
    ensures
        r@ == hand_text(hand@),
{
    let mut s = String::from_str("Your hand has the following cards:\n");
    let mut i: usize = 0;
    while i < hand.len()
        invariant
            i <= hand@.len(),
            s@ == "Your hand has the following cards:\n"@ + hand_lines(hand@.subrange(0, i as int)),
        decreases hand@.len() - i,
    {
        let c = hand[i];
        let ghost before = s@;
        s.append(emoji(i));
        s.append(" ");
        s.append(c.color.name());
        s.append(" ");
        s.append(c.element.name());
        s.append(" ");
        push_decimal(&mut s, c.value as u64);
        s.append("\n");
        proof {
            assert(s@ =~= before + card_line(i as int, c));
            assert(hand@.subrange(0, i + 1).drop_last() =~= hand@.subrange(0, i as int));
            assert(s@ =~= "Your hand has the following cards:\n"@ + hand_lines(
                hand@.subrange(0, i + 1),
            ));
        }
        i += 1;
    }
    proof {
        assert(hand@.subrange(0, hand@.len() as int) =~= hand@);
    }
    s
}

/// The character is one of the digits `0` to `9`.
pub open spec fn is_digit(c: char) -> bool {
    48 <= (c as u32) <= 57
}

/// The number that a run of decimal digits spells.
pub open spec fn digits_value(s: Seq<char>) -> int
    decreases s.len(),
{
    if s.len() == 0 {
        0
    } else {
        digits_value(s.drop_last()) * 10 + ((s.last() as u32) - 48)
    }
}

/// The text without a leading `+`.
pub open spec fn unsigned_digits(s: Seq<char>) -> Seq<char> {
    if s.len() > 0 && s[0] == '+' {
        s.drop_first()
    } else {
        s
    }
}

/// The `u64` that the text spells, as Rust reads an unsigned integer: an
/// optional `+`, then one or more decimal digits, with a value that fits.
pub open spec fn parses_as_u64(s: Seq<char>) -> Option<u64> {
    let d = unsigned_digits(s);
    if d.len() > 0 && (forall|i: int| 0 <= i < d.len() ==> is_digit(#[trigger] d[i])) && digits_value(
        d,
    ) <= u64::MAX {
        Some(digits_value(d) as u64)
    } else {
        None
    }
}

/// A run of digits spells at least what each of its prefixes spells.
proof fn lemma_digits_value_grows(s: Seq<char>, k: int)
    requires
        0 <= k <= s.len(),
        forall|i: int| 0 <= i < s.len() ==> is_digit(#[trigger] s[i]),
    ensures
        0 <= digits_value(s.subrange(0, k)) <= digits_value(s),
    decreases s.len(),
{
    if k == s.len() {
        assert(s.subrange(0, k) =~= s);
        if s.len() > 0 {
            lemma_digits_value_grows(s.drop_last(), k - 1);
            assert(is_digit(s[s.len() - 1]));
        }
    } else {
        let t = s.drop_last();
        assert(s.subrange(0, k) =~= t.subrange(0, k));
        lemma_digits_value_grows(t, k);
        assert(is_digit(s[s.len() - 1]));
    }
}

/// Reads a user id stored as text; `None` when the text is not a `u64`.
pub fn parse_user_id(s: &str) -> (r: Option<u64>)
    ensures
        r == parses_as_u64(s@),
{
    let n = s.unicode_len();
    let mut i: usize = 0;
    if n > 0 && s.get_char(0) == '+' {
        i = 1;
    }
    let start = i;
    proof {
        assert(unsigned_digits(s@) =~= s@.subrange(start as int, n as int));
    }
    if i == n {
        return None;
    }
    let ghost d = s@.subrange(start as int, n as int);
    let mut value: u64 = 0;
    while i < n
        invariant
            start <= i <= n,
            n == s@.len(),
            d == s@.subrange(start as int, n as int),
            unsigned_digits(s@) == d,
            d.len() > 0,
            value == digits_value(d.subrange(0, i - start)),
            forall|j: int| 0 <= j < i - start ==> is_digit(#[trigger] d[j]),
        decreases n - i,
    {
        let c = s.get_char(i);
        let code = c as u32;
        if code < 48 || code > 57 {
            assert(!is_digit(d[i - start]));
            return None;
        }
        let digit = (code - 48) as u64;
        proof {
            assert(d.subrange(0, i - start + 1).drop_last() =~= d.subrange(0, i - start));
        }
        if value > (u64::MAX - digit) / 10 {
            proof {
                let v = value as int;
                let g = digit as int;
                assert(v * 10 + g > u64::MAX) by (nonlinear_arith)
                    requires
                        v > (u64::MAX - g) / 10,
                        0 <= g <= 9,
                ;
                if forall|j: int| 0 <= j < d.len() ==> is_digit(#[trigger] d[j]) {
                    lemma_digits_value_grows(d, i - start + 1);
                }
            }
            return None;
        }
        proof {
            let v = value as int;
            let g = digit as int;
            assert(v * 10 + g <= u64::MAX) by (nonlinear_arith)
                requires
                    v <= (u64::MAX - g) / 10,
                    0 <= g <= 9,
            ;
        }
        value = value * 10 + digit;
        i += 1;
    }
    proof {
        assert(d.subrange(0, n - start) =~= d);
    }
    Some(value)
}

} // verus!
