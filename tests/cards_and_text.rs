use card_jitsu::command::{extract_command, is_command, parse_command, same_text, white_space, Command};
use card_jitsu::dealer::deal_hand;
use card_jitsu::error::Error;
use card_jitsu::matchmaker::handle_list_challenges;
use card_jitsu::models::{challenge_from_row, Card, Color, Element};
use card_jitsu::store::{accept_challenge, create_challenge, ChallengeStore};
use card_jitsu::text::{parse_user_id, accepted_message, challenged_message, decimal_string, hand_message, list_message, mention};

#[test]
fn hand_has_five_valid_cards() {
    for _ in 0..50 {
        let hand = deal_hand();
        assert_eq!(hand.len(), 5);
        for card in &hand {
            assert!((1..=10).contains(&card.value));
        }
    }
}

#[test]
fn random_cards_cover_their_range() {
    let mut seen = [false; 11];
    for _ in 0..2000 {
        let card = Card::new();
        assert!((1..=10).contains(&card.value));
        seen[card.value as usize] = true;
    }
    assert!(seen[1..].iter().all(|s| *s));
}

#[test]
fn draws_name_cards() {
    let c = Card::from_draws(1, 2, 7);
    assert_eq!(c, Card { color: Color::GREEN, element: Element::WATER, value: 7 });
    let d = Card::from_draws(0, 1, 3);
    assert_eq!((d.color, d.element), (Color::RED, Element::SNOW));
    let e = Card::from_draws(2, 0, 10);
    assert_eq!((e.color, e.element), (Color::BLUE, Element::FIRE));
}

#[test]
fn numbers_and_mentions() {
    assert_eq!(decimal_string(0), "0");
    assert_eq!(decimal_string(1234567890), "1234567890");
    assert_eq!(decimal_string(u64::MAX), "18446744073709551615");
    assert_eq!(mention(42), "<@42>");
    assert_eq!(challenged_message(1, 22), "<@1> has challenged <@22>");
    assert_eq!(accepted_message(22, 1), "<@22> has accepted <@1>'s challenge!");
}

#[test]
fn error_messages() {
    assert_eq!(Error::NoTarget.message(), "You need to challenge at least one user");
    assert_eq!(Error::SelfChallenge.message(), "You cannot challenge yourself, silly!");
    assert_eq!(Error::TooManyTargets.message(), "You can only challenge one user at a time");
    assert_eq!(Error::AlreadyPendingWith(5).message(), "You already have a pending challenge with <@5>");
    assert_eq!(Error::AlreadyOngoingWith(5).message(), "You already have an ongoing challenge with <@5>");
    assert_eq!(Error::NoAcceptTarget.message(), "You need to tell me whose challenge to accept");
    assert_eq!(
        Error::TooManyAcceptTargets.message(),
        "You can only accept one person's challenge at a time"
    );
    assert_eq!(
        Error::ParticipantAlreadyOngoing(8).message(),
        "<@8> already has an ongoing challenge"
    );
    assert_eq!(Error::NoSuchPendingChallenge(3).message(), "There's no challenge to accept from <@3>");
    assert_eq!(
        Error::StoreUnavailable.message(),
        "Chucks. Something went wrong on my side... :crying_cat_face:"
    );
    assert_eq!(
        Error::UnknownCommand(String::from("dance")).message(),
        "Could not handle command: dance"
    );
}

#[test]
fn hand_text_numbers_each_card() {
    let hand = vec![
        Card { color: Color::RED, element: Element::FIRE, value: 1 },
        Card { color: Color::BLUE, element: Element::SNOW, value: 10 },
    ];
    assert_eq!(
        hand_message(&hand),
        "Your hand has the following cards:\n:one: Red Fire 1\n:two: Blue Snow 10\n"
    );
    assert_eq!(Color::GREEN.name(), "Green");
    assert_eq!(Element::WATER.name(), "Water");
}

#[test]
fn list_text_names_the_other_user() {
    let mut store = ChallengeStore::new();
    create_challenge(&mut store, 1, 2).unwrap();
    create_challenge(&mut store, 3, 1).unwrap();
    create_challenge(&mut store, 1, 4).unwrap();
    accept_challenge(&mut store, 3, 1).unwrap();
    let text = list_message(&handle_list_challenges(&store, 1), 1);
    assert_eq!(
        text,
        "**Pending Challenges:**\nYou have a pending challenge with <@2>\nYou have a pending challenge with <@4>\n**Ongoing Challenge:**\nYou have an ongoing challenge with <@3>\n"
    );
    assert!(!text.contains("<@1>"));
    assert_eq!(
        list_message(&handle_list_challenges(&store, 7), 7),
        "You don't have any pending or active challenges :cold_sweat:"
    );
}

#[test]
fn command_words() {
    assert!(is_command("!hand"));
    assert!(!is_command("hand"));
    assert!(!is_command(""));
    assert_eq!(extract_command("!challenge <@12>"), "challenge");
    assert_eq!(extract_command("! \t list now"), "list");
    assert_eq!(extract_command("!"), "");
    assert_eq!(extract_command("!   "), "");
    assert_eq!(parse_command("hand"), Ok(Command::Hand));
    assert_eq!(parse_command("challenge"), Ok(Command::Challenge));
    assert_eq!(parse_command("list"), Ok(Command::List));
    assert_eq!(parse_command("accept"), Ok(Command::Accept));
    assert_eq!(parse_command("Accept"), Err(Error::UnknownCommand(String::from("Accept"))));
    assert_eq!(parse_command(""), Err(Error::UnknownCommand(String::new())));
    assert!(same_text("abc", "abc"));
    assert!(!same_text("abc", "abd"));
    assert!(white_space('\u{3000}'));
    assert!(!white_space('x'));
}

#[test]
fn stored_user_ids_are_read() {
    assert_eq!(parse_user_id("200"), Some(200));
    assert_eq!(parse_user_id("+7"), Some(7));
    assert_eq!(parse_user_id("007"), Some(7));
    assert_eq!(parse_user_id("18446744073709551615"), Some(u64::MAX));
    assert_eq!(parse_user_id("18446744073709551616"), None);
    assert_eq!(parse_user_id(""), None);
    assert_eq!(parse_user_id("+"), None);
    assert_eq!(parse_user_id("12a"), None);
    assert_eq!(parse_user_id("-1"), None);
    let c = challenge_from_row(3, "100", "200", "100", false, None).unwrap();
    assert_eq!((c.id, c.user_one, c.user_two, c.challenger, c.accepted), (3, 100, 200, 100, false));
    assert_eq!(challenge_from_row(3, "100", "x", "100", false, None), None);
    assert_eq!(challenge_from_row(3, "1", "2", "1", true, Some("bad")), None);
    assert_eq!(challenge_from_row(3, "1", "2", "1", true, Some("2")).unwrap().winner, Some(2));
}
