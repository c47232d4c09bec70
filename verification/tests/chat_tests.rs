use discord_bot::chat::{hello_reply, mention_replies, rude_reply, say_settings, unknown_command_reply};

#[test]
fn greetings() {
    assert_eq!(hello_reply("<@42>"), "<@42>, Hello!");
    assert_eq!(rude_reply("<@42>"), "F*ck you, <@42>");
    assert_eq!(unknown_command_reply("foo"), "Unknown command: 'foo'. Try `/help`.");
}

#[test]
fn one_greeting_per_self_mention() {
    let r = mention_replies(&vec![1, 7, 3, 7], 7, "<@1>");
    assert_eq!(r, vec!["<@1>, Hello!".to_string(), "<@1>, Hello!".to_string()]);
    assert!(mention_replies(&vec![1, 2], 7, "<@1>").is_empty());
    assert!(mention_replies(&vec![], 7, "<@1>").is_empty());
}

#[test]
fn say_cleaning() {
    let g = say_settings(Some(99));
    assert!(!g.clean_channel && g.clean_role && g.clean_user && g.clean_here && g.clean_everyone);
    assert!(g.show_discriminator);
    assert_eq!(g.display_as_member_from, Some(99));
    let d = say_settings(None);
    assert!(!d.clean_channel && !d.clean_role && d.clean_user);
    assert_eq!(d.display_as_member_from, None);
}
