use ircmsg::{parse_irc_message, IrcMessage};

#[test]
fn parse_quit() {
    assert_eq!(
        parse_irc_message("QUIT"),
        Some(IrcMessage { command: "QUIT", prefix: None, args: Vec::new() })
    );
}

#[test]
fn parse_nick() {
    assert_eq!(
        parse_irc_message("NICK CrystalGamma"),
        Some(IrcMessage { command: "NICK", prefix: None, args: vec!["CrystalGamma"] })
    )
}

#[test]
fn parse_privmsg() {
    assert_eq!(
        parse_irc_message("PRIVMSG #channel :blah blah blah"),
        Some(IrcMessage { command: "PRIVMSG", prefix: None, args: vec!["#channel", "blah blah blah"] })
    )
}

#[test]
fn parse_privmsg_incoming() {
    assert_eq!(
        parse_irc_message(":CrystalGamma!crystal@server.example.com PRIVMSG #channel :blah blah blah"),
        Some(IrcMessage {
            command: "PRIVMSG",
            prefix: Some("CrystalGamma!crystal@server.example.com"),
            args: vec!["#channel", "blah blah blah"]
        })
    )
}

#[test]
fn parse_empty_line_is_none() {
    assert_eq!(parse_irc_message(""), None);
}

#[test]
fn parse_prefix_without_command_is_none() {
    assert_eq!(parse_irc_message(":server.example.com"), None);
}

#[test]
fn parse_trailing_keeps_colons_and_spaces() {
    assert_eq!(
        parse_irc_message("TOPIC #c ::-) a  b"),
        Some(IrcMessage { command: "TOPIC", prefix: None, args: vec!["#c", ":-) a  b"] })
    );
}

#[test]
fn parse_empty_trailing_parameter() {
    assert_eq!(
        parse_irc_message("PRIVMSG #c :"),
        Some(IrcMessage { command: "PRIVMSG", prefix: None, args: vec!["#c", ""] })
    );
}

#[test]
fn parse_trailing_space_gives_no_empty_parameter() {
    assert_eq!(
        parse_irc_message("JOIN #a "),
        Some(IrcMessage { command: "JOIN", prefix: None, args: vec!["#a"] })
    );
}

#[test]
fn parse_multibyte_text() {
    assert_eq!(
        parse_irc_message(":nïck PRIVMSG #ç :héllo wörld"),
        Some(IrcMessage { command: "PRIVMSG", prefix: Some("nïck"), args: vec!["#ç", "héllo wörld"] })
    );
}

#[test]
fn serialize_plain_and_trailing() {
    let m = IrcMessage { command: "PRIVMSG", prefix: None, args: vec!["#channel", "blah blah blah"] };
    assert_eq!(m.to_string(), "PRIVMSG #channel :blah blah blah");
    let m = IrcMessage { command: "NICK", prefix: Some("a!b@c"), args: vec!["new"] };
    assert_eq!(m.to_string(), ":a!b@c NICK new");
    let m = IrcMessage { command: "QUIT", prefix: None, args: vec![] };
    assert_eq!(m.to_string(), "QUIT");
}

#[test]
fn serialize_last_parameter_with_leading_colon() {
    let m = IrcMessage { command: "PRIVMSG", prefix: None, args: vec!["#c", ":)"] };
    assert_eq!(m.to_string(), "PRIVMSG #c ::)");
}

#[test]
fn round_trip_of_lines() {
    for line in [
        "QUIT",
        "NICK CrystalGamma",
        "PRIVMSG #channel :blah blah blah",
        ":CrystalGamma!crystal@server.example.com PRIVMSG #channel :blah blah blah",
        ":irc.example.net 001 me :Welcome to the network",
        "MODE #c +o someone",
        "PRIVMSG #c ::)",
    ] {
        let m = parse_irc_message(line).unwrap();
        assert_eq!(m.to_string(), line);
    }
}

#[test]
fn round_trip_of_message() {
    let m = IrcMessage { command: "PRIVMSG", prefix: Some("x"), args: vec!["#a,#b", "two words"] };
    let line = m.to_string();
    assert_eq!(parse_irc_message(&line), Some(m));
}

#[test]
fn parse_missing_command_is_none() {
    assert_eq!(parse_irc_message(" QUIT"), None);
    assert_eq!(parse_irc_message(":nick "), None);
    assert_eq!(parse_irc_message(":nick  QUIT"), None);
    assert_eq!(parse_irc_message(" "), None);
}
