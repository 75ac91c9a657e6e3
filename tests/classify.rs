use ircmsg::{analyse_message, is_channel_name, nick_from_mask, parse_irc_message, IrcMessage, TargetList, TypedMessage};

#[test]
fn classify_incoming_privmsg() {
    let m = parse_irc_message(":CrystalGamma!crystal@server.example.com PRIVMSG #channel :blah blah blah").unwrap();
    match analyse_message(m) {
        TypedMessage::Msg(from, targets, text) => {
            assert_eq!(from, "CrystalGamma!crystal@server.example.com");
            assert_eq!(targets.iter(), vec!["#channel"]);
            assert_eq!(text, "blah blah blah");
        }
        other => panic!("unexpected {:?}", other),
    }
}

#[test]
fn classify_outgoing_privmsg_and_notices() {
    match analyse_message(parse_irc_message("PRIVMSG a,b :hi there").unwrap()) {
        TypedMessage::Talk(targets, text) => {
            assert_eq!(targets.unwrap(), "a,b");
            assert_eq!(text, "hi there");
        }
        other => panic!("unexpected {:?}", other),
    }
    match analyse_message(parse_irc_message(":srv NOTICE me :note").unwrap()) {
        TypedMessage::Notice(from, targets, text) => {
            assert_eq!((from, targets.unwrap(), text), ("srv", "me", "note"));
        }
        other => panic!("unexpected {:?}", other),
    }
    match analyse_message(parse_irc_message("NOTICE me :note").unwrap()) {
        TypedMessage::Notify(targets, text) => assert_eq!((targets.unwrap(), text), ("me", "note")),
        other => panic!("unexpected {:?}", other),
    }
}

#[test]
fn classify_ping_and_numerics() {
    match analyse_message(parse_irc_message("PING :irc.example.net").unwrap()) {
        TypedMessage::Ping(args) => assert_eq!(args, vec!["irc.example.net"]),
        other => panic!("unexpected {:?}", other),
    }
    match analyse_message(parse_irc_message("PING").unwrap()) {
        TypedMessage::Ping(args) => assert!(args.is_empty()),
        other => panic!("unexpected {:?}", other),
    }
    assert!(matches!(analyse_message(parse_irc_message(":s 001 me :Welcome").unwrap()), TypedMessage::Welcome("Welcome")));
    assert!(matches!(analyse_message(parse_irc_message(":s 002 me :Host").unwrap()), TypedMessage::YourHost("Host")));
    assert!(matches!(analyse_message(parse_irc_message(":s 375 me :start").unwrap()), TypedMessage::MotdStart("start")));
    assert!(matches!(analyse_message(parse_irc_message(":s 372 me :line").unwrap()), TypedMessage::Motd("line")));
    assert!(matches!(analyse_message(parse_irc_message(":s 376 me :end").unwrap()), TypedMessage::MotdEnd("end")));
    assert!(matches!(analyse_message(parse_irc_message(":s 331 #c :none").unwrap()), TypedMessage::Topic("#c", None)));
    assert!(matches!(analyse_message(parse_irc_message(":s 332 #c :a topic").unwrap()), TypedMessage::Topic("#c", Some("a topic"))));
}

#[test]
fn classify_join_and_nick() {
    match analyse_message(parse_irc_message(":n!u@h JOIN #a,#b").unwrap()) {
        TypedMessage::Joined(who, chans) => {
            assert_eq!(who, "n!u@h");
            assert_eq!(chans.iter(), vec!["#a", "#b"]);
        }
        other => panic!("unexpected {:?}", other),
    }
    match analyse_message(parse_irc_message("JOIN #a").unwrap()) {
        TypedMessage::Join(chans, None) => assert_eq!(chans.unwrap(), "#a"),
        other => panic!("unexpected {:?}", other),
    }
    assert!(matches!(analyse_message(parse_irc_message(":old!u@h NICK new").unwrap()), TypedMessage::NickChanged("old!u@h", "new")));
    assert!(matches!(analyse_message(parse_irc_message("NICK new").unwrap()), TypedMessage::SetNick("new")));
}

#[test]
fn classify_unknown_command_passes_through() {
    let m = parse_irc_message(":s MODE #c +o someone").unwrap();
    match analyse_message(m.clone()) {
        TypedMessage::Other(o) => assert_eq!(o, m),
        other => panic!("unexpected {:?}", other),
    }
}

#[test]
fn classify_wrong_arity_passes_through() {
    for line in ["001 me", "PRIVMSG #c", "NICK a b", "JOIN #a key", "332 #c"] {
        let m = parse_irc_message(line).unwrap();
        match analyse_message(m.clone()) {
            TypedMessage::Other(o) => assert_eq!(o, m),
            other => panic!("unexpected {:?} for {}", other, line),
        }
    }
}

#[test]
fn to_dumb_outgoing_kinds() {
    let r = TypedMessage::Register("bot", "A Bot").to_dumb();
    assert_eq!(r, IrcMessage { command: "USER", prefix: None, args: vec!["bot", "8", "-", "A Bot"] });
    assert_eq!(r.to_string(), "USER bot 8 - :A Bot");
    let j = TypedMessage::Join(TargetList::from_str("#a,#b"), Some(TargetList::from_str("k1,k2"))).to_dumb();
    assert_eq!(j.to_string(), "JOIN #a,#b k1,k2");
    let j = TypedMessage::Join(TargetList::from_str("#a"), None).to_dumb();
    assert_eq!(j.args, vec!["#a"]);
    let p = TypedMessage::Pong(vec!["irc.example.net"]).to_dumb();
    assert_eq!(p.to_string(), "PONG irc.example.net");
    let t = TypedMessage::Talk(TargetList::from_str("#c"), "hello all").to_dumb();
    assert_eq!(t.to_string(), "PRIVMSG #c :hello all");
    let n = TypedMessage::Notify(TargetList::from_str("x"), "hi").to_dumb();
    assert_eq!(n.to_string(), "NOTICE x hi");
    let s = TypedMessage::SetNick("me").to_dumb();
    assert_eq!(s.to_string(), "NICK me");
}

#[test]
fn motd_predicate() {
    assert!(TypedMessage::MotdStart("a").is_motd());
    assert!(TypedMessage::Motd("a").is_motd());
    assert!(TypedMessage::MotdEnd("a").is_motd());
    assert!(!TypedMessage::Welcome("a").is_motd());
    assert!(!TypedMessage::SetNick("a").is_motd());
}

#[test]
fn target_list_splits_each_time() {
    let t = TargetList::from_str("a,b,c");
    assert_eq!(t.iter(), vec!["a", "b", "c"]);
    assert_eq!(t.iter(), vec!["a", "b", "c"]);
    let u = t;
    assert_eq!(u.unwrap(), "a,b,c");
    assert_eq!(t.unwrap(), "a,b,c");
}

#[test]
fn target_list_edge_cases() {
    assert_eq!(TargetList::from_str("").iter(), vec![""]);
    assert_eq!(TargetList::from_str("a,,b,").iter(), vec!["a", "", "b", ""]);
}

#[test]
fn nick_of_masks() {
    assert_eq!(nick_from_mask("nick!user@host"), "nick");
    assert_eq!(nick_from_mask("nick@host"), "nick");
    assert_eq!(nick_from_mask("irc.example.net"), "irc.example.net");
    assert_eq!(nick_from_mask("a@b!c"), "a@b");
}

#[test]
fn channel_names() {
    assert!(is_channel_name("#rust"));
    assert!(is_channel_name("&ab"));
    assert!(is_channel_name("+ab"));
    assert!(is_channel_name("!ab"));
    assert!(!is_channel_name("#a"));
    assert!(!is_channel_name("rust"));
    assert!(!is_channel_name(""));
    assert!(is_channel_name("#é"));
}

#[test]
fn target_list_pieces_rejoin() {
    for s in ["a,b,c", "", ",", "#x,,#y,"] {
        assert_eq!(TargetList::from_str(s).iter().join(","), s);
    }
}
