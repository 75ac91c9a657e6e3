use vstd::prelude::*;

pub mod parse;
pub mod reader;
pub mod text;

pub use parse::{parse_irc_message, IrcMessage};
pub use reader::IrcReader;

use parse::{texts, MessageView};
use vstd::string::StringSliceAdditionalSpecFns;
use text::{find_char, find_spec, lemma_find_spec_bounds, same_text, split_char, split_spec};

verus! {

/// A comma-separated list of channels or nicknames, kept as the one string it
/// was given and split only on demand.
#[derive(Clone, Copy, Debug)]
pub struct TargetList<'a>(pub &'a str);

impl<'a> View for TargetList<'a> {
    type V = Seq<char>;

    open spec fn view(&self) -> Seq<char> {
        self.0@
    }
}

impl<'a> TargetList<'a> {
    /// The underlying string, unchanged.
    pub fn unwrap(self) -> (r: &'a str)
        ensures
            r == self.0,
    {
        let TargetList(inner) = self;
        inner
    }

    /// Wraps a string without looking at it.
    pub fn from_str(inner: &'a str) -> (r: TargetList<'a>)
        ensures
            r.0 == inner,
    {
        TargetList(inner)
    }

    /// The targets, split at each comma. Each call splits afresh.
    pub fn iter(&self) -> (r: Vec<&'a str>)
        ensures
            texts(r@) == split_spec(self@, ','),
    {
        split_char(self.0, ',')
    }
}

/// A message sorted by what it means.
#[derive(Debug)]
pub enum TypedMessage<'a> {
    /// An outgoing message to targets.
    Talk(TargetList<'a>, &'a str),
    /// An incoming message: sender, targets, text.
    Msg(&'a str, TargetList<'a>, &'a str),
    /// An outgoing notice to targets.
    Notify(TargetList<'a>, &'a str),
    /// An incoming notice: sender, targets, text.
    Notice(&'a str, TargetList<'a>, &'a str),
    /// A request for a nickname.
    SetNick(&'a str),
    /// A change of nickname: old mask, new nickname.
    NickChanged(&'a str, &'a str),
    /// A keep-alive probe with its arguments.
    Ping(Vec<&'a str>),
    /// The answer to a probe.
    Pong(Vec<&'a str>),
    /// Someone joined channels.
    Joined(&'a str, TargetList<'a>),
    /// The topic of a channel, if any.
    Topic(&'a str, Option<&'a str>),
    /// A request to join channels, with optional keys.
    Join(TargetList<'a>, Option<TargetList<'a>>),
    /// Registration: user name, real name.
    Register(&'a str, &'a str),
    /// The server's greeting text.
    Welcome(&'a str),
    /// The text naming the server's host.
    YourHost(&'a str),
    /// The first line of the message of the day.
    MotdStart(&'a str),
    /// A line of the message of the day.
    Motd(&'a str),
    /// The end of the message of the day.
    MotdEnd(&'a str),
    /// Anything the table does not cover, untouched.
    Other(IrcMessage<'a>),
}

/// What a message is classified as, by its command and its number of
/// parameters; a message that no rule fits is wrapped unchanged.
pub open spec fn classify_spec<'a>(m: IrcMessage<'a>) -> TypedMessage<'a> {
    let c = m.command@;
    let a = m.args@;
    let n = a.len();
    if c == "PING"@ {
        TypedMessage::Ping(m.args)
    } else if c == "001"@ && n == 2 {
        TypedMessage::Welcome(a[1])
    } else if c == "002"@ && n == 2 {
        TypedMessage::YourHost(a[1])
    } else if c == "375"@ && n == 2 {
        TypedMessage::MotdStart(a[1])
    } else if c == "372"@ && n == 2 {
        TypedMessage::Motd(a[1])
    } else if c == "376"@ && n == 2 {
        TypedMessage::MotdEnd(a[1])
    } else if c == "JOIN"@ && n == 1 {
        match m.prefix {
            Some(p) => TypedMessage::Joined(p, TargetList(a[0])),
            None => TypedMessage::Join(TargetList(a[0]), None),
        }
    } else if c == "NICK"@ && n == 1 {
        match m.prefix {
            Some(p) => TypedMessage::NickChanged(p, a[0]),
            None => TypedMessage::SetNick(a[0]),
        }
    } else if c == "PRIVMSG"@ && n == 2 {
        match m.prefix {
            Some(p) => TypedMessage::Msg(p, TargetList(a[0]), a[1]),
            None => TypedMessage::Talk(TargetList(a[0]), a[1]),
        }
    } else if c == "NOTICE"@ && n == 2 {
        match m.prefix {
            Some(p) => TypedMessage::Notice(p, TargetList(a[0]), a[1]),
            None => TypedMessage::Notify(TargetList(a[0]), a[1]),
        }
    } else if c == "331"@ && n == 2 {
        TypedMessage::Topic(a[0], None)
    } else if c == "332"@ && n == 2 {
        TypedMessage::Topic(a[0], Some(a[1]))
    } else {
        TypedMessage::Other(m)
    }
}

/// Sorts a message by its command and number of parameters.
pub fn analyse_message<'a>(msg: IrcMessage<'a>) -> (r: TypedMessage<'a>)
    ensures
        r == classify_spec(msg),
{
    let n = msg.args.len();
    let c = msg.command;
    if same_text(c, "PING") {
        return TypedMessage::Ping(msg.args);
    }
    if n == 2 {
        if same_text(c, "001") {
            return TypedMessage::Welcome(msg.args[1]);
        } else if same_text(c, "002") {
            return TypedMessage::YourHost(msg.args[1]);
        } else if same_text(c, "375") {
            return TypedMessage::MotdStart(msg.args[1]);
        } else if same_text(c, "372") {
            return TypedMessage::Motd(msg.args[1]);
        } else if same_text(c, "376") {
            return TypedMessage::MotdEnd(msg.args[1]);
        }
    }
    if n == 1 {
        if same_text(c, "JOIN") {
            return match msg.prefix {
                Some(p) => TypedMessage::Joined(p, TargetList::from_str(msg.args[0])),
                None => TypedMessage::Join(TargetList::from_str(msg.args[0]), None),
            };
        } else if same_text(c, "NICK") {
            return match msg.prefix {
                Some(p) => TypedMessage::NickChanged(p, msg.args[0]),
                None => TypedMessage::SetNick(msg.args[0]),
            };
        }
    }
    if n == 2 {
        if same_text(c, "PRIVMSG") {
            return match msg.prefix {
                Some(p) => TypedMessage::Msg(p, TargetList::from_str(msg.args[0]), msg.args[1]),
                None => TypedMessage::Talk(TargetList::from_str(msg.args[0]), msg.args[1]),
            };
        } else if same_text(c, "NOTICE") {
            return match msg.prefix {
                Some(p) => TypedMessage::Notice(p, TargetList::from_str(msg.args[0]), msg.args[1]),
                None => TypedMessage::Notify(TargetList::from_str(msg.args[0]), msg.args[1]),
            };
        } else if same_text(c, "331") {
            return TypedMessage::Topic(msg.args[0], None);
        } else if same_text(c, "332") {
            return TypedMessage::Topic(msg.args[0], Some(msg.args[1]));
        }
    }
    TypedMessage::Other(msg)
}

impl<'a> TypedMessage<'a> {
    /// The kinds that can be turned back into a plain message for sending.
    pub open spec fn is_outgoing(&self) -> bool {
        match self {
            TypedMessage::Pong(_) | TypedMessage::Join(_, _) | TypedMessage::Talk(_, _)
            | TypedMessage::Notify(_, _) | TypedMessage::SetNick(_) | TypedMessage::Register(
                _,
                _,
            ) => true,
            _ => false,
        }
    }

    /// The plain message that an outgoing kind stands for (meaningful only
    /// where `is_outgoing` holds).
    pub open spec fn generic_spec(&self) -> MessageView {
        match self {
            TypedMessage::Pong(v) => MessageView { prefix: None, command: "PONG"@, args: texts(v@) },
            TypedMessage::Join(channels, keys) => MessageView {
                prefix: None,
                command: "JOIN"@,
                args: match keys {
                    Some(k) => seq![channels@, k@],
                    None => seq![channels@],
                },
            },
            TypedMessage::Talk(list, text) => MessageView {
                prefix: None,
                command: "PRIVMSG"@,
                args: seq![list@, text@],
            },
            TypedMessage::Notify(list, text) => MessageView {
                prefix: None,
                command: "NOTICE"@,
                args: seq![list@, text@],
            },
            TypedMessage::SetNick(nick) => MessageView {
                prefix: None,
                command: "NICK"@,
                args: seq![nick@],
            },
            TypedMessage::Register(user, real_name) => MessageView {
                prefix: None,
                command: "USER"@,
                args: seq![user@, "8"@, "-"@, real_name@],
            },
            _ => MessageView { prefix: None, command: seq![], args: seq![] },
        }
    }

    /// Turns an outgoing kind back into a plain message.
    pub fn to_dumb(self) -> (r: IrcMessage<'a>)
        requires
            self.is_outgoing(),
        ensures
            r@ == self.generic_spec(),
    {
        match self {
            TypedMessage::Pong(targets) => IrcMessage { prefix: None, command: "PONG", args: targets },
            TypedMessage::Join(channels, keys) => {
                let args = match keys {
                    Some(list) => vec![channels.unwrap(), list.unwrap()],
                    None => vec![channels.unwrap()],
                };
                let r = IrcMessage { prefix: None, command: "JOIN", args };
                assert(r@.args =~= self.generic_spec().args);
                r
            },
            TypedMessage::Talk(list, text) => {
                let r = IrcMessage { prefix: None, command: "PRIVMSG", args: vec![list.unwrap(), text] };
                assert(r@.args =~= self.generic_spec().args);
                r
            },
            TypedMessage::Notify(list, text) => {
                let r = IrcMessage { prefix: None, command: "NOTICE", args: vec![list.unwrap(), text] };
                assert(r@.args =~= self.generic_spec().args);
                r
            },
            TypedMessage::SetNick(nick) => {
                let r = IrcMessage { prefix: None, command: "NICK", args: vec![nick] };
                assert(r@.args =~= self.generic_spec().args);
                r
            },
            TypedMessage::Register(user, real_name) => {
                let r = IrcMessage {
                    prefix: None,
                    command: "USER",
                    args: vec![user, "8", "-", real_name],
                };
                assert(r@.args =~= self.generic_spec().args);
                r
            },
            _ => {
                proof {
                    assert(false);
                }
                IrcMessage { prefix: None, command: "", args: Vec::new() }
            },
        }
    }

    /// Whether this is one of the three parts of the message of the day.
    pub fn is_motd(&self) -> (r: bool)
        ensures
            r == (self is MotdStart || self is Motd || self is MotdEnd),
    {
        match self {
            TypedMessage::Motd(..) | TypedMessage::MotdStart(..) | TypedMessage::MotdEnd(..) => true,
            _ => false,
        }
    }
}

/// The nickname part of a `nick!user@host` mask: what stands before the first
/// `!`, else before the first `@`, else the whole mask.
pub open spec fn nick_spec(mask: Seq<char>) -> Seq<char> {
    let p = find_spec(mask, '!');
    let q = find_spec(mask, '@');
    if p < mask.len() {
        mask.subrange(0, p as int)
    } else if q < mask.len() {
        mask.subrange(0, q as int)
    } else {
        mask
    }
}

/// The nickname of a sender mask.
pub fn nick_from_mask(mask: &str) -> (r: &str)
    ensures
        r@ == nick_spec(mask@),
{
    let n = mask.unicode_len();
    let p = find_char(mask, '!');
    proof {
        lemma_find_spec_bounds(mask@, '!');
        lemma_find_spec_bounds(mask@, '@');
    }
    if p < n {
        return mask.substring_char(0, p);
    }
    let q = find_char(mask, '@');
    if q < n {
        mask.substring_char(0, q)
    } else {
        mask
    }
}

/// The characters that open a channel name.
pub open spec fn is_channel_sigil(c: char) -> bool {
    c == '#' || c == '!' || c == '&' || c == '+'
}

/// Whether `s` reads as a channel name: more than two bytes long and opened by
/// a channel sigil.
pub fn is_channel_name(s: &str) -> (r: bool)
    ensures
        r == (s.len() > 2 && is_channel_sigil(s@[0])),
{
    if s.len() > 2 {
        proof {
            if s@.len() == 0 {
                assert(s@ =~= Seq::<char>::empty());
                assert(s.spec_bytes() =~= Seq::<u8>::empty());
                assert(s.len() == 0);
            }
        }
        let c = s.get_char(0);
        is_channel_sigil_exec(c)
    } else {
        false
    }
}

fn is_channel_sigil_exec(c: char) -> (r: bool)
    ensures
        r == is_channel_sigil(c),
{
    c == '#' || c == '!' || c == '&' || c == '+'
}

/// The commands that the classifier has a rule for.
pub open spec fn is_known_command(c: Seq<char>) -> bool {
    c == "PING"@ || c == "001"@ || c == "002"@ || c == "375"@ || c == "372"@ || c == "376"@
        || c == "JOIN"@ || c == "NICK"@ || c == "PRIVMSG"@ || c == "NOTICE"@ || c == "331"@
        || c == "332"@
}

/// A message whose command has no rule in the classifier comes back wrapped,
/// with prefix, command and parameters as they were.
pub proof fn lemma_unknown_command_passes_through(m: IrcMessage)
    requires
        !is_known_command(m.command@),
    ensures
        classify_spec(m) == TypedMessage::Other(m),
        classify_spec(m) matches TypedMessage::Other(o) && o@ == m@,
{
}

} // verus!
