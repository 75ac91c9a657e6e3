use vstd::prelude::*;

use crate::text::{find_char, find_spec, lemma_find_spec, lemma_find_spec_bounds};

verus! {

/// A protocol message as the parser produces it: every string borrows from the
/// line that was parsed.
#[derive(PartialEq, Eq, Clone, Debug)]
pub struct IrcMessage<'a> {
    pub command: &'a str,
    pub prefix: Option<&'a str>,
    pub args: Vec<&'a str>,
}

/// The content of a message: prefix, command and parameters as character sequences.
pub struct MessageView {
    pub prefix: Option<Seq<char>>,
    pub command: Seq<char>,
    pub args: Seq<Seq<char>>,
}

/// The characters of each string in a sequence.
pub open spec fn texts(v: Seq<&str>) -> Seq<Seq<char>> {
    v.map_values(|x: &str| x@)
}

pub open spec fn text_opt(o: Option<&str>) -> Option<Seq<char>> {
    match o {
        Some(s) => Some(s@),
        None => None,
    }
}

impl<'a> View for IrcMessage<'a> {
    type V = MessageView;

    open spec fn view(&self) -> MessageView {
        MessageView { prefix: text_opt(self.prefix), command: self.command@, args: texts(self.args@) }
    }
}

/// Tokenisation of a parameter section: tokens end at a space, and a token that
/// starts with `:` takes the rest of the section, spaces included.
pub open spec fn split_params(s: Seq<char>) -> Seq<Seq<char>>
    decreases s.len(),
{
    if s.len() == 0 {
        seq![]
    } else if s[0] == ':' {
        seq![s.drop_first()]
    } else {
        let p = find_spec(s, ' ');
        if p < s.len() {
            seq![s.subrange(0, p as int)] + split_params(s.subrange((p + 1) as int, s.len() as int))
        } else {
            seq![s]
        }
    }
}

/// The message made of a prefix and the section that follows it.
pub open spec fn parse_main(prefix: Option<Seq<char>>, main: Seq<char>) -> MessageView {
    let q = find_spec(main, ' ');
    if q < main.len() {
        MessageView {
            prefix,
            command: main.subrange(0, q as int),
            args: split_params(main.subrange((q + 1) as int, main.len() as int)),
        }
    } else {
        MessageView { prefix, command: main, args: seq![] }
    }
}

/// A parsed message, unless its command is empty.
pub open spec fn with_command(m: MessageView) -> Option<MessageView> {
    if m.command.len() == 0 {
        None
    } else {
        Some(m)
    }
}

/// What a line parses to: nothing for an empty line, for a prefix with no
/// space after it, or where no command follows.
pub open spec fn parse_spec(line: Seq<char>) -> Option<MessageView> {
    if line.len() == 0 {
        None
    } else if line[0] == ':' {
        let p = find_spec(line, ' ');
        if p < line.len() {
            with_command(
                parse_main(Some(line.subrange(1, p as int)), line.subrange((p + 1) as int, line.len() as int)),
            )
        } else {
            None
        }
    } else {
        with_command(parse_main(None, line))
    }
}

pub open spec fn message_opt(r: Option<IrcMessage>) -> Option<MessageView> {
    match r {
        Some(m) => Some(m@),
        None => None,
    }
}

/// Splits a parameter section into its tokens.
fn split_args<'a>(rest: &'a str) -> (r: Vec<&'a str>)
    ensures
        texts(r@) == split_params(rest@),
{
    let mut args: Vec<&'a str> = Vec::new();
    let mut s: &'a str = rest;
    loop
        invariant
            split_params(rest@) == texts(args@) + split_params(s@),
        decreases s@.len(),
    {
        let n = s.unicode_len();
        if n == 0 {
            assert(texts(args@) + seq![] =~= texts(args@));
            return args;
        }
        let ghost before = args@;
        if s.get_char(0) == ':' {
            let t = s.substring_char(1, n);
            args.push(t);
            assert(texts(args@) =~= texts(before) + seq![t@]);
            assert(t@ =~= s@.drop_first());
            return args;
        }
        let p = find_char(s, ' ');
        proof {
            lemma_find_spec_bounds(s@, ' ');
        }
        if p < n {
            let t = s.substring_char(0, p);
            let u = s.substring_char(p + 1, n);
            args.push(t);
            assert(texts(args@) =~= texts(before) + seq![t@]);
            assert(split_params(s@) == seq![t@] + split_params(u@));
            assert(texts(before) + split_params(s@) =~= texts(args@) + split_params(u@));
            s = u;
        } else {
            args.push(s);
            assert(texts(args@) =~= texts(before) + seq![s@]);
            return args;
        }
    }
}

/// Parses one line, without its terminator, into a message.
pub fn parse_irc_message<'a>(msg: &'a str) -> (r: Option<IrcMessage<'a>>)
    ensures
        message_opt(r) == parse_spec(msg@),
        r matches Some(m) ==> m.command@.len() > 0,
{
    let n = msg.unicode_len();
    if n == 0 {
        return None;
    }
    let mut prefix: Option<&'a str> = None;
    let mut main: &'a str = msg;
    if msg.get_char(0) == ':' {
        let p = find_char(msg, ' ');
        proof {
            lemma_find_spec_bounds(msg@, ' ');
        }
        if p < n {
            prefix = Some(msg.substring_char(1, p));
            main = msg.substring_char(p + 1, n);
        } else {
            return None;
        }
    }
    let m = main.unicode_len();
    let q = find_char(main, ' ');
    proof {
        lemma_find_spec_bounds(main@, ' ');
    }
    if q == 0 {
        return None;
    }
    let command: &'a str;
    let args: Vec<&'a str>;
    if q < m {
        command = main.substring_char(0, q);
        args = split_args(main.substring_char(q + 1, m));
    } else {
        command = main;
        args = Vec::new();
        assert(texts(args@) =~= seq![]);
    }
    let r = IrcMessage { command, prefix, args };
    assert(r@ == parse_main(text_opt(prefix), main@));
    Some(r)
}

/// A parameter that only the trailing form can carry.
pub open spec fn needs_trailing(a: Seq<char>) -> bool {
    a.contains(' ') || (a.len() > 0 && a[0] == ':')
}

/// Each parameter preceded by one space.
pub open spec fn spaced(xs: Seq<Seq<char>>) -> Seq<char>
    decreases xs.len(),
{
    if xs.len() == 0 {
        seq![]
    } else {
        seq![' '] + xs[0] + spaced(xs.drop_first())
    }
}

/// The parameter section as written on the wire.
pub open spec fn render_args(args: Seq<Seq<char>>) -> Seq<char> {
    if args.len() > 0 && needs_trailing(args.last()) {
        spaced(args.drop_last()) + seq![' ', ':'] + args.last()
    } else {
        spaced(args)
    }
}

/// A message as written on the wire, without a terminator.
pub open spec fn render(m: MessageView) -> Seq<char> {
    let head = match m.prefix {
        Some(p) => seq![':'] + p + seq![' '],
        None => seq![],
    };
    head + m.command + render_args(m.args)
}

proof fn lemma_spaced_push(xs: Seq<Seq<char>>, x: Seq<char>)
    ensures
        spaced(xs.push(x)) == spaced(xs) + seq![' '] + x,
    decreases xs.len(),
{
    if xs.len() == 0 {
        assert(xs.push(x).drop_first() =~= seq![]);
        assert(xs.push(x)[0] == x);
        assert(spaced(xs.push(x).drop_first()) == Seq::<char>::empty());
        assert(spaced(xs.push(x)) =~= seq![' '] + x);
    } else {
        assert(xs.push(x).drop_first() =~= xs.drop_first().push(x));
        lemma_spaced_push(xs.drop_first(), x);
        assert(spaced(xs.push(x)) =~= spaced(xs) + seq![' '] + x);
    }
}

impl<'a> IrcMessage<'a> {
    /// The message in wire syntax, without a terminator. Only a message that
    /// the syntax can carry is accepted.
    pub fn to_string(&self) -> (r: String)
        requires
            well_formed(self@),
        ensures
            r@ == render(self@),
    {
        let mut out = String::new();
        match self.prefix {
            Some(p) => {
                out.append(":");
                out.append(p);
                out.append(" ");
            },
            None => {},
        }
        out.append(self.command);
        proof {
            reveal_strlit(":");
            reveal_strlit(" ");
        }
        let ghost head = out@;
        let n = self.args.len();
        let mut last_trailing = false;
        if n > 0 {
            let l = self.args[n - 1];
            let ln = l.unicode_len();
            let sp = find_char(l, ' ');
            proof {
                lemma_find_spec_bounds(l@, ' ');
                if l@.contains(' ') {
                    let k = choose|k: int| 0 <= k < l@.len() && l@[k] == ' ';
                    assert(k >= sp);
                }
            }
            last_trailing = sp < ln || (ln > 0 && l.get_char(0) == ':');
        }
        let plain = if last_trailing { n - 1 } else { n };
        let mut i: usize = 0;
        while i < plain
            invariant
                plain <= n == self.args@.len(),
                0 <= i <= plain,
                out@ == head + spaced(texts(self.args@).subrange(0, i as int)),
            decreases plain - i,
        {
            let ghost before = out@;
            out.append(" ");
            out.append(self.args[i]);
            proof {
                reveal_strlit(" ");
                let xs = texts(self.args@);
                assert(xs[i as int] == self.args@[i as int]@);
                assert(out@ == before + seq![' '] + xs[i as int]);
                assert(xs.subrange(0, i + 1) =~= xs.subrange(0, i as int).push(xs[i as int]));
                lemma_spaced_push(xs.subrange(0, i as int), xs[i as int]);
            }
            i = i + 1;
        }
        let ghost xs = texts(self.args@);
        if last_trailing {
            out.append(" :");
            out.append(self.args[n - 1]);
            proof {
                reveal_strlit(" :");
                assert(xs.subrange(0, plain as int) =~= xs.drop_last());
            }
        } else {
            assert(xs.subrange(0, plain as int) =~= xs);
        }
        out
    }
}

/// A token that stands alone on the wire: not empty, no space, no leading `:`.
pub open spec fn is_middle(a: Seq<char>) -> bool {
    a.len() > 0 && !a.contains(' ') && a[0] != ':'
}

/// A message that the wire syntax can carry: a prefix without spaces, a
/// command and every parameter but the last that stand alone, and a last
/// parameter that is not empty.
pub open spec fn well_formed(m: MessageView) -> bool {
    &&& (m.prefix matches Some(p) ==> !p.contains(' '))
    &&& is_middle(m.command)
    &&& forall|i: int| 0 <= i < m.args.len() - 1 ==> is_middle(#[trigger] m.args[i])
    &&& m.args.len() > 0 ==> m.args.last().len() > 0
}

/// How the last parameter is written after the others.
spec fn last_arg_text(last: Seq<char>) -> Seq<char> {
    if needs_trailing(last) {
        seq![' ', ':'] + last
    } else {
        seq![' '] + last
    }
}

proof fn lemma_render_args_split(args: Seq<Seq<char>>)
    requires
        args.len() > 0,
    ensures
        render_args(args) == spaced(args.drop_last()) + last_arg_text(args.last()),
{
    if !needs_trailing(args.last()) {
        assert(args.drop_last().push(args.last()) =~= args);
        lemma_spaced_push(args.drop_last(), args.last());
        assert(spaced(args) =~= spaced(args.drop_last()) + last_arg_text(args.last()));
    }
}

proof fn lemma_no_space_at(a: Seq<char>, j: int)
    requires
        !a.contains(' '),
        0 <= j < a.len(),
    ensures
        a[j] != ' ',
{
    if a[j] == ' ' {
        assert(a.contains(' '));
    }
}

/// Whatever follows a rendered parameter starts with a space.
proof fn lemma_rest_starts_with_space(xs: Seq<Seq<char>>, last: Seq<char>)
    ensures
        (spaced(xs) + last_arg_text(last)).len() > 0,
        (spaced(xs) + last_arg_text(last))[0] == ' ',
{
    if xs.len() > 0 {
        assert((seq![' '] + xs[0] + spaced(xs.drop_first()))[0] == ' ');
    }
}

proof fn lemma_split_rendered(xs: Seq<Seq<char>>, last: Seq<char>)
    requires
        forall|i: int| 0 <= i < xs.len() ==> is_middle(#[trigger] xs[i]),
        last.len() > 0,
    ensures
        split_params((spaced(xs) + last_arg_text(last)).drop_first()) == xs.push(last),
    decreases xs.len(),
{
    let s = (spaced(xs) + last_arg_text(last)).drop_first();
    if xs.len() == 0 {
        assert(spaced(xs) == Seq::<char>::empty());
        if needs_trailing(last) {
            assert(s =~= seq![':'] + last);
            assert(s.drop_first() =~= last);
        } else {
            assert(s =~= last);
            assert forall|j: int| 0 <= j < s.len() implies s[j] != ' ' by {
                lemma_no_space_at(last, j);
            }
            lemma_find_spec(s, ' ', s.len() as int);
        }
        assert(xs.push(last) =~= seq![last]);
    } else {
        let x = xs[0];
        let ys = xs.drop_first();
        let t = spaced(ys) + last_arg_text(last);
        assert(s =~= x + t);
        lemma_rest_starts_with_space(ys, last);
        assert forall|j: int| 0 <= j < x.len() implies s[j] != ' ' by {
            lemma_no_space_at(x, j);
        }
        assert(s[x.len() as int] == ' ');
        lemma_find_spec(s, ' ', x.len() as int);
        assert(s.subrange(0, x.len() as int) =~= x);
        assert(s.subrange((x.len() + 1) as int, s.len() as int) =~= t.drop_first());
        assert forall|i: int| 0 <= i < ys.len() implies is_middle(#[trigger] ys[i]) by {
            assert(ys[i] == xs[i + 1]);
        }
        lemma_split_rendered(ys, last);
        assert(xs.push(last) =~= seq![x] + ys.push(last));
    }
}

/// The command and parameters read back from what they render to.
proof fn lemma_parse_main_rendered(prefix: Option<Seq<char>>, m: MessageView)
    requires
        well_formed(m),
    ensures
        parse_main(prefix, m.command + render_args(m.args)) == (MessageView {
            prefix,
            command: m.command,
            args: m.args,
        }),
{
    let c = m.command;
    let main = c + render_args(m.args);
    assert forall|j: int| 0 <= j < c.len() implies main[j] != ' ' by {
        lemma_no_space_at(c, j);
    }
    if m.args.len() == 0 {
        assert(render_args(m.args) == spaced(m.args));
        assert(main =~= c);
        lemma_find_spec(main, ' ', main.len() as int);
        assert(m.args =~= seq![]);
    } else {
        let xs = m.args.drop_last();
        lemma_render_args_split(m.args);
        lemma_rest_starts_with_space(xs, m.args.last());
        assert(main =~= c + (spaced(xs) + last_arg_text(m.args.last())));
        lemma_find_spec(main, ' ', c.len() as int);
        assert(main.subrange(0, c.len() as int) =~= c);
        assert(main.subrange((c.len() + 1) as int, main.len() as int) =~= (spaced(xs) + last_arg_text(
            m.args.last(),
        )).drop_first());
        assert forall|i: int| 0 <= i < xs.len() implies is_middle(#[trigger] xs[i]) by {
            assert(xs[i] == m.args[i]);
        }
        lemma_split_rendered(xs, m.args.last());
        assert(xs.push(m.args.last()) =~= m.args);
    }
}

/// Serialising a well-formed message and parsing the line gives the message
/// back, so the line it renders to is reproduced by parsing and serialising it
/// again.
pub proof fn lemma_round_trip(m: MessageView)
    requires
        well_formed(m),
    ensures
        parse_spec(render(m)) == Some(m),
        render(parse_spec(render(m)).unwrap()) == render(m),
{
    let line = render(m);
    let rest = m.command + render_args(m.args);
    lemma_parse_main_rendered(m.prefix, m);
    match m.prefix {
        Some(p) => {
            assert(line =~= seq![':'] + p + seq![' '] + rest);
            assert forall|j: int| 0 <= j < p.len() + 1 implies line[j] != ' ' by {
                if j > 0 {
                    lemma_no_space_at(p, j - 1);
                }
            }
            lemma_find_spec(line, ' ', (p.len() + 1) as int);
            assert(line.subrange(1, (p.len() + 1) as int) =~= p);
            assert(line.subrange((p.len() + 2) as int, line.len() as int) =~= rest);
        },
        None => {
            assert(line =~= rest);
        },
    }
}

} // verus!
