//! Protocol messages: their model, the line parser and the line encoder.
use vstd::prelude::*;

verus! {

/// List of recognized protocol commands.
#[derive(Clone, Debug, PartialEq, Eq)]
pub enum Command {
    Join,
    Nick,
    Notice,
    Privmsg,
    Ping,
    RplWelcome,
    ErrNicknameInUse,
    Other(String),
}

/// A command, with its text as characters.
pub enum CommandView {
    Join,
    Nick,
    Notice,
    Privmsg,
    Ping,
    RplWelcome,
    ErrNicknameInUse,
    Other(Seq<char>),
}

impl View for Command {
    type V = CommandView;

    open spec fn view(&self) -> CommandView {
        match self {
            Command::Join => CommandView::Join,
            Command::Nick => CommandView::Nick,
            Command::Notice => CommandView::Notice,
            Command::Privmsg => CommandView::Privmsg,
            Command::Ping => CommandView::Ping,
            Command::RplWelcome => CommandView::RplWelcome,
            Command::ErrNicknameInUse => CommandView::ErrNicknameInUse,
            Command::Other(v) => CommandView::Other(v@),
        }
    }
}

/// One protocol line, decoded.
#[derive(Clone, Debug)]
pub struct Message {
    pub source: Option<String>,
    pub command: Command,
    pub target: Option<String>,
    pub parameters: Vec<String>,
}

/// A message, with every text as characters.
pub struct MessageView {
    pub source: Option<Seq<char>>,
    pub command: CommandView,
    pub target: Option<Seq<char>>,
    pub parameters: Seq<Seq<char>>,
}

pub open spec fn opt_chars(o: Option<String>) -> Option<Seq<char>> {
    match o {
        Some(s) => Some(s@),
        None => None,
    }
}

pub open spec fn strings_view(v: Seq<String>) -> Seq<Seq<char>> {
    v.map_values(|s: String| s@)
}

impl View for Message {
    type V = MessageView;

    open spec fn view(&self) -> MessageView {
        MessageView {
            source: opt_chars(self.source),
            command: self.command@,
            target: opt_chars(self.target),
            parameters: strings_view(self.parameters@),
        }
    }
}

/// Why a line could not be decoded.
#[derive(Clone, Copy, Debug, PartialEq, Eq)]
pub enum ParseError {
    /// The line starts with `:` but no source follows it.
    EmptySource,
    /// No command follows the source, or the line is empty.
    EmptyCommand,
}

/// A message that must not be sent.
#[derive(Clone, Copy, Debug, PartialEq, Eq)]
pub enum ProtocolError {
    /// The command is a server reply, which a client never sends.
    ReplyOnlyCommand,
}

/// The command that a verb read from the wire stands for.
pub open spec fn command_of_verb(v: Seq<char>) -> CommandView {
    if v == "PING"@ {
        CommandView::Ping
    } else if v == "NOTICE"@ {
        CommandView::Notice
    } else if v == "PRIVMSG"@ {
        CommandView::Privmsg
    } else if v == "001"@ {
        CommandView::RplWelcome
    } else if v == "433"@ {
        CommandView::ErrNicknameInUse
    } else {
        CommandView::Other(v)
    }
}

/// The verb sent for a command; none for the replies that only a server sends.
pub open spec fn spec_verb(c: CommandView) -> Option<Seq<char>> {
    match c {
        CommandView::Join => Some("JOIN"@),
        CommandView::Nick => Some("NICK"@),
        CommandView::Notice => Some("NOTICE"@),
        CommandView::Ping => Some("PONG"@),
        CommandView::Privmsg => Some("PRIVMSG"@),
        CommandView::Other(v) => Some(v),
        CommandView::RplWelcome => None,
        CommandView::ErrNicknameInUse => None,
    }
}

/// Index of the first space of `s` at or after `i`, or the end of `s`.
pub open spec fn token_end(s: Seq<char>, i: nat) -> nat
    decreases s.len() - i,
{
    if i >= s.len() || s[i as int] == ' ' {
        i
    } else {
        token_end(s, i + 1)
    }
}

/// Index of the first character of `s` at or after `i` that is not a space.
pub open spec fn skip_spaces(s: Seq<char>, i: nat) -> nat
    decreases s.len() - i,
{
    if i < s.len() && s[i as int] == ' ' {
        skip_spaces(s, i + 1)
    } else {
        i
    }
}

pub proof fn lemma_token_end_bounds(s: Seq<char>, i: nat)
    ensures
        i <= token_end(s, i),
        i <= s.len() ==> token_end(s, i) <= s.len(),
        i < s.len() && s[i as int] != ' ' ==> i < token_end(s, i),
        forall|j: int| i <= j < token_end(s, i) ==> s[j] != ' ',
        token_end(s, i) < s.len() ==> s[token_end(s, i) as int] == ' ',
    decreases s.len() - i,
{
    if i < s.len() && s[i as int] != ' ' {
        lemma_token_end_bounds(s, i + 1);
    }
}

pub proof fn lemma_skip_spaces_bounds(s: Seq<char>, i: nat)
    ensures
        i <= skip_spaces(s, i),
        i <= s.len() ==> skip_spaces(s, i) <= s.len(),
        forall|j: int| i <= j < skip_spaces(s, i) ==> s[j] == ' ',
        skip_spaces(s, i) < s.len() ==> s[skip_spaces(s, i) as int] != ' ',
    decreases s.len() - i,
{
    if i < s.len() && s[i as int] == ' ' {
        lemma_skip_spaces_bounds(s, i + 1);
    }
}

/// The parameters of `s` from index `i` on: space-separated tokens, the last
/// of which may be a `:`-prefixed remainder of the line, spaces included.
pub open spec fn params_from(s: Seq<char>, i: nat) -> Seq<Seq<char>>
    decreases s.len() - i,
{
    if i >= s.len() || s[i as int] == ' ' {
        seq![]
    } else if s[i as int] == ':' {
        seq![s.subrange(i + 1 as int, s.len() as int)]
    } else {
        let e = token_end(s, i);
        proof {
            lemma_token_end_bounds(s, i);
            lemma_skip_spaces_bounds(s, e);
        }
        seq![s.subrange(i as int, e as int)] + params_from(s, skip_spaces(s, e))
    }
}

/// The message a line decodes to, or why it does not decode.
pub open spec fn spec_parse_line(s: Seq<char>) -> Result<MessageView, ParseError> {
    let has_source = s.len() > 0 && s[0] == ':';
    let src_end = token_end(s, 1);
    let cmd_start = if has_source {
        skip_spaces(s, src_end)
    } else {
        0
    };
    let cmd_end = token_end(s, cmd_start);
    let params = params_from(s, skip_spaces(s, cmd_end));
    if has_source && src_end == 1 {
        Err(ParseError::EmptySource)
    } else if cmd_end == cmd_start {
        Err(ParseError::EmptyCommand)
    } else {
        Ok(
            MessageView {
                source: if has_source {
                    Some(s.subrange(1, src_end as int))
                } else {
                    None
                },
                command: command_of_verb(s.subrange(cmd_start as int, cmd_end as int)),
                target: if params.len() > 0 {
                    Some(params[0])
                } else {
                    None
                },
                parameters: if params.len() > 0 {
                    params.drop_first()
                } else {
                    params
                },
            },
        )
    }
}

pub open spec fn parse_view(r: Result<Message, ParseError>) -> Result<MessageView, ParseError> {
    match r {
        Ok(m) => Ok(m@),
        Err(e) => Err(e),
    }
}

/// The wire form of the parameter at index `i`: a space, then the text; the
/// last parameter is `:`-prefixed so that it may hold spaces.
pub open spec fn param_piece(ps: Seq<Seq<char>>, i: int) -> Seq<char> {
    if i == ps.len() - 1 {
        seq![' ', ':'] + ps[i]
    } else {
        seq![' '] + ps[i]
    }
}

/// The wire form of the first `k` parameters.
pub open spec fn params_wire(ps: Seq<Seq<char>>, k: nat) -> Seq<char>
    decreases k,
{
    if k == 0 {
        seq![]
    } else {
        params_wire(ps, (k - 1) as nat) + param_piece(ps, k - 1)
    }
}

/// The wire form of the target: a space, then the target, `:`-prefixed when it
/// is the only token and holds a space.
pub open spec fn target_wire(t: Option<Seq<char>>, ps: Seq<Seq<char>>) -> Seq<char> {
    match t {
        Some(t) => if ps.len() == 0 && t.contains(' ') {
            seq![' ', ':'] + t
        } else {
            seq![' '] + t
        },
        None => seq![],
    }
}

/// A line as sent, before its terminator.
pub open spec fn wire_body(verb: Seq<char>, t: Option<Seq<char>>, ps: Seq<Seq<char>>) -> Seq<
    char,
> {
    verb + target_wire(t, ps) + params_wire(ps, ps.len())
}

/// The line sent for a message, terminator included, or why it is not sent.
pub open spec fn spec_encode(m: MessageView) -> Result<Seq<char>, ProtocolError> {
    match spec_verb(m.command) {
        Some(v) => Ok(wire_body(v, m.target, m.parameters) + seq!['\r', '\n']),
        None => Err(ProtocolError::ReplyOnlyCommand),
    }
}

/// A message whose command is a server reply never encodes, whatever its
/// target and parameters: encoding it fails with a protocol error.
pub proof fn lemma_reply_only_never_encoded(m: MessageView)
    requires
        m.command == CommandView::RplWelcome || m.command == CommandView::ErrNicknameInUse,
    ensures
        spec_encode(m) == Err::<Seq<char>, ProtocolError>(ProtocolError::ReplyOnlyCommand),
{
}

/// A text that travels as one space-delimited token.
pub open spec fn is_middle_token(t: Seq<char>) -> bool {
    t.len() > 0 && !t.contains(' ') && t[0] != ':'
}

/// A message whose encoding decodes to the same target and parameters: a
/// sendable verb that is one token, a target whenever there are parameters,
/// and only the last text (the target, when alone) holding spaces.
pub open spec fn wire_well_formed(m: MessageView) -> bool {
    &&& spec_verb(m.command) matches Some(v) && is_middle_token(v)
    &&& m.target matches Some(t) ==> t.len() > 0 && t[0] != ':' && (m.parameters.len() > 0
        ==> is_middle_token(t))
    &&& m.target is None ==> m.parameters.len() == 0
    &&& forall|i: int| 0 <= i < m.parameters.len() - 1 ==> is_middle_token(#[trigger] m.parameters[i])
}

proof fn lemma_token_end_at(s: Seq<char>, i: nat, k: nat)
    requires
        i <= k <= s.len(),
        forall|j: int| i <= j < k ==> s[j] != ' ',
        k == s.len() || s[k as int] == ' ',
    ensures
        token_end(s, i) == k,
    decreases k - i,
{
    if i < k {
        lemma_token_end_at(s, i + 1, k);
    }
}

proof fn lemma_params_wire_front(ps: Seq<Seq<char>>, k: nat)
    requires
        1 <= k <= ps.len(),
    ensures
        params_wire(ps, k) == param_piece(ps, 0) + params_wire(ps.drop_first(), (k - 1) as nat),
    decreases k,
{
    let rest = ps.drop_first();
    if k == 1 {
        assert(params_wire(ps, 0) + param_piece(ps, 0) =~= param_piece(ps, 0) + params_wire(rest, 0));
    } else {
        lemma_params_wire_front(ps, (k - 1) as nat);
        assert(param_piece(rest, k - 2) == param_piece(ps, k - 1));
        assert(params_wire(ps, k) =~= param_piece(ps, 0) + params_wire(rest, (k - 1) as nat));
    }
}

proof fn lemma_params_wire_len(ps: Seq<Seq<char>>, k: nat)
    requires
        k <= ps.len(),
    ensures
        k > 0 ==> params_wire(ps, k).len() > 0 && params_wire(ps, k)[0] == ' ',
    decreases k,
{
    if k > 0 {
        let prev = params_wire(ps, (k - 1) as nat);
        let piece = param_piece(ps, k - 1);
        assert(piece[0] == ' ');
        if k > 1 {
            lemma_params_wire_len(ps, (k - 1) as nat);
            assert((prev + piece)[0] == prev[0]);
        } else {
            assert(prev + piece =~= piece);
        }
    }
}

/// Parameters encoded at offset `off` of `s`, up to its end, decode back.
proof fn lemma_decode_params(s: Seq<char>, off: nat, ps: Seq<Seq<char>>)
    requires
        ps.len() > 0,
        off <= s.len(),
        s.subrange(off as int, s.len() as int) == params_wire(ps, ps.len()),
        forall|i: int| 0 <= i < ps.len() - 1 ==> is_middle_token(#[trigger] ps[i]),
    ensures
        params_from(s, skip_spaces(s, off)) == ps,
    decreases ps.len(),
{
    let w = params_wire(ps, ps.len());
    lemma_params_wire_front(ps, ps.len());
    let rest = ps.drop_first();
    let first = ps[0];
    lemma_params_wire_len(ps, ps.len());
    let tail = s.subrange(off as int, s.len() as int);
    assert forall|k: int| 0 <= k < w.len() implies s[off + k] == w[k] by {
        assert(tail[k] == s[off + k]);
    }
    assert(s[off as int] == w[0]);
    if ps.len() == 1 {
        assert(w =~= seq![' ', ':'] + first);
        assert(w[1] == ':');
        assert forall|k: int| 0 <= k < first.len() implies w[2 + k] == first[k] by {}
        assert(s[off + 1 as int] == ':');
        assert(skip_spaces(s, off + 1) == off + 1);
        assert(skip_spaces(s, off) == off + 1);
        assert(s.subrange(off + 2 as int, s.len() as int) =~= first);
        assert(params_from(s, off + 1) =~= ps);
    } else {
        let e = off + 1 + first.len();
        let rw = params_wire(rest, rest.len());
        assert(w =~= seq![' '] + first + rw);
        assert forall|k: int| 0 <= k < first.len() implies w[1 + k] == first[k] by {}
        assert forall|k: int| 0 <= k < rw.len() implies w[1 + first.len() + k] == rw[k] by {}
        assert(is_middle_token(first));
        assert(s[off + 1 as int] == first[0]);
        assert(first[0] != ' ') by {
            assert(first.contains(first[0]));
        }
        assert(skip_spaces(s, off + 1) == off + 1);
        assert(skip_spaces(s, off) == off + 1);
        lemma_params_wire_len(rest, rest.len());
        assert(s[e as int] == rw[0]);
        assert forall|j: int| off + 1 <= j < e implies s[j] != ' ' by {
            assert(w[j - off] == first[j - off - 1]);
            assert(s[j] == first[j - off - 1]);
            assert(first.contains(first[j - off - 1]));
        }
        lemma_token_end_at(s, off + 1, e as nat);
        assert(s.subrange(off + 1 as int, e as int) =~= first);
        assert(s.subrange(e as int, s.len() as int) =~= rw);
        assert forall|i: int| 0 <= i < rest.len() - 1 implies is_middle_token(#[trigger] rest[i]) by {
            assert(rest[i] == ps[i + 1]);
        }
        lemma_decode_params(s, e as nat, rest);
        assert(params_from(s, off + 1) =~= seq![first] + rest);
        assert(seq![first] + rest =~= ps);
    }
}

/// Encoding a well-formed message and decoding the line, terminator removed,
/// gives back its target and its parameters, and no source.
pub proof fn lemma_encode_then_parse(m: MessageView)
    requires
        wire_well_formed(m),
    ensures
        spec_encode(m) matches Ok(line) && (spec_parse_line(line.subrange(0, line.len() - 2))
            matches Ok(d) && d.source is None && d.target == m.target && d.parameters
            == m.parameters),
{
    let v = spec_verb(m.command).unwrap();
    let ps = m.parameters;
    let body = wire_body(v, m.target, ps);
    let line = body + seq!['\r', '\n'];
    assert(line.subrange(0, line.len() - 2) =~= body);
    let tw = target_wire(m.target, ps);
    let pw = params_wire(ps, ps.len());
    assert(body[0] == v[0]);
    assert forall|j: int| 0 <= j < v.len() implies body[j] != ' ' by {
        assert(body[j] == v[j]);
        assert(v.contains(v[j]));
    }
    lemma_params_wire_len(ps, ps.len());
    if tw.len() + pw.len() > 0 {
        assert(body[v.len() as int] == ' ');
    }
    lemma_token_end_at(body, 0, v.len());
    assert(body.subrange(0, v.len() as int) =~= v);
    let d = spec_parse_line(body)->Ok_0;
    match m.target {
        None => {
            assert(body =~= v);
            assert(skip_spaces(body, v.len()) == v.len());
        },
        Some(t) => {
            let all = seq![t] + ps;
            if ps.len() == 0 && !t.contains(' ') {
                assert(body =~= v + seq![' '] + t);
                assert(body[v.len() + 1 as int] == t[0]);
                assert(t.contains(t[0]));
                assert(skip_spaces(body, v.len() + 1) == v.len() + 1);
                assert(skip_spaces(body, v.len()) == v.len() + 1);
                assert forall|j: int| v.len() + 1 <= j < body.len() implies body[j] != ' ' by {
                    assert(body[j] == t[j - v.len() - 1]);
                    assert(t.contains(t[j - v.len() - 1]));
                }
                lemma_token_end_at(body, v.len() + 1, body.len());
                assert(body.subrange(v.len() + 1 as int, body.len() as int) =~= t);
                assert(skip_spaces(body, body.len()) == body.len());
                assert(params_from(body, body.len()) == Seq::<Seq<char>>::empty());
                assert(body[v.len() + 1 as int] != ':');
                assert(params_from(body, v.len() + 1) == seq![t] + params_from(body, body.len()));
                assert(params_from(body, v.len() + 1) =~= seq![t]);
            } else {
                if ps.len() == 0 {
                    assert(all[0] == t);
                    assert(params_wire(all, 0) == Seq::<char>::empty());
                    assert(param_piece(all, 0) == seq![' ', ':'] + t);
                    assert(params_wire(all, 1) =~= seq![' ', ':'] + t);
                } else {
                    lemma_params_wire_front(all, all.len());
                    assert(all.drop_first() =~= ps);
                }
                assert(body.subrange(v.len() as int, body.len() as int) =~= params_wire(
                    all,
                    all.len(),
                ));
                assert forall|i: int| 0 <= i < all.len() - 1 implies is_middle_token(
                    #[trigger] all[i],
                ) by {
                    if i > 0 {
                        assert(all[i] == ps[i - 1]);
                    }
                }
                lemma_decode_params(body, v.len(), all);
            }
            assert(d.parameters =~= ps);
        },
    }
}

/// The characters of `s`, in order.
pub(crate) fn chars_of(s: &str) -> (r: Vec<char>)
    ensures
        r@ == s@,
{
    let mut r: Vec<char> = Vec::new();
    for c in it: s.chars()
        invariant
            r@ == it.seq().take(it.index() as int),
    {
        r.push(c);
    }
    r
}

/// The characters of `s` from `from` up to `to`, as a new string.
fn slice_string(s: &str, from: usize, to: usize) -> (r: String)
    requires
        from <= to <= s@.len(),
    ensures
        r@ == s@.subrange(from as int, to as int),
{
    String::from_str(s.substring_char(from, to))
}

fn find_token_end(cs: &Vec<char>, i: usize) -> (e: usize)
    requires
        i <= cs@.len(),
    ensures
        e == token_end(cs@, i as nat),
{
    let mut j = i;
    while j < cs.len() && cs[j] != ' '
        invariant
            i <= j <= cs@.len(),
            token_end(cs@, j as nat) == token_end(cs@, i as nat),
        decreases cs@.len() - j,
    {
        j = j + 1;
    }
    j
}

fn find_non_space(cs: &Vec<char>, i: usize) -> (e: usize)
    requires
        i <= cs@.len(),
    ensures
        e == skip_spaces(cs@, i as nat),
{
    let mut j = i;
    while j < cs.len() && cs[j] == ' '
        invariant
            i <= j <= cs@.len(),
            skip_spaces(cs@, j as nat) == skip_spaces(cs@, i as nat),
        decreases cs@.len() - j,
    {
        j = j + 1;
    }
    j
}

/// Reads the parameters of `line` from index `start` on.
fn read_params(line: &str, cs: &Vec<char>, start: usize) -> (ps: Vec<String>)
    requires
        cs@ == line@,
        start <= cs@.len(),
    ensures
        strings_view(ps@) == params_from(line@, start as nat),
{
    let n = cs.len();
    let mut ps: Vec<String> = Vec::new();
    let mut i = start;
    proof {
        assert(strings_view(ps@) + params_from(line@, i as nat) =~= params_from(
            line@,
            start as nat,
        ));
    }
    while i < n
        invariant
            cs@ == line@,
            n == cs@.len(),
            i <= n,
            strings_view(ps@) + params_from(line@, i as nat) == params_from(line@, start as nat),
        decreases n - i,
    {
        let ghost before = ps@;
        if cs[i] == ' ' {
            i = n;
        } else if cs[i] == ':' {
            ps.push(slice_string(line, i + 1, n));
            proof {
                assert(strings_view(ps@) =~= strings_view(before) + params_from(line@, i as nat));
            }
            i = n;
        } else {
            let e = find_token_end(cs, i);
            proof {
                lemma_token_end_bounds(line@, i as nat);
            }
            let next = find_non_space(cs, e);
            proof {
                lemma_skip_spaces_bounds(line@, e as nat);
            }
            ps.push(slice_string(line, i, e));
            proof {
                assert(strings_view(ps@) + params_from(line@, next as nat) =~= strings_view(before)
                    + params_from(line@, i as nat));
            }
            i = next;
        }
        proof {
            assert(strings_view(ps@) + params_from(line@, i as nat) =~= params_from(
                line@,
                start as nat,
            ));
        }
    }
    ps
}

impl Command {
    /// The command that a verb read from the wire stands for; an empty verb is
    /// refused.
    pub fn from_verb(value: &str) -> (r: Result<Command, ParseError>)
        ensures
            value@.len() == 0 ==> r == Err::<Command, ParseError>(ParseError::EmptyCommand),
            value@.len() > 0 ==> (r matches Ok(c) && c@ == command_of_verb(value@)),
    {
        if value.unicode_len() == 0 {
            return Err(ParseError::EmptyCommand);
        }
        let v = String::from_str(value);
        if v == String::from_str("PING") {
            Ok(Command::Ping)
        } else if v == String::from_str("NOTICE") {
            Ok(Command::Notice)
        } else if v == String::from_str("PRIVMSG") {
            Ok(Command::Privmsg)
        } else if v == String::from_str("001") {
            Ok(Command::RplWelcome)
        } else if v == String::from_str("433") {
            Ok(Command::ErrNicknameInUse)
        } else {
            Ok(Command::Other(v))
        }
    }

    /// The verb sent for this command; replies that only a server sends are
    /// refused.
    pub fn verb(&self) -> (r: Result<String, ProtocolError>)
        ensures
            spec_verb(self@) matches Some(v) ==> (r matches Ok(s) && s@ == v),
            spec_verb(self@) is None ==> r == Err::<String, ProtocolError>(
                ProtocolError::ReplyOnlyCommand,
            ),
    {
        match self {
            Command::Join => Ok(String::from_str("JOIN")),
            Command::Nick => Ok(String::from_str("NICK")),
            Command::Notice => Ok(String::from_str("NOTICE")),
            Command::Ping => Ok(String::from_str("PONG")),
            Command::Privmsg => Ok(String::from_str("PRIVMSG")),
            Command::Other(v) => Ok(v.clone()),
            Command::ErrNicknameInUse => Err(ProtocolError::ReplyOnlyCommand),
            Command::RplWelcome => Err(ProtocolError::ReplyOnlyCommand),
        }
    }
}

/// Identity of one user, as carried in a message source `nick!ident@host`.
#[derive(Clone, Debug)]
pub struct User {
    pub nick: String,
    pub ident: String,
    pub host: String,
}

/// A user, with every text as characters.
pub struct UserView {
    pub nick: Seq<char>,
    pub ident: Seq<char>,
    pub host: Seq<char>,
}

impl View for User {
    type V = UserView;

    open spec fn view(&self) -> UserView {
        UserView { nick: self.nick@, ident: self.ident@, host: self.host@ }
    }
}

pub open spec fn opt_user(u: Option<User>) -> Option<UserView> {
    match u {
        Some(u) => Some(u@),
        None => None,
    }
}

/// Index of the first `c` of `s` at or after `i`.
pub open spec fn find_char(s: Seq<char>, c: char, i: nat) -> Option<nat>
    decreases s.len() - i,
{
    if i >= s.len() {
        None
    } else if s[i as int] == c {
        Some(i)
    } else {
        find_char(s, c, i + 1)
    }
}

pub proof fn lemma_find_char(s: Seq<char>, c: char, i: nat)
    ensures
        find_char(s, c, i) matches Some(k) ==> i <= k < s.len() && s[k as int] == c,
    decreases s.len() - i,
{
    if i < s.len() && s[i as int] != c {
        lemma_find_char(s, c, i + 1);
    }
}

/// The user a source names: the text before its first `!`, the text from there
/// to the first `@` after it, and the rest; none without both marks.
pub open spec fn user_of_source(src: Seq<char>) -> Option<UserView> {
    match find_char(src, '!', 0) {
        Some(bang) => match find_char(src, '@', bang) {
            Some(at) => Some(
                UserView {
                    nick: src.subrange(0, bang as int),
                    ident: src.subrange(bang + 1 as int, at as int),
                    host: src.subrange(at + 1 as int, src.len() as int),
                },
            ),
            None => None,
        },
        None => None,
    }
}

fn find_char_from(cs: &Vec<char>, c: char, i: usize) -> (r: Option<usize>)
    requires
        i <= cs@.len(),
    ensures
        opt_nat(r) == find_char(cs@, c, i as nat),
{
    let mut j = i;
    while j < cs.len()
        invariant
            i <= j <= cs@.len(),
            find_char(cs@, c, j as nat) == find_char(cs@, c, i as nat),
        decreases cs@.len() - j,
    {
        if cs[j] == c {
            return Some(j);
        }
        j = j + 1;
    }
    None
}

pub open spec fn opt_nat(o: Option<usize>) -> Option<nat> {
    match o {
        Some(k) => Some(k as nat),
        None => None,
    }
}

impl Message {
    /// A message with one argument, carried as its target.
    pub fn single_argument(cmd: Command, arg: String) -> (m: Message)
        ensures
            m@ == (MessageView {
                source: None,
                command: cmd@,
                target: Some(arg@),
                parameters: seq![],
            }),
    {
        let m = Message { source: None, command: cmd, target: Some(arg), parameters: Vec::new() };
        proof {
            assert(m@.parameters =~= Seq::<Seq<char>>::empty());
        }
        m
    }

    /// A message with a target and one parameter.
    pub fn double_argument(cmd: Command, target: String, arg: String) -> (m: Message)
        ensures
            m@ == (MessageView {
                source: None,
                command: cmd@,
                target: Some(target@),
                parameters: seq![arg@],
            }),
    {
        let ghost a = arg@;
        let mut parameters: Vec<String> = Vec::new();
        parameters.push(arg);
        let m = Message { source: None, command: cmd, target: Some(target), parameters };
        proof {
            assert(m@.parameters =~= seq![a]);
        }
        m
    }

    /// A request for a new nickname.
    pub fn nick(new_nick: String) -> (m: Message)
        ensures
            m@ == (MessageView {
                source: None,
                command: CommandView::Nick,
                target: Some(new_nick@),
                parameters: seq![],
            }),
    {
        Message::single_argument(Command::Nick, new_nick)
    }

    /// A request to join a channel.
    pub fn join(channel: String) -> (m: Message)
        ensures
            m@ == (MessageView {
                source: None,
                command: CommandView::Join,
                target: Some(channel@),
                parameters: seq![],
            }),
    {
        Message::single_argument(Command::Join, channel)
    }

    /// A text message to a user or a channel.
    pub fn privmsg(target: String, message: String) -> (m: Message)
        ensures
            m@ == (MessageView {
                source: None,
                command: CommandView::Privmsg,
                target: Some(target@),
                parameters: seq![message@],
            }),
    {
        Message::double_argument(Command::Privmsg, target, message)
    }

    /// The user that the source of this message names, when it has the form
    /// `nick!ident@host`.
    pub fn source_as_user(&self) -> (r: Option<User>)
        ensures
            opt_user(r) == match opt_chars(self.source) {
                Some(src) => user_of_source(src),
                None => None,
            },
    {
        match &self.source {
            None => None,
            Some(src) => {
                let cs = chars_of(src.as_str());
                match find_char_from(&cs, '!', 0) {
                    None => None,
                    Some(bang) => {
                        proof {
                            lemma_find_char(src@, '!', 0);
                        }
                        match find_char_from(&cs, '@', bang) {
                            None => None,
                            Some(at) => {
                                proof {
                                    lemma_find_char(src@, '@', bang as nat);
                                    assert(cs@ == src@);
                                    assert(at < cs@.len());
                                }
                                let s = src.as_str();
                                Some(
                                    User {
                                        nick: slice_string(s, 0, bang),
                                        ident: slice_string(s, bang + 1, at),
                                        host: slice_string(s, at + 1, cs.len()),
                                    },
                                )
                            },
                        }
                    },
                }
            },
        }
    }

    /// A copy of this message.
    pub fn duplicate(&self) -> (r: Message)
        ensures
            r@ == self@,
    {
        let command = match &self.command {
            Command::Join => Command::Join,
            Command::Nick => Command::Nick,
            Command::Notice => Command::Notice,
            Command::Privmsg => Command::Privmsg,
            Command::Ping => Command::Ping,
            Command::RplWelcome => Command::RplWelcome,
            Command::ErrNicknameInUse => Command::ErrNicknameInUse,
            Command::Other(v) => Command::Other(v.clone()),
        };
        let source = match &self.source {
            Some(s) => Some(s.clone()),
            None => None,
        };
        let target = match &self.target {
            Some(s) => Some(s.clone()),
            None => None,
        };
        let mut parameters: Vec<String> = Vec::new();
        for i in 0..self.parameters.len()
            invariant
                parameters@.len() == i,
                strings_view(parameters@) == strings_view(self.parameters@).take(i as int),
        {
            let ghost before = parameters@;
            let p = self.parameters[i].clone();
            parameters.push(p);
            proof {
                assert(parameters@[i as int] == self.parameters@[i as int]);
                assert(strings_view(parameters@) =~= strings_view(self.parameters@).take(
                    i + 1 as int,
                ));
            }
        }
        proof {
            assert(strings_view(self.parameters@).take(self.parameters@.len() as int)
                =~= strings_view(self.parameters@));
        }
        Message { source, command, target, parameters }
    }
}

/// Decodes one line, terminator already removed.
pub fn parse_line(line: &str) -> (r: Result<Message, ParseError>)
    ensures
        parse_view(r) == spec_parse_line(line@),
{
    let cs = chars_of(line);
    let n = cs.len();
    let has_source = n > 0 && cs[0] == ':';
    let src_end = find_token_end(&cs, if n > 0 { 1 } else { 0 });
    proof {
        lemma_token_end_bounds(line@, 1);
        if n == 0 {
            assert(token_end(line@, 0) == 0);
        }
    }
    let mut source: Option<String> = None;
    let mut cmd_start: usize = 0;
    if has_source {
        if src_end == 1 {
            return Err(ParseError::EmptySource);
        }
        source = Some(slice_string(line, 1, src_end));
        cmd_start = find_non_space(&cs, src_end);
        proof {
            lemma_skip_spaces_bounds(line@, src_end as nat);
        }
    }
    let cmd_end = find_token_end(&cs, cmd_start);
    proof {
        lemma_token_end_bounds(line@, cmd_start as nat);
    }
    if cmd_end == cmd_start {
        return Err(ParseError::EmptyCommand);
    }
    let verb = slice_string(line, cmd_start, cmd_end);
    let command = match Command::from_verb(verb.as_str()) {
        Ok(c) => c,
        Err(e) => return Err(e),
    };
    let params_start = find_non_space(&cs, cmd_end);
    proof {
        lemma_skip_spaces_bounds(line@, cmd_end as nat);
    }
    let mut parameters = read_params(line, &cs, params_start);
    let target = if parameters.len() > 0 {
        let ghost before = parameters@;
        let t = parameters.remove(0);
        proof {
            assert(strings_view(parameters@) =~= strings_view(before).drop_first());
        }
        Some(t)
    } else {
        None
    };
    Ok(Message { source, command, target, parameters })
}

/// Whether `s` holds a space.
fn has_space(s: &str) -> (r: bool)
    ensures
        r == s@.contains(' '),
{
    let cs = chars_of(s);
    let mut i: usize = 0;
    while i < cs.len()
        invariant
            cs@ == s@,
            i <= cs@.len(),
            forall|j: int| 0 <= j < i ==> cs@[j] != ' ',
        decreases cs@.len() - i,
    {
        if cs[i] == ' ' {
            return true;
        }
        i = i + 1;
    }
    false
}

/// Encodes a message as one wire line, terminator included.
pub fn encode_line(msg: &Message) -> (r: Result<String, ProtocolError>)
    ensures
        r matches Ok(s) ==> spec_encode(msg@) == Ok::<Seq<char>, ProtocolError>(s@),
        r matches Err(e) ==> spec_encode(msg@) == Err::<Seq<char>, ProtocolError>(e),
{
    let mut line = match msg.command.verb() {
        Ok(v) => v,
        Err(e) => return Err(e),
    };
    let ghost verb = line@;
    let ghost ps = strings_view(msg.parameters@);
    proof {
        reveal_strlit(" ");
        reveal_strlit(":");
        reveal_strlit("\r\n");
    }
    if let Some(target) = &msg.target {
        line.append(" ");
        if msg.parameters.len() == 0 && has_space(target.as_str()) {
            line.append(":");
        }
        line.append(target.as_str());
    }
    proof {
        assert(line@ =~= verb + target_wire(opt_chars(msg.target), ps));
    }
    let k = msg.parameters.len();
    for idx in 0..k
        invariant
            k == msg.parameters@.len(),
            ps == strings_view(msg.parameters@),
            line@ == verb + target_wire(opt_chars(msg.target), ps) + params_wire(ps, idx as nat),
    {
        let ghost prev = line@;
        proof {
            reveal_strlit(" ");
            reveal_strlit(":");
            assert(ps[idx as int] == msg.parameters@[idx as int]@);
        }
        line.append(" ");
        if idx == k - 1 {
            line.append(":");
        }
        line.append(msg.parameters[idx].as_str());
        proof {
            assert(line@ =~= prev + param_piece(ps, idx as int));
        }
    }
    let ghost body = line@;
    line.append("\r\n");
    proof {
        assert(body == wire_body(verb, opt_chars(msg.target), ps));
        assert(line@ =~= body + seq!['\r', '\n']);
    }
    Ok(line)
}

} // verus!
