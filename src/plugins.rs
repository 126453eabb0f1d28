//! The plugin registry: the closed set of plugin kinds, which of them are
//! enabled, and what building each one needs from its configuration.
use crate::config::{Config, PluginConfig};
use crate::message::{user_of_source, Command, CommandView, Message, MessageView, User, UserView};
use vstd::prelude::*;

verus! {

/// The kinds of plugin this client knows.
#[derive(Clone, Copy, Debug, PartialEq, Eq, Structural)]
pub enum PluginKind {
    /// Answers every text message by echoing it.
    Echo,
    /// Answers weather and time queries.
    Weather,
}

pub open spec fn kind_name(k: PluginKind) -> Seq<char> {
    match k {
        PluginKind::Echo => "echo"@,
        PluginKind::Weather => "weather"@,
    }
}

impl PluginKind {
    /// The name of this kind's configuration section.
    pub fn name(&self) -> (r: &'static str)
        ensures
            r@ == kind_name(*self),
    {
        match self {
            PluginKind::Echo => "echo",
            PluginKind::Weather => "weather",
        }
    }
}

/// The plugins that are built and spawned, in order; the echo plugin exists
/// but is not enabled.
pub open spec fn enabled_kinds() -> Seq<PluginKind> {
    seq![PluginKind::Weather]
}

pub fn enabled_plugins() -> (r: Vec<PluginKind>)
    ensures
        r@ == enabled_kinds(),
{
    let mut r: Vec<PluginKind> = Vec::new();
    r.push(PluginKind::Weather);
    proof {
        assert(r@ =~= enabled_kinds());
    }
    r
}

/// Why a plugin could not be built.
#[derive(Clone, Copy, Debug, PartialEq, Eq)]
pub enum PluginError {
    /// The plugin needs a configuration section and has none.
    MissingSection(PluginKind),
    /// A required option is absent from the plugin's section.
    MissingOption(PluginKind),
}

/// The option that holds the weather service's access key.
pub open spec fn api_key_option() -> Seq<char> {
    "openweathermap-apikey"@
}

/// What a plugin is built from.
pub enum PluginSetup {
    Echo,
    /// The access key of the weather service.
    Weather { api_key: String },
}

pub open spec fn setup_of(kind: PluginKind, config: Option<PluginConfig>) -> Result<
    Option<Seq<char>>,
    PluginError,
> {
    match kind {
        PluginKind::Echo => Ok(None),
        PluginKind::Weather => match config {
            None => Err(PluginError::MissingSection(kind)),
            Some(c) => match c.spec_get(api_key_option()) {
                Some(k) => Ok(Some(k)),
                None => Err(PluginError::MissingOption(kind)),
            },
        },
    }
}

pub open spec fn setup_view(s: PluginSetup) -> Option<Seq<char>> {
    match s {
        PluginSetup::Echo => None,
        PluginSetup::Weather { api_key } => Some(api_key@),
    }
}

pub open spec fn opt_config(c: Option<&PluginConfig>) -> Option<PluginConfig> {
    match c {
        Some(c) => Some(*c),
        None => None,
    }
}

/// Builds one plugin from its configuration section: the weather plugin needs
/// a section holding its access key; the echo plugin needs nothing.
pub fn build_plugin(kind: PluginKind, config: Option<&PluginConfig>) -> (r: Result<
    PluginSetup,
    PluginError,
>)
    ensures
        match r {
            Ok(s) => setup_of(kind, opt_config(config)) == Ok::<Option<Seq<char>>, PluginError>(
                setup_view(s),
            ) && (s is Echo <==> kind == PluginKind::Echo),
            Err(e) => setup_of(kind, opt_config(config)) == Err::<Option<Seq<char>>, PluginError>(
                e,
            ),
        },
{
    match kind {
        PluginKind::Echo => Ok(PluginSetup::Echo),
        PluginKind::Weather => match config {
            None => Err(PluginError::MissingSection(kind)),
            Some(c) => {
                proof {
                    reveal_strlit("openweathermap-apikey");
                }
                match c.get("openweathermap-apikey") {
                    Some(k) => Ok(PluginSetup::Weather { api_key: k.clone() }),
                    None => Err(PluginError::MissingOption(kind)),
                }
            },
        },
    }
}

/// The section of the plugin called `name`: the first entry with that name.
pub open spec fn section_of(plugins: Seq<(String, PluginConfig)>, name: Seq<char>) -> Option<
    PluginConfig,
>
    decreases plugins.len(),
{
    if plugins.len() == 0 {
        None
    } else if plugins[0].0@ == name {
        Some(plugins[0].1)
    } else {
        section_of(plugins.drop_first(), name)
    }
}

proof fn lemma_section_of(plugins: Seq<(String, PluginConfig)>, name: Seq<char>, i: int)
    requires
        0 <= i < plugins.len(),
        plugins[i].0@ == name,
        forall|j: int| 0 <= j < i ==> plugins[j].0@ != name,
    ensures
        section_of(plugins, name) == Some(plugins[i].1),
    decreases i,
{
    if i > 0 {
        lemma_section_of(plugins.drop_first(), name, i - 1);
    }
}

proof fn lemma_section_of_none(plugins: Seq<(String, PluginConfig)>, name: Seq<char>)
    requires
        forall|j: int| 0 <= j < plugins.len() ==> plugins[j].0@ != name,
    ensures
        section_of(plugins, name) is None,
    decreases plugins.len(),
{
    if plugins.len() > 0 {
        lemma_section_of_none(plugins.drop_first(), name);
    }
}

/// The first error in building the enabled plugins, in order, or the setups of
/// all of them.
pub open spec fn setups_of(kinds: Seq<PluginKind>, plugins: Seq<(String, PluginConfig)>) -> Result<
    Seq<Option<Seq<char>>>,
    PluginError,
>
    decreases kinds.len(),
{
    if kinds.len() == 0 {
        Ok(seq![])
    } else {
        match setups_of(kinds.drop_last(), plugins) {
            Err(e) => Err(e),
            Ok(done) => match setup_of(kinds.last(), section_of(plugins, kind_name(kinds.last()))) {
                Err(e) => Err(e),
                Ok(s) => Ok(done.push(s)),
            },
        }
    }
}

/// Builds every enabled plugin from its section of `config`. One that cannot be
/// built fails the whole step.
pub fn build_plugins(config: &Config) -> (r: Result<Vec<(PluginKind, PluginSetup)>, PluginError>)
    ensures
        match r {
            Ok(v) => setups_of(enabled_kinds(), config.plugins@) == Ok::<
                Seq<Option<Seq<char>>>,
                PluginError,
            >(v@.map_values(|p: (PluginKind, PluginSetup)| setup_view(p.1))) && v@.map_values(
                |p: (PluginKind, PluginSetup)| p.0,
            ) == enabled_kinds(),
            Err(e) => setups_of(enabled_kinds(), config.plugins@) == Err::<
                Seq<Option<Seq<char>>>,
                PluginError,
            >(e),
        },
{
    let kinds = enabled_plugins();
    let mut built: Vec<(PluginKind, PluginSetup)> = Vec::new();
    proof {
        assert(kinds@.take(0) =~= Seq::<PluginKind>::empty());
        assert(built@.map_values(|p: (PluginKind, PluginSetup)| setup_view(p.1)) =~= Seq::<
            Option<Seq<char>>,
        >::empty());
        assert(built@.map_values(|p: (PluginKind, PluginSetup)| p.0) =~= kinds@.take(0));
    }
    for i in 0..kinds.len()
        invariant
            kinds@ == enabled_kinds(),
            setups_of(kinds@.take(i as int), config.plugins@) == Ok::<
                Seq<Option<Seq<char>>>,
                PluginError,
            >(built@.map_values(|p: (PluginKind, PluginSetup)| setup_view(p.1))),
            built@.map_values(|p: (PluginKind, PluginSetup)| p.0) == kinds@.take(i as int),
    {
        let kind = kinds[i];
        let section = config.plugin_config(kind.name());
        proof {
            assert(kinds@.take(i + 1 as int).drop_last() =~= kinds@.take(i as int));
            assert(kinds@.take(i + 1 as int).last() == kind);
            match section {
                Some(c) => {
                    let j = choose|j: int|
                        0 <= j < config.plugins@.len() && config.plugins@[j].1 == *c
                            && config.plugins@[j].0@ == kind_name(kind) && forall|l: int|
                            0 <= l < j ==> config.plugins@[l].0@ != kind_name(kind);
                    lemma_section_of(config.plugins@, kind_name(kind), j);
                },
                None => {
                    lemma_section_of_none(config.plugins@, kind_name(kind));
                },
            }
        }
        match build_plugin(kind, section) {
            Ok(s) => {
                let ghost before = built@;
                built.push((kind, s));
                proof {
                    assert(built@.map_values(|p: (PluginKind, PluginSetup)| setup_view(p.1))
                        =~= before.map_values(|p: (PluginKind, PluginSetup)| setup_view(p.1)).push(
                        setup_view(s),
                    ));
                    assert(built@.map_values(|p: (PluginKind, PluginSetup)| p.0) =~= kinds@.take(
                        i + 1 as int,
                    ));
                }
            },
            Err(e) => {
                proof {
                    lemma_setups_err_extends(kinds@, config.plugins@, (i + 1) as nat);
                }
                return Err(e);
            },
        }
    }
    proof {
        assert(kinds@.take(kinds@.len() as int) =~= kinds@);
    }
    Ok(built)
}

/// Once building fails, building more plugins fails with the same error.
proof fn lemma_setups_err_extends(
    kinds: Seq<PluginKind>,
    plugins: Seq<(String, PluginConfig)>,
    n: nat,
)
    requires
        n <= kinds.len(),
        setups_of(kinds.take(n as int), plugins) is Err,
    ensures
        setups_of(kinds, plugins) == setups_of(kinds.take(n as int), plugins),
    decreases kinds.len() - n,
{
    if n < kinds.len() {
        let m = (n + 1) as nat;
        assert(kinds.take(m as int).drop_last() =~= kinds.take(n as int));
        lemma_setups_err_extends(kinds, plugins, m);
    } else {
        assert(kinds.take(n as int) =~= kinds);
    }
}

/// What `format!("{:?}", s)` makes of a text: the text quoted, with escapes.
pub uninterp spec fn debug_quoted(s: Seq<char>) -> Seq<char>;

/// Relies on `<str as Debug>::fmt`: the quoted form depends on the characters alone.
#[verifier::external_body]
fn quoted(s: &str) -> (r: String)
    ensures
        r@ == debug_quoted(s@),
{
    format!("{:?}", s)
}

/// A user as its debugging form shows it.
pub open spec fn user_text(u: UserView) -> Seq<char> {
    "User { nick: "@ + debug_quoted(u.nick) + ", ident: "@ + debug_quoted(u.ident) + ", host: "@
        + debug_quoted(u.host) + " }"@
}

/// The debugging form of a user, as `{:?}` shows it.
pub fn user_text_of(u: &User) -> (r: String)
    ensures
        r@ == user_text(u@),
{
    String::from_str("User { nick: ").concat(quoted(u.nick.as_str()).as_str()).concat(
        ", ident: ",
    ).concat(quoted(u.ident.as_str()).as_str()).concat(", host: ").concat(
        quoted(u.host.as_str()).as_str(),
    ).concat(" }")
}

/// The text of the echo's answer, from the user's debugging form and what
/// the user said.
pub open spec fn echo_text(user: Seq<char>, said: Seq<char>) -> Seq<char> {
    "Hey "@ + user + " thanks for saying `"@ + said + "'! Much appreciated"@
}

/// Builds the text of the echo's answer.
pub fn echo_text_of(user: &str, said: &str) -> (r: String)
    ensures
        r@ == echo_text(user@, said@),
{
    String::from_str("Hey ").concat(user).concat(" thanks for saying `").concat(said).concat(
        "'! Much appreciated",
    )
}

/// The echo's answer to a text message from a user, with one parameter, to a
/// target: a thank-you to the same target. None for any other message.
pub open spec fn echo_reply(m: MessageView) -> Option<MessageView> {
    match (m.target, m.source) {
        (Some(target), Some(src)) => match user_of_source(src) {
            Some(u) => if m.command == CommandView::Privmsg && m.parameters.len() == 1 {
                Some(
                    MessageView {
                        source: None,
                        command: CommandView::Privmsg,
                        target: Some(target),
                        parameters: seq![echo_text(user_text(u), m.parameters[0])],
                    },
                )
            } else {
                None
            },
            None => None,
        },
        _ => None,
    }
}

/// The echo responder; it holds nothing.
pub struct EchoPlugin;

impl EchoPlugin {
    pub fn new() -> EchoPlugin {
        EchoPlugin
    }

    /// The answer to one inbound message.
    pub fn reply(&self, msg: &Message) -> (r: Option<Message>)
        ensures
            match r {
                Some(m) => echo_reply(msg@) == Some(m@),
                None => echo_reply(msg@) is None,
            },
    {
        match msg.command {
            Command::Privmsg => {},
            _ => {
                return None;
            },
        }
        if msg.parameters.len() != 1 {
            return None;
        }
        let target = match &msg.target {
            Some(t) => t.clone(),
            None => {
                return None;
            },
        };
        let user = match msg.source_as_user() {
            Some(u) => u,
            None => {
                return None;
            },
        };
        let text = echo_text_of(user_text_of(&user).as_str(), msg.parameters[0].as_str());
        Some(Message::privmsg(target, text))
    }
}

} // verus!
