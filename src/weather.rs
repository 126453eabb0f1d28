//! The text rules of the weather plugin: reading a request, classifying a
//! location query, and the per-user preference table.
use crate::message::{chars_of, find_char, lemma_find_char, opt_chars};
use vstd::prelude::*;

verus! {

/// The first word of `text` and the rest after the space that ends it; the
/// whole text and no rest when it holds no space.
pub open spec fn spec_split_first_word(text: Seq<char>) -> (Seq<char>, Option<Seq<char>>) {
    match find_char(text, ' ', 0) {
        Some(k) => (text.subrange(0, k as int), Some(text.subrange(k + 1 as int, text.len() as int))),
        None => (text, None),
    }
}

/// Splits `text` at its first space.
pub fn split_first_word(text: &str) -> (r: (&str, Option<&str>))
    ensures
        spec_split_first_word(text@) == (r.0@, match r.1 {
            Some(rest) => Some(rest@),
            None => None::<Seq<char>>,
        }),
{
    let cs = chars_of(text);
    let n = cs.len();
    let mut i: usize = 0;
    while i < n
        invariant
            cs@ == text@,
            n == text@.len(),
            i <= n,
            find_char(text@, ' ', i as nat) == find_char(text@, ' ', 0),
        decreases n - i,
    {
        if cs[i] == ' ' {
            proof {
                lemma_find_char(text@, ' ', 0);
            }
            return (text.substring_char(0, i), Some(text.substring_char(i + 1, n)));
        }
        i = i + 1;
    }
    (text, None)
}

/// What `str::to_lowercase` makes of a text.
pub uninterp spec fn lower_of(s: Seq<char>) -> Seq<char>;

/// Relies on `str::to_lowercase`: the result depends on the characters alone.
#[verifier::external_body]
fn lowercase(s: &str) -> (r: String)
    ensures
        r@ == lower_of(s@),
{
    s.to_lowercase()
}

/// Wind speed unit.
#[derive(Clone, Copy, Debug, PartialEq, Eq, Structural)]
pub enum Speed {
    MPH,
    KMH,
}

/// Temperature unit.
#[derive(Clone, Copy, Debug, PartialEq, Eq, Structural)]
pub enum Temperature {
    Celsius,
    Fahrenheit,
}

impl Speed {
    /// How the unit is written after a value.
    pub fn label(&self) -> (r: &'static str)
        ensures
            r@ == match *self {
                Speed::KMH => "Km/h"@,
                Speed::MPH => "mph"@,
            },
    {
        match self {
            Speed::KMH => "Km/h",
            Speed::MPH => "mph",
        }
    }
}

impl Temperature {
    /// How the unit is written after a value.
    pub fn label(&self) -> (r: &'static str)
        ensures
            r@ == match *self {
                Temperature::Celsius => "\u{B0}C"@,
                Temperature::Fahrenheit => "\u{B0}F"@,
            },
    {
        match self {
            Temperature::Celsius => "\u{B0}C",
            Temperature::Fahrenheit => "\u{B0}F",
        }
    }
}

/// A user's choice of units.
#[derive(Clone, Copy, Debug, PartialEq, Eq, Structural)]
pub struct Units {
    pub temperature: Temperature,
    pub speed: Speed,
}

impl Units {
    pub fn imperial() -> (u: Units)
        ensures
            u == (Units { temperature: Temperature::Fahrenheit, speed: Speed::MPH }),
    {
        Units { temperature: Temperature::Fahrenheit, speed: Speed::MPH }
    }

    pub fn metric() -> (u: Units)
        ensures
            u == (Units { temperature: Temperature::Celsius, speed: Speed::KMH }),
    {
        Units { temperature: Temperature::Celsius, speed: Speed::KMH }
    }
}

/// The units a lowercase name stands for.
pub open spec fn units_of_name(name: Seq<char>) -> Option<Units> {
    if name == "metric"@ {
        Some(Units { temperature: Temperature::Celsius, speed: Speed::KMH })
    } else if name == "imperial"@ {
        Some(Units { temperature: Temperature::Fahrenheit, speed: Speed::MPH })
    } else {
        None
    }
}

/// The units that an already lowercased name stands for.
pub fn units_named(lowered: &str) -> (r: Option<Units>)
    ensures
        r == units_of_name(lowered@),
{
    let l = String::from_str(lowered);
    if l == String::from_str("metric") {
        Some(Units::metric())
    } else if l == String::from_str("imperial") {
        Some(Units::imperial())
    } else {
        None
    }
}

/// The units a name stands for, in any letter case.
pub fn parse_units(name: &str) -> (r: Option<Units>)
    ensures
        r == units_of_name(lower_of(name@)),
{
    let l = lowercase(name);
    units_named(l.as_str())
}

/// A nickname as the preference table keys it.
pub fn nick_key(nick: &str) -> (r: String)
    ensures
        r@ == lower_of(nick@),
{
    lowercase(nick)
}

/// Where a weather query's location comes from.
pub enum LocationSource {
    /// The location given in the request.
    Given(String),
    /// The saved location of the user with this (lowercase) nickname.
    SavedOf(String),
    /// The saved location of the sender.
    SavedOfSender,
}

/// One request to the weather plugin.
pub enum WeatherRequest {
    /// `\w [location | @nick]`: the current weather.
    Weather(LocationSource),
    /// `\t [location | @nick]`: the local time.
    Time(LocationSource),
    /// `\wset [location]`: save, or with nothing forget, the sender's location.
    SetLocation(Option<String>),
    /// `\units [name]`: save, or with nothing forget, the sender's units.
    SetUnits(Option<String>),
}

/// A location source, with its text as characters.
pub enum LocationSourceView {
    Given(Seq<char>),
    SavedOf(Seq<char>),
    SavedOfSender,
}

impl View for LocationSource {
    type V = LocationSourceView;

    open spec fn view(&self) -> LocationSourceView {
        match self {
            LocationSource::Given(t) => LocationSourceView::Given(t@),
            LocationSource::SavedOf(n) => LocationSourceView::SavedOf(n@),
            LocationSource::SavedOfSender => LocationSourceView::SavedOfSender,
        }
    }
}

/// Where the location of `\w` or `\t` with argument `arg` comes from: `@nick`
/// names another user's saved location, other text is the location itself.
pub open spec fn spec_location_source(arg: Option<Seq<char>>) -> LocationSourceView {
    match arg {
        None => LocationSourceView::SavedOfSender,
        Some(a) => if a.len() > 0 && a[0] == '@' {
            LocationSourceView::SavedOf(lower_of(a.subrange(1, a.len() as int)))
        } else {
            LocationSourceView::Given(a)
        },
    }
}

fn location_source(arg: Option<&str>) -> (r: LocationSource)
    ensures
        r@ == spec_location_source(match arg {
            Some(a) => Some(a@),
            None => None::<Seq<char>>,
        }),
{
    match arg {
        None => LocationSource::SavedOfSender,
        Some(a) => {
            let n = a.unicode_len();
            if n > 0 && a.get_char(0) == '@' {
                LocationSource::SavedOf(lowercase(a.substring_char(1, n)))
            } else {
                LocationSource::Given(String::from_str(a))
            }
        },
    }
}

/// Reads a request from the text of a message; none when its first word is
/// not one of the plugin's commands.
pub fn parse_request(text: &str) -> (r: Option<WeatherRequest>)
    ensures
        ({
            let (cmd, arg) = spec_split_first_word(text@);
            match r {
                Some(WeatherRequest::Weather(src)) => cmd == "\\w"@ && src@
                    == spec_location_source(arg),
                Some(WeatherRequest::Time(src)) => cmd == "\\t"@ && src@
                    == spec_location_source(arg),
                Some(WeatherRequest::SetLocation(l)) => cmd == "\\wset"@ && opt_chars(l) == arg,
                Some(WeatherRequest::SetUnits(u)) => cmd == "\\units"@ && opt_chars(u) == arg,
                None => cmd != "\\w"@ && cmd != "\\t"@ && cmd != "\\wset"@ && cmd != "\\units"@,
            }
        }),
{
    let (cmd, arg) = split_first_word(text);
    let c = String::from_str(cmd);
    let owned = match arg {
        Some(a) => Some(String::from_str(a)),
        None => None,
    };
    if c == String::from_str("\\w") {
        Some(WeatherRequest::Weather(location_source(arg)))
    } else if c == String::from_str("\\t") {
        Some(WeatherRequest::Time(location_source(arg)))
    } else if c == String::from_str("\\wset") {
        Some(WeatherRequest::SetLocation(owned))
    } else if c == String::from_str("\\units") {
        Some(WeatherRequest::SetUnits(owned))
    } else {
        None
    }
}

/// A location query to the weather service.
pub enum OwmQuery {
    /// A place name, optionally with a country code.
    Simple(String),
    /// The service's own identifier of a place.
    Id(String),
    /// A United States postal code.
    USZip(String),
}

pub open spec fn is_ascii_digit(c: char) -> bool {
    '0' <= c && c <= '9'
}

/// The query text names: `id:<n>` is an identifier, digits alone a postal
/// code, anything else a place name. As a parameter of the service's address.
pub open spec fn spec_query_param(q: Seq<char>) -> Seq<char> {
    if q.len() >= 3 && q.subrange(0, 3) == "id:"@ {
        "id="@ + q.subrange(3, q.len() as int)
    } else if forall|i: int| 0 <= i < q.len() ==> is_ascii_digit(#[trigger] q[i]) {
        "zip="@ + q
    } else {
        "q="@ + q
    }
}

pub open spec fn query_param_of(q: OwmQuery) -> Seq<char> {
    match q {
        OwmQuery::Simple(s) => "q="@ + s@,
        OwmQuery::Id(s) => "id="@ + s@,
        OwmQuery::USZip(s) => "zip="@ + s@,
    }
}

impl OwmQuery {
    /// Classifies a location query.
    pub fn from_text(q: &str) -> (r: OwmQuery)
        ensures
            query_param_of(r) == spec_query_param(q@),
    {
        let cs = chars_of(q);
        let n = cs.len();
        proof {
            reveal_strlit("id:");
        }
        if n >= 3 && cs[0] == 'i' && cs[1] == 'd' && cs[2] == ':' {
            proof {
                assert(q@.subrange(0, 3) =~= "id:"@);
            }
            return OwmQuery::Id(String::from_str(q.substring_char(3, n)));
        }
        proof {
            if n >= 3 {
                assert(q@.subrange(0, 3)[0] == q@[0]);
                assert(q@.subrange(0, 3)[1] == q@[1]);
                assert(q@.subrange(0, 3)[2] == q@[2]);
            }
        }
        let mut i: usize = 0;
        while i < n
            invariant
                cs@ == q@,
                n == q@.len(),
                i <= n,
                forall|j: int| 0 <= j < i ==> is_ascii_digit(#[trigger] q@[j]),
                !(q@.len() >= 3 && q@.subrange(0, 3) == "id:"@),
            decreases n - i,
        {
            if !('0' <= cs[i] && cs[i] <= '9') {
                proof {
                    assert(!is_ascii_digit(q@[i as int]));
                }
                return OwmQuery::Simple(String::from_str(q));
            }
            i = i + 1;
        }
        OwmQuery::USZip(String::from_str(q))
    }

    /// The query as a parameter of the service's address.
    pub fn to_param(&self) -> (r: String)
        ensures
            r@ == query_param_of(*self),
    {
        match self {
            OwmQuery::Simple(s) => String::from_str("q=").concat(s.as_str()),
            OwmQuery::Id(s) => String::from_str("id=").concat(s.as_str()),
            OwmQuery::USZip(s) => String::from_str("zip=").concat(s.as_str()),
        }
    }
}

/// Where the preference table of a server is kept.
pub fn db_path(server: &str) -> (r: String)
    ensures
        r@ == "data/"@ + server@ + "-weather"@,
{
    String::from_str("data/").concat(server).concat("-weather")
}

/// Preferences saved for one user.
#[derive(Clone, Debug)]
pub struct UserConfig {
    pub location: Option<String>,
    pub units: Option<Units>,
}

pub open spec fn conf_view(c: UserConfig) -> (Option<Seq<char>>, Option<Units>) {
    (opt_chars(c.location), c.units)
}

fn copy_config(c: &UserConfig) -> (r: UserConfig)
    ensures
        conf_view(r) == conf_view(*c),
{
    let location = match &c.location {
        Some(l) => Some(l.clone()),
        None => None,
    };
    UserConfig { location, units: c.units }
}

/// The preferences of the first entry keyed `k`.
pub open spec fn user_lookup(es: Seq<(String, UserConfig)>, k: Seq<char>) -> Option<
    (Option<Seq<char>>, Option<Units>),
>
    decreases es.len(),
{
    if es.len() == 0 {
        None
    } else if es[0].0@ == k {
        Some(conf_view(es[0].1))
    } else {
        user_lookup(es.drop_first(), k)
    }
}

proof fn lemma_user_lookup_push(es: Seq<(String, UserConfig)>, e: (String, UserConfig), k: Seq<char>)
    ensures
        user_lookup(es.push(e), k) == match user_lookup(es, k) {
            Some(v) => Some(v),
            None => if e.0@ == k {
                Some(conf_view(e.1))
            } else {
                None
            },
        },
    decreases es.len(),
{
    if es.len() == 0 {
        assert(es.push(e).drop_first() =~= es);
    } else {
        assert(es.push(e)[0] == es[0]);
        assert(es.push(e).drop_first() =~= es.drop_first().push(e));
        lemma_user_lookup_push(es.drop_first(), e, k);
    }
}

/// The preferences after setting a user's units: a user left with neither a
/// location nor units is forgotten.
pub open spec fn after_units(
    cur: Option<(Option<Seq<char>>, Option<Units>)>,
    units: Option<Units>,
) -> Option<(Option<Seq<char>>, Option<Units>)> {
    match cur {
        Some((loc, _)) => if units is None && loc is None {
            None
        } else {
            Some((loc, units))
        },
        None => if units is Some {
            Some((None, units))
        } else {
            None
        },
    }
}

/// The preferences after setting a user's location: a user left with neither
/// a location nor units is forgotten.
pub open spec fn after_location(
    cur: Option<(Option<Seq<char>>, Option<Units>)>,
    location: Option<Seq<char>>,
) -> Option<(Option<Seq<char>>, Option<Units>)> {
    match cur {
        Some((_, units)) => if location is None && units is None {
            None
        } else {
            Some((location, units))
        },
        None => if location is Some {
            Some((location, None))
        } else {
            None
        },
    }
}

/// Why a weather query has no location.
pub enum LocationError {
    /// The user with this nickname saved no location.
    UnknownUser(String),
    /// The sender gave no location and saved none.
    NoSavedLocation,
}

/// Saved preferences, by lowercase nickname.
pub struct UserDb {
    entries: Vec<(String, UserConfig)>,
}

impl UserDb {
    /// The preferences saved for `nick`.
    pub closed spec fn spec_get(&self, nick: Seq<char>) -> Option<(Option<Seq<char>>, Option<Units>)> {
        user_lookup(self.entries@, nick)
    }

    /// A table with nobody in it.
    pub fn new() -> (db: UserDb)
        ensures
            forall|k: Seq<char>| db.spec_get(k) is None,
    {
        UserDb { entries: Vec::new() }
    }

    /// The entries of the table, for saving it.
    pub fn entries(&self) -> (r: &Vec<(String, UserConfig)>)
        ensures
            forall|k: Seq<char>| #[trigger] user_lookup(r@, k) == self.spec_get(k),
    {
        &self.entries
    }

    /// The preferences saved for `nick`.
    pub fn get(&self, nick: &str) -> (r: Option<UserConfig>)
        ensures
            match r {
                Some(c) => self.spec_get(nick@) == Some(conf_view(c)),
                None => self.spec_get(nick@) is None,
            },
    {
        let key = String::from_str(nick);
        let mut i: usize = 0;
        proof {
            assert(self.entries@.skip(0) =~= self.entries@);
        }
        while i < self.entries.len()
            invariant
                key@ == nick@,
                i <= self.entries@.len(),
                user_lookup(self.entries@, nick@) == user_lookup(self.entries@.skip(i as int), nick@),
            decreases self.entries@.len() - i,
        {
            proof {
                assert(self.entries@.skip(i as int).drop_first() =~= self.entries@.skip(i + 1 as int));
            }
            if self.entries[i].0 == key {
                return Some(copy_config(&self.entries[i].1));
            }
            i = i + 1;
        }
        None
    }

    /// Forgets everything saved for `nick`.
    fn remove(&mut self, nick: &String)
        ensures
            forall|k: Seq<char>| #[trigger]
                final(self).spec_get(k) == if k == nick@ {
                    None
                } else {
                    old(self).spec_get(k)
                },
    {
        let ghost es = self.entries@;
        let mut kept: Vec<(String, UserConfig)> = Vec::new();
        let mut i: usize = 0;
        while i < self.entries.len()
            invariant
                es == self.entries@,
                i <= es.len(),
                forall|k: Seq<char>| #[trigger]
                    user_lookup(kept@, k) == if k == nick@ {
                        None
                    } else {
                        user_lookup(es.take(i as int), k)
                    },
            decreases es.len() - i,
        {
            let ghost before = kept@;
            proof {
                assert(es.take(i + 1 as int) =~= es.take(i as int).push(es[i as int]));
            }
            if self.entries[i].0 != *nick {
                let e = (self.entries[i].0.clone(), copy_config(&self.entries[i].1));
                kept.push(e);
                proof {
                    assert forall|k: Seq<char>| #[trigger]
                        user_lookup(kept@, k) == if k == nick@ {
                            None
                        } else {
                            user_lookup(es.take(i + 1 as int), k)
                        } by {
                        lemma_user_lookup_push(before, e, k);
                        lemma_user_lookup_push(es.take(i as int), es[i as int], k);
                    }
                }
            } else {
                proof {
                    assert forall|k: Seq<char>| #[trigger]
                        user_lookup(kept@, k) == if k == nick@ {
                            None
                        } else {
                            user_lookup(es.take(i + 1 as int), k)
                        } by {
                        lemma_user_lookup_push(es.take(i as int), es[i as int], k);
                    }
                }
            }
            i = i + 1;
        }
        proof {
            assert(es.take(es.len() as int) =~= es);
        }
        self.entries = kept;
    }

    /// Saves `conf` for `nick`, replacing what was saved.
    fn put(&mut self, nick: String, conf: Option<UserConfig>)
        ensures
            forall|k: Seq<char>| #[trigger]
                final(self).spec_get(k) == if k == nick@ {
                    match conf {
                        Some(c) => Some(conf_view(c)),
                        None => None,
                    }
                } else {
                    old(self).spec_get(k)
                },
    {
        self.remove(&nick);
        let ghost mid = self.entries@;
        let ghost mid_db = *self;
        match conf {
            Some(c) => {
                let e = (nick, c);
                self.entries.push(e);
                proof {
                    assert forall|k: Seq<char>| #[trigger]
                        user_lookup(self.entries@, k) == if k == e.0@ {
                            Some(conf_view(c))
                        } else {
                            user_lookup(mid, k)
                        } by {
                        lemma_user_lookup_push(mid, e, k);
                        assert(mid_db.spec_get(k) == user_lookup(mid, k));
                    }
                }
            },
            None => {},
        }
    }

    /// Saves `conf` for `nick`, as when loading a saved table.
    pub fn insert(&mut self, nick: String, conf: UserConfig)
        ensures
            forall|k: Seq<char>| #[trigger]
                final(self).spec_get(k) == if k == nick@ {
                    Some(conf_view(conf))
                } else {
                    old(self).spec_get(k)
                },
    {
        self.put(nick, Some(conf));
    }

    /// The location a weather query is for, and the nickname it was saved
    /// under when it comes from the table.
    pub fn resolve_location(&self, source: LocationSource, sender: &str) -> (r: Result<
        (String, Option<String>),
        LocationError,
    >)
        ensures
            match source {
                LocationSource::Given(t) => r matches Ok((q, n)) && q@ == t@ && n is None,
                LocationSource::SavedOf(other) => match self.spec_get(other@) {
                    Some((Some(loc), _)) => r matches Ok((q, Some(n))) && q@ == loc && n@ == other@,
                    _ => r matches Err(LocationError::UnknownUser(n)) && n@ == other@,
                },
                LocationSource::SavedOfSender => match self.spec_get(sender@) {
                    Some((Some(loc), _)) => r matches Ok((q, Some(n))) && q@ == loc && n@ == sender@,
                    _ => r matches Err(LocationError::NoSavedLocation),
                },
            },
    {
        match source {
            LocationSource::Given(t) => Ok((t, None)),
            LocationSource::SavedOf(other) => match self.get(other.as_str()) {
                Some(UserConfig { location: Some(loc), units: _ }) => Ok((loc, Some(other))),
                _ => Err(LocationError::UnknownUser(other)),
            },
            LocationSource::SavedOfSender => match self.get(sender) {
                Some(UserConfig { location: Some(loc), units: _ }) => Ok((loc, Some(String::from_str(sender)))),
                _ => Err(LocationError::NoSavedLocation),
            },
        }
    }

    /// Sets, or with `None` clears, the units saved for `nick`.
    pub fn set_user_units(&mut self, nick: &str, units: Option<Units>)
        ensures
            final(self).spec_get(nick@) == after_units(old(self).spec_get(nick@), units),
            forall|k: Seq<char>| k != nick@ ==> #[trigger] final(self).spec_get(k) == old(self).spec_get(k),
    {
        let next = match self.get(nick) {
            Some(c) => {
                if units.is_none() && c.location.is_none() {
                    None
                } else {
                    Some(UserConfig { location: c.location, units })
                }
            },
            None => {
                if units.is_some() {
                    Some(UserConfig { location: None, units })
                } else {
                    None
                }
            },
        };
        self.put(String::from_str(nick), next);
    }

    /// Sets, or with `None` clears, the location saved for `nick`.
    pub fn set_user_location(&mut self, nick: &str, location: Option<String>)
        ensures
            final(self).spec_get(nick@) == after_location(
                old(self).spec_get(nick@),
                opt_chars(location),
            ),
            forall|k: Seq<char>| k != nick@ ==> #[trigger] final(self).spec_get(k) == old(self).spec_get(k),
    {
        let next = match self.get(nick) {
            Some(c) => {
                if location.is_none() && c.units.is_none() {
                    None
                } else {
                    Some(UserConfig { location, units: c.units })
                }
            },
            None => {
                if location.is_some() {
                    Some(UserConfig { location, units: None })
                } else {
                    None
                }
            },
        };
        self.put(String::from_str(nick), next);
    }
}

/// The symbol shown for a weather service icon code.
pub open spec fn icon_of(code: Seq<char>) -> Option<Seq<char>> {
    if code == "01d"@ {
        Some("\u{2600}\u{FE0F}"@)
    } else if code == "01n"@ {
        Some("\u{1F319}"@)
    } else if code == "02d"@ {
        Some("\u{26C5}"@)
    } else if code == "03d"@ {
        Some("\u{2601}\u{FE0F}"@)
    } else if code == "04d"@ {
        Some("\u{2601}\u{FE0F}"@)
    } else if code == "02n"@ {
        Some("\u{2601}\u{FE0F}"@)
    } else if code == "03n"@ {
        Some("\u{2601}\u{FE0F}"@)
    } else if code == "04n"@ {
        Some("\u{2601}\u{FE0F}"@)
    } else if code == "09d"@ {
        Some("\u{1F327}\u{FE0F}"@)
    } else if code == "09n"@ {
        Some("\u{1F327}\u{FE0F}"@)
    } else if code == "10n"@ {
        Some("\u{1F327}\u{FE0F}"@)
    } else if code == "10d"@ {
        Some("\u{1F326}\u{FE0F}"@)
    } else if code == "11d"@ {
        Some("\u{1F329}\u{FE0F}"@)
    } else if code == "11n"@ {
        Some("\u{1F329}\u{FE0F}"@)
    } else if code == "13d"@ {
        Some("\u{1F328}\u{FE0F}"@)
    } else if code == "13n"@ {
        Some("\u{1F328}\u{FE0F}"@)
    } else if code == "50d"@ {
        Some("\u{1F32B}\u{FE0F}"@)
    } else if code == "50n"@ {
        Some("\u{1F32B}\u{FE0F}"@)
    } else {
        None
    }
}

/// The symbol shown for a weather service icon code; none for an unknown code.
pub fn get_icon(icon: &str) -> (r: Option<&'static str>)
    ensures
        match r {
            Some(s) => icon_of(icon@) == Some(s@),
            None => icon_of(icon@) is None,
        },
{
    let code = String::from_str(icon);
    if code == String::from_str("01d") {
        Some("\u{2600}\u{FE0F}")
    } else if code == String::from_str("01n") {
        Some("\u{1F319}")
    } else if code == String::from_str("02d") {
        Some("\u{26C5}")
    } else if code == String::from_str("03d") {
        Some("\u{2601}\u{FE0F}")
    } else if code == String::from_str("04d") {
        Some("\u{2601}\u{FE0F}")
    } else if code == String::from_str("02n") {
        Some("\u{2601}\u{FE0F}")
    } else if code == String::from_str("03n") {
        Some("\u{2601}\u{FE0F}")
    } else if code == String::from_str("04n") {
        Some("\u{2601}\u{FE0F}")
    } else if code == String::from_str("09d") {
        Some("\u{1F327}\u{FE0F}")
    } else if code == String::from_str("09n") {
        Some("\u{1F327}\u{FE0F}")
    } else if code == String::from_str("10n") {
        Some("\u{1F327}\u{FE0F}")
    } else if code == String::from_str("10d") {
        Some("\u{1F326}\u{FE0F}")
    } else if code == String::from_str("11d") {
        Some("\u{1F329}\u{FE0F}")
    } else if code == String::from_str("11n") {
        Some("\u{1F329}\u{FE0F}")
    } else if code == String::from_str("13d") {
        Some("\u{1F328}\u{FE0F}")
    } else if code == String::from_str("13n") {
        Some("\u{1F328}\u{FE0F}")
    } else if code == String::from_str("50d") {
        Some("\u{1F32B}\u{FE0F}")
    } else if code == String::from_str("50n") {
        Some("\u{1F32B}\u{FE0F}")
    } else {
        None
    }
}

} // verus!
