//! The configuration in memory, and the command line.

use crate::text;
use crate::types::{default_config, Config, ConfigV, MqttConfigV};
use vstd::prelude::*;

verus! {

// ---------------------------------------------------------------------------
// Settings
// ---------------------------------------------------------------------------

/// What reading the configuration file gave.
#[derive(Debug)]
pub enum ConfigFile {
    /// There is no file.
    Missing,
    /// The file cannot be read; why.
    Unreadable(String),
    /// The text of the file, and what parsing it gave.
    Text { raw: String, parsed: Result<Config, String> },
}

/// The current configuration and the path that it is kept under.
#[derive(Debug)]
pub struct Settings {
    path: String,
    current: Config,
}

/// The configuration that a file gives: defaults where it is missing or blank, and an error where
/// it cannot be read or parsed. A broken file never counts as defaults.
pub open spec fn loaded(path: Seq<char>, file: ConfigFile) -> Result<ConfigV, Seq<char>> {
    match file {
        ConfigFile::Missing => Ok(default_config()),
        ConfigFile::Unreadable(e) => Err("read "@ + path + ": "@ + e@),
        ConfigFile::Text { raw, parsed } => if text::trimmed(raw@).len() == 0 {
            Ok(default_config())
        } else {
            match parsed {
                Ok(c) => Ok(c@),
                Err(e) => Err(
                    "config "@ + path + " failed to parse: "@ + e@
                        + ". Fix or remove the file (a copy is kept as "@ + path
                        + ".corrupt); refusing to start with defaults"@,
                ),
            }
        },
    }
}

/// A configuration with command-line values over it: a value that was given replaces the one of
/// the file, the topic prefix only where it was passed explicitly.
pub open spec fn overridden(c: ConfigV, o: CliOverrides) -> ConfigV {
    ConfigV {
        mqtt: MqttConfigV {
            broker: match o.mqtt_broker {
                Some(b) => b@,
                None => c.mqtt.broker,
            },
            user: match o.mqtt_user {
                Some(u) => u@,
                None => c.mqtt.user,
            },
            pass: match o.mqtt_pass {
                Some(p) => p@,
                None => c.mqtt.pass,
            },
            prefix: if o.mqtt_prefix_explicit {
                o.mqtt_prefix@
            } else {
                c.mqtt.prefix
            },
        },
        auth_token: match o.token {
            Some(t) => t@,
            None => c.auth_token,
        },
        ..c
    }
}

/// Values from the command line that go over the persisted configuration.
#[derive(Debug)]
pub struct CliOverrides {
    pub mqtt_broker: Option<String>,
    pub mqtt_user: Option<String>,
    pub mqtt_pass: Option<String>,
    pub mqtt_prefix_explicit: bool,
    pub mqtt_prefix: String,
    pub token: Option<String>,
}

impl Settings {
    /// The current configuration.
    pub closed spec fn view(&self) -> ConfigV {
        self.current@
    }

    /// The path that the configuration is kept under.
    pub closed spec fn location(&self) -> Seq<char> {
        self.path@
    }

    /// Takes over what reading the configuration file gave.
    pub fn load(path: &str, file: ConfigFile) -> (r: Result<Settings, String>)
        ensures
            match r {
                Ok(s) => loaded(path@, file) == Ok::<ConfigV, Seq<char>>(s@) && s.location()
                    == path@,
                Err(m) => loaded(path@, file) == Err::<ConfigV, Seq<char>>(m@),
            },
    {
        match file {
            ConfigFile::Missing => Ok(Settings { path: path.to_owned(), current: Config::default() }),
            ConfigFile::Unreadable(e) => {
                let mut m = text::concat3("read ", path, ": ");
                m.append(e.as_str());
                Err(m)
            },
            ConfigFile::Text { raw, parsed } => {
                if text::trim(raw.as_str()).is_empty() {
                    return Ok(Settings { path: path.to_owned(), current: Config::default() });
                }
                match parsed {
                    Ok(c) => Ok(Settings { path: path.to_owned(), current: c }),
                    Err(e) => {
                        let mut m = text::concat3("config ", path, " failed to parse: ");
                        m.append(e.as_str());
                        m.append(". Fix or remove the file (a copy is kept as ");
                        m.append(path);
                        m.append(".corrupt); refusing to start with defaults");
                        Err(m)
                    },
                }
            },
        }
    }

    /// A copy of the current configuration.
    pub fn get(&self) -> (r: Config)
        ensures
            r@ == self@,
    {
        self.current.clone()
    }

    /// The path that the configuration is kept under.
    pub fn path(&self) -> (r: &str)
        ensures
            r@ == self.location(),
    {
        self.path.as_str()
    }

    /// `after` is what `before` becomes by an update to `next` that was persisted or not.
    pub open spec fn updated(
        before: Settings,
        next: Config,
        persisted: Result<(), String>,
        after: Settings,
    ) -> bool {
        &&& after.location() == before.location()
        &&& after@ == (if persisted is Ok {
            next@
        } else {
            before@
        })
    }

    /// Takes over a changed configuration once it has been persisted. Where that failed, the
    /// configuration in memory stays as it is, so memory and disk cannot diverge.
    pub fn update(&mut self, next: Config, persisted: Result<(), String>) -> (r: Result<(), String>)
        ensures
            r == persisted,
            Settings::updated(*old(self), next, persisted, *final(self)),
    {
        if persisted.is_ok() {
            self.current = next;
        }
        persisted
    }

    /// Puts command-line values over the configuration. They are not persisted.
    pub fn apply_overrides(&mut self, o: &CliOverrides)
        ensures
            final(self)@ == overridden(old(self)@, *o),
            final(self).location() == old(self).location(),
    {
        if let Some(b) = &o.mqtt_broker {
            self.current.mqtt.broker = b.clone();
        }
        if let Some(u) = &o.mqtt_user {
            self.current.mqtt.user = u.clone();
        }
        if let Some(p) = &o.mqtt_pass {
            self.current.mqtt.pass = p.clone();
        }
        if o.mqtt_prefix_explicit {
            self.current.mqtt.prefix = o.mqtt_prefix.clone();
        }
        if let Some(t) = &o.token {
            self.current.auth_token = t.clone();
        }
    }
}

/// Command-line values take priority over the configuration file, and what is not given there
/// keeps its value.
pub proof fn law_command_line_has_priority(c: ConfigV, o: CliOverrides)
    ensures
        o.mqtt_broker matches Some(b) ==> overridden(c, o).mqtt.broker == b@,
        o.mqtt_broker is None ==> overridden(c, o).mqtt.broker == c.mqtt.broker,
        o.token matches Some(t) ==> overridden(c, o).auth_token == t@,
        o.token is None ==> overridden(c, o).auth_token == c.auth_token,
        o.mqtt_prefix_explicit ==> overridden(c, o).mqtt.prefix == o.mqtt_prefix@,
        !o.mqtt_prefix_explicit ==> overridden(c, o).mqtt.prefix == c.mqtt.prefix,
        overridden(c, o).bus == c.bus,
        overridden(c, o).cec == c.cec,
{
}

/// A load gives back what an update saved: where an update went well, and the file that it wrote
/// parses to what was written, loading that file gives the configuration that is in memory.
pub proof fn law_load_gives_back_what_was_saved(
    before: Settings,
    after: Settings,
    next: Config,
    raw: String,
    parsed: Config,
)
    requires
        Settings::updated(before, next, Ok(()), after),
        parsed@ == next@,
        text::trimmed(raw@).len() > 0,
    ensures
        loaded(after.location(), (ConfigFile::Text { raw, parsed: Ok(parsed) })) == Ok::<
            ConfigV,
            Seq<char>,
        >(after@),
        after@ == next@,
{
}

// ---------------------------------------------------------------------------
// Command line
// ---------------------------------------------------------------------------

/// The values of the command line.
#[derive(Debug)]
pub struct Flags {
    pub bind: String,
    pub config_dir: Option<String>,
    pub name: String,
    pub adapter: String,
    pub mqtt_broker: String,
    pub mqtt_user: String,
    pub mqtt_pass: String,
    pub mqtt_prefix: String,
    pub cec_monitor: bool,
    /// Shuts the process down this many milliseconds after the listener binds.
    pub shutdown_after_ms: Option<u64>,
    pub token: String,
    pub show_version: bool,
    pub do_update: bool,
}

/// What [`Flags`] hold.
pub struct FlagsV {
    pub bind: Seq<char>,
    pub config_dir: Option<Seq<char>>,
    pub name: Seq<char>,
    pub adapter: Seq<char>,
    pub mqtt_broker: Seq<char>,
    pub mqtt_user: Seq<char>,
    pub mqtt_pass: Seq<char>,
    pub mqtt_prefix: Seq<char>,
    pub cec_monitor: bool,
    pub shutdown_after_ms: Option<u64>,
    pub token: Seq<char>,
    pub show_version: bool,
    pub do_update: bool,
}

impl View for Flags {
    type V = FlagsV;

    open spec fn view(&self) -> FlagsV {
        FlagsV {
            bind: self.bind@,
            config_dir: match self.config_dir {
                Some(d) => Some(d@),
                None => None,
            },
            name: self.name@,
            adapter: self.adapter@,
            mqtt_broker: self.mqtt_broker@,
            mqtt_user: self.mqtt_user@,
            mqtt_pass: self.mqtt_pass@,
            mqtt_prefix: self.mqtt_prefix@,
            cec_monitor: self.cec_monitor,
            shutdown_after_ms: self.shutdown_after_ms,
            token: self.token@,
            show_version: self.show_version,
            do_update: self.do_update,
        }
    }
}

/// The values where nothing is given.
pub open spec fn default_flags() -> FlagsV {
    FlagsV {
        bind: ":8080"@,
        config_dir: None,
        name: "CEC HTTP Bridge"@,
        adapter: Seq::empty(),
        mqtt_broker: Seq::empty(),
        mqtt_user: Seq::empty(),
        mqtt_pass: Seq::empty(),
        mqtt_prefix: "capi"@,
        cec_monitor: false,
        shutdown_after_ms: None,
        token: Seq::empty(),
        show_version: false,
        do_update: false,
    }
}

/// The name of a flag in an argument, and the value after an equals sign.
pub open spec fn flag_parts(arg: Seq<char>) -> (Seq<char>, Option<Seq<char>>) {
    match text::cut_first(arg, '=') {
        Some((n, v)) => (n, Some(v)),
        None => (arg, None),
    }
}

/// Whether a flag takes a value.
pub open spec fn takes_value(name: Seq<char>) -> bool {
    name == "-bind"@ || name == "-name"@ || name == "-adapter"@ || name == "-mqtt-broker"@ || name
        == "-mqtt-user"@ || name == "-mqtt-pass"@ || name == "-mqtt-prefix"@ || name == "-token"@
}

/// Flags with the value of one of them set.
pub open spec fn with_value(f: FlagsV, name: Seq<char>, v: Seq<char>) -> FlagsV {
    if name == "-bind"@ {
        FlagsV { bind: v, ..f }
    } else if name == "-name"@ {
        FlagsV { name: v, ..f }
    } else if name == "-adapter"@ {
        FlagsV { adapter: v, ..f }
    } else if name == "-mqtt-broker"@ {
        FlagsV { mqtt_broker: v, ..f }
    } else if name == "-mqtt-user"@ {
        FlagsV { mqtt_user: v, ..f }
    } else if name == "-mqtt-pass"@ {
        FlagsV { mqtt_pass: v, ..f }
    } else if name == "-mqtt-prefix"@ {
        FlagsV { mqtt_prefix: v, ..f }
    } else {
        FlagsV { token: v, ..f }
    }
}

/// What the arguments `i..` make of flags, or what is wrong with them.
pub open spec fn flags_from(args: Seq<Seq<char>>, i: int, f: FlagsV) -> Result<FlagsV, Seq<char>>
    decreases args.len() - i,
{
    if i < 0 || i >= args.len() {
        Ok(f)
    } else {
        let (name, inline_value) = flag_parts(args[i]);
        if takes_value(name) {
            match inline_value {
                Some(v) => flags_from(args, i + 1, with_value(f, name, v)),
                None => if i + 1 < args.len() {
                    flags_from(args, i + 2, with_value(f, name, args[i + 1]))
                } else {
                    Err("flag "@ + name + " requires a value"@)
                },
            }
        } else if name == "-cec-monitor"@ {
            flags_from(args, i + 1, FlagsV { cec_monitor: true, ..f })
        } else if name == "-version"@ {
            flags_from(args, i + 1, FlagsV { show_version: true, ..f })
        } else if name == "-update"@ {
            flags_from(args, i + 1, FlagsV { do_update: true, ..f })
        } else {
            Err("unknown flag "@ + name)
        }
    }
}

fn is_value_flag(name: &str) -> (r: bool)
    ensures
        r == takes_value(name@),
{
    text::str_eq(name, "-bind") || text::str_eq(name, "-name") || text::str_eq(name, "-adapter")
        || text::str_eq(name, "-mqtt-broker") || text::str_eq(name, "-mqtt-user") || text::str_eq(
        name,
        "-mqtt-pass",
    ) || text::str_eq(name, "-mqtt-prefix") || text::str_eq(name, "-token")
}

fn set_value(f: &mut Flags, name: &str, v: &str)
    ensures
        final(f)@ == with_value(old(f)@, name@, v@),
{
    if text::str_eq(name, "-bind") {
        f.bind = v.to_owned();
    } else if text::str_eq(name, "-name") {
        f.name = v.to_owned();
    } else if text::str_eq(name, "-adapter") {
        f.adapter = v.to_owned();
    } else if text::str_eq(name, "-mqtt-broker") {
        f.mqtt_broker = v.to_owned();
    } else if text::str_eq(name, "-mqtt-user") {
        f.mqtt_user = v.to_owned();
    } else if text::str_eq(name, "-mqtt-pass") {
        f.mqtt_pass = v.to_owned();
    } else if text::str_eq(name, "-mqtt-prefix") {
        f.mqtt_prefix = v.to_owned();
    } else {
        f.token = v.to_owned();
    }
}

/// Parses arguments of the forms `-flag value` and `-flag=value`.
pub fn parse_flags(args: &Vec<String>) -> (r: Result<Flags, String>)
    ensures
        match r {
            Ok(f) => flags_from(text::views(args@), 0, default_flags()) == Ok::<
                FlagsV,
                Seq<char>,
            >(f@),
            Err(m) => flags_from(text::views(args@), 0, default_flags()) == Err::<
                FlagsV,
                Seq<char>,
            >(m@),
        },
{
    let ghost av = text::views(args@);
    let mut f = Flags {
        bind: ":8080".to_owned(),
        config_dir: None,
        name: "CEC HTTP Bridge".to_owned(),
        adapter: String::new(),
        mqtt_broker: String::new(),
        mqtt_user: String::new(),
        mqtt_pass: String::new(),
        mqtt_prefix: "capi".to_owned(),
        cec_monitor: false,
        shutdown_after_ms: None,
        token: String::new(),
        show_version: false,
        do_update: false,
    };
    let mut i: usize = 0;
    while i < args.len()
        invariant
            i <= args@.len(),
            av == text::views(args@),
            flags_from(av, 0, default_flags()) == flags_from(av, i as int, f@),
        decreases args@.len() - i,
    {
        assert(av[i as int] == args@[i as int]@);
        let (name, inline_value) = match text::split_once(args[i].as_str(), '=') {
            Some((n, v)) => (n, Some(v)),
            None => (args[i].as_str(), None),
        };
        if is_value_flag(name) {
            match inline_value {
                Some(v) => {
                    set_value(&mut f, name, v);
                },
                None => {
                    i += 1;
                    if i >= args.len() {
                        return Err(text::concat3("flag ", name, " requires a value"));
                    }
                    assert(av[i as int] == args@[i as int]@);
                    set_value(&mut f, name, args[i].as_str());
                },
            }
        } else if text::str_eq(name, "-cec-monitor") {
            f.cec_monitor = true;
        } else if text::str_eq(name, "-version") {
            f.show_version = true;
        } else if text::str_eq(name, "-update") {
            f.do_update = true;
        } else {
            return Err(text::concat("unknown flag ", name));
        }
        i += 1;
    }
    Ok(f)
}

// ---------------------------------------------------------------------------
// Laws
// ---------------------------------------------------------------------------

/// A missing or blank file stands for the defaults, and only such a one: a file that cannot be read
/// or parsed is an error, never the defaults; one that can gives what it holds.
pub proof fn law_broken_files_are_no_defaults(path: Seq<char>, file: ConfigFile)
    ensures
        match file {
            ConfigFile::Missing => loaded(path, file) == Ok::<ConfigV, Seq<char>>(
                default_config(),
            ),
            ConfigFile::Unreadable(_) => loaded(path, file) is Err,
            ConfigFile::Text { raw, parsed } => {
                &&& text::trimmed(raw@).len() > 0 && parsed is Err ==> loaded(path, file) is Err
                &&& text::trimmed(raw@).len() > 0 ==> (parsed matches Ok(c) ==> loaded(path, file)
                    == Ok::<ConfigV, Seq<char>>(c@))
                &&& text::trimmed(raw@).len() == 0 ==> loaded(path, file) == Ok::<
                    ConfigV,
                    Seq<char>,
                >(default_config())
            },
        },
        default_config().mqtt.broker.len() == 0,
        default_config().auth_token.len() == 0,
        default_config().mqtt.prefix == "capi"@,
{
}

/// A value of the command line counts where one was given, and that of the file where none was,
/// each for itself.
pub proof fn law_given_values_count(c: ConfigV, o: CliOverrides)
    ensures
        overridden(c, o).mqtt.broker == (match o.mqtt_broker {
            Some(b) => b@,
            None => c.mqtt.broker,
        }),
        o.token matches Some(t) ==> overridden(c, o).auth_token == t@,
        o.token is None ==> overridden(c, o).auth_token == c.auth_token,
        o.mqtt_user matches Some(u) ==> overridden(c, o).mqtt.user == u@,
        o.mqtt_user is None ==> overridden(c, o).mqtt.user == c.mqtt.user,
        o.mqtt_pass matches Some(p) ==> overridden(c, o).mqtt.pass == p@,
        o.mqtt_pass is None ==> overridden(c, o).mqtt.pass == c.mqtt.pass,
        o.mqtt_prefix_explicit ==> overridden(c, o).mqtt.prefix == o.mqtt_prefix@,
        !o.mqtt_prefix_explicit ==> overridden(c, o).mqtt.prefix == c.mqtt.prefix,
{
}

/// An update that could not be written leaves the configuration as it was; one that was is in force.
pub proof fn law_unsaved_updates_do_not_count(
    before: Settings,
    next: Config,
    persisted: Result<(), String>,
    after: Settings,
)
    requires
        Settings::updated(before, next, persisted, after),
    ensures
        persisted is Ok ==> after@ == next@,
        persisted is Err ==> after@ == before@,
        after.location() == before.location(),
{
}

/// Each flag that takes a value sets the value of its name and no other.
pub proof fn law_flags_set_their_value(f: FlagsV, v: Seq<char>)
    ensures
        with_value(f, "-bind"@, v) == (FlagsV { bind: v, ..f }),
        with_value(f, "-name"@, v) == (FlagsV { name: v, ..f }),
        with_value(f, "-adapter"@, v) == (FlagsV { adapter: v, ..f }),
        with_value(f, "-mqtt-broker"@, v) == (FlagsV { mqtt_broker: v, ..f }),
        with_value(f, "-mqtt-user"@, v) == (FlagsV { mqtt_user: v, ..f }),
        with_value(f, "-mqtt-pass"@, v) == (FlagsV { mqtt_pass: v, ..f }),
        with_value(f, "-mqtt-prefix"@, v) == (FlagsV { mqtt_prefix: v, ..f }),
        with_value(f, "-token"@, v) == (FlagsV { token: v, ..f }),
{
    lemma_flag_names();
}

proof fn lemma_flag_names()
    ensures
        "-bind"@.len() == 5 && "-bind"@[1] == 'b',
        "-name"@.len() == 5 && "-name"@[1] == 'n',
        "-adapter"@.len() == 8,
        "-mqtt-broker"@.len() == 12 && "-mqtt-broker"@[6] == 'b',
        "-mqtt-user"@.len() == 10 && "-mqtt-user"@[6] == 'u',
        "-mqtt-pass"@.len() == 10 && "-mqtt-pass"@[6] == 'p',
        "-mqtt-prefix"@.len() == 12 && "-mqtt-prefix"@[6] == 'p',
        "-token"@.len() == 6,
        "-cec-monitor"@.len() == 12 && "-cec-monitor"@[6] == 'o',
        "-version"@.len() == 8 && "-version"@[1] == 'v',
        "-update"@.len() == 7,
        "-adapter"@[1] == 'a',
        !"-bind"@.contains('='),
        !"-name"@.contains('='),
        !"-adapter"@.contains('='),
        !"-mqtt-broker"@.contains('='),
        !"-mqtt-user"@.contains('='),
        !"-mqtt-pass"@.contains('='),
        !"-mqtt-prefix"@.contains('='),
        !"-token"@.contains('='),
        !"-cec-monitor"@.contains('='),
        !"-version"@.contains('='),
        !"-update"@.contains('='),
{
    reveal_strlit("-bind");
    reveal_strlit("-name");
    reveal_strlit("-adapter");
    reveal_strlit("-mqtt-broker");
    reveal_strlit("-mqtt-user");
    reveal_strlit("-mqtt-pass");
    reveal_strlit("-mqtt-prefix");
    reveal_strlit("-token");
    reveal_strlit("-cec-monitor");
    reveal_strlit("-version");
    reveal_strlit("-update");
}

/// A flag with its value behind an equals sign says the same as a flag with its value behind it,
/// wherever it stands and whatever follows.
pub proof fn law_both_forms_of_a_flag_say_the_same(
    args: Seq<Seq<char>>,
    i: int,
    name: Seq<char>,
    v: Seq<char>,
    f: FlagsV,
)
    requires
        takes_value(name),
        0 <= i < args.len(),
    ensures
        args[i] == name.push('=') + v ==> flags_from(args, i, f) == flags_from(
            args,
            i + 1,
            with_value(f, name, v),
        ),
        i + 1 < args.len() && args[i] == name && args[i + 1] == v ==> flags_from(args, i, f)
            == flags_from(args, i + 2, with_value(f, name, v)),
        i + 1 == args.len() && args[i] == name ==> flags_from(args, i, f) is Err,
{
    lemma_flag_names();
    assert(!name.contains('='));
    let whole = name.push('=') + v;
    text::law_cut_at_the_first(whole, '=');
    text::law_cut_at_the_first(name, '=');
    assert(whole[name.len() as int] == '=');
    match text::cut_first(whole, '=') {
        Some((a, b)) => {
            assert((a.push('=') + b)[a.len() as int] == '=');
            if a.len() < name.len() {
                assert(name[a.len() as int] == whole[a.len() as int]);
                assert(name.contains('='));
            } else if a.len() > name.len() {
                assert(a[name.len() as int] == whole[name.len() as int]);
                assert(a.contains('='));
            }
            assert(a =~= name) by {
                assert(whole.take(name.len() as int) =~= name);
                assert((a.push('=') + b).take(a.len() as int) =~= a);
            }
            assert(b =~= v) by {
                assert(whole.skip(name.len() as int + 1) =~= v);
                assert((a.push('=') + b).skip(a.len() as int + 1) =~= b);
            }
        },
        None => {
            assert(whole.contains('='));
        },
    }
    if let Some((a, b)) = text::cut_first(name, '=') {
        assert(name[a.len() as int] == '=');
    }
}

/// The flags without value turn on what they are for and nothing else, and no arguments leave all
/// values as they are; a flag that is not known is an error.
pub proof fn law_switches_turn_on(args: Seq<Seq<char>>, i: int, f: FlagsV)
    requires
        0 <= i < args.len(),
    ensures
        args[i] == "-cec-monitor"@ ==> flags_from(args, i, f) == flags_from(
            args,
            i + 1,
            FlagsV { cec_monitor: true, ..f },
        ),
        args[i] == "-version"@ ==> flags_from(args, i, f) == flags_from(
            args,
            i + 1,
            FlagsV { show_version: true, ..f },
        ),
        args[i] == "-update"@ ==> flags_from(args, i, f) == flags_from(
            args,
            i + 1,
            FlagsV { do_update: true, ..f },
        ),
        flags_from(args, args.len() as int, f) == Ok::<FlagsV, Seq<char>>(f),
        !takes_value(flag_parts(args[i]).0) && flag_parts(args[i]).0 != "-cec-monitor"@
            && flag_parts(args[i]).0 != "-version"@ && flag_parts(args[i]).0 != "-update"@
            ==> flags_from(args, i, f) is Err,
{
    lemma_flag_names();
    text::law_cut_at_the_first(args[i], '=');
    if let Some((a, b)) = text::cut_first(args[i], '=') {
        assert((a.push('=') + b)[a.len() as int] == '=');
        assert(args[i].contains('='));
    }
}

/// Where nothing is given, the server listens on port 8080 and MQTT, the token and all switches are
/// off.
pub proof fn law_flags_default_to_off()
    ensures
        default_flags().bind == ":8080"@,
        default_flags().mqtt_broker.len() == 0,
        default_flags().token.len() == 0,
        default_flags().adapter.len() == 0,
        default_flags().mqtt_prefix == "capi"@,
        !default_flags().cec_monitor && !default_flags().show_version && !default_flags().do_update,
{
}

} // verus!
