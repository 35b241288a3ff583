use vstd::prelude::*;
use vstd::string::*;

verus! {

/// Why a plugin configuration could not be built.
#[derive(Debug, Clone, Copy, PartialEq, Eq, Structural)]
pub enum ConfigError {
    /// A port variable does not hold a decimal number in 0..=65535.
    InvalidPort,
}

/// The value of an ASCII decimal digit.
pub open spec fn digit_value(c: char) -> nat {
    (c as nat - '0' as nat) as nat
}

pub open spec fn is_digit(c: char) -> bool {
    '0' <= c && c <= '9'
}

/// The number that a string of decimal digits writes.
pub open spec fn decimal_value(d: Seq<char>) -> nat
    decreases d.len(),
{
    if d.len() == 0 {
        0
    } else {
        decimal_value(d.drop_last()) * 10 + digit_value(d.last())
    }
}

/// The digits of a port number, after an optional leading `+`.
pub open spec fn port_digits(s: Seq<char>) -> Seq<char> {
    if s.len() > 0 && s[0] == '+' {
        s.skip(1)
    } else {
        s
    }
}

/// The port that `s` writes: one or more decimal digits, optionally after a
/// `+`, whose value fits in 16 bits.
pub open spec fn port_of(s: Seq<char>) -> Option<u16> {
    let d = port_digits(s);
    if d.len() > 0 && (forall|i: int| 0 <= i < d.len() ==> is_digit(#[trigger] d[i]))
        && decimal_value(d) <= 65535 {
        Some(decimal_value(d) as u16)
    } else {
        None
    }
}

proof fn lemma_decimal_prefix_le(d: Seq<char>, i: int)
    requires
        0 <= i <= d.len(),
    ensures
        decimal_value(d.take(i)) <= decimal_value(d),
    decreases d.len() - i,
{
    if i < d.len() {
        lemma_decimal_prefix_le(d, i + 1);
        assert(d.take(i + 1).drop_last() =~= d.take(i));
    } else {
        assert(d.take(i) =~= d);
    }
}

/// Reads a port number written in decimal.
pub fn parse_port(val: &str) -> (r: Result<u16, ConfigError>)
    ensures
        r == (match port_of(val@) {
            Some(p) => Ok::<u16, ConfigError>(p),
            None => Err(ConfigError::InvalidPort),
        }),
{
    let n = val.unicode_len();
    let mut i: usize = 0;
    if n > 0 && val.get_char(0) == '+' {
        i = 1;
    }
    let start = i;
    let ghost d = port_digits(val@);
    assert(d =~= val@.skip(start as int));
    if i >= n {
        return Err(ConfigError::InvalidPort);
    }
    let mut acc: u32 = 0;
    while i < n
        invariant
            start <= i <= n,
            n == val@.len(),
            start < n,
            d == val@.skip(start as int),
            d == port_digits(val@),
            d.len() == n - start,
            acc as nat == decimal_value(d.take(i - start)),
            acc <= 65535,
            forall|k: int| 0 <= k < i - start ==> is_digit(#[trigger] d[k]),
        decreases n - i,
    {
        let c = val.get_char(i);
        if !('0' <= c && c <= '9') {
            assert(!is_digit(d[i - start]));
            return Err(ConfigError::InvalidPort);
        }
        let dv: u32 = (c as u32) - ('0' as u32);
        assert(d.take(i + 1 - start).drop_last() =~= d.take(i - start));
        assert(d.take(i + 1 - start).last() == c);
        assert(digit_value(c) == dv as nat);
        assert(decimal_value(d.take(i + 1 - start)) == acc as nat * 10 + dv as nat);
        let next: u32 = acc * 10 + dv;
        i = i + 1;
        if next > 65535 {
            proof {
                lemma_decimal_prefix_le(d, i - start);
            }
            return Err(ConfigError::InvalidPort);
        }
        acc = next;
    }
    assert(d.take(i - start) =~= d);
    Ok(acc as u16)
}

/// The pieces of `s` between occurrences of `sep`: one more than there are
/// separators, empty pieces included.
pub open spec fn split_on(s: Seq<char>, sep: char) -> Seq<Seq<char>>
    decreases s.len(),
{
    if s.len() == 0 {
        seq![Seq::empty()]
    } else {
        let r = split_on(s.drop_last(), sep);
        if s.last() == sep {
            r.push(Seq::empty())
        } else {
            r.update(r.len() - 1, r.last().push(s.last()))
        }
    }
}

/// The character contents of a list of buffers.
pub open spec fn char_views(parts: Seq<Vec<char>>) -> Seq<Seq<char>> {
    parts.map_values(|p: Vec<char>| p@)
}

/// The characters of `s`, in order.
fn chars_of(s: &str) -> (r: Vec<char>)
    ensures
        r@ == s@,
{
    let n = s.unicode_len();
    let mut r: Vec<char> = Vec::new();
    let mut i: usize = 0;
    while i < n
        invariant
            i <= n,
            n == s@.len(),
            r@ == s@.take(i as int),
        decreases n - i,
    {
        r.push(s.get_char(i));
        i = i + 1;
        assert(r@ =~= s@.take(i as int));
    }
    assert(s@.take(i as int) =~= s@);
    r
}

/// Splits `s` at each `sep`.
fn split_chars(s: &Vec<char>, sep: char) -> (r: Vec<Vec<char>>)
    ensures
        char_views(r@) == split_on(s@, sep),
{
    let mut parts: Vec<Vec<char>> = Vec::new();
    let mut cur: Vec<char> = Vec::new();
    let mut i: usize = 0;
    assert(s@.take(0) =~= Seq::<char>::empty());
    assert(char_views(parts@).push(cur@) =~= split_on(s@.take(0), sep));
    while i < s.len()
        invariant
            i <= s.len(),
            char_views(parts@).push(cur@) == split_on(s@.take(i as int), sep),
        decreases s.len() - i,
    {
        let c = s[i];
        let ghost prev = split_on(s@.take(i as int), sep);
        assert(s@.take(i + 1).drop_last() =~= s@.take(i as int));
        assert(s@.take(i + 1).last() == c);
        if c == sep {
            let ghost old_parts = parts@;
            let done = cur;
            parts.push(done);
            cur = Vec::new();
            assert(char_views(parts@) =~= char_views(old_parts).push(done@));
            assert(char_views(parts@).push(cur@) =~= prev.push(Seq::empty()));
        } else {
            cur.push(c);
            assert(char_views(parts@).push(cur@) =~= prev.update(prev.len() - 1, prev.last().push(c)));
        }
        i = i + 1;
    }
    assert(s@.take(i as int) =~= s@);
    let ghost old_parts = parts@;
    parts.push(cur);
    assert(char_views(parts@) =~= char_views(old_parts).push(cur@));
    parts
}

/// Whether `a` holds exactly the characters of `b`.
fn chars_eq(a: &Vec<char>, b: &str) -> (r: bool)
    ensures
        r == (a@ == b@),
{
    let n = b.unicode_len();
    if a.len() != n {
        return false;
    }
    let mut i: usize = 0;
    while i < n
        invariant
            i <= n,
            n == b@.len(),
            a@.len() == n,
            forall|k: int| 0 <= k < i ==> a@[k] == b@[k],
        decreases n - i,
    {
        if a[i] != b.get_char(i) {
            return false;
        }
        i = i + 1;
    }
    assert(a@ =~= b@);
    true
}

/// Whether `a` and `b` hold the same characters.
fn str_eq(a: &str, b: &str) -> (r: bool)
    ensures
        r == (a@ == b@),
{
    let ca = chars_of(a);
    chars_eq(&ca, b)
}

/// What one `key=value` item of the option string says of the client flag:
/// `Some(value == "true")` for the key `client`, nothing for anything else.
pub open spec fn client_setting(item: Seq<char>) -> Option<bool> {
    let kv = split_on(item, '=');
    if kv.len() == 2 && kv[0] == "client"@ {
        Some(kv[1] == "true"@)
    } else {
        None
    }
}

/// The client flag that a list of option items sets: the last item that
/// speaks of it wins, and it is off when none does.
pub open spec fn client_flag(items: Seq<Seq<char>>) -> bool
    decreases items.len(),
{
    if items.len() == 0 {
        false
    } else {
        match client_setting(items.last()) {
            Some(b) => b,
            None => client_flag(items.drop_last()),
        }
    }
}

/// Whether a plugin option string (`key=value` items separated by `;`)
/// selects client mode.
pub open spec fn options_select_client(opts: Option<Seq<char>>) -> bool {
    match opts {
        None => false,
        Some(s) => client_flag(split_on(s, ';')),
    }
}

/// The plugin options: which of the two roles this process plays.
pub struct PluginOptions {
    pub is_client: bool,
}

impl PluginOptions {
    /// Reads the plugin option string, when there is one.
    pub fn new(opts: Option<&str>) -> (r: Self)
        ensures
            r.is_client == options_select_client(
                match opts {
                    Some(s) => Some(s@),
                    None => None,
                },
            ),
    {
        let mut opts_out = PluginOptions { is_client: false };
        let s = match opts {
            None => {
                return opts_out;
            },
            Some(s) => s,
        };
        let chars = chars_of(s);
        let items = split_chars(&chars, ';');
        let ghost all = char_views(items@);
        let mut i: usize = 0;
        assert(all.take(0) =~= Seq::<Seq<char>>::empty());
        while i < items.len()
            invariant
                i <= items.len(),
                all == char_views(items@),
                all == split_on(s@, ';'),
                opts_out.is_client == client_flag(all.take(i as int)),
            decreases items.len() - i,
        {
            assert(all.take(i + 1).drop_last() =~= all.take(i as int));
            assert(all.take(i + 1).last() == items[i as int]@);
            let kv = split_chars(&items[i], '=');
            if kv.len() == 2 && chars_eq(&kv[0], "client") {
                opts_out.is_client = chars_eq(&kv[1], "true");
            }
            i = i + 1;
        }
        assert(all.take(i as int) =~= all);
        opts_out
    }
}

pub const LOCAL_HOST: &'static str = "SS_LOCAL_HOST";
pub const LOCAL_PORT: &'static str = "SS_LOCAL_PORT";
pub const REMOTE_HOST: &'static str = "SS_REMOTE_HOST";
pub const REMOTE_PORT: &'static str = "SS_REMOTE_PORT";
pub const PLUGIN_OPTIONS: &'static str = "SS_PLUGIN_OPTIONS";

pub const DEFAULT_HOST: &'static str = "127.0.0.1";
pub const DEFAULT_LOCAL_PORT: u16 = 12948;
pub const DEFAULT_REMOTE_PORT: u16 = 29900;

/// A host and a port.
pub struct Endpoint {
    pub host: String,
    pub port: u16,
}

/// What a plugin configuration holds, as plain values.
pub struct PluginSettings {
    pub is_client: bool,
    pub local_host: Seq<char>,
    pub local_port: u16,
    pub remote_host: Seq<char>,
    pub remote_port: u16,
}

/// The addresses of the two ends of the tunnel and the role of this process.
#[derive(Clone)]
pub struct PluginConfig {
    is_client: bool,
    local_host: String,
    local_port: u16,
    remote_host: String,
    remote_port: u16,
}

impl View for PluginConfig {
    type V = PluginSettings;

    closed spec fn view(&self) -> PluginSettings {
        PluginSettings {
            is_client: self.is_client,
            local_host: self.local_host@,
            local_port: self.local_port,
            remote_host: self.remote_host@,
            remote_port: self.remote_port,
        }
    }
}

/// The configuration when no variable is set: both ends on the loopback
/// address, locally on port 12948 and remotely on port 29900.
pub open spec fn default_settings() -> PluginSettings {
    PluginSettings {
        is_client: false,
        local_host: DEFAULT_HOST@,
        local_port: DEFAULT_LOCAL_PORT,
        remote_host: DEFAULT_HOST@,
        remote_port: DEFAULT_REMOTE_PORT,
    }
}

/// The effect of one environment variable on a configuration; `None` where
/// a port variable does not hold a port.
pub open spec fn apply_var(c: PluginSettings, key: Seq<char>, value: Seq<char>) -> Option<
    PluginSettings,
> {
    if key == LOCAL_HOST@ {
        Some(PluginSettings { local_host: value, ..c })
    } else if key == LOCAL_PORT@ {
        match port_of(value) {
            Some(p) => Some(PluginSettings { local_port: p, ..c }),
            None => None,
        }
    } else if key == REMOTE_HOST@ {
        Some(PluginSettings { remote_host: value, ..c })
    } else if key == REMOTE_PORT@ {
        match port_of(value) {
            Some(p) => Some(PluginSettings { remote_port: p, ..c }),
            None => None,
        }
    } else {
        Some(c)
    }
}

/// The configuration that a list of environment variables gives, applied in
/// order over the defaults; `None` if one of them holds a bad port.
pub open spec fn settings_from(vars: Seq<(Seq<char>, Seq<char>)>) -> Option<PluginSettings>
    decreases vars.len(),
{
    if vars.len() == 0 {
        Some(default_settings())
    } else {
        match settings_from(vars.drop_last()) {
            Some(c) => apply_var(c, vars.last().0, vars.last().1),
            None => None,
        }
    }
}

/// The name and value of each environment variable.
pub open spec fn var_views(vars: Seq<(String, String)>) -> Seq<(Seq<char>, Seq<char>)> {
    vars.map_values(|p: (String, String)| (p.0@, p.1@))
}

/// The configuration that `vars` gives, in the role `is_client`.
pub open spec fn settings_for(vars: Seq<(String, String)>, is_client: bool) -> Option<
    PluginSettings,
> {
    match settings_from(var_views(vars)) {
        Some(c) => Some(PluginSettings { is_client, ..c }),
        None => None,
    }
}

/// Where the server listens: the remote end.
pub open spec fn server_listen_endpoint(c: PluginSettings) -> (Seq<char>, u16) {
    (c.remote_host, c.remote_port)
}

/// Where the server forwards: the local end.
pub open spec fn server_target_endpoint(c: PluginSettings) -> (Seq<char>, u16) {
    (c.local_host, c.local_port)
}

/// Where the client binds: the local end.
pub open spec fn client_local_endpoint(c: PluginSettings) -> (Seq<char>, u16) {
    (c.local_host, c.local_port)
}

/// Where the client dials: the remote end.
pub open spec fn client_remote_endpoint(c: PluginSettings) -> (Seq<char>, u16) {
    (c.remote_host, c.remote_port)
}

/// With no environment variable set, the client binds to 127.0.0.1:12948
/// and dials 127.0.0.1:29900, and the server listens on 127.0.0.1:29900 and
/// forwards to 127.0.0.1:12948.
pub proof fn lemma_address_defaults()
    ensures
        settings_for(Seq::empty(), true) is Some,
        settings_for(Seq::empty(), false) is Some,
        client_local_endpoint(settings_for(Seq::empty(), true)->0) == (
            DEFAULT_HOST@,
            12948u16,
        ),
        client_remote_endpoint(settings_for(Seq::empty(), true)->0) == (
            DEFAULT_HOST@,
            29900u16,
        ),
        server_listen_endpoint(settings_for(Seq::empty(), false)->0) == (
            DEFAULT_HOST@,
            29900u16,
        ),
        server_target_endpoint(settings_for(Seq::empty(), false)->0) == (
            DEFAULT_HOST@,
            12948u16,
        ),
{
    assert(var_views(Seq::<(String, String)>::empty()) =~= Seq::empty());
}

impl PluginConfig {
    /// The configuration with no variable set.
    pub fn default() -> (r: Self)
        ensures
            r@ == default_settings(),
    {
        PluginConfig {
            is_client: false,
            local_host: String::from_str(DEFAULT_HOST),
            local_port: DEFAULT_LOCAL_PORT,
            remote_host: String::from_str(DEFAULT_HOST),
            remote_port: DEFAULT_REMOTE_PORT,
        }
    }

    /// The configuration of the client role, from the process's environment
    /// variables.
    pub fn new_client(vars: &Vec<(String, String)>) -> (r: Result<Self, ConfigError>)
        ensures
            match r {
                Ok(c) => settings_for(vars@, true) == Some(c@),
                Err(e) => settings_for(vars@, true) is None && e == ConfigError::InvalidPort,
            },
    {
        let mut config = PluginConfig::new(vars)?;
        config.is_client = true;
        Ok(config)
    }

    /// The configuration of the server role, from the process's environment
    /// variables.
    pub fn new_server(vars: &Vec<(String, String)>) -> (r: Result<Self, ConfigError>)
        ensures
            match r {
                Ok(c) => settings_for(vars@, false) == Some(c@),
                Err(e) => settings_for(vars@, false) is None && e == ConfigError::InvalidPort,
            },
    {
        let mut config = PluginConfig::new(vars)?;
        config.is_client = false;
        Ok(config)
    }

    fn new(vars: &Vec<(String, String)>) -> (r: Result<Self, ConfigError>)
        ensures
            match r {
                Ok(c) => settings_from(var_views(vars@)) == Some(c@),
                Err(e) => settings_from(var_views(vars@)) is None && e == ConfigError::InvalidPort,
            },
    {
        let mut config = Self::default();
        let ghost vs = var_views(vars@);
        let mut i: usize = 0;
        assert(vs.take(0) =~= Seq::<(Seq<char>, Seq<char>)>::empty());
        while i < vars.len()
            invariant
                i <= vars.len(),
                vs == var_views(vars@),
                settings_from(vs.take(i as int)) == Some(config@),
            decreases vars.len() - i,
        {
            assert(vs.take(i + 1).drop_last() =~= vs.take(i as int));
            assert(vs.take(i + 1).last() == (vars[i as int].0@, vars[i as int].1@));
            let key = vars[i].0.as_str();
            let value = &vars[i].1;
            if str_eq(key, LOCAL_HOST) {
                config.local_host = value.clone();
            } else if str_eq(key, LOCAL_PORT) {
                match parse_port(value.as_str()) {
                    Ok(p) => {
                        config.local_port = p;
                    },
                    Err(e) => {
                        proof {
                            lemma_settings_stay_none(vs, i as int + 1);
                        }
                        return Err(e);
                    },
                }
            } else if str_eq(key, REMOTE_HOST) {
                config.remote_host = value.clone();
            } else if str_eq(key, REMOTE_PORT) {
                match parse_port(value.as_str()) {
                    Ok(p) => {
                        config.remote_port = p;
                    },
                    Err(e) => {
                        proof {
                            lemma_settings_stay_none(vs, i as int + 1);
                        }
                        return Err(e);
                    },
                }
            }
            i = i + 1;
        }
        assert(vs.take(i as int) =~= vs);
        Ok(config)
    }

    /// Where the server listens for tunnel connections.
    pub fn server_listen_addr(&self) -> (r: Endpoint)
        ensures
            (r.host@, r.port) == server_listen_endpoint(self@),
    {
        Endpoint { host: self.remote_host.clone(), port: self.remote_port }
    }

    /// Where the server forwards each stream.
    pub fn server_target_addr(&self) -> (r: Endpoint)
        ensures
            (r.host@, r.port) == server_target_endpoint(self@),
    {
        Endpoint { host: self.local_host.clone(), port: self.local_port }
    }

    /// Where the client accepts local connections.
    pub fn client_local_addr(&self) -> (r: Endpoint)
        ensures
            (r.host@, r.port) == client_local_endpoint(self@),
    {
        Endpoint { host: self.local_host.clone(), port: self.local_port }
    }

    /// Where the client dials the tunnel.
    pub fn client_remote_addr(&self) -> (r: Endpoint)
        ensures
            (r.host@, r.port) == client_remote_endpoint(self@),
    {
        Endpoint { host: self.remote_host.clone(), port: self.remote_port }
    }

    pub fn is_client(&self) -> (r: bool)
        ensures
            r == self@.is_client,
    {
        self.is_client
    }
}

proof fn lemma_settings_stay_none(vs: Seq<(Seq<char>, Seq<char>)>, i: int)
    requires
        0 <= i <= vs.len(),
        settings_from(vs.take(i)) is None,
    ensures
        settings_from(vs) is None,
    decreases vs.len() - i,
{
    if i < vs.len() {
        assert(vs.take(i + 1).drop_last() =~= vs.take(i));
        lemma_settings_stay_none(vs, i + 1);
    } else {
        assert(vs.take(i) =~= vs);
    }
}

} // verus!
