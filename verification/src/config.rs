//! Runtime configuration: the work modes and the settings of the prober and
//! of each result consumer, with their defaults.

use crate::text::same_text;
use vstd::prelude::*;
use vstd::string::StringExecFns;

verus! {

/// The command-line mode.
pub const CLI_BIT: u8 = 1;

/// The dashboard mode.
pub const WEB_BIT: u8 = 2;

/// The metrics store mode.
pub const INFLUXDB_BIT: u8 = 4;

/// The chat notifier mode.
pub const TELOXIDE_BIT: u8 = 8;

/// A set of work modes, one bit per mode.
#[derive(Debug, Clone, Copy, PartialEq, Eq, Structural)]
pub struct WorkMode {
    pub bits: u8,
}

/// Why a list of mode names was not accepted.
#[derive(Debug, Clone, Copy, PartialEq, Eq, Structural)]
pub enum ModeError {
    /// The name at this position is not a mode name.
    UnknownVariant(usize),
    /// The list names no mode.
    EmptyModes,
}

/// The bit of the mode that `name` denotes in a configuration file.
pub open spec fn mode_bit(name: Seq<char>) -> Option<u8> {
    if name == "Web"@ {
        Some(WEB_BIT)
    } else if name == "InfluxDB"@ {
        Some(INFLUXDB_BIT)
    } else if name == "Teloxide"@ {
        Some(TELOXIDE_BIT)
    } else {
        None
    }
}

/// Position of the first name that denotes no mode, if there is one.
pub open spec fn first_unknown(names: Seq<Seq<char>>) -> Option<int>
    decreases names.len(),
{
    if names.len() == 0 {
        None
    } else if mode_bit(names.last()) is None {
        match first_unknown(names.drop_last()) {
            Some(i) => Some(i),
            None => Some(names.len() - 1),
        }
    } else {
        first_unknown(names.drop_last())
    }
}

/// The union of the bits that the names denote.
pub open spec fn mode_bits(names: Seq<Seq<char>>) -> u8
    decreases names.len(),
{
    if names.len() == 0 {
        0
    } else {
        match mode_bit(names.last()) {
            Some(b) => mode_bits(names.drop_last()) | b,
            None => mode_bits(names.drop_last()),
        }
    }
}

/// The names under which the modes in `bits` are written to a configuration
/// file. The command-line mode has no name there.
pub open spec fn names_of_bits(bits: u8) -> Seq<Seq<char>> {
    (if bits & WEB_BIT == WEB_BIT {
        seq!["Web"@]
    } else {
        Seq::empty()
    }) + (if bits & INFLUXDB_BIT == INFLUXDB_BIT {
        seq!["InfluxDB"@]
    } else {
        Seq::empty()
    }) + (if bits & TELOXIDE_BIT == TELOXIDE_BIT {
        seq!["Teloxide"@]
    } else {
        Seq::empty()
    })
}

/// The characters of each name.
pub open spec fn texts(names: Seq<String>) -> Seq<Seq<char>> {
    Seq::new(names.len(), |i: int| names[i]@)
}

impl WorkMode {
    /// No mode.
    pub fn empty() -> (r: WorkMode)
        ensures
            r.bits == 0,
    {
        WorkMode { bits: 0 }
    }

    /// The command-line mode alone.
    pub fn cli() -> (r: WorkMode)
        ensures
            r.bits == CLI_BIT,
    {
        WorkMode { bits: CLI_BIT }
    }

    /// The dashboard mode alone.
    pub fn web() -> (r: WorkMode)
        ensures
            r.bits == WEB_BIT,
    {
        WorkMode { bits: WEB_BIT }
    }

    /// The metrics store mode alone.
    pub fn influxdb() -> (r: WorkMode)
        ensures
            r.bits == INFLUXDB_BIT,
    {
        WorkMode { bits: INFLUXDB_BIT }
    }

    /// The chat notifier mode alone.
    pub fn teloxide() -> (r: WorkMode)
        ensures
            r.bits == TELOXIDE_BIT,
    {
        WorkMode { bits: TELOXIDE_BIT }
    }

    /// Whether no mode is set.
    pub fn is_empty(&self) -> (r: bool)
        ensures
            r == (self.bits == 0),
    {
        self.bits == 0
    }

    /// Whether every mode of `other` is in `self`.
    pub fn contains(&self, other: WorkMode) -> (r: bool)
        ensures
            r == (self.bits & other.bits == other.bits),
    {
        self.bits & other.bits == other.bits
    }

    /// The modes of `self` and of `other`.
    pub fn union(&self, other: WorkMode) -> (r: WorkMode)
        ensures
            r.bits == self.bits | other.bits,
    {
        WorkMode { bits: self.bits | other.bits }
    }

    /// Accepts every set of modes but the empty one.
    pub fn validate(&self) -> (r: Result<(), String>)
        ensures
            r is Err <==> self.bits == 0,
            r matches Err(message) ==> message@ == "At least one work mode must be specified"@,
    {
        if self.is_empty() {
            return Err(String::from_str("At least one work mode must be specified"));
        }
        Ok(())
    }

    /// The names under which the modes of `self` are written to a
    /// configuration file.
    pub fn mode_names(&self) -> (r: Vec<String>)
        ensures
            texts(r@) == names_of_bits(self.bits),
    {
        let mut modes: Vec<String> = Vec::new();
        if self.contains(WorkMode::web()) {
            modes.push(String::from_str("Web"));
        }
        if self.contains(WorkMode::influxdb()) {
            modes.push(String::from_str("InfluxDB"));
        }
        if self.contains(WorkMode::teloxide()) {
            modes.push(String::from_str("Teloxide"));
        }
        assert(texts(modes@) =~= names_of_bits(self.bits));
        modes
    }

    /// The mode that one name denotes.
    pub fn from_mode_name(name: &str) -> (r: Option<WorkMode>)
        ensures
            match r {
                Some(m) => mode_bit(name@) == Some(m.bits),
                None => mode_bit(name@) is None,
            },
    {
        if same_text(name, "Web") {
            Some(WorkMode::web())
        } else if same_text(name, "InfluxDB") {
            Some(WorkMode::influxdb())
        } else if same_text(name, "Teloxide") {
            Some(WorkMode::teloxide())
        } else {
            None
        }
    }

    /// The set of modes that a list of names denotes. The first unknown name
    /// is an error; so is a list that names no mode.
    pub fn from_mode_names(names: &Vec<String>) -> (r: Result<WorkMode, ModeError>)
        ensures
            match r {
                Ok(m) => first_unknown(texts(names@)) is None && names@.len() > 0 && m.bits
                    == mode_bits(texts(names@)),
                Err(ModeError::UnknownVariant(i)) => first_unknown(texts(names@)) == Some(
                    i as int,
                ),
                Err(ModeError::EmptyModes) => names@.len() == 0,
            },
    {
        let mut mode = WorkMode::empty();
        let mut i: usize = 0;
        while i < names.len()
            invariant
                i <= names@.len(),
                first_unknown(texts(names@).take(i as int)) is None,
                mode.bits == mode_bits(texts(names@).take(i as int)),
                i > 0 ==> mode.bits != 0,
            decreases names@.len() - i,
        {
            let ghost all = texts(names@);
            assert(all.take(i + 1).drop_last() =~= all.take(i as int));
            assert(all.take(i + 1).last() == names@[i as int]@);
            match WorkMode::from_mode_name(names[i].as_str()) {
                Some(m) => {
                    let before: u8 = mode.bits;
                    let added: u8 = m.bits;
                    mode = mode.union(m);
                    assert(before | added != 0) by (bit_vector)
                        requires
                            added == 2 || added == 4 || added == 8,
                    ;
                },
                None => {
                    proof {
                        lemma_first_unknown_prefix(all, i as int);
                    }
                    return Err(ModeError::UnknownVariant(i));
                },
            }
            i = i + 1;
        }
        assert(texts(names@).take(i as int) =~= texts(names@));
        if mode.is_empty() {
            return Err(ModeError::EmptyModes);
        }
        Ok(mode)
    }
}

/// Where the names before `i` are all known and the one at `i` is not, `i` is
/// the first unknown position of the whole list.
pub proof fn lemma_first_unknown_prefix(names: Seq<Seq<char>>, i: int)
    requires
        0 <= i < names.len(),
        first_unknown(names.take(i)) is None,
        mode_bit(names[i]) is None,
    ensures
        first_unknown(names) == Some(i),
    decreases names.len(),
{
    if names.len() == i + 1 {
        assert(names.drop_last() =~= names.take(i));
    } else {
        let shorter = names.drop_last();
        assert(shorter.take(i) =~= names.take(i));
        lemma_first_unknown_prefix(shorter, i);
    }
}

proof fn lemma_names_pushed(names: Seq<Seq<char>>, name: Seq<char>, bit: u8)
    requires
        mode_bit(name) == Some(bit),
    ensures
        mode_bits(names.push(name)) == mode_bits(names) | bit,
        first_unknown(names.push(name)) == first_unknown(names),
{
    assert(names.push(name).drop_last() =~= names);
}

/// What is written to a configuration file is read back: the names of a set
/// of modes are all known, and they denote that set without the command-line
/// mode, which has no name.
pub proof fn lemma_mode_names_are_read_back(bits: u8)
    ensures
        first_unknown(names_of_bits(bits)) is None,
        mode_bits(names_of_bits(bits)) == bits & (WEB_BIT | INFLUXDB_BIT | TELOXIDE_BIT),
{
    reveal_strlit("Web");
    reveal_strlit("InfluxDB");
    reveal_strlit("Teloxide");
    assert(mode_bit("Web"@) == Some(WEB_BIT));
    assert(mode_bit("InfluxDB"@) == Some(INFLUXDB_BIT)) by {
        assert("InfluxDB"@.len() != "Web"@.len());
    }
    assert(mode_bit("Teloxide"@) == Some(TELOXIDE_BIT)) by {
        assert("Teloxide"@.len() != "Web"@.len());
        assert("Teloxide"@[0] != "InfluxDB"@[0]);
    }
    let s0 = Seq::<Seq<char>>::empty();
    let s1 = if bits & WEB_BIT == WEB_BIT {
        s0.push("Web"@)
    } else {
        s0
    };
    let s2 = if bits & INFLUXDB_BIT == INFLUXDB_BIT {
        s1.push("InfluxDB"@)
    } else {
        s1
    };
    let s3 = if bits & TELOXIDE_BIT == TELOXIDE_BIT {
        s2.push("Teloxide"@)
    } else {
        s2
    };
    assert(names_of_bits(bits) =~= s3);
    lemma_names_pushed(s0, "Web"@, WEB_BIT);
    lemma_names_pushed(s1, "InfluxDB"@, INFLUXDB_BIT);
    lemma_names_pushed(s2, "Teloxide"@, TELOXIDE_BIT);
    let b1: u8 = if bits & 2 == 2 {
        2
    } else {
        0
    };
    let b2: u8 = if bits & 4 == 4 {
        b1 | 4
    } else {
        b1
    };
    let b3: u8 = if bits & 8 == 8 {
        b2 | 8
    } else {
        b2
    };
    assert(mode_bits(s1) == b1) by {
        assert(0u8 | 2u8 == 2u8) by (bit_vector);
    }
    assert(mode_bits(s2) == b2);
    assert(mode_bits(s3) == b3);
    assert(b3 == bits & (2u8 | 4u8 | 8u8)) by (bit_vector)
        requires
            b1 == (if bits & 2 == 2 {
                2u8
            } else {
                0u8
            }),
            b2 == (if bits & 4 == 4 {
                b1 | 4
            } else {
                b1
            }),
            b3 == (if bits & 8 == 8 {
                b2 | 8
            } else {
                b2
            }),
    ;
}

impl Default for WorkMode {
    fn default() -> (r: WorkMode)
        ensures
            r.bits == CLI_BIT,
    {
        WorkMode::cli()
    }
}

/// What to probe and how.
#[derive(Debug, Clone)]
pub struct MainConfig {
    pub work_mode: WorkMode,
    pub subscription_url: String,
    pub test_url: String,
    pub timeout: u64,
    pub concurrent: usize,
    pub verbose: bool,
    pub probe_interval: u64,
}

/// The connection to the metrics store.
#[derive(Debug, Clone)]
pub struct InfluxDbConfig {
    pub host: String,
    pub org: String,
    pub token: String,
    pub bucket: String,
    pub node_name: String,
}

/// Where the dashboard listens.
#[derive(Debug, Clone)]
pub struct WebConfig {
    pub host: String,
    pub port: u16,
}

/// The credentials of the chat notifier.
#[derive(Debug, Clone)]
pub struct TeloxideConfig {
    pub token: String,
}

/// The whole configuration.
#[derive(Debug, Clone)]
pub struct Config {
    pub main: MainConfig,
    pub influxdb: InfluxDbConfig,
    pub web: WebConfig,
    pub teloxide: TeloxideConfig,
}

impl MainConfig {
    /// Whether every setting has its default value.
    pub open spec fn is_default(&self) -> bool {
        &&& self.work_mode.bits == WEB_BIT
        &&& self.subscription_url@ == "http://your_clash_sub"@
        &&& self.test_url@ == "http://www.gstatic.com/generate_204"@
        &&& self.timeout == 5
        &&& self.concurrent == 10
        &&& !self.verbose
        &&& self.probe_interval == 30
    }
}

impl Default for MainConfig {
    fn default() -> (r: MainConfig)
        ensures
            r.is_default(),
    {
        MainConfig {
            work_mode: WorkMode::web(),
            subscription_url: String::from_str("http://your_clash_sub"),
            test_url: String::from_str("http://www.gstatic.com/generate_204"),
            timeout: 5,
            concurrent: 10,
            verbose: false,
            probe_interval: 30,
        }
    }
}

impl InfluxDbConfig {
    /// Whether every setting has its default value.
    pub open spec fn is_default(&self) -> bool {
        &&& self.host@ == "http://localhost:8086"@
        &&& self.org@ == "example-org"@
        &&& self.token@ == "REPLACE_WITH_TOKEN"@
        &&& self.bucket@ == "example-bucket"@
        &&& self.node_name@ == "default"@
    }
}

impl Default for InfluxDbConfig {
    fn default() -> (r: InfluxDbConfig)
        ensures
            r.is_default(),
    {
        InfluxDbConfig {
            host: String::from_str("http://localhost:8086"),
            org: String::from_str("example-org"),
            token: String::from_str("REPLACE_WITH_TOKEN"),
            bucket: String::from_str("example-bucket"),
            node_name: default_node_name(),
        }
    }
}

impl WebConfig {
    /// Whether every setting has its default value.
    pub open spec fn is_default(&self) -> bool {
        &&& self.host@ == "127.0.0.1"@
        &&& self.port == 8080
    }
}

impl Default for WebConfig {
    fn default() -> (r: WebConfig)
        ensures
            r.is_default(),
    {
        WebConfig { host: String::from_str("127.0.0.1"), port: 8080 }
    }
}

impl TeloxideConfig {
    /// Whether every setting has its default value.
    pub open spec fn is_default(&self) -> bool {
        self.token@ == "REPLACE_WITH_TOKEN"@
    }
}

impl Default for TeloxideConfig {
    fn default() -> (r: TeloxideConfig)
        ensures
            r.is_default(),
    {
        TeloxideConfig { token: String::from_str("REPLACE_WITH_TOKEN") }
    }
}

impl Config {
    /// Whether every setting has its default value.
    pub open spec fn is_default(&self) -> bool {
        &&& self.main.is_default()
        &&& self.influxdb.is_default()
        &&& self.web.is_default()
        &&& self.teloxide.is_default()
    }

    /// The configuration that a fresh installation starts from.
    pub fn generate_default() -> (r: Config)
        ensures
            r.is_default(),
    {
        Config::default()
    }
}

impl Default for Config {
    fn default() -> (r: Config)
        ensures
            r.is_default(),
    {
        Config {
            main: MainConfig::default(),
            influxdb: InfluxDbConfig::default(),
            web: WebConfig::default(),
            teloxide: TeloxideConfig::default(),
        }
    }
}

/// The node name of a store configuration that gives none.
pub fn default_node_name() -> (r: String)
    ensures
        r@ == "default"@,
{
    String::from_str("default")
}

} // verus!
