//! Service definitions with their free-form typed options, and the
//! process-wide settings: where records go and which peers are admitted.
use vstd::prelude::*;

use crate::net::IpAddress;
use crate::resolver::{all_wf, CommandHandler};
use crate::template::texts;
use crate::text::same_text;

verus! {

/// An option value of a service definition.
pub enum ConfigValue {
    Str(String),
    Bool(bool),
    Unsigned(u64),
    /// A list whose items are all strings.
    Strings(Vec<String>),
    /// Any other value: a negative or fractional number, a mapping, a list
    /// with an item that is not a string, or null.
    Other,
}

/// The first option named `name`, from position `i` on (`entries.len()` when none).
pub open spec fn find_option(entries: Seq<(String, ConfigValue)>, name: Seq<char>, i: int) -> int
    decreases entries.len() - i,
{
    if i >= entries.len() {
        entries.len() as int
    } else if entries[i].0@ == name {
        i
    } else {
        find_option(entries, name, i + 1)
    }
}

pub open spec fn option_of(entries: Seq<(String, ConfigValue)>, name: Seq<char>) -> Option<
    ConfigValue,
> {
    let i = find_option(entries, name, 0);
    if 0 <= i < entries.len() {
        Some(entries[i].1)
    } else {
        None
    }
}

proof fn lemma_find_option_range(entries: Seq<(String, ConfigValue)>, name: Seq<char>, i: int)
    requires
        0 <= i <= entries.len(),
    ensures
        i <= find_option(entries, name, i) <= entries.len(),
    decreases entries.len() - i,
{
    if i < entries.len() && entries[i].0@ != name {
        lemma_find_option_range(entries, name, i + 1);
    }
}

/// One configured emulated endpoint.
pub struct Service {
    pub proto: String,
    pub address: String,
    /// The rules, in the order they are tried.
    pub commands: Vec<CommandHandler>,
    pub config: Vec<(String, ConfigValue)>,
}

impl Service {
    pub open spec fn wf(&self) -> bool {
        all_wf(self.commands@)
    }

    pub open spec fn string_spec(&self, name: Seq<char>, default: Seq<char>) -> Seq<char> {
        match option_of(self.config@, name) {
            Some(ConfigValue::Str(s)) => s@,
            _ => default,
        }
    }

    pub open spec fn bool_spec(&self, name: Seq<char>, default: bool) -> bool {
        match option_of(self.config@, name) {
            Some(ConfigValue::Bool(b)) => b,
            _ => default,
        }
    }

    pub open spec fn unsigned_spec(&self, name: Seq<char>, default: u64) -> u64 {
        match option_of(self.config@, name) {
            Some(ConfigValue::Unsigned(n)) => n,
            _ => default,
        }
    }

    pub open spec fn strings_spec(&self, name: Seq<char>, default: Seq<Seq<char>>) -> Seq<Seq<char>> {
        match option_of(self.config@, name) {
            Some(ConfigValue::Strings(v)) => texts(v@),
            _ => default,
        }
    }

    fn option(&self, name: &str) -> (r: Option<&ConfigValue>)
        ensures
            r is None ==> option_of(self.config@, name@) is None,
            r is Some ==> option_of(self.config@, name@) == Some(*r->Some_0),
    {
        let mut i: usize = 0;
        proof {
            lemma_find_option_range(self.config@, name@, 0);
        }
        while i < self.config.len()
            invariant
                i <= self.config@.len(),
                find_option(self.config@, name@, 0) == find_option(self.config@, name@, i as int),
            decreases self.config@.len() - i,
        {
            if same_text(self.config[i].0.as_str(), name) {
                return Some(&self.config[i].1);
            }
            i = i + 1;
        }
        None
    }

    /// The string option `name`, or `default` when it is absent or not a string.
    pub fn string(&self, name: &str, default: &str) -> (r: String)
        ensures
            r@ == self.string_spec(name@, default@),
    {
        match self.option(name) {
            Some(ConfigValue::Str(s)) => s.clone(),
            _ => default.to_owned(),
        }
    }

    /// The boolean option `name`, or `default` when it is absent or not a boolean.
    pub fn bool(&self, name: &str, default: bool) -> (r: bool)
        ensures
            r == self.bool_spec(name@, default),
    {
        match self.option(name) {
            Some(ConfigValue::Bool(b)) => *b,
            _ => default,
        }
    }

    /// The unsigned option `name`, or `default` when it is absent or not an
    /// unsigned integer.
    pub fn unsigned(&self, name: &str, default: u64) -> (r: u64)
        ensures
            r == self.unsigned_spec(name@, default),
    {
        match self.option(name) {
            Some(ConfigValue::Unsigned(n)) => *n,
            _ => default,
        }
    }

    /// The string-list option `name`, or `default` when it is absent or not
    /// a list of strings.
    pub fn strings(&self, name: &str, default: Vec<String>) -> (r: Vec<String>)
        ensures
            texts(r@) == self.strings_spec(name@, texts(default@)),
    {
        match self.option(name) {
            Some(ConfigValue::Strings(v)) => {
                let mut r: Vec<String> = Vec::new();
                let mut i: usize = 0;
                while i < v.len()
                    invariant
                        i <= v@.len(),
                        r@.len() == i,
                        forall|j: int| 0 <= j < i ==> (#[trigger] r@[j])@ == v@[j]@,
                    decreases v@.len() - i,
                {
                    r.push(v[i].clone());
                    i = i + 1;
                }
                assert(texts(r@) =~= texts(v@));
                r
            },
            _ => default,
        }
    }
}

/// Where session records are stored.
pub struct Records {
    pub path: String,
}

impl Records {
    /// Records stored under the empty path, that is the working directory.
    pub fn new() -> (r: Records)
        ensures
            r.path@.len() == 0,
    {
        Records { path: String::new() }
    }
}

/// The process-wide settings.
pub struct Config {
    pub records: Records,
    /// The services by name.
    pub services: Vec<(String, Service)>,
    /// The peers admitted; empty admits every peer.
    pub only: Vec<IpAddress>,
}

/// Whether the allow-list `only` admits `ip`.
pub open spec fn admits(only: Seq<IpAddress>, ip: IpAddress) -> bool {
    only.len() == 0 || only.contains(ip)
}

impl Config {
    /// No services, records in the working directory, every peer admitted.
    pub fn new() -> (r: Config)
        ensures
            r.records.path@.len() == 0,
            r.services@.len() == 0,
            r.only@.len() == 0,
    {
        Config { records: Records::new(), services: Vec::new(), only: Vec::new() }
    }

    /// Whether a peer at `ip` may talk to the services: always when the
    /// allow-list is empty, else only when `ip` is on it.
    pub fn is_allowed_ip(&self, ip: &IpAddress) -> (r: bool)
        ensures
            r == admits(self.only@, *ip),
    {
        admitted(&self.only, ip)
    }
}

/// Whether the allow-list `only` admits a peer at `ip`.
pub fn admitted(only: &Vec<IpAddress>, ip: &IpAddress) -> (r: bool)
    ensures
        r == admits(only@, *ip),
{
    if only.len() == 0 {
        return true;
    }
    let mut i: usize = 0;
    while i < only.len()
        invariant
            i <= only@.len(),
            forall|j: int| 0 <= j < i ==> only@[j] != *ip,
        decreases only@.len() - i,
    {
        if only[i] == *ip {
            assert(only@[i as int] == *ip);
            return true;
        }
        i = i + 1;
    }
    false
}

/// An empty allow-list admits every peer; a non-empty one admits exactly
/// the peers on it.
pub proof fn lemma_access_list(only: Seq<IpAddress>, ip: IpAddress)
    ensures
        only.len() == 0 ==> admits(only, ip),
        only.len() > 0 ==> (admits(only, ip) <==> exists|i: int|
            0 <= i < only.len() && only[i] == ip),
{
}

} // verus!
