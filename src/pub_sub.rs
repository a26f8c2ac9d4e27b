use vstd::prelude::*;
use vstd::string::*;

verus! {

/// A bus address: a dot-separated hierarchical string.
#[derive(Clone, Debug)]
pub struct Subject(pub String);

/// A raw message payload (JSON text).
#[derive(Clone, Debug)]
pub struct PubSubMsg(pub String);

/// Stable identity of a logical component; subjects are derived from it.
#[derive(Clone, Debug)]
pub struct ClientId(pub String);

/// Run flag of a client loop; `Inactive` is terminal.
#[derive(Clone, Copy, Debug, PartialEq, Eq, Structural)]
pub enum ClientState {
    Active,
    Inactive,
}

/// Failures of the bus and of message decoding.
#[derive(Clone, Debug)]
pub enum PubSubError {
    Generic(String),
    Subscription(String),
    Publish(String),
    MessageParse(String),
    Server(String),
    Configuration(String),
}

/// Connection parameters of the message bus.
#[derive(Clone, Debug)]
pub struct NatsConfig {
    pub bin_path: String,
    pub server: String,
    pub user: String,
    pub pass: String,
}

impl ClientState {
    /// A client loop keeps consuming messages only while it is active.
    pub fn keeps_running(&self) -> (r: bool)
        ensures
            r == (*self == ClientState::Active),
    {
        match self {
            ClientState::Active => true,
            ClientState::Inactive => false,
        }
    }
}

impl PubSubError {
    pub open spec fn text(&self) -> Seq<char> {
        match self {
            PubSubError::Generic(s) => s@,
            PubSubError::Subscription(s) => s@,
            PubSubError::Publish(s) => s@,
            PubSubError::MessageParse(s) => s@,
            PubSubError::Server(s) => s@,
            PubSubError::Configuration(s) => s@,
        }
    }

    /// The explanatory text of the error.
    pub fn message(&self) -> (r: String)
        ensures
            r@ == self.text(),
    {
        match self {
            PubSubError::Generic(s) => s.clone(),
            PubSubError::Subscription(s) => s.clone(),
            PubSubError::Publish(s) => s.clone(),
            PubSubError::MessageParse(s) => s.clone(),
            PubSubError::Server(s) => s.clone(),
            PubSubError::Configuration(s) => s.clone(),
        }
    }
}

/// `a` followed by `b`.
pub fn concat_str(a: &str, b: &str) -> (r: String)
    ensures
        r@ == a@ + b@,
{
    String::from_str(a).concat(b)
}

/// Three pieces joined in order.
pub fn join3(a: &str, b: &str, c: &str) -> (r: String)
    ensures
        r@ == a@ + b@ + c@,
{
    String::from_str(a).concat(b).concat(c)
}

/// Character-wise equality of two strings.
pub fn str_eq(a: &str, b: &str) -> (r: bool)
    ensures
        r == (a@ == b@),
{
    let n = a.unicode_len();
    let m = b.unicode_len();
    if n != m {
        return false;
    }
    let mut i: usize = 0;
    while i < n
        invariant
            n == a@.len(),
            m == b@.len(),
            n == m,
            i <= n,
            forall|j: int| 0 <= j < i ==> a@[j] == b@[j],
        decreases n - i,
    {
        if a.get_char(i) != b.get_char(i) {
            return false;
        }
        i += 1;
    }
    assert(a@ =~= b@);
    true
}

impl ClientId {
    pub fn new(id: &str) -> (r: ClientId)
        ensures
            r.0@ == id@,
    {
        ClientId(String::from_str(id))
    }

    /// A copy of the identity.
    pub fn cloned(&self) -> (r: ClientId)
        ensures
            r == *self,
    {
        ClientId(self.0.clone())
    }

    /// Whether two identities name the same component.
    pub fn same(&self, other: &ClientId) -> (r: bool)
        ensures
            r == (self.0@ == other.0@),
    {
        str_eq(self.0.as_str(), other.0.as_str())
    }
}

impl NatsConfig {
    pub fn new(bin_path: String, server: String, user: String, pass: String) -> (r: NatsConfig)
        ensures
            r.bin_path == bin_path,
            r.server == server,
            r.user == user,
            r.pass == pass,
    {
        NatsConfig { bin_path, server, user, pass }
    }
}

impl Default for NatsConfig {
    fn default() -> (r: NatsConfig)
        ensures
            r.bin_path@.len() == 0,
            r.server@.len() == 0,
            r.user@.len() == 0,
            r.pass@.len() == 0,
    {
        NatsConfig {
            bin_path: String::new(),
            server: String::new(),
            user: String::new(),
            pass: String::new(),
        }
    }
}

} // verus!
