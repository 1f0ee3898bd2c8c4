//! The user's tool configuration: network endpoints and the wallet bound
//! to the primary network. Reading and writing the configuration file is
//! outside work; the functions here build the default shape, look up the
//! primary network and check the configured key pair.

use crate::cache::views_of;
use vstd::prelude::*;

verus! {

/// A wallet bound to one network.
#[derive(Debug, Clone)]
pub struct UserWalletConfig {
    pub pubkey: String,
    pub secret: String,
    pub profile: String,
}

/// One network: its endpoints and, optionally, the user's wallet on it.
#[derive(Debug, Clone)]
pub struct NetworkConfig {
    pub user_wallet: Option<UserWalletConfig>,
    pub endpoints: Vec<String>,
}

/// The tool configuration: the content-address endpoint, the primary
/// network's name, and the known networks by name.
#[derive(Debug, Clone)]
pub struct Config {
    pub ipfs_http_endpoint: String,
    pub primary_network: String,
    pub networks: Vec<(String, NetworkConfig)>,
}

/// Why a key check fails.
#[derive(Debug, Clone, Copy, PartialEq, Eq, Structural)]
pub enum KeyCheckError {
    /// The primary network is not among the known networks.
    WrongNetwork,
    /// The primary network carries no wallet.
    NoUserWallet,
    /// The configured public key does not match the one derived from the
    /// configured secret.
    InvalidKeypair,
}

/// The default primary network name.
pub open spec fn spec_primary_network() -> Seq<char> {
    "network.gosh.sh"@
}

/// The default content-address endpoint.
pub open spec fn spec_ipfs_endpoint() -> Seq<char> {
    "https://ipfs.network.gosh.sh"@
}

/// The default endpoints of the primary network.
pub open spec fn spec_default_endpoints() -> Seq<Seq<char>> {
    seq![
        "https://bhs01.network.gosh.sh"@,
        "https://eri01.network.gosh.sh"@,
        "https://gra01.network.gosh.sh"@,
    ]
}

/// The default endpoints of the primary network.
pub fn default_endpoints() -> (r: Vec<String>)
    ensures
        views_of(r@) == spec_default_endpoints(),
{
    let mut r: Vec<String> = Vec::new();
    r.push(String::from_str("https://bhs01.network.gosh.sh"));
    r.push(String::from_str("https://eri01.network.gosh.sh"));
    r.push(String::from_str("https://gra01.network.gosh.sh"));
    assert(views_of(r@) =~= spec_default_endpoints());
    r
}

/// The index of the primary network among the known ones, if present:
/// the first entry whose name matches.
fn primary_index(c: &Config) -> (r: Option<usize>)
    ensures
        match r {
            Some(i) => i < c.networks@.len() && c.networks@[i as int].0@ == c.primary_network@
                && forall|j: int|
                0 <= j < i ==> (#[trigger] c.networks@[j]).0@ != c.primary_network@,
            None => forall|j: int|
                0 <= j < c.networks@.len() ==> (#[trigger] c.networks@[j]).0@
                    != c.primary_network@,
        },
{
    let n = c.networks.len();
    let mut i: usize = 0;
    while i < n
        invariant
            n == c.networks@.len(),
            i <= n,
            forall|j: int|
                0 <= j < i ==> (#[trigger] c.networks@[j]).0@ != c.primary_network@,
        decreases n - i,
    {
        let hit = c.networks[i].0 == c.primary_network;
        if hit {
            return Some(i);
        }
        i += 1;
    }
    None
}

impl Config {
    /// The primary network is among the known networks.
    pub open spec fn has_primary(&self) -> bool {
        exists|j: int|
            0 <= j < self.networks@.len() && (#[trigger] self.networks@[j]).0@
                == self.primary_network@
    }

    /// The wallet of the first entry for the primary network.
    pub open spec fn spec_primary_wallet(&self) -> Option<UserWalletConfig> {
        self.networks@[self.spec_primary_at()].1.user_wallet
    }

    /// The index of the first entry for the primary network.
    pub open spec fn spec_primary_at(&self) -> int {
        choose|j: int|
            0 <= j < self.networks@.len() && (#[trigger] self.networks@[j]).0@
                == self.primary_network@ && forall|k: int|
                0 <= k < j ==> (#[trigger] self.networks@[k]).0@ != self.primary_network@
    }

    /// The configuration that binds the given user to the default
    /// network: the default endpoints, and the wallet made of the given
    /// name and key pair.
    pub fn with_user_data(username: String, secret: String, pubkey: String) -> (r: Config)
        ensures
            r.ipfs_http_endpoint@ == spec_ipfs_endpoint(),
            r.primary_network@ == spec_primary_network(),
            r.networks@.len() == 1,
            r.networks@[0].0@ == spec_primary_network(),
            views_of(r.networks@[0].1.endpoints@) == spec_default_endpoints(),
            r.networks@[0].1.user_wallet matches Some(w) && w.pubkey@ == pubkey@ && w.secret@
                == secret@ && w.profile@ == username@,
            r.has_primary(),
    {
        let wallet = UserWalletConfig { pubkey, secret, profile: username };
        let network = NetworkConfig { user_wallet: Some(wallet), endpoints: default_endpoints() };
        let mut networks: Vec<(String, NetworkConfig)> = Vec::new();
        networks.push((String::from_str("network.gosh.sh"), network));
        let r = Config {
            ipfs_http_endpoint: String::from_str("https://ipfs.network.gosh.sh"),
            primary_network: String::from_str("network.gosh.sh"),
            networks,
        };
        assert(r.networks@[0].0@ == r.primary_network@);
        r
    }

    /// Check the configured key pair against the public key derived from
    /// the configured secret (the derivation itself is outside work):
    /// fails when the primary network is unknown, carries no wallet, or
    /// carries a wallet whose public key is not the derived one.
    pub fn check_keys(&self, derived_pubkey: &str) -> (r: Result<(), KeyCheckError>)
        ensures
            !self.has_primary() ==> r == Err::<(), KeyCheckError>(KeyCheckError::WrongNetwork),
            self.has_primary() && self.spec_primary_wallet() is None ==> r == Err::<
                (),
                KeyCheckError,
            >(KeyCheckError::NoUserWallet),
            self.has_primary() && (self.spec_primary_wallet() matches Some(w) && w.pubkey@
                == derived_pubkey@) ==> r is Ok,
            self.has_primary() && (self.spec_primary_wallet() matches Some(w) && w.pubkey@
                != derived_pubkey@) ==> r == Err::<(), KeyCheckError>(
                KeyCheckError::InvalidKeypair,
            ),
    {
        let at = match primary_index(self) {
            Some(i) => i,
            None => {
                return Err(KeyCheckError::WrongNetwork);
            },
        };
        proof {
            lemma_first_primary(self, at as int);
        }
        match &self.networks[at].1.user_wallet {
            Some(wallet) => {
                let derived = crate::cache::owned_str(derived_pubkey);
                if wallet.pubkey == derived {
                    Ok(())
                } else {
                    Err(KeyCheckError::InvalidKeypair)
                }
            },
            None => Err(KeyCheckError::NoUserWallet),
        }
    }

    /// The endpoints of the primary network.
    pub fn get_endpoints(&self) -> (r: Vec<String>)
        requires
            self.has_primary(),
        ensures
            views_of(r@) == views_of(
                self.networks@[self.spec_primary_at()].1.endpoints@,
            ),
    {
        let at = match primary_index(self) {
            Some(i) => i,
            None => {
                proof {
                    let ghost j = choose|j: int|
                        0 <= j < self.networks@.len() && (#[trigger] self.networks@[j]).0@
                            == self.primary_network@;
                    assert(false);
                }
                unreached()
            },
        };
        proof {
            lemma_first_primary(self, at as int);
        }
        clone_strings(&self.networks[at].1.endpoints)
    }

    /// The wallet of the primary network, if one is configured.
    pub fn get_username(&self) -> (r: Option<UserWalletConfig>)
        requires
            self.has_primary(),
        ensures
            r is Some <==> self.spec_primary_wallet() is Some,
            r matches Some(w) ==> (self.spec_primary_wallet() matches Some(v) && w.pubkey@
                == v.pubkey@ && w.secret@ == v.secret@ && w.profile@ == v.profile@),
    {
        let at = match primary_index(self) {
            Some(i) => i,
            None => {
                proof {
                    let ghost j = choose|j: int|
                        0 <= j < self.networks@.len() && (#[trigger] self.networks@[j]).0@
                            == self.primary_network@;
                    assert(false);
                }
                unreached()
            },
        };
        proof {
            lemma_first_primary(self, at as int);
        }
        match &self.networks[at].1.user_wallet {
            Some(w) => Some(
                UserWalletConfig {
                    pubkey: w.pubkey.clone(),
                    secret: w.secret.clone(),
                    profile: w.profile.clone(),
                },
            ),
            None => None,
        }
    }
}

proof fn lemma_first_primary(c: &Config, i: int)
    requires
        0 <= i < c.networks@.len(),
        c.networks@[i].0@ == c.primary_network@,
        forall|k: int| 0 <= k < i ==> (#[trigger] c.networks@[k]).0@ != c.primary_network@,
    ensures
        c.spec_primary_at() == i,
        c.has_primary(),
{
    let j = c.spec_primary_at();
    assert(0 <= j < c.networks@.len() && c.networks@[j].0@ == c.primary_network@ && forall|k: int|
        0 <= k < j ==> (#[trigger] c.networks@[k]).0@ != c.primary_network@);
    if j < i {
        assert(c.networks@[j].0@ != c.primary_network@);
    }
    if i < j {
        assert(c.networks@[i].0@ != c.primary_network@);
    }
}

/// An owned copy of a list of strings.
fn clone_strings(v: &Vec<String>) -> (r: Vec<String>)
    ensures
        views_of(r@) == views_of(v@),
{
    let n = v.len();
    let mut r: Vec<String> = Vec::new();
    let mut i: usize = 0;
    assert(views_of(r@) =~= views_of(v@).subrange(0, 0));
    while i < n
        invariant
            n == v@.len(),
            i <= n,
            views_of(r@) == views_of(v@).subrange(0, i as int),
        decreases n - i,
    {
        let ghost before = views_of(r@);
        r.push(v[i].clone());
        assert(views_of(r@) =~= before.push(v@[i as int]@));
        assert(views_of(r@) =~= views_of(v@).subrange(0, i + 1));
        i += 1;
    }
    assert(views_of(v@).subrange(0, n as int) =~= views_of(v@));
    r
}

} // verus!
