//! The settings of a pastebin, as plain values.

use vstd::prelude::*;

verus! {

/// An address of the network by its octets: four for IPv4, sixteen for
/// IPv6.
pub type IpOctets = Vec<u8>;

/// How pastes are highlighted.
pub struct SyntaxHighlightConfig {
    /// The name of the theme.
    pub theme: String,
    /// A directory of further `.tmTheme` files.
    pub themes_folder: Option<String>,
    /// A directory of further `.sublime-syntax` files.
    pub syntax_folder: Option<String>,
}

impl Default for SyntaxHighlightConfig {
    /// The "base16-eighties.dark" theme, and no folders.
    fn default() -> (config: Self)
        ensures
            config.theme@ == "base16-eighties.dark"@,
            config.themes_folder is None,
            config.syntax_folder is None,
    {
        SyntaxHighlightConfig {
            theme: "base16-eighties.dark".to_owned(),
            themes_folder: None,
            syntax_folder: None,
        }
    }
}

/// The settings of one instance.
pub struct Config {
    /// The octets of the address that the server binds to.
    pub address: IpOctets,
    /// The port that the server binds to.
    pub port: u16,
    /// The base URL of the site, without a trailing slash.
    pub site_url: String,
    /// Whether anyone may paste without the password.
    pub public: bool,
    /// A directory of static files, served before pastes.
    pub static_dir: Option<String>,
    /// The greatest size of one paste, in bytes.
    pub paste_limit: usize,
    /// The limit of the cache of rendered pastes, in bytes.
    pub cache_limit: usize,
    /// Where the database lies.
    pub db_path: String,
    /// The password for uploads to a private instance and for deleting any
    /// paste.
    pub password: String,
    /// The secret key from which the mask of the tokens is drawn.
    pub id_key: [u8; 32],
    /// The addresses whose forwarding headers are believed.
    pub trusted_ips: Vec<IpOctets>,
    /// How pastes are highlighted.
    pub syntax_highlighting: SyntaxHighlightConfig,
}

/// The greatest limit that a cache can be made with.
pub const MAX_CACHE_LIMIT: usize = usize::MAX / 2;

impl Config {
    /// Both limits are positive, and the limit of the cache leaves room for
    /// the sums that the cache forms.
    pub open spec fn valid(&self) -> bool {
        &&& 0 < self.paste_limit
        &&& 0 < self.cache_limit <= MAX_CACHE_LIMIT
    }

    /// Whether a secret key was set: an instance does not start on the key
    /// of zeros.
    pub fn id_key_is_set(&self) -> (set: bool)
        ensures
            set <==> exists|i: int| 0 <= i < 32 && self.id_key@[i] != 0,
    {
        let mut i: usize = 0;
        while i < 32
            invariant
                i <= 32,
                forall|j: int| 0 <= j < i ==> self.id_key@[j] == 0,
            decreases 32 - i,
        {
            if self.id_key[i] != 0 {
                return true;
            }
            i += 1;
        }
        false
    }
}

impl Default for Config {
    /// A private instance on 127.0.0.1:8080 with pastes of up to 8 MiB, a
    /// cache of 64 MiB, the local addresses trusted, and no secret key.
    fn default() -> (config: Self)
        ensures
            config.valid(),
            config.address@ == seq![127u8, 0u8, 0u8, 1u8],
            config.port == 8080,
            config.site_url@ == "http://127.0.0.1:8080"@,
            !config.public,
            config.static_dir is None,
            config.paste_limit == 8388608,
            config.cache_limit == 67108864,
            config.db_path@ == "sweetpaste.db"@,
            config.password@ == "hunter2"@,
            forall|i: int| 0 <= i < 32 ==> config.id_key@[i] == 0,
            config.trusted_ips@.len() == 2,
            config.trusted_ips@[0]@ == seq![127u8, 0u8, 0u8, 1u8],
            config.trusted_ips@[1]@ == seq![
                0u8, 0u8, 0u8, 0u8, 0u8, 0u8, 0u8, 0u8, 0u8, 0u8, 0u8, 0u8, 0u8, 0u8, 0u8, 1u8,
            ],
            config.syntax_highlighting.theme@ == "base16-eighties.dark"@,
            config.syntax_highlighting.themes_folder is None,
            config.syntax_highlighting.syntax_folder is None,
    {
        let mut trusted_ips: Vec<IpOctets> = Vec::new();
        trusted_ips.push(vec![127u8, 0u8, 0u8, 1u8]);
        trusted_ips.push(vec![0u8, 0u8, 0u8, 0u8, 0u8, 0u8, 0u8, 0u8, 0u8, 0u8, 0u8, 0u8, 0u8, 0u8, 0u8, 1u8]);
        Config {
            address: vec![127u8, 0u8, 0u8, 1u8],
            port: 8080,
            site_url: "http://127.0.0.1:8080".to_owned(),
            public: false,
            static_dir: None,
            paste_limit: 8388608,
            cache_limit: 67108864,
            db_path: "sweetpaste.db".to_owned(),
            password: "hunter2".to_owned(),
            id_key: [0u8; 32],
            trusted_ips,
            syntax_highlighting: SyntaxHighlightConfig::default(),
        }
    }
}

} // verus!
