//! Gateway settings: their defaults and the order in which configuration
//! sources are layered over them.

use vstd::prelude::*;

verus! {

/// Address of the payment processor that pays invoices for the gateway.
#[derive(Debug, Clone, PartialEq)]
pub struct GrpcProcessor {
    pub addr: String,
    pub port: u16,
    pub tls_dir: Option<String>,
}

impl Default for GrpcProcessor {
    fn default() -> (r: Self)
        ensures
            r.addr@ == "127.0.0.1"@,
            r.port == 50051,
            r.tls_dir is None,
    {
        GrpcProcessor { addr: "127.0.0.1".to_owned(), port: 50051, tls_dir: None }
    }
}

/// Seed and mints of the gateway's wallets.
#[derive(Debug, Clone, PartialEq)]
pub struct WalletConfig {
    pub mnemonic_seed: String,
    pub mint_urls: Vec<String>,
}

impl Default for WalletConfig {
    fn default() -> (r: Self)
        ensures
            r.mnemonic_seed@.len() == 0,
            r.mint_urls@.len() == 1,
            r.mint_urls@[0]@ == "https://mint.example.com"@,
    {
        let mut mint_urls: Vec<String> = Vec::new();
        mint_urls.push("https://mint.example.com".to_owned());
        WalletConfig { mnemonic_seed: String::new(), mint_urls }
    }
}

/// Where the HTTP server listens.
#[derive(Debug, Clone, PartialEq)]
pub struct ServerConfig {
    pub listen_addr: String,
    pub port: u16,
}

impl Default for ServerConfig {
    fn default() -> (r: Self)
        ensures
            r.listen_addr@ == "127.0.0.1"@,
            r.port == 3000,
    {
        ServerConfig { listen_addr: "127.0.0.1".to_owned(), port: 3000 }
    }
}

/// All settings of the gateway.
#[derive(Debug, Clone, PartialEq)]
pub struct Settings {
    pub grpc_processor: GrpcProcessor,
    pub wallet: WalletConfig,
    pub server: ServerConfig,
}

/// The settings that hold before any configuration source is read.
pub open spec fn is_initial(s: Settings) -> bool {
    &&& s.grpc_processor.addr@ == "127.0.0.1"@
    &&& s.grpc_processor.port == 50051
    &&& s.grpc_processor.tls_dir is None
    &&& s.wallet.mnemonic_seed@.len() == 0
    &&& s.wallet.mint_urls@.len() == 1
    &&& s.wallet.mint_urls@[0]@ == "https://mint.example.com"@
    &&& s.server.listen_addr@ == "127.0.0.1"@
    &&& s.server.port == 3000
}

/// Where settings come from. Sources are read in order, and a later one
/// overrides what an earlier one set.
#[derive(Debug, Clone, PartialEq)]
pub enum ConfigSource {
    /// The defaults.
    Defaults,
    /// The environment variables that start with `prefix`; `separator` parts
    /// section and field.
    Environment { prefix: String, separator: String },
    /// The file `file` in the directory `dir`.
    FileIn { dir: String, file: String, required: bool },
    /// The file of this name, with any known extension, sought from the
    /// current directory.
    FileNamed { name: String, required: bool },
}

/// The mathematical value of a [`ConfigSource`].
#[allow(inconsistent_fields)]
pub enum ConfigSourceView {
    Defaults,
    Environment { prefix: Seq<char>, separator: Seq<char> },
    FileIn { dir: Seq<char>, file: Seq<char>, required: bool },
    FileNamed { name: Seq<char>, required: bool },
}

impl View for ConfigSource {
    type V = ConfigSourceView;

    open spec fn view(&self) -> ConfigSourceView {
        match *self {
            ConfigSource::Defaults => ConfigSourceView::Defaults,
            ConfigSource::Environment { prefix, separator } => ConfigSourceView::Environment {
                prefix: prefix@,
                separator: separator@,
            },
            ConfigSource::FileIn { dir, file, required } => ConfigSourceView::FileIn {
                dir: dir@,
                file: file@,
                required,
            },
            ConfigSource::FileNamed { name, required } => ConfigSourceView::FileNamed {
                name: name@,
                required,
            },
        }
    }
}

impl DeepView for ConfigSource {
    type V = ConfigSourceView;

    open spec fn deep_view(&self) -> ConfigSourceView {
        self@
    }
}

/// The sources of the settings, in the order in which they are read: the
/// defaults; `config.toml` in the work directory, or a file named `config`
/// where no work directory is given, neither of which has to exist; the file
/// that the environment names as the configuration, which has to exist; and
/// last the environment, so that a variable overrides what any file says.
pub open spec fn sources_spec(work_dir: Option<Seq<char>>, named: Option<Seq<char>>) -> Seq<
    ConfigSourceView,
> {
    let files = seq![
        ConfigSourceView::Defaults,
        match work_dir {
            Some(dir) => ConfigSourceView::FileIn { dir, file: "config.toml"@, required: false },
            None => ConfigSourceView::FileNamed { name: "config"@, required: false },
        },
    ];
    let named_too = match named {
        Some(name) => files.push(ConfigSourceView::FileNamed { name, required: true }),
        None => files,
    };
    named_too.push(ConfigSourceView::Environment { prefix: "CDK_GATEWAY"@, separator: "__"@ })
}

impl Settings {
    /// The sources to load the settings from, in order. `named` is the
    /// configuration file that the environment names, if it names one.
    pub fn sources(work_dir: Option<&str>, named: Option<&str>) -> (r: Vec<ConfigSource>)
        ensures
            r.deep_view() == sources_spec(work_dir.deep_view(), named.deep_view()),
            r.len() >= 3,
            r[r.len() - 1] is Environment,
    {
        let mut sources: Vec<ConfigSource> = Vec::new();
        sources.push(ConfigSource::Defaults);
        match work_dir {
            Some(dir) => sources.push(
                ConfigSource::FileIn {
                    dir: dir.to_owned(),
                    file: "config.toml".to_owned(),
                    required: false,
                },
            ),
            None => sources.push(
                ConfigSource::FileNamed { name: "config".to_owned(), required: false },
            ),
        }
        match named {
            Some(name) => sources.push(
                ConfigSource::FileNamed { name: name.to_owned(), required: true },
            ),
            None => {},
        }
        sources.push(
            ConfigSource::Environment {
                prefix: "CDK_GATEWAY".to_owned(),
                separator: "__".to_owned(),
            },
        );
        assert(sources.deep_view() =~= sources_spec(work_dir.deep_view(), named.deep_view()));
        sources
    }

    /// The settings that loading starts from: every field at its default.
    pub fn new() -> (r: Self)
        ensures
            is_initial(r),
    {
        Settings {
            grpc_processor: GrpcProcessor::default(),
            wallet: WalletConfig::default(),
            server: ServerConfig::default(),
        }
    }
}

impl Default for Settings {
    fn default() -> (r: Self)
        ensures
            is_initial(r),
    {
        Settings::new()
    }
}

} // verus!
