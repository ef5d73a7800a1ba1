//! Settings of the server, resolved from the values of its environment.

use vstd::prelude::*;
use vstd::string::*;

use crate::text::debug_quoted;
use crate::text::law_stripping_takes_the_tail;
use crate::text::quote;
use crate::text::repeated;
use crate::text::strip_tail;
use crate::text::trim_end_char;

verus! {

/// Where the Parquet data lives. Local directory for development, R2 for production.
pub enum DataBase {
    /// Local directory holding Parquet, e.g. "./data".
    Local(String),
    /// Cloudflare R2 bucket read by the engine. `base` is like `r2://idx-data`.
    R2 { base: String, account_id: String, key_id: String, secret: String },
}

/// The mathematical value of a [`DataBase`].
pub enum DataBaseView {
    Local(Seq<char>),
    R2 { base: Seq<char>, account_id: Seq<char>, key_id: Seq<char>, secret: Seq<char> },
}

/// The server's settings.
pub struct Config {
    pub bind_addr: String,
    pub sqlite_path: String,
    pub data_base: DataBase,
    /// Canonical externally visible base URL, without a trailing slash: the
    /// OAuth issuer, the protected resource, and the token audience.
    pub public_url: String,
}

/// The values of the environment variables that the settings depend on, each
/// absent if it is not set.
pub struct EnvVars {
    /// `IDX_BIND`
    pub bind: Option<String>,
    /// `IDX_SQLITE`
    pub sqlite: Option<String>,
    /// `IDX_PUBLIC_URL`
    pub public_url: Option<String>,
    /// `IDX_DATA_DIR`
    pub data_dir: Option<String>,
    /// `R2_ACCOUNT_ID`
    pub r2_account_id: Option<String>,
    /// `R2_KEY_ID`
    pub r2_key_id: Option<String>,
    /// `R2_SECRET`
    pub r2_secret: Option<String>,
    /// `R2_BUCKET`
    pub r2_bucket: Option<String>,
}

/// The value that is set, or else a default.
pub open spec fn set_or(o: Option<String>, default: Seq<char>) -> Seq<char> {
    match o {
        Some(s) => s@,
        None => default,
    }
}

impl EnvVars {
    /// The address to listen on.
    pub open spec fn bind_addr(&self) -> Seq<char> {
        set_or(self.bind, "127.0.0.1:8080"@)
    }

    /// The file of the key store.
    pub open spec fn sqlite_path(&self) -> Seq<char> {
        set_or(self.sqlite, "./idx.sqlite"@)
    }

    /// The address that the server is known by.
    pub open spec fn public_address(&self) -> Seq<char> {
        strip_tail(set_or(self.public_url, "http://"@ + self.bind_addr()), '/')
    }

    /// True if the R2 variables are all set.
    pub open spec fn has_r2(&self) -> bool {
        &&& self.r2_account_id is Some
        &&& self.r2_key_id is Some
        &&& self.r2_secret is Some
        &&& self.r2_bucket is Some
    }

    /// The data source: a data directory if one is set, else R2 if all of its
    /// variables are set, else the local `./data`.
    pub open spec fn data_base(&self) -> DataBaseView {
        match self.data_dir {
            Some(dir) => DataBaseView::Local(dir@),
            None => if self.has_r2() {
                DataBaseView::R2 {
                    base: "r2://"@ + self.r2_bucket->0@,
                    account_id: self.r2_account_id->0@,
                    key_id: self.r2_key_id->0@,
                    secret: self.r2_secret->0@,
                }
            } else {
                DataBaseView::Local("./data"@)
            },
        }
    }
}

impl DataBase {
    /// The mathematical value.
    pub open spec fn view(&self) -> DataBaseView {
        match self {
            DataBase::Local(d) => DataBaseView::Local(d@),
            DataBase::R2 { base, account_id, key_id, secret } => DataBaseView::R2 {
                base: base@,
                account_id: account_id@,
                key_id: key_id@,
                secret: secret@,
            },
        }
    }

    /// A text for logs that shows no credential.
    pub fn debug_text(&self) -> (r: String)
        ensures
            r@ == self@.debug_text(),
    {
        match self {
            DataBase::Local(d) => {
                let mut s = "Local(".to_string();
                s.append(quote(d.as_str()).as_str());
                s.append(")");
                s
            },
            DataBase::R2 { base, account_id, .. } => {
                let mut s = "R2 { base: ".to_string();
                s.append(quote(base.as_str()).as_str());
                s.append(", account_id: ");
                s.append(quote(account_id.as_str()).as_str());
                s.append(", key_id: ");
                s.append(quote("<redacted>").as_str());
                s.append(", secret: ");
                s.append(quote("<redacted>").as_str());
                s.append(" }");
                s
            },
        }
    }
}

impl DataBaseView {
    /// The text for logs.
    pub open spec fn debug_text(self) -> Seq<char> {
        match self {
            DataBaseView::Local(d) => "Local("@ + debug_quoted(d) + ")"@,
            DataBaseView::R2 { base, account_id, .. } => "R2 { base: "@ + debug_quoted(base)
                + ", account_id: "@ + debug_quoted(account_id) + ", key_id: "@ + debug_quoted(
                "<redacted>"@,
            ) + ", secret: "@ + debug_quoted("<redacted>"@) + " }"@,
        }
    }
}

impl Config {
    /// The text for logs.
    pub open spec fn debug_spec(&self) -> Seq<char> {
        "Config { bind_addr: "@ + debug_quoted(self.bind_addr@) + ", sqlite_path: "@
            + debug_quoted(self.sqlite_path@) + ", data_base: "@ + self.data_base@.debug_text()
            + ", public_url: "@ + debug_quoted(self.public_url@) + " }"@
    }

    /// A text for logs that shows no credential.
    pub fn debug_text(&self) -> (r: String)
        ensures
            r@ == self.debug_spec(),
    {
        let mut s = "Config { bind_addr: ".to_string();
        s.append(quote(self.bind_addr.as_str()).as_str());
        s.append(", sqlite_path: ");
        s.append(quote(self.sqlite_path.as_str()).as_str());
        s.append(", data_base: ");
        s.append(self.data_base.debug_text().as_str());
        s.append(", public_url: ");
        s.append(quote(self.public_url.as_str()).as_str());
        s.append(" }");
        s
    }

    /// The settings that the environment's values give.
    ///
    /// Data source resolution:
    /// - `IDX_DATA_DIR` set: local Parquet from that directory.
    /// - the `R2_*` variables all set: `r2://$R2_BUCKET`.
    /// - neither: the local `./data`.
    pub fn from_env(vars: EnvVars) -> (r: Config)
        ensures
            r.bind_addr@ == vars.bind_addr(),
            r.sqlite_path@ == vars.sqlite_path(),
            r.public_url@ == vars.public_address(),
            r.data_base@ == vars.data_base(),
    {
        let bind_addr = match vars.bind {
            Some(s) => s,
            None => "127.0.0.1:8080".to_string(),
        };
        let sqlite_path = match vars.sqlite {
            Some(s) => s,
            None => "./idx.sqlite".to_string(),
        };
        let url = match vars.public_url {
            Some(s) => s,
            None => "http://".to_string().concat(bind_addr.as_str()),
        };
        let public_url = trim_end_char(url.as_str(), '/');
        let data_base = match vars.data_dir {
            Some(dir) => DataBase::Local(dir),
            None => match (vars.r2_account_id, vars.r2_key_id, vars.r2_secret, vars.r2_bucket) {
                (Some(account_id), Some(key_id), Some(secret), Some(bucket)) => DataBase::R2 {
                    base: "r2://".to_string().concat(bucket.as_str()),
                    account_id,
                    key_id,
                    secret,
                },
                _ => DataBase::Local("./data".to_string()),
            },
        };
        Config { bind_addr, sqlite_path, data_base, public_url }
    }
}

// ---- laws ----

/// What a log shows of the settings does not depend on the R2 credentials.
pub proof fn law_debug_text_hides_credentials(
    base: Seq<char>,
    account_id: Seq<char>,
    key_a: Seq<char>,
    secret_a: Seq<char>,
    key_b: Seq<char>,
    secret_b: Seq<char>,
)
    ensures
        (DataBaseView::R2 { base, account_id, key_id: key_a, secret: secret_a }).debug_text() == (
        DataBaseView::R2 { base, account_id, key_id: key_b, secret: secret_b }).debug_text(),
{
}

proof fn lemma_strip_tail(s: Seq<char>, c: char)
    ensures
        strip_tail(s, c).len() > 0 ==> strip_tail(s, c).last() != c,
    decreases s.len(),
{
    if s.len() > 0 && s.last() == c {
        lemma_strip_tail(s.drop_last(), c);
    }
}

/// The public URL never ends in a slash.
pub proof fn law_public_url_has_no_trailing_slash(vars: EnvVars)
    ensures
        vars.public_address().len() > 0 ==> vars.public_address().last() != '/',
{
    lemma_strip_tail(set_or(vars.public_url, "http://"@ + vars.bind_addr()), '/');
}

/// The settings where nothing is set, and where each is.
pub proof fn law_settings_are_what_is_set(vars: EnvVars, value: String)
    ensures
        vars.bind is None ==> vars.bind_addr() == "127.0.0.1:8080"@,
        vars.bind == Some(value) ==> vars.bind_addr() == value@,
        vars.sqlite is None ==> vars.sqlite_path() == "./idx.sqlite"@,
        vars.sqlite == Some(value) ==> vars.sqlite_path() == value@,
        vars.data_dir == Some(value) ==> vars.data_base() == DataBaseView::Local(value@),
{
}

/// The server is known by the address that is set for it, or else by the one that it
/// listens on, without the slashes at the end.
pub proof fn law_the_public_address_has_a_default(
    vars: EnvVars,
    value: String,
    address: Seq<char>,
    slashes: nat,
)
    requires
        address.len() > 0 ==> address.last() != '/',
    ensures
        vars.public_url == Some(value) && value@ == address + repeated('/', slashes)
            ==> vars.public_address() == address,
        vars.public_url is None && vars.bind_addr() == address && address.len() > 0
            ==> vars.public_address() == "http://"@ + address,
{
    law_stripping_takes_the_tail(address, '/', slashes);
    let url = "http://"@ + address;
    if address.len() > 0 {
        assert(url.last() == address.last());
        law_stripping_takes_the_tail(url, '/', 0);
        assert(url + repeated('/', 0) =~= url);
    }
}

/// A data directory is used whatever else is set; the bucket is used only if its account,
/// key, secret and name are all set, each in its own place; otherwise the data lies in
/// `./data`.
pub proof fn law_the_bucket_needs_all_its_settings(vars: EnvVars)
    ensures
        vars.data_dir is Some ==> vars.data_base() == DataBaseView::Local(vars.data_dir->0@),
        vars.data_dir is None && (vars.r2_account_id is None || vars.r2_key_id is None
            || vars.r2_secret is None || vars.r2_bucket is None) ==> vars.data_base()
            == DataBaseView::Local("./data"@),
        vars.data_dir is None && vars.r2_account_id is Some && vars.r2_key_id is Some
            && vars.r2_secret is Some && vars.r2_bucket is Some ==> vars.data_base() == (
        DataBaseView::R2 {
            base: "r2://"@ + vars.r2_bucket->0@,
            account_id: vars.r2_account_id->0@,
            key_id: vars.r2_key_id->0@,
            secret: vars.r2_secret->0@,
        }),
{
}

/// A log shows a directory, a bucket and its account, and stands a fixed word in for the
/// credentials.
pub proof fn law_logs_name_the_source(
    dir: Seq<char>,
    base: Seq<char>,
    account_id: Seq<char>,
    key_id: Seq<char>,
    secret: Seq<char>,
)
    ensures
        DataBaseView::Local(dir).debug_text() == "Local("@ + debug_quoted(dir) + ")"@,
        (DataBaseView::R2 { base, account_id, key_id, secret }).debug_text() == "R2 { base: "@
            + debug_quoted(base) + ", account_id: "@ + debug_quoted(account_id) + ", key_id: "@
            + debug_quoted("<redacted>"@) + ", secret: "@ + debug_quoted("<redacted>"@) + " }"@,
{
}

/// A log shows the settings under their names, in a fixed order.
pub proof fn law_logs_show_the_settings(c: Config)
    ensures
        c.debug_spec() == "Config { bind_addr: "@ + debug_quoted(c.bind_addr@)
            + ", sqlite_path: "@ + debug_quoted(c.sqlite_path@) + ", data_base: "@
            + c.data_base@.debug_text() + ", public_url: "@ + debug_quoted(c.public_url@) + " }"@,
{
}

/// A data source is what it holds, each part under its own name.
pub proof fn law_sources_are_their_fields(
    dir: String,
    base: String,
    account_id: String,
    key_id: String,
    secret: String,
)
    ensures
        DataBase::Local(dir)@ == DataBaseView::Local(dir@),
        (DataBase::R2 { base, account_id, key_id, secret })@ == (DataBaseView::R2 {
            base: base@,
            account_id: account_id@,
            key_id: key_id@,
            secret: secret@,
        }),
{
}

} // verus!
