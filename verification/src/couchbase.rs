//! Couchbase connection settings and document keys.

use vstd::prelude::*;
use crate::text::{split_on, split_char, string_texts, lemma_split_nonempty};
use crate::urls::option_text;

verus! {

/// Couchbase connection settings.
#[derive(Debug, Clone, PartialEq, Eq)]
pub struct CbConn {
    pub host: String,
    pub username: String,
    pub password: String,
    pub bucket: String,
    pub prefix: Option<String>,
}

/// Couchbase connection settings, as text.
pub struct CbConnView {
    pub host: Seq<char>,
    pub username: Seq<char>,
    pub password: Seq<char>,
    pub bucket: Seq<char>,
    pub prefix: Option<Seq<char>>,
}

impl CbConn {
    pub open spec fn view(self) -> CbConnView {
        CbConnView {
            host: self.host@,
            username: self.username@,
            password: self.password@,
            bucket: self.bucket@,
            prefix: option_text(self.prefix),
        }
    }
}

/// Every `;`-separated setting has a `=`.
pub open spec fn conn_str_wf(conn_str: Seq<char>) -> bool {
    forall|i: int|
        0 <= i < split_on(conn_str, ';').len() ==> #[trigger] split_on(
            split_on(conn_str, ';')[i],
            '=',
        ).len() >= 2
}

/// The settings after one `Name=value` setting: `Host`, `Bucket`, `Password`,
/// `Username` and `Prefix` are set to the value (the text up to a further
/// `=`), any other name is ignored.
pub open spec fn apply_setting(c: CbConnView, setting: Seq<char>) -> CbConnView {
    let parts = split_on(setting, '=');
    let name = parts[0];
    let value = parts[1];
    if name == "Host"@ {
        CbConnView { host: value, ..c }
    } else if name == "Bucket"@ {
        CbConnView { bucket: value, ..c }
    } else if name == "Password"@ {
        CbConnView { password: value, ..c }
    } else if name == "Username"@ {
        CbConnView { username: value, ..c }
    } else if name == "Prefix"@ {
        CbConnView { prefix: Some(value), ..c }
    } else {
        c
    }
}

/// The settings after the given settings, in order, starting from empty ones.
pub open spec fn apply_settings(settings: Seq<Seq<char>>) -> CbConnView
    decreases settings.len(),
{
    if settings.len() == 0 {
        CbConnView {
            host: Seq::empty(),
            username: Seq::empty(),
            password: Seq::empty(),
            bucket: Seq::empty(),
            prefix: None,
        }
    } else {
        apply_setting(apply_settings(settings.drop_last()), settings.last())
    }
}

impl CbConn {
    /// Reads settings of the form `Host=..;Bucket=..;Password=..;Username=..;Prefix=..`;
    /// a later setting of the same name wins, unknown names are ignored, and
    /// missing settings are empty (no prefix).
    pub fn format(conn_str: &str) -> (c: CbConn)
        requires
            conn_str_wf(conn_str@),
        ensures
            c.view() == apply_settings(split_on(conn_str@, ';')),
    {
        let vars = split_char(conn_str, ';');
        let ghost settings = split_on(conn_str@, ';');
        let mut host = String::new();
        let mut username = String::new();
        let mut password = String::new();
        let mut bucket = String::new();
        let mut prefix: Option<String> = None;
        let host_name = String::from_str("Host");
        let bucket_name = String::from_str("Bucket");
        let password_name = String::from_str("Password");
        let username_name = String::from_str("Username");
        let prefix_name = String::from_str("Prefix");
        let mut i: usize = 0;
        assert(settings.take(0) =~= Seq::<Seq<char>>::empty());
        while i < vars.len()
            invariant
                i <= vars@.len(),
                string_texts(vars@) == settings,
                conn_str_wf(conn_str@),
                settings == split_on(conn_str@, ';'),
                host_name@ == "Host"@,
                bucket_name@ == "Bucket"@,
                password_name@ == "Password"@,
                username_name@ == "Username"@,
                prefix_name@ == "Prefix"@,
                (CbConnView {
                    host: host@,
                    username: username@,
                    password: password@,
                    bucket: bucket@,
                    prefix: option_text(prefix),
                }) == apply_settings(settings.take(i as int)),
            decreases vars@.len() - i,
        {
            assert(settings.take(i + 1).drop_last() =~= settings.take(i as int));
            assert(settings.take(i + 1).last() == settings[i as int]);
            assert(settings[i as int] == vars@[i as int]@);
            let param = split_char(vars[i].as_str(), '=');
            assert(split_on(settings[i as int], '=').len() >= 2);
            assert(param@[0]@ == split_on(settings[i as int], '=')[0]);
            assert(param@[1]@ == split_on(settings[i as int], '=')[1]);
            let name = &param[0];
            let val = &param[1];
            if *name == host_name {
                host = val.clone();
            } else if *name == bucket_name {
                bucket = val.clone();
            } else if *name == password_name {
                password = val.clone();
            } else if *name == username_name {
                username = val.clone();
            } else if *name == prefix_name {
                prefix = Some(val.clone());
            }
            i = i + 1;
        }
        assert(settings.take(vars@.len() as int) =~= settings);
        CbConn { host, username, password, bucket, prefix }
    }
}

/// The document key of an environment at a SHA: `prefix::sha::env`, or
/// `sha::env` without a prefix.
pub open spec fn cb_env_key(prefix: Option<Seq<char>>, sha: Seq<char>, env: Seq<char>) -> Seq<char> {
    match prefix {
        Some(p) => p + "::"@ + sha + "::"@ + env,
        None => sha + "::"@ + env,
    }
}

/// The document key of an environment at a SHA.
pub fn gen_cb_env_key(prefix: &Option<String>, sha: &str, env: &str) -> (k: String)
    ensures
        k@ == cb_env_key(option_text(*prefix), sha@, env@),
{
    let mut k = String::new();
    match prefix {
        Some(p) => {
            k.append(p.as_str());
            k.append("::");
        },
        None => {},
    }
    k.append(sha);
    k.append("::");
    k.append(env);
    k
}

} // verus!
