//! Where configuration comes from: a config source URL names either a local
//! directory or a git repository (with an optional branch and a path inside it).

use vstd::prelude::*;
use crate::text::{starts_with, ends_with, contains, replace_all, trim_start_all, chars_of,
    ends_with_exec, replace, trim_start_matches, string_of};
use crate::urls::{rebases_always, UrlParse, UrlPartsView, UrlParts, UrlError, url_parse, url_rebased, texts,
    option_text, parse_url, rebase_url, parse_view};

verus! {

/// A config source.
#[derive(Debug, PartialEq, Eq, Clone)]
pub enum ConfigUrl {
    /// A directory on the local file system.
    File { path: String },
    /// A git repository, the branch to check out, and the directory inside it.
    Git { url: String, branch: Option<String>, internal_path: String },
}

/// A config source, as text.
pub enum ConfigUrlView {
    File { path: Seq<char> },
    Git { url: Seq<char>, branch: Option<Seq<char>>, internal_path: Seq<char> },
}

/// Why a text is not a config source.
#[derive(Debug, PartialEq, Eq, Clone)]
pub enum ConfigUrlError {
    /// The URL has no path segments.
    CannotBeABase,
    /// The URL is neither a `file` URL nor one with a `.git` path segment.
    NotGitOrFile,
    /// The text is not a URL; the `url` crate's message.
    InvalidUrl { message: String },
}

/// A config source error, as text.
pub enum ConfigUrlErrorView {
    CannotBeABase,
    NotGitOrFile,
    InvalidUrl(Seq<char>),
}

impl ConfigUrl {
    pub open spec fn view(self) -> ConfigUrlView {
        match self {
            ConfigUrl::File { path } => ConfigUrlView::File { path: path@ },
            ConfigUrl::Git { url, branch, internal_path } => ConfigUrlView::Git {
                url: url@,
                branch: option_text(branch),
                internal_path: internal_path@,
            },
        }
    }
}

impl ConfigUrlError {
    pub open spec fn view(self) -> ConfigUrlErrorView {
        match self {
            ConfigUrlError::CannotBeABase => ConfigUrlErrorView::CannotBeABase,
            ConfigUrlError::NotGitOrFile => ConfigUrlErrorView::NotGitOrFile,
            ConfigUrlError::InvalidUrl { message } => ConfigUrlErrorView::InvalidUrl(message@),
        }
    }

    /// The message that explains the error.
    pub fn message(&self) -> (m: String)
        ensures
            self is CannotBeABase ==> m@ == "Url cannot be a base"@,
            self is NotGitOrFile ==> m@ == "Config Url not a file path, and not a .git URL"@,
            self is InvalidUrl ==> m@ == self->message@,
    {
        match self {
            ConfigUrlError::CannotBeABase => String::from_str("Url cannot be a base"),
            ConfigUrlError::NotGitOrFile => String::from_str(
                "Config Url not a file path, and not a .git URL",
            ),
            ConfigUrlError::InvalidUrl { message } => message.clone(),
        }
    }
}

/// The path that `std::path::PathBuf::push` makes of `base` and `segment`.
pub uninterp spec fn path_pushed(base: Seq<char>, segment: Seq<char>) -> Seq<char>;

/// Extends the path `base` by `segment` with `std::path::PathBuf::push`.
#[verifier::external_body]
pub(crate) fn push_path(base: &mut String, segment: &str)
    ensures
        final(base)@ == path_pushed(old(base)@, segment@),
{
    let mut path = std::path::PathBuf::from(std::mem::take(base));
    path.push(segment);
    *base = path.to_string_lossy().into_owned();
}

/// The path made by pushing the segments, in order, onto an empty path.
pub open spec fn joined_path(segments: Seq<Seq<char>>) -> Seq<char>
    decreases segments.len(),
{
    if segments.len() == 0 {
        Seq::empty()
    } else {
        path_pushed(joined_path(segments.drop_last()), segments.last())
    }
}

/// Position of the first segment that ends in `.git`.
pub open spec fn git_segment(segments: Seq<Seq<char>>) -> Option<int> {
    if exists|i: int| 0 <= i < segments.len() && ends_with(segments[i], ".git"@) {
        Some(
            choose|i: int|
                0 <= i < segments.len() && ends_with(segments[i], ".git"@) && forall|j: int|
                    0 <= j < i ==> !ends_with(segments[j], ".git"@),
        )
    } else {
        None
    }
}

/// The config source read from the parts of the URL parsed from `text`.
pub open spec fn config_url_from_parts(text: Seq<char>, url: UrlPartsView) -> Result<
    ConfigUrlView,
    ConfigUrlErrorView,
> {
    if url.scheme == "file"@ {
        Ok(ConfigUrlView::File { path: trim_start_all(text, "file://"@) })
    } else {
        match url.path_segments {
            None => Err(ConfigUrlErrorView::CannotBeABase),
            Some(segments) => match git_segment(segments) {
                None => Err(ConfigUrlErrorView::NotGitOrFile),
                Some(i) => match url_rebased(url.serialization, segments.take(i + 1)) {
                    None => Err(ConfigUrlErrorView::CannotBeABase),
                    Some(git_url) => Ok(
                        ConfigUrlView::Git {
                            url: git_url,
                            branch: url.fragment,
                            internal_path: joined_path(segments.skip(i + 1)),
                        },
                    ),
                },
            },
        }
    }
}

/// The text that is parsed in place of a text without a scheme: an scp-like
/// git address (one that mentions `.git`) becomes an `ssh://` URL with its
/// colons turned into slashes; anything else becomes a `file://` URL.
pub open spec fn rooted_text(text: Seq<char>) -> Seq<char> {
    if contains(text, ".git"@) {
        "ssh://"@ + replace_all(text, ":"@, "/"@)
    } else {
        "file://"@ + text
    }
}

/// The config source named by a text whose URL parse was `parsed`.
pub open spec fn config_url_after(text: Seq<char>, parsed: UrlParse) -> Result<
    ConfigUrlView,
    ConfigUrlErrorView,
> {
    match parsed {
        UrlParse::Parsed(url) => config_url_from_parts(text, url),
        UrlParse::Invalid(message) => Err(ConfigUrlErrorView::InvalidUrl(message)),
        UrlParse::RelativeUrlWithoutBase => Err(
            ConfigUrlErrorView::InvalidUrl("relative URL without a base"@),
        ),
    }
}

/// A parse outcome that names a git repository: a URL that is not a `file`
/// URL, can be a base, and has a path segment ending in `.git`.
pub open spec fn names_git_repository(parsed: UrlParse) -> bool {
    &&& parsed matches UrlParse::Parsed(v)
    &&& v.scheme != "file"@
    &&& v.path_segments matches Some(segs)
    &&& git_segment(segs) is Some
}

/// The URL parse that decides what a text names: that of the text itself,
/// or, for a text without a scheme, that of its rooted form.
pub open spec fn deciding_parse(text: Seq<char>) -> UrlParse {
    match url_parse(text) {
        UrlParse::RelativeUrlWithoutBase => url_parse(rooted_text(text)),
        parsed => parsed,
    }
}

/// The config source that a text names.
pub open spec fn config_url_of(text: Seq<char>) -> Result<ConfigUrlView, ConfigUrlErrorView> {
    match url_parse(text) {
        UrlParse::RelativeUrlWithoutBase => config_url_after(
            rooted_text(text),
            url_parse(rooted_text(text)),
        ),
        parsed => config_url_after(text, parsed),
    }
}

pub open spec fn config_result_view(r: Result<ConfigUrl, ConfigUrlError>) -> Result<
    ConfigUrlView,
    ConfigUrlErrorView,
> {
    match r {
        Ok(c) => Ok(c.view()),
        Err(e) => Err(e.view()),
    }
}

fn first_git_segment(segments: &Vec<String>) -> (r: Option<usize>)
    ensures
        r matches Some(i) ==> i < segments@.len() && git_segment(texts(segments@)) == Some(
            i as int,
        ),
        r is None ==> git_segment(texts(segments@)) is None,
{
    let ghost segs = texts(segments@);
    let suffix = chars_of(".git");
    let mut i: usize = 0;
    while i < segments.len()
        invariant
            i <= segments@.len(),
            segs == texts(segments@),
            suffix@ == ".git"@,
            forall|j: int| 0 <= j < i ==> !ends_with(segs[j], ".git"@),
        decreases segments@.len() - i,
    {
        let seg = chars_of(segments[i].as_str());
        assert(segs[i as int] == segments@[i as int]@);
        if ends_with_exec(&seg, &suffix) {
            assert(0 <= i < segs.len() && ends_with(segs[i as int], ".git"@));
            let ghost c = choose|k: int|
                0 <= k < segs.len() && ends_with(segs[k], ".git"@) && forall|j: int|
                    0 <= j < k ==> !ends_with(segs[j], ".git"@);
            assert(c == i as int) by {
                if c < i {
                } else if c > i {
                }
            }
            return Some(i);
        }
        i = i + 1;
    }
    None
}

fn parts_to_config_url(text: &str, url: UrlParts) -> (r: Result<ConfigUrl, ConfigUrlError>)
    requires
        rebases_always(
            match parse_view(Ok(url)) {
                UrlParse::Parsed(p) => p,
                _ => arbitrary(),
            },
        ),
    ensures
        config_result_view(r) == config_url_from_parts(
            text@,
            match parse_view(Ok(url)) {
                UrlParse::Parsed(p) => p,
                _ => arbitrary(),
            },
        ),
{
    let file_scheme = String::from_str("file");
    if url.scheme == file_scheme {
        return Ok(ConfigUrl::File { path: trim_start_matches(text, "file://") });
    }
    match url.path_segments {
        None => Err(ConfigUrlError::CannotBeABase),
        Some(segments) => match first_git_segment(&segments) {
            None => Err(ConfigUrlError::NotGitOrFile),
            Some(i) => {
                let mut base: Vec<String> = Vec::new();
                let mut internal_path = String::new();
                let mut k: usize = 0;
                let ghost segs = texts(segments@);
                while k < segments.len()
                    invariant
                        i < segments@.len(),
                        k <= segments@.len(),
                        segs == texts(segments@),
                        k <= i + 1 ==> texts(base@) == segs.take(k as int),
                        k > i + 1 ==> texts(base@) == segs.take(i + 1),
                        k <= i + 1 ==> internal_path@ == Seq::<char>::empty(),
                        k > i + 1 ==> internal_path@ == joined_path(
                            segs.subrange(i + 1, k as int),
                        ),
                    decreases segments@.len() - k,
                {
                    let seg = segments[k].clone();
                    assert(segs[k as int] == seg@);
                    if k <= i {
                        base.push(seg);
                        assert(texts(base@) =~= segs.take(k + 1));
                    } else {
                        let ghost before = internal_path@;
                        push_path(&mut internal_path, seg.as_str());
                        proof {
                            let sub = segs.subrange(i + 1, k + 1);
                            assert(sub.last() == segs[k as int]);
                            assert(sub.drop_last() =~= segs.subrange(i + 1, k as int));
                            if k == i + 1 {
                                assert(segs.subrange(i + 1, k as int) =~= Seq::<Seq<char>>::empty());
                                assert(joined_path(Seq::<Seq<char>>::empty()) == Seq::<char>::empty());
                            }
                            assert(before == joined_path(sub.drop_last()));
                            assert(joined_path(sub) == path_pushed(joined_path(sub.drop_last()), sub.last()));
                        }
                    }
                    k = k + 1;
                }
                assert(segs.subrange(i + 1, segs.len() as int) =~= segs.skip(i + 1));
                if i + 1 == segments.len() {
                    assert(segs.skip(i + 1) =~= Seq::<Seq<char>>::empty());
                }
                assert(url_rebased(url.serialization@, texts(base@)) is Some);
                match rebase_url(url.serialization.as_str(), &base) {
                    None => Err(ConfigUrlError::CannotBeABase),
                    Some(git_url) => Ok(
                        ConfigUrl::Git { url: git_url, branch: url.fragment, internal_path },
                    ),
                }
            },
        },
    }
}

fn after_parse(text: &str, parsed: Result<UrlParts, UrlError>) -> (r: Result<ConfigUrl, ConfigUrlError>)
    requires
        !(parsed is Err && parsed->Err_0 is RelativeUrlWithoutBase),
        parse_view(parsed) matches UrlParse::Parsed(v) ==> rebases_always(v),
    ensures
        config_result_view(r) == config_url_after(text@, parse_view(parsed)),
        names_git_repository(parse_view(parsed)) ==> r is Ok,
{
    match parsed {
        Ok(url) => parts_to_config_url(text, url),
        Err(UrlError::Invalid { message }) => Err(ConfigUrlError::InvalidUrl { message }),
        Err(UrlError::RelativeUrlWithoutBase) => {
            proof {
                assert(false);
            }
            Err(ConfigUrlError::CannotBeABase)
        },
    }
}

impl ConfigUrl {
    /// Reads a config source. A URL with the `file` scheme names the directory
    /// after `file://`; any other URL must have a path segment ending in `.git`:
    /// the path up to it names the repository, the rest names the directory
    /// inside it, and the fragment names the branch. A text without a scheme is
    /// read as an scp-like git address (`host:path.git`) when it mentions
    /// `.git`, and as a directory otherwise.
    pub fn from_str(s: &str) -> (r: Result<ConfigUrl, ConfigUrlError>)
        ensures
            config_result_view(r) == config_url_of(s@),
            names_git_repository(deciding_parse(s@)) ==> r is Ok,
    {
        let parsed = parse_url(s);
        match parsed {
            Err(UrlError::RelativeUrlWithoutBase) => {
                proof {
                    reveal_strlit(".git");
                    reveal_strlit(":");
                    reveal_strlit("ssh://");
                    reveal_strlit("file://");
                }
                let chars = chars_of(s);
                let git = chars_of(".git");
                let mut found = false;
                let mut i: usize = 0;
                while i < chars.len() && !found
                    invariant
                        i <= chars@.len(),
                        chars@ == s@,
                        git@ == ".git"@,
                        found ==> contains(s@, ".git"@),
                        !found ==> forall|j: int| 0 <= j < i ==> !crate::text::occurs_at(s@, ".git"@, j),
                    decreases chars@.len() - i + (if found { 0int } else { 1int }),
                {
                    if crate::text::occurs_at_exec(&chars, &git, i) {
                        found = true;
                    } else {
                        i = i + 1;
                    }
                }
                proof {
                    if !found {
                        assert forall|j: int| !crate::text::occurs_at(s@, ".git"@, j) by {
                            if j >= i {
                                assert(!crate::text::occurs_at(s@, ".git"@, j));
                            }
                        }
                    }
                }
                let rooted = if found {
                    let mut r = String::from_str("ssh://");
                    let replaced = replace(s, ":", "/");
                    r.append(replaced.as_str());
                    r
                } else {
                    let mut r = String::from_str("file://");
                    r.append(s);
                    r
                };
                proof {
                    assert(rooted@ == rooted_text(s@));
                    assert(starts_with(rooted@, "ssh://"@) || starts_with(rooted@, "file://"@)) by {
                        if found {
                            assert(rooted@.take(6) =~= "ssh://"@);
                        } else {
                            assert(rooted@.take(7) =~= "file://"@);
                        }
                    }
                }
                let reparsed = parse_url(rooted.as_str());
                after_parse(rooted.as_str(), reparsed)
            },
            other => after_parse(s, other),
        }
    }
}

} // verus!

verus! {

use crate::json::{Json, JsonValue, merge, merge_patch, duplicate, members_of};

/// The configuration of one environment.
#[derive(Debug)]
pub struct Environment {
    pub environment: String,
    pub environment_type: Option<String>,
    pub config_data: Json,
}

/// Configuration shared by the environments of one type (`global` applies to all).
#[derive(Debug)]
pub struct EnvironmentType {
    pub environment_type: String,
    pub config_data: Json,
}

/// The pattern of the configuration files (`config.ENVIRONMENT.json`) of the
/// environments whose names `environments` matches: `config\.{environments}\.json$`.
pub fn config_file_pattern(environments: &str) -> (r: String)
    ensures
        r@ == "config\\."@ + environments@ + "\\.json$"@,
{
    let mut r = String::from_str("config\\.");
    r.append(environments);
    r.append("\\.json$");
    r
}

/// How an environment is listed: its name and its type.
#[derive(Debug)]
pub struct EnvironmentDescription {
    pub environment_name: String,
    pub environment_type: Option<String>,
}

/// The same optional text.
pub open spec fn same_text(a: Option<String>, b: Option<String>) -> bool {
    match (a, b) {
        (Some(x), Some(y)) => x@ == y@,
        (None, None) => true,
        _ => false,
    }
}

/// `d` lists the environment `e`.
pub open spec fn describes(d: EnvironmentDescription, e: Environment) -> bool {
    d.environment_name@ == e.environment@ && same_text(d.environment_type, e.environment_type)
}

impl EnvironmentDescription {
    /// The listing entry of an environment.
    pub fn describe(e: &Environment) -> (d: EnvironmentDescription)
        ensures
            describes(d, *e),
    {
        EnvironmentDescription {
            environment_name: e.environment.clone(),
            environment_type: match &e.environment_type {
                Some(t) => Some(t.clone()),
                None => None,
            },
        }
    }
}

/// What a configuration file holds.
#[derive(Debug)]
pub enum Config {
    Environment(Environment),
    EnvironmentType(EnvironmentType),
}

impl Config {
    /// The environment, if the file describes one.
    pub fn into_environment(self) -> (r: Option<Environment>)
        ensures
            self matches Config::Environment(e) ==> r == Some(e),
            self is EnvironmentType ==> r is None,
    {
        match self {
            Config::Environment(e) => Some(e),
            _ => None,
        }
    }

    /// The environment type, if the file describes one.
    pub fn into_environment_type(self) -> (r: Option<EnvironmentType>)
        ensures
            self matches Config::EnvironmentType(e) ==> r == Some(e),
            self is Environment ==> r is None,
    {
        match self {
            Config::EnvironmentType(e) => Some(e),
            _ => None,
        }
    }
}

/// The configuration of the first environment type named `name`, or null.
pub open spec fn type_data(types: Seq<EnvironmentType>, name: Seq<char>) -> JsonValue
    decreases types.len(),
{
    if types.len() == 0 {
        JsonValue::Null
    } else if types[0].environment_type@ == name {
        types[0].config_data.view()
    } else {
        type_data(types.skip(1), name)
    }
}

/// The configuration of an environment: the `global` configuration, patched
/// by the configuration of the environment's type, patched by its own.
pub open spec fn resolved_config(types: Seq<EnvironmentType>, e: Environment) -> JsonValue {
    let parent = match e.environment_type {
        Some(t) => type_data(types, t@),
        None => JsonValue::Null,
    };
    merge_patch(merge_patch(type_data(types, "global"@), parent), e.config_data.view())
}

/// The configuration of the first environment type named `name`, with its
/// numbers as written, or null.
pub open spec fn raw_type_data(types: Seq<EnvironmentType>, name: Seq<char>) -> JsonValue
    decreases types.len(),
{
    if types.len() == 0 {
        JsonValue::Null
    } else if types[0].environment_type@ == name {
        types[0].config_data.raw_value()
    } else {
        raw_type_data(types.skip(1), name)
    }
}

/// The configuration of an environment as `resolved_config` describes it,
/// with every number as written (the sign of a zero double included).
pub open spec fn resolved_raw_config(types: Seq<EnvironmentType>, e: Environment) -> JsonValue {
    let parent = match e.environment_type {
        Some(t) => raw_type_data(types, t@),
        None => JsonValue::Null,
    };
    merge_patch(merge_patch(raw_type_data(types, "global"@), parent), e.config_data.raw_value())
}

/// All configuration values of the types are well formed.
pub open spec fn types_wf(types: Seq<EnvironmentType>) -> bool {
    forall|i: int| 0 <= i < types.len() ==> (#[trigger] types[i]).config_data.wf()
}

fn find_env_type_data<'a>(types: &'a Vec<EnvironmentType>, name: &String) -> (r: Option<&'a Json>)
    requires
        types_wf(types@),
    ensures
        r matches Some(j) ==> j.view() == type_data(types@, name@) && j.wf() && j.raw_value()
            == raw_type_data(types@, name@),
        r is None ==> type_data(types@, name@) == JsonValue::Null && raw_type_data(types@, name@)
            == JsonValue::Null,
{
    let mut i: usize = 0;
    assert(types@.skip(0) =~= types@);
    while i < types.len()
        invariant
            i <= types@.len(),
            types_wf(types@),
            type_data(types@.skip(i as int), name@) == type_data(types@, name@),
            raw_type_data(types@.skip(i as int), name@) == raw_type_data(types@, name@),
        decreases types@.len() - i,
    {
        assert(types@.skip(i as int)[0] == types@[i as int]);
        if types[i].environment_type == *name {
            return Some(&types[i].config_data);
        }
        assert(types@.skip(i as int).skip(1) =~= types@.skip(i + 1));
        i = i + 1;
    }
    assert(types@.skip(i as int).len() == 0);
    None
}

/// A copy of the configuration data, or null.
fn data_or_null(data: Option<&Json>) -> (r: Json)
    requires
        data matches Some(j) ==> j.wf(),
    ensures
        r.wf(),
        data matches Some(j) ==> r.view() == j.view() && r.raw_value() == j.raw_value(),
        data is None ==> r.view() == JsonValue::Null && r.raw_value() == JsonValue::Null,
{
    match data {
        Some(j) => duplicate(j),
        None => Json::Null,
    }
}

/// Gives each environment its full configuration: the `global` type's
/// configuration, patched by that of the environment's type (if it names
/// one), patched by the environment's own configuration.
pub fn resolve_environments(
    types: &Vec<EnvironmentType>,
    environments: Vec<Environment>,
) -> (r: Vec<Environment>)
    requires
        types_wf(types@),
        forall|i: int| 0 <= i < environments@.len() ==> (#[trigger] environments@[i]).config_data.wf(),
    ensures
        r@.len() == environments@.len(),
        forall|i: int|
            0 <= i < r@.len() ==> (#[trigger] r@[i]).environment@ == environments@[i].environment@
                && r@[i].environment_type == environments@[i].environment_type
                && r@[i].config_data.view() == resolved_config(types@, environments@[i])
                && r@[i].config_data.raw_value() == resolved_raw_config(types@, environments@[i])
                && r@[i].config_data.wf(),
{
    let global_name = String::from_str("global");
    proof {
        reveal_strlit("global");
    }
    let global = data_or_null(find_env_type_data(types, &global_name));
    let mut pending = environments;
    let mut out: Vec<Environment> = Vec::new();
    let ghost all = environments@;
    while pending.len() > 0
        invariant
            types_wf(types@),
            global.view() == type_data(types@, "global"@),
            global.raw_value() == raw_type_data(types@, "global"@),
            global.wf(),
            out@.len() + pending@.len() == all.len(),
            pending@ == all.skip(out@.len() as int),
            forall|i: int| 0 <= i < all.len() ==> (#[trigger] all[i]).config_data.wf(),
            forall|i: int|
                0 <= i < out@.len() ==> (#[trigger] out@[i]).environment@ == all[i].environment@
                    && out@[i].environment_type == all[i].environment_type
                    && out@[i].config_data.view() == resolved_config(types@, all[i])
                    && out@[i].config_data.raw_value() == resolved_raw_config(types@, all[i])
                    && out@[i].config_data.wf(),
        decreases pending@.len(),
    {
        let ghost n = out@.len();
        assert(pending@[0] == all[n as int]);
        let env = pending.remove(0);
        assert(pending@ =~= all.skip((n + 1) as int));
        let mut config_data = duplicate(&global);
        let parent = match &env.environment_type {
            Some(name) => data_or_null(find_env_type_data(types, name)),
            None => Json::Null,
        };
        merge(&mut config_data, &parent);
        merge(&mut config_data, &env.config_data);
        let Environment { environment, environment_type, config_data: _ } = env;
        out.push(Environment { environment, environment_type, config_data });
    }
    out
}

/// The configuration of a named type is that of the first type with the
/// name, and null where no type has it.
pub proof fn law_type_data_first_named(types: Seq<EnvironmentType>, name: Seq<char>, i: int)
    ensures
        0 <= i < types.len() && types[i].environment_type@ == name && (forall|j: int|
            0 <= j < i ==> (#[trigger] types[j]).environment_type@ != name) ==> type_data(types, name)
            == types[i].config_data.view() && raw_type_data(types, name) == types[i].config_data.raw_value(),
        (forall|j: int| 0 <= j < types.len() ==> (#[trigger] types[j]).environment_type@ != name)
            ==> type_data(types, name) == JsonValue::Null && raw_type_data(types, name) == JsonValue::Null,
    decreases types.len(),
{
    if types.len() > 0 {
        let rest = types.skip(1);
        assert forall|j: int| 0 <= j < rest.len() implies rest[j] == types[j + 1] by {}
        if 0 <= i < types.len() && types[i].environment_type@ == name && (forall|j: int|
            0 <= j < i ==> (#[trigger] types[j]).environment_type@ != name) && i > 0 {
            law_type_data_first_named(rest, name, i - 1);
            assert forall|j: int| 0 <= j < i - 1 implies (#[trigger] rest[j]).environment_type@ != name by {
                assert(types[j + 1].environment_type@ != name);
            }
        }
        if forall|j: int| 0 <= j < types.len() ==> (#[trigger] types[j]).environment_type@ != name {
            law_type_data_first_named(rest, name, 0);
            assert forall|j: int| 0 <= j < rest.len() implies (#[trigger] rest[j]).environment_type@ != name by {
                assert(types[j + 1].environment_type@ != name);
            }
            assert(types[0].environment_type@ != name);
        }
    }
}

/// An environment's configuration is the `global` configuration,
/// merge-patched by the configuration of its type (by null where it names no
/// type), merge-patched by its own configuration, with numbers as written as
/// well as by meaning. So a member that the environment's own configuration
/// sets to null is absent from the result, whatever the `global` and type
/// configurations hold, and a member the own configuration does not mention
/// keeps what `global` patched by the type gives it.
pub proof fn law_resolved_config_layers(types: Seq<EnvironmentType>, e: Environment, k: Seq<char>)
    ensures
        resolved_config(types, e) == merge_patch(
            merge_patch(
                type_data(types, "global"@),
                match e.environment_type {
                    Some(t) => type_data(types, t@),
                    None => JsonValue::Null,
                },
            ),
            e.config_data.view(),
        ),
        resolved_raw_config(types, e) == merge_patch(
            merge_patch(
                raw_type_data(types, "global"@),
                match e.environment_type {
                    Some(t) => raw_type_data(types, t@),
                    None => JsonValue::Null,
                },
            ),
            e.config_data.raw_value(),
        ),
        e.config_data.view() matches JsonValue::Object(own) && own.contains_key(k) && own[k]
            == JsonValue::Null ==> !members_of(resolved_config(types, e)).contains_key(k),
        e.config_data.raw_value() matches JsonValue::Object(own) && own.contains_key(k) && own[k]
            == JsonValue::Null ==> !members_of(resolved_raw_config(types, e)).contains_key(k),
{
    let parent = match e.environment_type {
        Some(t) => type_data(types, t@),
        None => JsonValue::Null,
    };
    let base = merge_patch(type_data(types, "global"@), parent);
    if let JsonValue::Object(own) = e.config_data.view() {
        lemma_object_patch_removes_null(base, own, k);
    }
    let rparent = match e.environment_type {
        Some(t) => raw_type_data(types, t@),
        None => JsonValue::Null,
    };
    let rbase = merge_patch(raw_type_data(types, "global"@), rparent);
    if let JsonValue::Object(own) = e.config_data.raw_value() {
        lemma_object_patch_removes_null(rbase, own, k);
    }
}

/// A member that an object patch sets to null is absent from the result,
/// whatever the target is.
proof fn lemma_object_patch_removes_null(target: JsonValue, patch: Map<Seq<char>, JsonValue>, k: Seq<char>)
    ensures
        patch.contains_key(k) && patch[k] == JsonValue::Null ==> !members_of(
            merge_patch(target, JsonValue::Object(patch)),
        ).contains_key(k),
{
}

} // verus!
