//! The PyPI registry.
use vstd::prelude::*;

use crate::json::Json;
use crate::{json, text, version};

verus! {

/// A piece of a template: text that stands for itself, or the name of a field.
pub enum TemplatePart {
    Text(Seq<char>),
    Field(Seq<char>),
}

/// The template that is written down by the parts.
pub open spec fn template_source(parts: Seq<TemplatePart>) -> Seq<char>
    decreases parts.len(),
{
    if parts.len() == 0 {
        Seq::empty()
    } else {
        template_source(parts.drop_last()) + match parts.last() {
            TemplatePart::Text(text) => text,
            TemplatePart::Field(name) => "{{"@ + name + "}}"@,
        }
    }
}

/// A character as HTML text.
pub open spec fn escaped_character(c: char) -> Seq<char> {
    if c == '<' {
        "&lt;"@
    } else if c == '>' {
        "&gt;"@
    } else if c == '"' {
        "&quot;"@
    } else if c == '&' {
        "&amp;"@
    } else if c == '\'' {
        "&#x27;"@
    } else if c == '`' {
        "&#x60;"@
    } else if c == '=' {
        "&#x3D;"@
    } else {
        seq![c]
    }
}

/// A text as HTML text.
pub open spec fn escaped(text: Seq<char>) -> Seq<char>
    decreases text.len(),
{
    if text.len() == 0 {
        Seq::empty()
    } else {
        escaped(text.drop_last()) + escaped_character(text.last())
    }
}

/// The value of the first field with the given name.
pub open spec fn field_value(fields: Seq<(Seq<char>, Seq<char>)>, name: Seq<char>) -> Option<
    Seq<char>,
>
    decreases fields.len(),
{
    if fields.len() == 0 {
        None
    } else if fields[0].0 == name {
        Some(fields[0].1)
    } else {
        field_value(fields.drop_first(), name)
    }
}

/// The parts with each field's value, as HTML text, in its place.
pub open spec fn filled(parts: Seq<TemplatePart>, fields: Seq<(Seq<char>, Seq<char>)>) -> Seq<char>
    decreases parts.len(),
{
    if parts.len() == 0 {
        Seq::empty()
    } else {
        filled(parts.drop_last(), fields) + match parts.last() {
            TemplatePart::Text(text) => text,
            TemplatePart::Field(name) => escaped(field_value(fields, name)->0),
        }
    }
}

/// Whether a text means nothing but itself in a template: visible ASCII characters
/// without braces and backslashes.
pub open spec fn is_literal(text: Seq<char>) -> bool {
    forall|i: int|
        0 <= i < text.len() ==> '!' <= #[trigger] text[i] <= '~' && text[i] != '{' && text[i] != '}'
            && text[i] != '\\'
}

/// Whether the parts are literal texts and the fields of a package that have a
/// value.
pub open spec fn is_plain(
    parts: Seq<TemplatePart>,
    fields: Seq<(Seq<char>, Seq<char>)>,
) -> bool {
    forall|i: int|
        0 <= i < parts.len() ==> match #[trigger] parts[i] {
            TemplatePart::Text(text) => is_literal(text),
            TemplatePart::Field(name) => (name == "package_name"@ || name == "package_version"@)
                && field_value(fields, name) is Some,
        }
}

/// What a list of fields stands for.
pub open spec fn field_views(fields: Seq<(String, String)>) -> Seq<(Seq<char>, Seq<char>)> {
    Seq::new(fields.len(), |i: int| (fields[i].0@, fields[i].1@))
}

/// Whether no two fields have one name.
pub open spec fn has_distinct_names(fields: Seq<(Seq<char>, Seq<char>)>) -> bool {
    forall|i: int, j: int|
        0 <= i < j < fields.len() ==> (#[trigger] fields[i]).0 != (#[trigger] fields[j]).0
}

/// `handlebars::RenderError`, which says why a template was not rendered.
#[verifier::external_type_specification]
#[verifier::external_body]
pub struct ExternalRenderError(handlebars::RenderError);

/// `handlebars::Handlebars::render_template` with a new registry, on a template of
/// literal texts and package fields: it succeeds, keeps the texts and puts the
/// HTML-escaped values in the place of the fields.
#[verifier::external_body]
fn render_template(template: &str, fields: &Vec<(String, String)>) -> (result: Result<
    String,
    handlebars::RenderError,
>)
    requires
        has_distinct_names(field_views(fields@)),
        exists|parts: Seq<TemplatePart>|
            template@ == #[trigger] template_source(parts) && is_plain(
                parts,
                field_views(fields@),
            ),
    ensures
        result is Ok,
        forall|parts: Seq<TemplatePart>|
            template@ == #[trigger] template_source(parts) && is_plain(parts, field_views(fields@))
                ==> result->Ok_0@ == filled(parts, field_views(fields@)),
{
    let data: std::collections::BTreeMap<&str, &str> = fields.iter().map(
        |field| (field.0.as_str(), field.1.as_str()),
    ).collect();
    handlebars::Handlebars::new().render_template(template, &data)
}

/// `url::ParseError`, which says why a text is no URL.
#[verifier::external_type_specification]
#[verifier::external_body]
pub struct ExternalUrlError(url::ParseError);

/// The URL that `url::Url::parse` reads from a text, in normal form, or the error that
/// says why the text is no URL.
pub uninterp spec fn parsed_url(text: Seq<char>) -> Result<Seq<char>, url::ParseError>;

/// `url::Url::parse`, and the URL as a string: the URL and the error depend on the
/// text alone.
#[verifier::external_body]
fn parse_url(text: &str) -> (result: Result<String, url::ParseError>)
    ensures
        match result {
            Ok(url) => parsed_url(text@) == Ok::<_, url::ParseError>(url@),
            Err(error) => parsed_url(text@) == Err::<Seq<char>, _>(error),
        },
{
    match url::Url::parse(text) {
        Ok(url) => Ok(String::from(url)),
        Err(error) => Err(error),
    }
}

/// Why the registry does not give the metadata of a package.
#[derive(Debug)]
pub enum RegistryError {
    /// The registry's answer is not JSON.
    NotJson { body: String, source: serde_json::Error },
    /// The registry's entry has no releases.
    ReleasesMissing,
    /// No version was given and the registry names none.
    VersionMissing,
    /// The registry does not know the version.
    ReleaseNotFound { version: String },
    /// The registry has no list of artifacts for the version.
    ReleaseNotArray { version: String },
    /// The list of artifacts for the version is empty.
    ReleaseEmpty { version: String },
    /// The Python version of an artifact is not a text.
    PythonVersion,
    /// The URL of the source archive is not a text.
    ArchiveUrl,
    /// No artifact is a source archive.
    NoSourceArchive,
    /// A URL is not valid.
    InvalidUrl(url::ParseError),
    /// A template was not rendered.
    Template(handlebars::RenderError),
}

/// The view of a [`RegistryError`].
pub enum RegistryFault {
    NotJson(Seq<char>, serde_json::Error),
    ReleasesMissing,
    VersionMissing,
    ReleaseNotFound(Seq<char>),
    ReleaseNotArray(Seq<char>),
    ReleaseEmpty(Seq<char>),
    PythonVersion,
    ArchiveUrl,
    NoSourceArchive,
    InvalidUrl(url::ParseError),
    Template(handlebars::RenderError),
}

impl View for RegistryError {
    type V = RegistryFault;

    open spec fn view(&self) -> RegistryFault {
        match self {
            RegistryError::NotJson { body, source } => RegistryFault::NotJson(body@, *source),
            RegistryError::ReleasesMissing => RegistryFault::ReleasesMissing,
            RegistryError::VersionMissing => RegistryFault::VersionMissing,
            RegistryError::ReleaseNotFound { version } => RegistryFault::ReleaseNotFound(version@),
            RegistryError::ReleaseNotArray { version } => RegistryFault::ReleaseNotArray(version@),
            RegistryError::ReleaseEmpty { version } => RegistryFault::ReleaseEmpty(version@),
            RegistryError::PythonVersion => RegistryFault::PythonVersion,
            RegistryError::ArchiveUrl => RegistryFault::ArchiveUrl,
            RegistryError::NoSourceArchive => RegistryFault::NoSourceArchive,
            RegistryError::InvalidUrl(error) => RegistryFault::InvalidUrl(*error),
            RegistryError::Template(error) => RegistryFault::Template(*error),
        }
    }
}

impl RegistryFault {
    /// The message of a registry error. The errors of URLs and templates bring
    /// their own.
    pub open spec fn message(self) -> Option<Seq<char>> {
        match self {
            RegistryFault::NotJson(body, _) => Some("JSON was not well-formatted:\n"@ + body),
            RegistryFault::ReleasesMissing => Some("Failed to find releases JSON section."@),
            RegistryFault::VersionMissing => Some("Failed to find package version."@),
            RegistryFault::ReleaseNotFound(version) => Some(
                "Package version not found in registry releases: "@ + version,
            ),
            RegistryFault::ReleaseNotArray(version) => Some(
                "Registry releases entry for version "@ + version + " is not an array."@,
            ),
            RegistryFault::ReleaseEmpty(version) => Some(
                "No release artifacts found for version "@ + version + "."@,
            ),
            RegistryFault::PythonVersion => Some("Failed to parse package version."@),
            RegistryFault::ArchiveUrl => Some("Failed to parse package archive URL."@),
            RegistryFault::NoSourceArchive => Some("Failed to identify package archive URL."@),
            RegistryFault::InvalidUrl(_) => None,
            RegistryFault::Template(_) => None,
        }
    }
}

fn surrounded(start: &str, middle: &str, end: &str) -> (result: String)
    ensures
        result@ == start@ + middle@ + end@,
{
    let mut result = start.to_owned();
    result.append(middle);
    result.append(end);
    result
}

impl RegistryError {
    /// The message of this error. The errors of URLs and templates bring their own.
    pub fn message(&self) -> (result: Option<String>)
        ensures
            match result {
                Some(message) => self@.message() == Some(message@),
                None => self@.message() is None,
            },
    {
        match self {
            RegistryError::NotJson { body, source: _ } => {
                let mut message = "JSON was not well-formatted:\n".to_owned();
                message.append(body.as_str());
                Some(message)
            },
            RegistryError::ReleasesMissing => Some(
                "Failed to find releases JSON section.".to_owned(),
            ),
            RegistryError::VersionMissing => Some("Failed to find package version.".to_owned()),
            RegistryError::ReleaseNotFound { version } => {
                let mut message = "Package version not found in registry releases: ".to_owned();
                message.append(version.as_str());
                Some(message)
            },
            RegistryError::ReleaseNotArray { version } => Some(
                surrounded(
                    "Registry releases entry for version ",
                    version.as_str(),
                    " is not an array.",
                ),
            ),
            RegistryError::ReleaseEmpty { version } => Some(
                surrounded("No release artifacts found for version ", version.as_str(), "."),
            ),
            RegistryError::PythonVersion => Some("Failed to parse package version.".to_owned()),
            RegistryError::ArchiveUrl => Some("Failed to parse package archive URL.".to_owned()),
            RegistryError::NoSourceArchive => Some(
                "Failed to identify package archive URL.".to_owned(),
            ),
            RegistryError::InvalidUrl(_) => None,
            RegistryError::Template(_) => None,
        }
    }
}

/// The keys of an object's members.
pub open spec fn keys(members: Seq<(Seq<char>, json::JsonTree)>) -> Seq<Seq<char>> {
    Seq::new(members.len(), |i: int| members[i].0)
}

/// The versions that a registry entry names: the keys of its releases.
pub open spec fn named_versions(entry: json::JsonTree) -> Option<Seq<Seq<char>>> {
    match entry.member("releases"@) {
        Some(json::JsonTree::Object(members)) => Some(keys(members)),
        _ => None,
    }
}

/// The latest version that a registry entry names.
pub fn get_latest_version(entry: &Json) -> (result: Result<Option<String>, RegistryError>)
    ensures
        match result {
            Ok(Some(latest)) => named_versions(entry@) is Some && version::is_latest(
                latest@,
                named_versions(entry@)->0,
            ),
            Ok(None) => named_versions(entry@) is Some && version::names_no_version(
                named_versions(entry@)->0,
            ),
            Err(error) => named_versions(entry@) is None && error@ is ReleasesMissing,
        },
{
    let releases = match entry.get("releases") {
        Some(Json::Object(releases)) => releases,
        _ => {
            return Err(RegistryError::ReleasesMissing);
        },
    };
    let ghost named = named_versions(entry@)->0;
    let mut versions: Vec<String> = Vec::new();
    for i in 0..releases.len()
        invariant
            named == keys(Json::Object(*releases)@->Object_0),
            text::views(versions@) == named.take(i as int),
    {
        let ghost before = text::views(versions@);
        versions.push(releases[i].key.clone());
        assert(named[i as int] == releases@[i as int].key@);
        assert(text::views(versions@) == before.push(named[i as int]));
        assert(named.take(i + 1) == named.take(i as int).push(named[i as int]));
    }
    assert(named.take(named.len() as int) == named);
    Ok(version::latest_version(&versions))
}

/// The URL of the first artifact for the Python version `source`, read from left to
/// right.
pub open spec fn first_source(artifacts: Seq<json::JsonTree>) -> Result<Seq<char>, RegistryFault>
    decreases artifacts.len(),
{
    if artifacts.len() == 0 {
        Err(RegistryFault::NoSourceArchive)
    } else {
        match artifacts[0].member_text("python_version"@) {
            None => Err(RegistryFault::PythonVersion),
            Some(python_version) => if python_version != "source"@ {
                first_source(artifacts.drop_first())
            } else {
                match artifacts[0].member_text("url"@) {
                    Some(url) => Ok(url),
                    None => Err(RegistryFault::ArchiveUrl),
                }
            },
        }
    }
}

/// The URL of the source archive of a version, as a registry entry gives it.
pub open spec fn source_archive(entry: json::JsonTree, version: Seq<char>) -> Result<
    Seq<char>,
    RegistryFault,
> {
    match entry.member("releases"@) {
        None => Err(RegistryFault::ReleasesMissing),
        Some(releases) => match releases.member(version) {
            None => Err(RegistryFault::ReleaseNotFound(version)),
            Some(json::JsonTree::Array(artifacts)) => if artifacts.len() == 0 {
                Err(RegistryFault::ReleaseEmpty(version))
            } else {
                first_source(artifacts)
            },
            Some(_) => Err(RegistryFault::ReleaseNotArray(version)),
        },
    }
}

/// What a result stands for.
pub open spec fn outcome(result: Result<String, RegistryError>) -> Result<
    Seq<char>,
    RegistryFault,
> {
    match result {
        Ok(text) => Ok(text@),
        Err(error) => Err(error@),
    }
}

/// The URL of the source archive of a version, as a registry entry gives it.
pub fn find_source_archive(entry: &Json, package_version: &str) -> (result: Result<
    String,
    RegistryError,
>)
    ensures
        outcome(result) == source_archive(entry@, package_version@),
{
    let releases = match entry.get("releases") {
        Some(releases) => releases,
        None => {
            return Err(RegistryError::ReleasesMissing);
        },
    };
    let artifacts = match releases.get(package_version) {
        None => {
            return Err(RegistryError::ReleaseNotFound { version: package_version.to_owned() });
        },
        Some(Json::Array(artifacts)) => artifacts,
        Some(_) => {
            return Err(RegistryError::ReleaseNotArray { version: package_version.to_owned() });
        },
    };
    if artifacts.len() == 0 {
        return Err(RegistryError::ReleaseEmpty { version: package_version.to_owned() });
    }
    let ghost trees = Json::Array(*artifacts)@->Array_0;
    assert(trees.skip(0) == trees);
    for i in 0..artifacts.len()
        invariant
            trees == Json::Array(*artifacts)@->Array_0,
            source_archive(entry@, package_version@) == first_source(trees.skip(i as int)),
    {
        assert(trees.skip(i as int).drop_first() == trees.skip(i + 1));
        assert(trees[i as int] == artifacts@[i as int]@);
        let python_version = match artifacts[i].member_str("python_version") {
            Some(python_version) => python_version,
            None => {
                return Err(RegistryError::PythonVersion);
            },
        };
        if text::equal(python_version.as_str(), "source") {
            return match artifacts[i].member_str("url") {
                Some(url) => Ok(url.clone()),
                None => Err(RegistryError::ArchiveUrl),
            };
        }
    }
    Err(RegistryError::NoSourceArchive)
}

/// A URL in normal form.
pub open spec fn normal_url(text: Seq<char>) -> Result<Seq<char>, RegistryFault> {
    match parsed_url(text) {
        Ok(url) => Ok(url),
        Err(error) => Err(RegistryFault::InvalidUrl(error)),
    }
}

/// The URL of the source archive of a version, in normal form.
pub open spec fn archive_url(entry: json::JsonTree, version: Seq<char>) -> Result<
    Seq<char>,
    RegistryFault,
> {
    match source_archive(entry, version) {
        Ok(text) => normal_url(text),
        Err(fault) => Err(fault),
    }
}

/// The URL of the source archive of a version, in normal form.
pub fn get_archive_url(entry: &Json, package_version: &str) -> (result: Result<
    String,
    RegistryError,
>)
    ensures
        outcome(result) == archive_url(entry@, package_version@),
{
    match find_source_archive(entry, package_version) {
        Ok(text) => match parse_url(text.as_str()) {
            Ok(url) => Ok(url),
            Err(error) => Err(RegistryError::InvalidUrl(error)),
        },
        Err(error) => Err(error),
    }
}

/// The template of a package's page at the registry.
pub open spec fn human_url_parts() -> Seq<TemplatePart> {
    seq![
        TemplatePart::Text("https://pypi.org/pypi/"@),
        TemplatePart::Field("package_name"@),
        TemplatePart::Text("/"@),
        TemplatePart::Field("package_version"@),
        TemplatePart::Text("/"@),
    ]
}

/// The template of a package's entry in the registry.
pub open spec fn entry_url_parts() -> Seq<TemplatePart> {
    seq![
        TemplatePart::Text("https://pypi.org/pypi/"@),
        TemplatePart::Field("package_name"@),
        TemplatePart::Text("/json"@),
    ]
}

/// The URL of a package's page at the registry, before it is brought into normal
/// form.
pub open spec fn human_url_text(package_name: Seq<char>, package_version: Seq<char>) -> Seq<char> {
    "https://pypi.org/pypi/"@ + escaped(package_name) + "/"@ + escaped(package_version) + "/"@
}

/// The URL of a package's entry in the registry.
pub open spec fn entry_url(package_name: Seq<char>) -> Seq<char> {
    "https://pypi.org/pypi/"@ + escaped(package_name) + "/json"@
}

proof fn entry_url_template()
    ensures
        template_source(entry_url_parts()) == "https://pypi.org/pypi/{{package_name}}/json"@,
{
    reveal_strlit("https://pypi.org/pypi/");
    reveal_strlit("package_name");
    reveal_strlit("/json");
    reveal_strlit("{{");
    reveal_strlit("}}");
    reveal_strlit("https://pypi.org/pypi/{{package_name}}/json");
    reveal_with_fuel(template_source, 4);
    let parts = entry_url_parts();
    assert(parts.drop_last().drop_last().drop_last().len() == 0);
    assert(template_source(parts) == "https://pypi.org/pypi/"@ + ("{{"@ + "package_name"@ + "}}"@)
        + "/json"@);
    assert(template_source(parts) == "https://pypi.org/pypi/{{package_name}}/json"@);
}

pub proof fn human_url_template()
    ensures
        template_source(human_url_parts())
            == "https://pypi.org/pypi/{{package_name}}/{{package_version}}/"@,
{
    reveal_strlit("https://pypi.org/pypi/");
    reveal_strlit("package_name");
    reveal_strlit("package_version");
    reveal_strlit("/");
    reveal_strlit("{{");
    reveal_strlit("}}");
    reveal_strlit("https://pypi.org/pypi/{{package_name}}/{{package_version}}/");
    reveal_with_fuel(template_source, 6);
    let parts = human_url_parts();
    assert(parts.drop_last().drop_last().drop_last().drop_last().drop_last().len() == 0);
    assert(template_source(parts) == "https://pypi.org/pypi/"@ + ("{{"@ + "package_name"@ + "}}"@)
        + "/"@ + ("{{"@ + "package_version"@ + "}}"@) + "/"@);
    assert(template_source(parts)
        == "https://pypi.org/pypi/{{package_name}}/{{package_version}}/"@);
}

proof fn url_literals()
    ensures
        is_literal("https://pypi.org/pypi/"@),
        is_literal("/"@),
        is_literal("/json"@),
        "package_name"@ != "package_version"@,
{
    reveal_strlit("https://pypi.org/pypi/");
    reveal_strlit("/");
    reveal_strlit("/json");
    reveal_strlit("package_name");
    reveal_strlit("package_version");
    assert("package_name"@.len() != "package_version"@.len());
}

/// The URL of a package's entry in the registry.
pub fn registry_entry_url(package_name: &str) -> (result: Result<String, RegistryError>)
    ensures
        outcome(result) == Ok::<_, RegistryFault>(entry_url(package_name@)),
{
    let fields = vec![("package_name".to_owned(), package_name.to_owned())];
    let ghost values = field_views(fields@);
    proof {
        let parts = entry_url_parts();
        entry_url_template();
        url_literals();
        assert(values == seq![("package_name"@, package_name@)]);
        assert(field_value(values, "package_name"@) == Some(package_name@));
        assert(is_plain(parts, values));
        reveal_with_fuel(filled, 4);
        assert(parts.drop_last().drop_last().drop_last().len() == 0);
        assert(filled(parts, values) == entry_url(package_name@));
    }
    match render_template("https://pypi.org/pypi/{{package_name}}/json", &fields) {
        Ok(url) => Ok(url),
        Err(error) => Err(RegistryError::Template(error)),
    }
}

/// The URL of a package's page at the registry, in normal form. `template` is the
/// template of such URLs.
pub(crate) fn render_human_url(template: &str, package_name: &str, package_version: &str) -> (result:
    Result<String, RegistryError>)
    requires
        template@ == template_source(human_url_parts()),
    ensures
        outcome(result) == normal_url(human_url_text(package_name@, package_version@)),
{
    let fields = vec![
        ("package_name".to_owned(), package_name.to_owned()),
        ("package_version".to_owned(), package_version.to_owned()),
    ];
    let ghost values = field_views(fields@);
    proof {
        let parts = human_url_parts();
        url_literals();
        assert(values == seq![
            ("package_name"@, package_name@),
            ("package_version"@, package_version@),
        ]);
        assert(field_value(values, "package_name"@) == Some(package_name@));
        reveal_with_fuel(field_value, 2);
        assert(values.drop_first()[0] == ("package_version"@, package_version@));
        assert(field_value(values, "package_version"@) == Some(package_version@));
        assert(is_plain(parts, values));
        reveal_with_fuel(filled, 6);
        assert(parts.drop_last().drop_last().drop_last().drop_last().drop_last().len() == 0);
        assert(filled(parts, values) == human_url_text(package_name@, package_version@));
    }
    match render_template(template, &fields) {
        Ok(text) => match parse_url(text.as_str()) {
            Ok(url) => Ok(url),
            Err(error) => Err(RegistryError::InvalidUrl(error)),
        },
        Err(error) => Err(RegistryError::Template(error)),
    }
}

/// The registry entry that the registry answered with.
pub fn registry_entry_from_body(body: &str) -> (result: Result<Json, RegistryError>)
    ensures
        match result {
            Ok(entry) => json::read_text(body@) == Ok::<_, serde_json::Error>(entry@),
            Err(error) => json::read_text(body@) matches Err(source) && error@
                == RegistryFault::NotJson(body@, source),
        },
{
    match Json::parse(body) {
        Ok(entry) => Ok(entry),
        Err(source) => Err(RegistryError::NotJson { body: body.to_owned(), source }),
    }
}

proof fn key_has_member(members: Seq<(Seq<char>, json::JsonTree)>, key: Seq<char>)
    requires
        keys(members).contains(key),
    ensures
        json::first_member(members, key) is Some,
    decreases members.len(),
{
    let i = keys(members).index_of(key);
    if members[0].0 != key {
        let rest = members.drop_first();
        assert(keys(rest)[i - 1] == key);
        key_has_member(rest, key);
    }
}

/// The latest version that an entry names is one that the entry has a release of:
/// looking for its source archive never fails for want of the version.
pub proof fn latest_version_has_a_release(entry: json::JsonTree, latest: Seq<char>)
    requires
        named_versions(entry) is Some,
        version::is_latest(latest, named_versions(entry)->0),
    ensures
        entry.member("releases"@) is Some,
        entry.member("releases"@)->0.member(latest) is Some,
        !(source_archive(entry, latest) matches Err(RegistryFault::ReleaseNotFound(_))),
        !(source_archive(entry, latest) matches Err(RegistryFault::ReleasesMissing)),
{
    let releases = entry.member("releases"@)->0;
    key_has_member(releases->Object_0, latest);
    if let Some(json::JsonTree::Array(artifacts)) = releases.member(latest) {
        first_source_fault(artifacts);
    }
}

proof fn first_source_fault(artifacts: Seq<json::JsonTree>)
    ensures
        match first_source(artifacts) {
            Ok(_) => true,
            Err(fault) => fault is NoSourceArchive || fault is PythonVersion || fault is ArchiveUrl,
        },
    decreases artifacts.len(),
{
    if artifacts.len() > 0 {
        first_source_fault(artifacts.drop_first());
    }
}

/// Whether the artifact at `k` is the first one for the Python version `source`.
pub open spec fn is_first_source(artifacts: Seq<json::JsonTree>, k: int) -> bool {
    &&& 0 <= k < artifacts.len()
    &&& artifacts[k].member_text("python_version"@) == Some("source"@)
    &&& forall|i: int|
        0 <= i < k ==> (#[trigger] artifacts[i]).member_text("python_version"@) is Some
            && artifacts[i].member_text("python_version"@) != Some("source"@)
}

/// The archive that is found is that of the first artifact for the Python version
/// `source`, and where there is such an artifact with a URL, it is found.
pub proof fn first_source_is_found(artifacts: Seq<json::JsonTree>, k: int)
    requires
        is_first_source(artifacts, k),
    ensures
        match artifacts[k].member_text("url"@) {
            Some(url) => first_source(artifacts) == Ok::<_, RegistryFault>(url),
            None => first_source(artifacts) == Err::<Seq<char>, _>(RegistryFault::ArchiveUrl),
        },
    decreases k,
{
    if k > 0 {
        let rest = artifacts.drop_first();
        assert(artifacts[0].member_text("python_version"@) is Some);
        assert forall|i: int| 0 <= i < k - 1 implies (#[trigger] rest[i]).member_text(
            "python_version"@,
        ) is Some && rest[i].member_text("python_version"@) != Some("source"@) by {
            assert(rest[i] == artifacts[i + 1]);
        }
        assert(rest[k - 1] == artifacts[k]);
        first_source_is_found(rest, k - 1);
    }
}

/// A URL is found only where there is an artifact for the Python version `source`.
pub proof fn found_archive_is_a_source(artifacts: Seq<json::JsonTree>)
    requires
        first_source(artifacts) is Ok,
    ensures
        exists|k: int| #[trigger] is_first_source(artifacts, k),
    decreases artifacts.len(),
{
    if artifacts[0].member_text("python_version"@) == Some("source"@) {
        assert(is_first_source(artifacts, 0));
    } else {
        let rest = artifacts.drop_first();
        found_archive_is_a_source(rest);
        let k = choose|k: int| #[trigger] is_first_source(rest, k);
        assert forall|i: int| 0 <= i < k + 1 implies (#[trigger] artifacts[i]).member_text(
            "python_version"@,
        ) is Some && artifacts[i].member_text("python_version"@) != Some("source"@) by {
            if i > 0 {
                assert(rest[i - 1] == artifacts[i]);
            }
        }
        assert(rest[k] == artifacts[k + 1]);
        assert(is_first_source(artifacts, k + 1));
    }
}

/// Whether a character stands for itself in HTML text.
pub open spec fn is_safe(c: char) -> bool {
    c != '<' && c != '>' && c != '"' && c != '&' && c != '\'' && c != '`' && c != '='
}

/// A text of characters that stand for themselves is its own HTML text.
pub proof fn safe_text_is_kept(text: Seq<char>)
    requires
        forall|i: int| 0 <= i < text.len() ==> is_safe(#[trigger] text[i]),
    ensures
        escaped(text) == text,
    decreases text.len(),
{
    if text.len() > 0 {
        safe_text_is_kept(text.drop_last());
        assert(is_safe(text[text.len() - 1]));
        assert(text.drop_last() + seq![text.last()] == text);
    }
}

/// Where the name and the version of a package need no escape, they stand in the URL
/// of its page as they are.
pub proof fn plain_human_url(package_name: Seq<char>, package_version: Seq<char>)
    requires
        forall|i: int| 0 <= i < package_name.len() ==> is_safe(#[trigger] package_name[i]),
        forall|i: int| 0 <= i < package_version.len() ==> is_safe(#[trigger] package_version[i]),
    ensures
        human_url_text(package_name, package_version) == "https://pypi.org/pypi/"@ + package_name
            + "/"@ + package_version + "/"@,
{
    safe_text_is_kept(package_name);
    safe_text_is_kept(package_version);
}

/// The versions that an entry names are the keys of the object under `releases`, all
/// of them and in their order.
pub proof fn entries_name_their_releases(
    entry: json::JsonTree,
    members: Seq<(Seq<char>, json::JsonTree)>,
    value: json::JsonTree,
)
    ensures
        json::has_member(entry, "releases"@, json::JsonTree::Object(members)) ==> named_versions(
            entry,
        ) is Some && named_versions(entry)->0.len() == members.len() && forall|i: int|
            0 <= i < members.len() ==> #[trigger] named_versions(entry)->0[i] == members[i].0,
        json::lacks_member(entry, "releases"@) || (json::has_member(entry, "releases"@, value) && !(
        value is Object)) ==> named_versions(entry) is None,
{
    json::members_are_found(entry, "releases"@, json::JsonTree::Object(members));
    json::members_are_found(entry, "releases"@, value);
}

/// Of the releases of an entry the one whose version is not exceeded by any before it,
/// and exceeds each one behind it, is the latest version of the entry.
pub proof fn greatest_release_of_an_entry_is_latest(
    entry: json::JsonTree,
    members: Seq<(Seq<char>, json::JsonTree)>,
    i: int,
    latest: Seq<char>,
)
    requires
        json::has_member(entry, "releases"@, json::JsonTree::Object(members)),
        0 <= i < members.len(),
        version::numbers(members[i].0) is Some,
        forall|k: int|
            0 <= k < i && version::numbers((#[trigger] members[k]).0) is Some ==> !version::later(
                version::numbers(members[k].0)->0,
                version::numbers(members[i].0)->0,
            ),
        forall|k: int|
            i < k < members.len() && version::numbers((#[trigger] members[k]).0) is Some
                ==> version::later(
                version::numbers(members[i].0)->0,
                version::numbers(members[k].0)->0,
            ),
    ensures
        named_versions(entry) is Some,
        version::is_latest(latest, named_versions(entry)->0) <==> latest == members[i].0,
        !version::names_no_version(named_versions(entry)->0),
{
    entries_name_their_releases(entry, members, json::JsonTree::Null);
    let named = named_versions(entry)->0;
    assert(named[i] == members[i].0);
    assert forall|k: int|
        0 <= k < i && version::numbers(#[trigger] named[k]) is Some implies !version::later(
        version::numbers(named[k])->0,
        version::numbers(named[i])->0,
    ) by {
        assert(named[k] == members[k].0);
    }
    assert forall|k: int|
        i < k < named.len() && version::numbers(#[trigger] named[k]) is Some implies version::later(
        version::numbers(named[i])->0,
        version::numbers(named[k])->0,
    ) by {
        assert(named[k] == members[k].0);
    }
    version::greatest_and_last_is_latest(named, i, latest);
}

/// Whether an artifact says that it is for another Python version than `source`.
pub open spec fn is_other_artifact(artifact: json::JsonTree) -> bool {
    exists|python_version: Seq<char>|
        python_version != "source"@ && #[trigger] json::has_member(
            artifact,
            "python_version"@,
            json::JsonTree::Text(python_version),
        )
}

/// Whether a list of artifacts is what an entry has for a version.
pub open spec fn has_artifacts(
    entry: json::JsonTree,
    version: Seq<char>,
    artifacts: Seq<json::JsonTree>,
) -> bool {
    exists|releases: json::JsonTree| #[trigger]
        json::has_member(entry, "releases"@, releases) && json::has_member(
            releases,
            version,
            json::JsonTree::Array(artifacts),
        )
}

proof fn other_artifacts_are_passed(artifacts: Seq<json::JsonTree>, k: int)
    requires
        0 <= k <= artifacts.len(),
        forall|i: int| 0 <= i < k ==> is_other_artifact(#[trigger] artifacts[i]),
    ensures
        first_source(artifacts) == first_source(artifacts.skip(k)),
    decreases k,
{
    if k == 0 {
        assert(artifacts.skip(0) == artifacts);
    } else {
        let rest = artifacts.drop_first();
        assert(is_other_artifact(artifacts[0]));
        let python_version = choose|python_version: Seq<char>|
            python_version != "source"@ && #[trigger] json::has_member(
                artifacts[0],
                "python_version"@,
                json::JsonTree::Text(python_version),
            );
        json::member_texts_are_found(artifacts[0], "python_version"@, python_version);
        assert forall|i: int| 0 <= i < k - 1 implies is_other_artifact(#[trigger] rest[i]) by {
            assert(rest[i] == artifacts[i + 1]);
        }
        other_artifacts_are_passed(rest, k - 1);
        assert(rest.skip(k - 1) == artifacts.skip(k));
    }
}

/// The source archive of a version is the first artifact for the Python version
/// `source`, however many artifacts stand before and behind it, and its URL is the
/// whole text under `url`.
pub proof fn first_source_archive_of_a_version_is_found(
    entry: json::JsonTree,
    version: Seq<char>,
    artifacts: Seq<json::JsonTree>,
    k: int,
    url: Seq<char>,
)
    requires
        has_artifacts(entry, version, artifacts),
        0 <= k < artifacts.len(),
        forall|i: int| 0 <= i < k ==> is_other_artifact(#[trigger] artifacts[i]),
        json::has_member(artifacts[k], "python_version"@, json::JsonTree::Text("source"@)),
    ensures
        json::has_member(artifacts[k], "url"@, json::JsonTree::Text(url)) ==> source_archive(
            entry,
            version,
        ) == Ok::<_, RegistryFault>(url) && archive_url(entry, version) == (match parsed_url(url) {
            Ok(normal) => Ok(normal),
            Err(error) => Err(RegistryFault::InvalidUrl(error)),
        }),
        (forall|text: Seq<char>|
            !(#[trigger] json::has_member(artifacts[k], "url"@, json::JsonTree::Text(text))))
            ==> source_archive(entry, version) == Err::<Seq<char>, _>(RegistryFault::ArchiveUrl)
            && archive_url(entry, version) == Err::<Seq<char>, _>(RegistryFault::ArchiveUrl),
{
    artifacts_are_those_of_the_version(entry, version, artifacts);
    other_artifacts_are_passed(artifacts, k);
    assert(artifacts.skip(k)[0] == artifacts[k]);
    json::member_texts_are_found(artifacts[k], "python_version"@, "source"@);
    json::member_texts_are_found(artifacts[k], "url"@, url);
    if artifacts[k].member_text("url"@) is Some {
        json::member_texts_are_found(
            artifacts[k],
            "url"@,
            artifacts[k].member_text("url"@)->0,
        );
    }
}

proof fn artifacts_are_those_of_the_version(
    entry: json::JsonTree,
    version: Seq<char>,
    artifacts: Seq<json::JsonTree>,
)
    requires
        has_artifacts(entry, version, artifacts),
    ensures
        artifacts.len() > 0 ==> source_archive(entry, version) == first_source(artifacts),
        artifacts.len() == 0 ==> source_archive(entry, version) == Err::<Seq<char>, _>(
            RegistryFault::ReleaseEmpty(version),
        ),
{
    let releases = choose|releases: json::JsonTree| #[trigger]
        json::has_member(entry, "releases"@, releases) && json::has_member(
            releases,
            version,
            json::JsonTree::Array(artifacts),
        );
    json::members_are_found(entry, "releases"@, releases);
    json::members_are_found(releases, version, json::JsonTree::Array(artifacts));
}

/// Where no artifact of a version is for the Python version `source`, there is no
/// source archive, and an artifact without a text for its Python version that stands
/// before the first source is a fault. A version without artifacts has none either.
pub proof fn versions_without_a_source_archive(
    entry: json::JsonTree,
    version: Seq<char>,
    artifacts: Seq<json::JsonTree>,
    k: int,
)
    requires
        has_artifacts(entry, version, artifacts),
        0 <= k <= artifacts.len(),
        forall|i: int| 0 <= i < k ==> is_other_artifact(#[trigger] artifacts[i]),
    ensures
        artifacts.len() == 0 ==> source_archive(entry, version) == Err::<Seq<char>, _>(
            RegistryFault::ReleaseEmpty(version),
        ),
        artifacts.len() > 0 && k == artifacts.len() ==> source_archive(entry, version) == Err::<
            Seq<char>,
            _,
        >(RegistryFault::NoSourceArchive),
        k < artifacts.len() && (forall|text: Seq<char>|
            !(#[trigger] json::has_member(
                artifacts[k],
                "python_version"@,
                json::JsonTree::Text(text),
            ))) ==> source_archive(entry, version) == Err::<Seq<char>, _>(
            RegistryFault::PythonVersion,
        ),
{
    artifacts_are_those_of_the_version(entry, version, artifacts);
    other_artifacts_are_passed(artifacts, k);
    if k < artifacts.len() {
        assert(artifacts.skip(k)[0] == artifacts[k]);
        if artifacts[k].member_text("python_version"@) is Some {
            json::member_texts_are_found(
                artifacts[k],
                "python_version"@,
                artifacts[k].member_text("python_version"@)->0,
            );
        }
    }
}

/// A version that an entry does not have, or has no list for, has no source archive,
/// nor has one of an entry without releases.
pub proof fn unknown_versions_have_no_source_archive(
    entry: json::JsonTree,
    version: Seq<char>,
    releases: json::JsonTree,
    value: json::JsonTree,
)
    ensures
        json::lacks_member(entry, "releases"@) ==> source_archive(entry, version) == Err::<
            Seq<char>,
            _,
        >(RegistryFault::ReleasesMissing),
        json::has_member(entry, "releases"@, releases) && json::lacks_member(releases, version)
            ==> source_archive(entry, version) == Err::<Seq<char>, _>(
            RegistryFault::ReleaseNotFound(version),
        ),
        json::has_member(entry, "releases"@, releases) && json::has_member(releases, version, value)
            && !(value is Array) ==> source_archive(entry, version) == Err::<Seq<char>, _>(
            RegistryFault::ReleaseNotArray(version),
        ),
{
    json::members_are_found(entry, "releases"@, releases);
    json::members_are_found(releases, version, value);
}

/// What hinders finding the source archive hinders finding its URL, and a URL that is
/// found is brought into normal form.
pub proof fn archive_urls_are_in_normal_form(entry: json::JsonTree, version: Seq<char>)
    ensures
        match source_archive(entry, version) {
            Ok(text) => match parsed_url(text) {
                Ok(url) => archive_url(entry, version) == Ok::<_, RegistryFault>(url),
                Err(error) => archive_url(entry, version) == Err::<Seq<char>, _>(
                    RegistryFault::InvalidUrl(error),
                ),
            },
            Err(fault) => archive_url(entry, version) == Err::<Seq<char>, _>(fault),
        },
{
}

/// HTML text is made character by character: seven characters are replaced and all
/// others are kept.
pub proof fn html_text_is_made_by_character(left: Seq<char>, right: Seq<char>, c: char)
    ensures
        escaped(left + right) == escaped(left) + escaped(right),
        escaped("<"@) == "&lt;"@,
        escaped(">"@) == "&gt;"@,
        escaped(seq!['"']) == "&quot;"@,
        escaped("&"@) == "&amp;"@,
        escaped("'"@) == "&#x27;"@,
        escaped("`"@) == "&#x60;"@,
        escaped("="@) == "&#x3D;"@,
        is_safe(c) ==> escaped(seq![c]) == seq![c],
    decreases right.len(),
{
    reveal_strlit("<");
    reveal_strlit(">");
    reveal_strlit("&");
    reveal_strlit("'");
    reveal_strlit("`");
    reveal_strlit("=");
    one_character_alone('<');
    one_character_alone('>');
    one_character_alone('"');
    one_character_alone('&');
    one_character_alone('\'');
    one_character_alone('`');
    one_character_alone('=');
    one_character_alone(c);
    assert("<"@ == seq!['<'] && ">"@ == seq!['>'] && "&"@ == seq!['&']);
    assert("'"@ == seq!['\''] && "`"@ == seq!['`'] && "="@ == seq!['=']);
    if right.len() == 0 {
        assert(left + right == left);
    } else {
        html_text_is_made_by_character(left, right.drop_last(), c);
        assert((left + right).drop_last() == left + right.drop_last());
        assert((left + right).last() == right.last());
        assert(escaped(left + right) == escaped(left) + escaped(right));
    }
}

proof fn one_character_alone(c: char)
    ensures
        escaped(seq![c]) == escaped_character(c),
{
    assert(seq![c].drop_last().len() == 0);
    assert(escaped(seq![c].drop_last()) == Seq::<char>::empty());
}

/// The entry of a package stands under its name at the registry, and its page under
/// its name and its version.
pub proof fn packages_stand_under_their_names(
    package_name: Seq<char>,
    package_version: Seq<char>,
)
    ensures
        entry_url(package_name) == "https://pypi.org/pypi/"@ + escaped(package_name) + "/json"@,
        human_url_text(package_name, package_version) == "https://pypi.org/pypi/"@ + escaped(
            package_name,
        ) + "/"@ + escaped(package_version) + "/"@,
        match parsed_url(human_url_text(package_name, package_version)) {
            Ok(url) => normal_url(human_url_text(package_name, package_version)) == Ok::<
                _,
                RegistryFault,
            >(url),
            Err(error) => normal_url(human_url_text(package_name, package_version)) == Err::<
                Seq<char>,
                _,
            >(RegistryFault::InvalidUrl(error)),
        },
{
}

/// A result stands for its text or for the fault of its error, and an error stands for
/// the fault of its own kind, with what it carries.
pub proof fn registry_errors_stand_for_their_faults(error: RegistryError, text: String)
    ensures
        outcome(Ok(text)) == Ok::<_, RegistryFault>(text@),
        outcome(Err(error)) == Err::<Seq<char>, _>(error@),
        match error {
            RegistryError::NotJson { body, source } => error@ == RegistryFault::NotJson(
                body@,
                source,
            ),
            RegistryError::ReleasesMissing => error@ is ReleasesMissing,
            RegistryError::VersionMissing => error@ is VersionMissing,
            RegistryError::ReleaseNotFound { version } => error@ == RegistryFault::ReleaseNotFound(
                version@,
            ),
            RegistryError::ReleaseNotArray { version } => error@ == RegistryFault::ReleaseNotArray(
                version@,
            ),
            RegistryError::ReleaseEmpty { version } => error@ == RegistryFault::ReleaseEmpty(
                version@,
            ),
            RegistryError::PythonVersion => error@ is PythonVersion,
            RegistryError::ArchiveUrl => error@ is ArchiveUrl,
            RegistryError::NoSourceArchive => error@ is NoSourceArchive,
            RegistryError::InvalidUrl(source) => error@ == RegistryFault::InvalidUrl(source),
            RegistryError::Template(source) => error@ == RegistryFault::Template(source),
        },
{
}

/// The messages of registry errors.
pub proof fn registry_messages(text: Seq<char>, source: serde_json::Error)
    ensures
        RegistryFault::NotJson(text, source).message() == Some(
            "JSON was not well-formatted:\n"@ + text,
        ),
        RegistryFault::ReleasesMissing.message() == Some("Failed to find releases JSON section."@),
        RegistryFault::VersionMissing.message() == Some("Failed to find package version."@),
        RegistryFault::ReleaseNotFound(text).message() == Some(
            "Package version not found in registry releases: "@ + text,
        ),
        RegistryFault::ReleaseNotArray(text).message() == Some(
            "Registry releases entry for version "@ + text + " is not an array."@,
        ),
        RegistryFault::ReleaseEmpty(text).message() == Some(
            "No release artifacts found for version "@ + text + "."@,
        ),
        RegistryFault::PythonVersion.message() == Some("Failed to parse package version."@),
        RegistryFault::ArchiveUrl.message() == Some("Failed to parse package archive URL."@),
        RegistryFault::NoSourceArchive.message() == Some(
            "Failed to identify package archive URL."@,
        ),
{
}

} // verus!
