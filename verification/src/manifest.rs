//! Install manifests: the JSON document that declares a service.

use crate::error::ErrorKind;
use crate::json::{
    each_of, field_of, fields_of, find_field, find_string, json_elements, json_fields,
    json_parsed, json_string_value, lemma_each_of_prefix, lemma_each_of_step, string_field,
    texts_of, views, Json,
};
use crate::service::{BuildTemplate, Dependency, MetaFunc, Metadata, Param, RuntimeTemplate};
use vstd::prelude::*;

verus! {

/// A top-level section of an install manifest.
#[derive(Clone, Copy, Debug, PartialEq, Eq, Structural)]
pub enum Section {
    Build,
    Runtime,
    Name,
    Type,
    Version,
    Func,
}

impl Section {
    /// The key under which the section stands in the manifest.
    pub open spec fn key_spec(self) -> Seq<char> {
        match self {
            Section::Build => "build"@,
            Section::Runtime => "runtime"@,
            Section::Name => "name"@,
            Section::Type => "type"@,
            Section::Version => "version"@,
            Section::Func => "func"@,
        }
    }

    /// The key under which the section stands in the manifest.
    pub fn key(&self) -> (key: &'static str)
        ensures
            key@ == self.key_spec(),
    {
        match self {
            Section::Build => "build",
            Section::Runtime => "runtime",
            Section::Name => "name",
            Section::Type => "type",
            Section::Version => "version",
            Section::Func => "func",
        }
    }
}

/// Why a manifest was refused.
#[derive(Clone, Copy, Debug, PartialEq, Eq, Structural)]
pub enum ManifestError {
    /// The manifest is no JSON object.
    Unreadable,
    /// The section is missing, or is not of the shape it must have.
    Missing(Section),
}

impl ManifestError {
    /// The message that reports the refusal.
    pub open spec fn message_spec(self) -> Seq<char> {
        match self {
            ManifestError::Unreadable => "manifest file load failed."@,
            ManifestError::Missing(section) => "'"@ + section.key_spec()
                + "' section missing in manifest file."@,
        }
    }

    /// The message that reports the refusal.
    pub fn message(&self) -> (message: String)
        ensures
            message@ == self.message_spec(),
    {
        match self {
            ManifestError::Unreadable => String::from_str("manifest file load failed."),
            ManifestError::Missing(section) => {
                let mut message = String::from_str("'");
                message.append(section.key());
                message.append("' section missing in manifest file.");
                message
            },
        }
    }

    /// The error kind that every refusal of a manifest comes under.
    pub fn kind(&self) -> (kind: ErrorKind)
        ensures
            kind == ErrorKind::ManifestMalformed,
    {
        ErrorKind::ManifestMalformed
    }
}

/// One entry of a function catalogue as text: the function's name, its
/// result type, and its parameters as label and type.
pub struct FuncText {
    pub name: Seq<char>,
    pub restype: Seq<char>,
    pub args: Seq<(Seq<char>, Seq<char>)>,
}

/// A build template as text.
pub struct BuildText {
    pub dependency: Seq<(Seq<char>, Seq<Seq<char>>)>,
    pub script: Seq<Seq<char>>,
    pub output: Seq<Seq<char>>,
}

/// A runtime template as text.
pub struct RuntimeText {
    pub dependency: Seq<(Seq<char>, Seq<Seq<char>>)>,
    pub status: Seq<char>,
    pub enable: Seq<Seq<char>>,
    pub disable: Seq<Seq<char>>,
}

/// A manifest as text.
pub struct ManifestText {
    pub name: Seq<char>,
    pub class: Seq<char>,
    pub version: Seq<char>,
    pub func: Seq<FuncText>,
    pub build: BuildText,
    pub runtime: RuntimeText,
}

/// A parameter as text.
pub open spec fn param_text(param: Param) -> (Seq<char>, Seq<char>) {
    (param.label@, param.kind@)
}

/// A list of parameters as text.
pub open spec fn params_text(params: Seq<Param>) -> Seq<(Seq<char>, Seq<char>)> {
    params.map_values(|param: Param| param_text(param))
}

/// A catalogue entry as text.
pub open spec fn func_text(func: MetaFunc) -> FuncText {
    FuncText { name: func.name@, restype: func.restype@, args: params_text(func.args@) }
}

/// A catalogue as text.
pub open spec fn catalogue_text(funcs: Seq<MetaFunc>) -> Seq<FuncText> {
    funcs.map_values(|func: MetaFunc| func_text(func))
}

/// A dependency declaration as text.
pub open spec fn dependency_text(dependency: Dependency) -> (Seq<char>, Seq<Seq<char>>) {
    (dependency.kind@, views(dependency.tokens@))
}

/// A list of dependency declarations as text.
pub open spec fn dependencies_text(list: Seq<Dependency>) -> Seq<(Seq<char>, Seq<Seq<char>>)> {
    list.map_values(|dependency: Dependency| dependency_text(dependency))
}

/// A build template as text.
pub open spec fn build_text(build: BuildTemplate) -> BuildText {
    BuildText {
        dependency: dependencies_text(build.dependency@),
        script: views(build.script@),
        output: views(build.output@),
    }
}

/// A runtime template as text.
pub open spec fn runtime_text(runtime: RuntimeTemplate) -> RuntimeText {
    RuntimeText {
        dependency: dependencies_text(runtime.dependency@),
        status: runtime.status@,
        enable: views(runtime.enable@),
        disable: views(runtime.disable@),
    }
}

/// What a manifest declares: the service's metadata and its two templates.
pub struct Manifest {
    pub metadata: Metadata,
    pub build: BuildTemplate,
    pub runtime: RuntimeTemplate,
}

impl View for Manifest {
    type V = ManifestText;

    open spec fn view(&self) -> ManifestText {
        ManifestText {
            name: self.metadata.name@,
            class: self.metadata.class@,
            version: self.metadata.version@,
            func: catalogue_text(self.metadata.func@),
            build: build_text(self.build),
            runtime: runtime_text(self.runtime),
        }
    }
}

/// Reads a document as a string.
pub open spec fn string_reader() -> spec_fn(Seq<char>) -> Option<Seq<char>> {
    |doc: Seq<char>| json_string_value(doc)
}

/// The strings that the list under `key` holds, if a list of strings is
/// there.
pub open spec fn string_list(fields: Seq<(Seq<char>, Seq<char>)>, key: Seq<char>) -> Option<
    Seq<Seq<char>>,
> {
    match field_of(fields, key) {
        Some(list) => match json_elements(list) {
            Some(docs) => each_of(docs, string_reader()),
            None => None,
        },
        None => None,
    }
}

/// Reads an entry as a dependency declaration: its key is the kind, its
/// value the list of tokens.
pub open spec fn dependency_reader() -> spec_fn((Seq<char>, Seq<char>)) -> Option<
    (Seq<char>, Seq<Seq<char>>),
> {
    |entry: (Seq<char>, Seq<char>)|
        match json_elements(entry.1) {
            Some(docs) => match each_of(docs, string_reader()) {
                Some(tokens) => Some((entry.0, tokens)),
                None => None,
            },
            None => None,
        }
}

/// The dependency declarations that the object under `dependency` holds,
/// one for each of its entries, if an object of lists of strings is there.
pub open spec fn dependency_map(fields: Seq<(Seq<char>, Seq<char>)>) -> Option<
    Seq<(Seq<char>, Seq<Seq<char>>)>,
> {
    match field_of(fields, "dependency"@) {
        Some(map) => match json_fields(map) {
            Some(entries) => each_of(entries, dependency_reader()),
            None => None,
        },
        None => None,
    }
}

/// The build template that a document holds: an object with the
/// dependencies under `dependency` and the lists of strings `script` and
/// `output`.
pub open spec fn build_of(doc: Seq<char>) -> Option<BuildText> {
    match json_fields(doc) {
        None => None,
        Some(fields) => match (
            dependency_map(fields),
            string_list(fields, "script"@),
            string_list(fields, "output"@),
        ) {
            (Some(dependency), Some(script), Some(output)) => Some(
                BuildText { dependency, script, output },
            ),
            _ => None,
        },
    }
}

/// The runtime template that a document holds: an object with the
/// dependencies under `dependency`, the string `status` and the lists of
/// strings `enable` and `disable`.
pub open spec fn runtime_of(doc: Seq<char>) -> Option<RuntimeText> {
    match json_fields(doc) {
        None => None,
        Some(fields) => match (
            dependency_map(fields),
            string_field(fields, "status"@),
            string_list(fields, "enable"@),
            string_list(fields, "disable"@),
        ) {
            (Some(dependency), Some(status), Some(enable), Some(disable)) => Some(
                RuntimeText { dependency, status, enable, disable },
            ),
            _ => None,
        },
    }
}

/// Reads a document as a parameter: the label and the type string of an
/// object with a single key.
pub open spec fn param_reader() -> spec_fn(Seq<char>) -> Option<(Seq<char>, Seq<char>)> {
    |doc: Seq<char>|
        match json_fields(doc) {
            Some(fields) => if fields.len() == 1 {
                match json_string_value(fields[0].1) {
                    Some(kind) => Some((fields[0].0, kind)),
                    None => None,
                }
            } else {
                None
            },
            None => None,
        }
}

/// Reads a document as a catalogue entry: an object with the strings
/// `name` and `restype` and the list `args` of parameters.
pub open spec fn function_reader() -> spec_fn(Seq<char>) -> Option<FuncText> {
    |doc: Seq<char>|
        match json_fields(doc) {
            None => None,
            Some(fields) => match (
                string_field(fields, "name"@),
                string_field(fields, "restype"@),
                field_of(fields, "args"@),
            ) {
                (Some(name), Some(restype), Some(list)) => match json_elements(list) {
                    Some(docs) => match each_of(docs, param_reader()) {
                        Some(args) => Some(FuncText { name, restype, args }),
                        None => None,
                    },
                    None => None,
                },
                _ => None,
            },
        }
}

/// The function catalogue of a manifest: empty where the manifest has no
/// `func` section, else the entries that the list under `func` declares.
pub open spec fn catalogue_of(fields: Seq<(Seq<char>, Seq<char>)>) -> Option<Seq<FuncText>> {
    match field_of(fields, "func"@) {
        None => Some(Seq::empty()),
        Some(list) => match json_elements(list) {
            Some(docs) => each_of(docs, function_reader()),
            None => None,
        },
    }
}

/// What the entries of a manifest declare, or the first section that is
/// missing or ill-formed, asked for in the order build, runtime, name,
/// type, version, func. The function catalogue may be absent, and is then
/// empty.
pub open spec fn manifest_of(fields: Seq<(Seq<char>, Seq<char>)>) -> Result<
    ManifestText,
    ManifestError,
> {
    match (match field_of(fields, "build"@) {
        Some(doc) => build_of(doc),
        None => None,
    }) {
        None => Err(ManifestError::Missing(Section::Build)),
        Some(build) => match (match field_of(fields, "runtime"@) {
            Some(doc) => runtime_of(doc),
            None => None,
        }) {
            None => Err(ManifestError::Missing(Section::Runtime)),
            Some(runtime) => match string_field(fields, "name"@) {
                None => Err(ManifestError::Missing(Section::Name)),
                Some(name) => match string_field(fields, "type"@) {
                    None => Err(ManifestError::Missing(Section::Type)),
                    Some(class) => match string_field(fields, "version"@) {
                        None => Err(ManifestError::Missing(Section::Version)),
                        Some(version) => match catalogue_of(fields) {
                            None => Err(ManifestError::Missing(Section::Func)),
                            Some(func) => Ok(
                                ManifestText { name, class, version, func, build, runtime },
                            ),
                        },
                    },
                },
            },
        },
    }
}

/// What the manifest that `text` holds declares. A text that is no JSON
/// object is unreadable.
pub open spec fn manifest_spec(text: Seq<char>) -> Result<ManifestText, ManifestError> {
    match json_parsed(text) {
        None => Err(ManifestError::Unreadable),
        Some(doc) => match json_fields(doc) {
            None => Err(ManifestError::Unreadable),
            Some(fields) => manifest_of(fields),
        },
    }
}

/// Reads a list of strings.
fn read_strings(docs: &Vec<Json>) -> (read: Option<Vec<String>>)
    ensures
        read matches Some(strings) ==> each_of(texts_of(docs@), string_reader()) == Some(
            views(strings@),
        ),
        read is None ==> each_of(texts_of(docs@), string_reader()) is None,
{
    let ghost all = texts_of(docs@);
    let mut strings: Vec<String> = Vec::new();
    let mut i: usize = 0;
    proof {
        if docs@.len() > 0 {
            lemma_each_of_step(all, string_reader(), 0);
        } else {
            assert(all.take(0) =~= all);
        }
        assert(views(strings@) =~= Seq::empty());
    }
    while i < docs.len()
        invariant
            i <= docs@.len(),
            all == texts_of(docs@),
            each_of(all.take(i as int), string_reader()) == Some(views(strings@)),
        decreases docs@.len() - i,
    {
        proof {
            lemma_each_of_step(all, string_reader(), i as int);
        }
        match docs[i].string_value() {
            Some(text) => {
                let ghost before = views(strings@);
                strings.push(text);
                assert(views(strings@) =~= before.push(text@));
            },
            None => {
                proof {
                    lemma_each_of_prefix(all, string_reader(), i + 1);
                }
                return None;
            },
        }
        i = i + 1;
    }
    assert(all.take(i as int) =~= all);
    Some(strings)
}

/// Reads the list of strings under `key`.
fn read_string_list(fields: &Vec<(String, Json)>, key: &str) -> (read: Option<Vec<String>>)
    ensures
        read matches Some(strings) ==> string_list(fields_of(fields@), key@) == Some(
            views(strings@),
        ),
        read is None ==> string_list(fields_of(fields@), key@) is None,
{
    match find_field(fields, key) {
        Some(list) => match list.elements() {
            Some(docs) => read_strings(&docs),
            None => None,
        },
        None => None,
    }
}

/// Reads the dependency declarations under `dependency`.
fn read_dependencies(fields: &Vec<(String, Json)>) -> (read: Option<Vec<Dependency>>)
    ensures
        read matches Some(list) ==> dependency_map(fields_of(fields@)) == Some(
            dependencies_text(list@),
        ),
        read is None ==> dependency_map(fields_of(fields@)) is None,
{
    let mut entries = match find_field(fields, "dependency") {
        Some(map) => match map.fields() {
            Some(entries) => entries,
            None => {
                return None;
            },
        },
        None => {
            return None;
        },
    };
    let ghost all = fields_of(entries@);
    let mut list: Vec<Dependency> = Vec::new();
    let mut i: usize = 0;
    proof {
        if entries@.len() > 0 {
            lemma_each_of_step(all, dependency_reader(), 0);
        } else {
            assert(all.take(0) =~= all);
        }
        assert(dependencies_text(list@) =~= Seq::empty());
    }
    while i < entries.len()
        invariant
            i <= entries@.len(),
            all == fields_of(entries@),
            dependency_map(fields_of(fields@)) == each_of(all, dependency_reader()),
            each_of(all.take(i as int), dependency_reader()) == Some(dependencies_text(list@)),
        decreases entries@.len() - i,
    {
        proof {
            lemma_each_of_step(all, dependency_reader(), i as int);
        }
        let entry = &entries[i];
        let tokens = match entry.1.elements() {
            Some(docs) => read_strings(&docs),
            None => None,
        };
        match tokens {
            Some(tokens) => {
                let ghost before = dependencies_text(list@);
                let dependency = Dependency { kind: entry.0.clone(), tokens };
                list.push(dependency);
                assert(dependencies_text(list@) =~= before.push(dependency_text(dependency)));
            },
            None => {
                proof {
                    lemma_each_of_prefix(all, dependency_reader(), i + 1);
                }
                return None;
            },
        }
        i = i + 1;
    }
    assert(all.take(i as int) =~= all);
    Some(list)
}

/// Reads a build template.
fn read_build(doc: &Json) -> (read: Option<BuildTemplate>)
    ensures
        read matches Some(build) ==> build_of(doc@) == Some(build_text(build)),
        read is None ==> build_of(doc@) is None,
{
    let fields = match doc.fields() {
        Some(fields) => fields,
        None => {
            return None;
        },
    };
    let dependency = read_dependencies(&fields);
    let script = read_string_list(&fields, "script");
    let output = read_string_list(&fields, "output");
    match (dependency, script, output) {
        (Some(dependency), Some(script), Some(output)) => Some(
            BuildTemplate { dependency, script, output },
        ),
        _ => None,
    }
}

/// Reads a runtime template.
fn read_runtime(doc: &Json) -> (read: Option<RuntimeTemplate>)
    ensures
        read matches Some(runtime) ==> runtime_of(doc@) == Some(runtime_text(runtime)),
        read is None ==> runtime_of(doc@) is None,
{
    let fields = match doc.fields() {
        Some(fields) => fields,
        None => {
            return None;
        },
    };
    let dependency = read_dependencies(&fields);
    let status = find_string(&fields, "status");
    let enable = read_string_list(&fields, "enable");
    let disable = read_string_list(&fields, "disable");
    match (dependency, status, enable, disable) {
        (Some(dependency), Some(status), Some(enable), Some(disable)) => Some(
            RuntimeTemplate { dependency, status, enable, disable },
        ),
        _ => None,
    }
}

/// Reads one declared parameter.
fn read_param(doc: &Json) -> (read: Option<Param>)
    ensures
        read matches Some(param) ==> param_reader()(doc@) == Some(param_text(param)),
        read is None ==> param_reader()(doc@) is None,
{
    let mut fields = match doc.fields() {
        Some(fields) => fields,
        None => {
            return None;
        },
    };
    if fields.len() != 1 {
        return None;
    }
    let ghost all = fields@;
    match fields.pop() {
        Some((label, value)) => {
            assert(fields_of(all)[0] == (label@, value@));
            match value.string_value() {
                Some(kind) => Some(Param { label, kind }),
                None => None,
            }
        },
        None => None,
    }
}

/// Reads a list of declared parameters.
fn read_params(docs: &Vec<Json>) -> (read: Option<Vec<Param>>)
    ensures
        read matches Some(params) ==> each_of(texts_of(docs@), param_reader()) == Some(
            params_text(params@),
        ),
        read is None ==> each_of(texts_of(docs@), param_reader()) is None,
{
    let ghost all = texts_of(docs@);
    let mut params: Vec<Param> = Vec::new();
    let mut i: usize = 0;
    proof {
        if docs@.len() > 0 {
            lemma_each_of_step(all, param_reader(), 0);
        } else {
            assert(all.take(0) =~= all);
        }
        assert(params_text(params@) =~= Seq::empty());
    }
    while i < docs.len()
        invariant
            i <= docs@.len(),
            all == texts_of(docs@),
            each_of(all.take(i as int), param_reader()) == Some(params_text(params@)),
        decreases docs@.len() - i,
    {
        proof {
            lemma_each_of_step(all, param_reader(), i as int);
        }
        match read_param(&docs[i]) {
            Some(param) => {
                let ghost before = params_text(params@);
                params.push(param);
                assert(params_text(params@) =~= before.push(param_text(param)));
            },
            None => {
                proof {
                    lemma_each_of_prefix(all, param_reader(), i + 1);
                }
                return None;
            },
        }
        i = i + 1;
    }
    assert(all.take(i as int) =~= all);
    Some(params)
}

/// Reads one catalogue entry.
fn read_function(doc: &Json) -> (read: Option<MetaFunc>)
    ensures
        read matches Some(func) ==> function_reader()(doc@) == Some(func_text(func)),
        read is None ==> function_reader()(doc@) is None,
{
    let fields = match doc.fields() {
        Some(fields) => fields,
        None => {
            return None;
        },
    };
    let name = find_string(&fields, "name");
    let restype = find_string(&fields, "restype");
    let list = find_field(&fields, "args");
    match (name, restype, list) {
        (Some(name), Some(restype), Some(list)) => {
            let docs = match list.elements() {
                Some(docs) => docs,
                None => {
                    return None;
                },
            };
            match read_params(&docs) {
                Some(args) => Some(MetaFunc { name, restype, args }),
                None => None,
            }
        },
        _ => None,
    }
}

/// Reads the function catalogue from the entries of a manifest.
fn read_catalogue(fields: &Vec<(String, Json)>) -> (read: Option<Vec<MetaFunc>>)
    ensures
        read matches Some(funcs) ==> catalogue_of(fields_of(fields@)) == Some(
            catalogue_text(funcs@),
        ),
        read is None ==> catalogue_of(fields_of(fields@)) is None,
{
    let mut funcs: Vec<MetaFunc> = Vec::new();
    assert(catalogue_text(funcs@) =~= Seq::empty());
    let docs = match find_field(fields, "func") {
        None => {
            return Some(funcs);
        },
        Some(list) => match list.elements() {
            Some(docs) => docs,
            None => {
                return None;
            },
        },
    };
    let ghost all = texts_of(docs@);
    let mut i: usize = 0;
    proof {
        if docs@.len() > 0 {
            lemma_each_of_step(all, function_reader(), 0);
        } else {
            assert(all.take(0) =~= all);
        }
    }
    while i < docs.len()
        invariant
            i <= docs@.len(),
            all == texts_of(docs@),
            catalogue_of(fields_of(fields@)) == each_of(all, function_reader()),
            each_of(all.take(i as int), function_reader()) == Some(catalogue_text(funcs@)),
        decreases docs@.len() - i,
    {
        proof {
            lemma_each_of_step(all, function_reader(), i as int);
        }
        match read_function(&docs[i]) {
            Some(func) => {
                let ghost before = catalogue_text(funcs@);
                funcs.push(func);
                assert(catalogue_text(funcs@) =~= before.push(func_text(func)));
            },
            None => {
                proof {
                    lemma_each_of_prefix(all, function_reader(), i + 1);
                }
                return None;
            },
        }
        i = i + 1;
    }
    assert(all.take(i as int) =~= all);
    Some(funcs)
}

/// Reads an install manifest: the metadata of the service with its
/// function catalogue, and the build and runtime templates. The first
/// section that is missing or ill-formed is reported.
pub fn read_manifest(text: &str) -> (read: Result<Manifest, ManifestError>)
    ensures
        match manifest_spec(text@) {
            Ok(manifest) => read matches Ok(found) && found@ == manifest,
            Err(error) => read matches Err(found) && found == error,
        },
{
    let fields = match Json::parse(text) {
        Some(doc) => match doc.fields() {
            Some(fields) => fields,
            None => {
                return Err(ManifestError::Unreadable);
            },
        },
        None => {
            return Err(ManifestError::Unreadable);
        },
    };
    let build = match find_field(&fields, "build") {
        Some(doc) => read_build(doc),
        None => None,
    };
    let build = match build {
        Some(build) => build,
        None => {
            return Err(ManifestError::Missing(Section::Build));
        },
    };
    let runtime = match find_field(&fields, "runtime") {
        Some(doc) => read_runtime(doc),
        None => None,
    };
    let runtime = match runtime {
        Some(runtime) => runtime,
        None => {
            return Err(ManifestError::Missing(Section::Runtime));
        },
    };
    let name = match find_string(&fields, "name") {
        Some(name) => name,
        None => {
            return Err(ManifestError::Missing(Section::Name));
        },
    };
    let class = match find_string(&fields, "type") {
        Some(class) => class,
        None => {
            return Err(ManifestError::Missing(Section::Type));
        },
    };
    let version = match find_string(&fields, "version") {
        Some(version) => version,
        None => {
            return Err(ManifestError::Missing(Section::Version));
        },
    };
    let func = match read_catalogue(&fields) {
        Some(func) => func,
        None => {
            return Err(ManifestError::Missing(Section::Func));
        },
    };
    Ok(Manifest { metadata: Metadata { name, class, version, func }, build, runtime })
}

} // verus!
