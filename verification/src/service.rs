//! Services: what a manifest declares of one, and what is kept of it once it
//! is loaded.

use crate::error::ErrorKind;
use vstd::prelude::*;

verus! {

/// The largest number of arguments that an entry point can take.
pub const MAX_ARITY: usize = 5;

/// Declares the outside type of an opened shared object, so that a loaded
/// service can own one. Nothing is known of its inside.
#[verifier::external_type_specification]
#[verifier::external_body]
pub struct ExLibrary(libloading::Library);

/// Whether two strings hold the same characters.
pub fn same_text(a: &str, b: &str) -> (same: bool)
    ensures
        same == (a@ == b@),
{
    let left = a.to_owned();
    let right = b.to_owned();
    left == right
}

/// One declared parameter of a function: its label and its type, as written.
pub struct Param {
    pub label: String,
    pub kind: String,
}

/// One entry of a service's function catalogue.
pub struct MetaFunc {
    pub name: String,
    pub restype: String,
    pub args: Vec<Param>,
}

/// What a manifest says of a service as a whole.
pub struct Metadata {
    pub name: String,
    pub class: String,
    pub version: String,
    pub func: Vec<MetaFunc>,
}

/// One dependency declaration: a kind of dependency and the tokens handed
/// to whatever satisfies that kind.
pub struct Dependency {
    pub kind: String,
    pub tokens: Vec<String>,
}

/// How a service is built at install time.
pub struct BuildTemplate {
    pub dependency: Vec<Dependency>,
    pub script: Vec<String>,
    pub output: Vec<String>,
}

/// What a service needs at run time, and how it is switched on and off.
pub struct RuntimeTemplate {
    pub dependency: Vec<Dependency>,
    pub status: String,
    pub enable: Vec<String>,
    pub disable: Vec<String>,
}

/// What is recorded on disk of an installed service.
pub struct ServiceConfig {
    pub entry: String,
    pub files: Vec<String>,
    pub metadata: Option<Metadata>,
    pub runtime: Option<RuntimeTemplate>,
}

impl Default for ServiceConfig {
    fn default() -> (cfg: Self)
        ensures
            cfg.entry@.len() == 0,
            cfg.files@.len() == 0,
            cfg.metadata is None,
            cfg.runtime is None,
    {
        ServiceConfig { entry: String::new(), files: Vec::new(), metadata: None, runtime: None }
    }
}

impl ServiceConfig {
    /// The record of a fresh installation: the entry is the first of the
    /// installed files.
    pub fn for_install(files: Vec<String>, metadata: Metadata, runtime: RuntimeTemplate) -> (cfg:
        Self)
        requires
            files@.len() > 0,
        ensures
            cfg.entry@ == files@[0]@,
            cfg.files == files,
            cfg.metadata == Some(metadata),
            cfg.runtime == Some(runtime),
    {
        let entry = files[0].clone();
        ServiceConfig { entry, files, metadata: Some(metadata), runtime: Some(runtime) }
    }
}

/// The calling convention of a service.
#[derive(Clone, Copy, Debug, PartialEq, Eq, Structural)]
pub enum ServiceClass {
    /// A shared object with C entry points that exchange C strings.
    C,
    /// As `C`, built from C++.
    Cpp,
    /// A shared object whose entry points exchange owned strings.
    Rust,
    /// Source text for the scripting runtime.
    Python,
}

impl ServiceClass {
    /// The class that a manifest's `type` string names, if any.
    pub open spec fn parse_spec(text: Seq<char>) -> Option<ServiceClass> {
        if text == "c"@ {
            Some(ServiceClass::C)
        } else if text == "cpp"@ {
            Some(ServiceClass::Cpp)
        } else if text == "rust"@ {
            Some(ServiceClass::Rust)
        } else if text == "python"@ {
            Some(ServiceClass::Python)
        } else {
            None
        }
    }

    /// The class that a manifest's `type` string names, if any.
    pub fn parse(text: &str) -> (class: Option<ServiceClass>)
        ensures
            class == Self::parse_spec(text@),
    {
        if same_text(text, "c") {
            Some(ServiceClass::C)
        } else if same_text(text, "cpp") {
            Some(ServiceClass::Cpp)
        } else if same_text(text, "rust") {
            Some(ServiceClass::Rust)
        } else if same_text(text, "python") {
            Some(ServiceClass::Python)
        } else {
            None
        }
    }

    /// Whether a service of this class is opened as a shared object, rather
    /// than read as source text.
    pub open spec fn is_native(self) -> bool {
        self != ServiceClass::Python
    }
}

/// What the host holds in memory of a loaded service: an opened shared
/// object with C strings at its boundary, one with owned strings at its
/// boundary, or the source text of a scripted module.
pub enum LibraryContext {
    CDLL(libloading::Library),
    Rust(libloading::Library),
    Python(String),
}

/// Which of the three calling conventions a loaded service has.
#[derive(Clone, Copy, Debug, PartialEq, Eq, Structural)]
pub enum ContextKind {
    CDLL,
    Rust,
    Python,
}

impl LibraryContext {
    /// The calling convention of this context.
    pub open spec fn kind_spec(self) -> ContextKind {
        match self {
            LibraryContext::CDLL(_) => ContextKind::CDLL,
            LibraryContext::Rust(_) => ContextKind::Rust,
            LibraryContext::Python(_) => ContextKind::Python,
        }
    }
}

/// What the platform made of a service's entry file.
pub enum Material {
    /// The entry file, opened as a shared object.
    Library(libloading::Library),
    /// The text of the entry file.
    Source(String),
    /// The entry file is there, but could not be opened or read.
    Failed,
    /// There is no entry file.
    Missing,
}

/// What has to be made of an entry file before its service can be loaded.
#[derive(Clone, Copy, Debug, PartialEq, Eq, Structural)]
pub enum MaterialKind {
    /// Open the entry file as a shared object.
    SharedObject,
    /// Read the entry file as text.
    SourceText,
}

/// A callable function of a loaded service and the number of arguments it
/// takes.
pub struct EntryPoint {
    pub name: String,
    pub arity: usize,
}

/// The entry points that a catalogue yields: one for each function that
/// takes at most `MAX_ARITY` arguments, in the catalogue's order.
pub open spec fn bound_entries(funcs: Seq<MetaFunc>) -> Seq<(Seq<char>, nat)>
    decreases funcs.len(),
{
    if funcs.len() == 0 {
        Seq::empty()
    } else {
        let rest = bound_entries(funcs.drop_last());
        let last = funcs.last();
        if last.args@.len() <= MAX_ARITY {
            rest.push((last.name@, last.args@.len()))
        } else {
            rest
        }
    }
}

/// The arity of the first entry point called `name`, if there is one.
pub open spec fn arity_of(entries: Seq<(Seq<char>, nat)>, name: Seq<char>) -> Option<nat>
    decreases entries.len(),
{
    if entries.len() == 0 {
        None
    } else {
        match arity_of(entries.drop_last(), name) {
            Some(arity) => Some(arity),
            None => if entries.last().0 == name {
                Some(entries.last().1)
            } else {
                None
            },
        }
    }
}

/// What is found among the first entries is found among all of them.
proof fn lemma_arity_of_prefix(entries: Seq<(Seq<char>, nat)>, name: Seq<char>, k: int)
    requires
        0 <= k <= entries.len(),
        arity_of(entries.take(k), name) is Some,
    ensures
        arity_of(entries, name) == arity_of(entries.take(k), name),
    decreases entries.len() - k,
{
    if k < entries.len() {
        assert(entries.take(k + 1).drop_last() =~= entries.take(k));
        lemma_arity_of_prefix(entries, name, k + 1);
    } else {
        assert(entries.take(k) =~= entries);
    }
}

/// A name that no function of a catalogue has is bound to nothing.
proof fn lemma_unnamed_is_unbound(funcs: Seq<MetaFunc>, name: Seq<char>)
    requires
        forall|j: int| 0 <= j < funcs.len() ==> (#[trigger] funcs[j]).name@ != name,
    ensures
        arity_of(bound_entries(funcs), name) is None,
    decreases funcs.len(),
{
    if funcs.len() > 0 {
        let front = funcs.drop_last();
        assert forall|j: int| 0 <= j < front.len() implies (#[trigger] front[j]).name@ != name by {
            assert(front[j] == funcs[j]);
        }
        lemma_unnamed_is_unbound(front, name);
        assert(funcs.last() == funcs[funcs.len() - 1]);
        if funcs.last().args@.len() <= MAX_ARITY {
            assert(bound_entries(funcs).drop_last() =~= bound_entries(front));
        }
    }
}

/// Every function that a catalogue declares with at most `MAX_ARITY`
/// parameters, none before it having its name, can be called with as many
/// arguments as it has parameters.
pub proof fn lemma_declared_function_is_callable(funcs: Seq<MetaFunc>, i: int)
    requires
        0 <= i < funcs.len(),
        funcs[i].args@.len() <= MAX_ARITY,
        forall|j: int| 0 <= j < i ==> (#[trigger] funcs[j]).name@ != funcs[i].name@,
    ensures
        arity_of(bound_entries(funcs), funcs[i].name@) == Some(funcs[i].args@.len()),
        call_check(bound_entries(funcs), funcs[i].name@, funcs[i].args@.len()) == Ok::<
            (),
            ErrorKind,
        >(()),
    decreases funcs.len(),
{
    let name = funcs[i].name@;
    let front = funcs.drop_last();
    let last = funcs.last();
    assert(last == funcs[funcs.len() - 1]);
    if i == funcs.len() - 1 {
        assert forall|j: int| 0 <= j < front.len() implies (#[trigger] front[j]).name@ != name by {
            assert(front[j] == funcs[j]);
        }
        lemma_unnamed_is_unbound(front, name);
        assert(bound_entries(funcs).drop_last() =~= bound_entries(front));
    } else {
        assert(front[i] == funcs[i]);
        assert forall|j: int| 0 <= j < i implies (#[trigger] front[j]).name@ != front[i].name@ by {
            assert(front[j] == funcs[j]);
        }
        lemma_declared_function_is_callable(front, i);
        if last.args@.len() <= MAX_ARITY {
            assert(bound_entries(funcs).drop_last() =~= bound_entries(front));
        }
    }
}

/// A function that a catalogue declares with more than `MAX_ARITY`
/// parameters, no other having its name, cannot be called at all.
pub proof fn lemma_oversized_function_is_unbound(funcs: Seq<MetaFunc>, i: int, argc: nat)
    requires
        0 <= i < funcs.len(),
        funcs[i].args@.len() > MAX_ARITY,
        forall|j: int|
            0 <= j < funcs.len() && j != i ==> (#[trigger] funcs[j]).name@ != funcs[i].name@,
    ensures
        call_check(bound_entries(funcs), funcs[i].name@, argc) == Err::<(), ErrorKind>(
            ErrorKind::UnknownFunction,
        ),
    decreases funcs.len(),
{
    let name = funcs[i].name@;
    let front = funcs.drop_last();
    let last = funcs.last();
    assert(last == funcs[funcs.len() - 1]);
    if i == funcs.len() - 1 {
        assert forall|j: int| 0 <= j < front.len() implies (#[trigger] front[j]).name@ != name by {
            assert(front[j] == funcs[j]);
        }
        lemma_unnamed_is_unbound(front, name);
    } else {
        assert(front[i] == funcs[i]);
        assert forall|j: int| 0 <= j < front.len() && j != i implies (#[trigger] front[j]).name@
            != front[i].name@ by {
            assert(front[j] == funcs[j]);
        }
        lemma_oversized_function_is_unbound(front, i, argc);
        if last.args@.len() <= MAX_ARITY {
            assert(bound_entries(funcs).drop_last() =~= bound_entries(front));
        }
    }
}

/// Whether a call of `name` with `argc` arguments can go ahead, and the
/// error kind if it cannot.
pub open spec fn call_check(entries: Seq<(Seq<char>, nat)>, name: Seq<char>, argc: nat) -> Result<
    (),
    ErrorKind,
> {
    match arity_of(entries, name) {
        None => Err(ErrorKind::UnknownFunction),
        Some(arity) => if arity == argc {
            Ok(())
        } else {
            Err(ErrorKind::ArityMismatch)
        },
    }
}

/// What loading decides before the entry file is touched: the kind of
/// material to fetch, or why the service cannot be loaded at all.
pub open spec fn load_plan_spec(entry: Seq<char>, class: Seq<char>) -> Result<
    MaterialKind,
    ErrorKind,
> {
    match ServiceClass::parse_spec(class) {
        None => Err(ErrorKind::UnsupportedClass),
        Some(parsed) => if entry.len() == 0 {
            Err(ErrorKind::EntryMissing)
        } else if parsed.is_native() {
            Ok(MaterialKind::SharedObject)
        } else {
            Ok(MaterialKind::SourceText)
        },
    }
}

/// The outcome of loading, given what the platform made of the entry file:
/// the calling convention of the loaded service, or the error kind.
pub open spec fn load_spec(entry: Seq<char>, class: Seq<char>, material: Material) -> Result<
    ContextKind,
    ErrorKind,
> {
    match load_plan_spec(entry, class) {
        Err(kind) => Err(kind),
        Ok(wanted) => match material {
            Material::Missing => Err(ErrorKind::EntryMissing),
            Material::Failed => Err(ErrorKind::OpenFailed),
            Material::Library(_) => if wanted == MaterialKind::SharedObject {
                if ServiceClass::parse_spec(class) == Some(ServiceClass::Rust) {
                    Ok(ContextKind::Rust)
                } else {
                    Ok(ContextKind::CDLL)
                }
            } else {
                Err(ErrorKind::OpenFailed)
            },
            Material::Source(_) => if wanted == MaterialKind::SourceText {
                Ok(ContextKind::Python)
            } else {
                Err(ErrorKind::OpenFailed)
            },
        },
    }
}

/// A service as it lives in memory: its library context and the entry
/// points bound from its catalogue.
pub struct Service {
    context: LibraryContext,
    entries: Vec<EntryPoint>,
}

impl Service {
    /// The calling convention of the service.
    pub closed spec fn kind_spec(&self) -> ContextKind {
        self.context.kind_spec()
    }

    /// The source text of a scripted service.
    pub closed spec fn source_spec(&self) -> Option<Seq<char>> {
        match self.context {
            LibraryContext::Python(text) => Some(text@),
            _ => None,
        }
    }

    /// The entry points of the service, as name and arity, in order.
    pub closed spec fn entries(&self) -> Seq<(Seq<char>, nat)> {
        Seq::new(
            self.entries@.len(),
            |i: int| (self.entries@[i].name@, self.entries@[i].arity as nat),
        )
    }

    /// No entry point takes more than `MAX_ARITY` arguments.
    #[verifier::type_invariant]
    spec fn arities_bound(&self) -> bool {
        forall|i: int|
            0 <= i < self.entries@.len() ==> (#[trigger] self.entries@[i]).arity <= MAX_ARITY
    }

    /// Says what to make of the entry file before `load` can be called, or
    /// why the service cannot be loaded whatever the file holds.
    pub fn load_plan(entry: &String, metadata: &Metadata) -> (plan: Result<MaterialKind, ErrorKind>)
        ensures
            plan == load_plan_spec(entry@, metadata.class@),
    {
        match ServiceClass::parse(metadata.class.as_str()) {
            None => Err(ErrorKind::UnsupportedClass),
            Some(class) => {
                if entry.as_str().unicode_len() == 0 {
                    Err(ErrorKind::EntryMissing)
                } else {
                    match class {
                        ServiceClass::Python => Ok(MaterialKind::SourceText),
                        _ => Ok(MaterialKind::SharedObject),
                    }
                }
            },
        }
    }

    /// Binds the entry points of a catalogue: every function of at most
    /// `MAX_ARITY` parameters, with its parameter count as arity.
    fn bind_entries(funcs: &Vec<MetaFunc>) -> (entries: Vec<EntryPoint>)
        ensures
            Seq::new(entries@.len(), |i: int| (entries@[i].name@, entries@[i].arity as nat))
                == bound_entries(funcs@),
            forall|i: int| 0 <= i < entries@.len() ==> (#[trigger] entries@[i]).arity <= MAX_ARITY,
    {
        let mut entries: Vec<EntryPoint> = Vec::new();
        let mut i: usize = 0;
        assert(funcs@.take(0) =~= Seq::<MetaFunc>::empty());
        while i < funcs.len()
            invariant
                i <= funcs@.len(),
                Seq::new(entries@.len(), |k: int| (entries@[k].name@, entries@[k].arity as nat))
                    =~= bound_entries(funcs@.take(i as int)),
                forall|k: int|
                    0 <= k < entries@.len() ==> (#[trigger] entries@[k]).arity <= MAX_ARITY,
            decreases funcs@.len() - i,
        {
            let func = &funcs[i];
            let arity = func.args.len();
            assert(funcs@.take(i + 1).drop_last() =~= funcs@.take(i as int));
            if arity <= MAX_ARITY {
                entries.push(EntryPoint { name: func.name.clone(), arity });
            }
            i = i + 1;
        }
        assert(funcs@.take(i as int) =~= funcs@);
        entries
    }

    /// Loads a service from what the platform made of its entry file.
    ///
    /// The class decides first, then the presence of an entry, then whether
    /// the material is of the kind that the class asks for.
    pub fn load(entry: &String, metadata: &Metadata, material: Material) -> (loaded: Result<
        Service,
        ErrorKind,
    >)
        ensures
            match loaded {
                Ok(service) => {
                    &&& load_spec(entry@, metadata.class@, material) == Ok::<
                        ContextKind,
                        ErrorKind,
                    >(service.kind_spec())
                    &&& service.entries() == bound_entries(metadata.func@)
                    &&& material matches Material::Source(text) ==> service.source_spec() == Some(
                        text@,
                    )
                },
                Err(kind) => load_spec(entry@, metadata.class@, material) == Err::<
                    ContextKind,
                    ErrorKind,
                >(kind),
            },
    {
        let wanted = match Self::load_plan(entry, metadata) {
            Ok(wanted) => wanted,
            Err(kind) => {
                return Err(kind);
            },
        };
        let context = match material {
            Material::Missing => {
                return Err(ErrorKind::EntryMissing);
            },
            Material::Failed => {
                return Err(ErrorKind::OpenFailed);
            },
            Material::Library(library) => {
                match wanted {
                    MaterialKind::SourceText => {
                        return Err(ErrorKind::OpenFailed);
                    },
                    MaterialKind::SharedObject => {
                        match ServiceClass::parse(metadata.class.as_str()) {
                            Some(ServiceClass::Rust) => LibraryContext::Rust(library),
                            _ => LibraryContext::CDLL(library),
                        }
                    },
                }
            },
            Material::Source(text) => {
                match wanted {
                    MaterialKind::SharedObject => {
                        return Err(ErrorKind::OpenFailed);
                    },
                    MaterialKind::SourceText => LibraryContext::Python(text),
                }
            },
        };
        let entries = Self::bind_entries(&metadata.func);
        Ok(Service { context, entries })
    }

    /// The calling convention of the service.
    pub fn kind(&self) -> (kind: ContextKind)
        ensures
            kind == self.kind_spec(),
    {
        match &self.context {
            LibraryContext::CDLL(_) => ContextKind::CDLL,
            LibraryContext::Rust(_) => ContextKind::Rust,
            LibraryContext::Python(_) => ContextKind::Python,
        }
    }

    /// The library context, for whoever makes the call.
    pub fn context(&self) -> (context: &LibraryContext)
        ensures
            context.kind_spec() == self.kind_spec(),
    {
        &self.context
    }

    /// Checks a call against the catalogue: the function must be bound, and
    /// the number of arguments must be its arity. A call that passes has at
    /// most `MAX_ARITY` arguments.
    pub fn check_call(&self, name: &str, argc: usize) -> (checked: Result<(), ErrorKind>)
        ensures
            checked == call_check(self.entries(), name@, argc as nat),
            checked is Ok ==> argc <= MAX_ARITY,
    {
        proof {
            use_type_invariant(self);
        }
        let mut i: usize = 0;
        assert(self.entries().take(0) =~= Seq::<(Seq<char>, nat)>::empty());
        while i < self.entries.len()
            invariant
                i <= self.entries@.len(),
                arity_of(self.entries().take(i as int), name@) is None,
                forall|k: int|
                    0 <= k < self.entries@.len() ==> (#[trigger] self.entries@[k]).arity
                        <= MAX_ARITY,
            decreases self.entries@.len() - i,
        {
            let entry = &self.entries[i];
            assert(self.entries().take(i + 1).drop_last() =~= self.entries().take(i as int));
            assert(self.entries().take(i + 1).last() == self.entries()[i as int]);
            if same_text(entry.name.as_str(), name) {
                proof {
                    lemma_arity_of_prefix(self.entries(), name@, i + 1);
                }
                if entry.arity == argc {
                    return Ok(());
                } else {
                    return Err(ErrorKind::ArityMismatch);
                }
            }
            i = i + 1;
        }
        assert(self.entries().take(i as int) =~= self.entries());
        Err(ErrorKind::UnknownFunction)
    }
}

} // verus!
