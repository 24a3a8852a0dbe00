//! Installing and removing services: what is decided before and after the
//! build commands run and the files are moved.

use crate::error::ErrorKind;
use crate::handle::{decimal, format_decimal};
use crate::registry::{FFIManagerStub, RegistryView};
use crate::service::{Metadata, RuntimeTemplate, ServiceConfig};
use vstd::prelude::*;

verus! {

/// The longest service name that is accepted.
pub const MAX_NAME_LEN: usize = 255;

/// Whether `c` may stand in a service name: an ASCII letter or digit, or
/// one of `_`, `-` and `.`.
pub open spec fn is_name_char(c: char) -> bool {
    ||| 'a' <= c <= 'z'
    ||| 'A' <= c <= 'Z'
    ||| '0' <= c <= '9'
    ||| c == '_'
    ||| c == '-'
    ||| c == '.'
}

/// Whether `name` is safe to join to the root as a directory name: not
/// empty, not longer than `MAX_NAME_LEN`, not starting with a dot, and made
/// of name characters alone.
pub open spec fn name_is_safe(name: Seq<char>) -> bool {
    &&& 0 < name.len() <= MAX_NAME_LEN
    &&& name[0] != '.'
    &&& forall|i: int| 0 <= i < name.len() ==> is_name_char(#[trigger] name[i])
}

/// Checks a service name against `name_is_safe`.
pub fn check_name(name: &str) -> (safe: bool)
    ensures
        safe == name_is_safe(name@),
{
    if !name.is_ascii() {
        proof {
            let j = choose|j: int|
                0 <= j < name@.len() && !('\0' <= #[trigger] name@[j] && name@[j] <= '\u{7f}');
            assert(!is_name_char(name@[j]));
        }
        return false;
    }
    let bytes = name.as_bytes();
    proof {
        vstd::string::is_ascii_spec_bytes(name);
    }
    let n = bytes.len();
    if n == 0 || n > MAX_NAME_LEN {
        return false;
    }
    if bytes[0] == 46 {
        return false;
    }
    let mut i: usize = 0;
    while i < n
        invariant
            i <= n,
            n == name@.len(),
            bytes@ == Seq::new(name@.len(), |k: int| name@[k] as u8),
            vstd::string::is_ascii(name),
            forall|k: int| 0 <= k < i ==> is_name_char(#[trigger] name@[k]),
        decreases n - i,
    {
        let b = bytes[i];
        assert('\0' <= name@[i as int] <= '\u{7f}');
        let allowed = (97 <= b && b <= 122) || (65 <= b && b <= 90) || (48 <= b && b <= 57) || b
            == 95 || b == 45 || b == 46;
        if !allowed {
            assert(!is_name_char(name@[i as int]));
            return false;
        }
        i = i + 1;
    }
    true
}

/// How the build of a service ended.
pub enum BuildOutcome {
    /// The build-time dependencies could not be satisfied.
    DependencyFailed,
    /// The script line with this index ended with a failure.
    ScriptFailed(usize),
    /// A declared output was not there.
    OutputMissing,
    /// The build went through; these are the installed files, in the order
    /// in which the outputs were declared.
    Built(Vec<String>),
}

/// What a failed build is reported as.
pub open spec fn build_message_spec(outcome: BuildOutcome) -> Seq<char> {
    match outcome {
        BuildOutcome::DependencyFailed => "build dependency failure"@,
        BuildOutcome::ScriptFailed(step) => "build script failed at step "@ + decimal(step as nat),
        BuildOutcome::OutputMissing => "installation failed"@,
        BuildOutcome::Built(files) => if files@.len() == 0 {
            "installation failed"@
        } else {
            Seq::empty()
        },
    }
}

/// The message that reports how a build failed. A build that installed at
/// least one file has nothing to report.
pub fn build_message(outcome: &BuildOutcome) -> (message: String)
    ensures
        message@ == build_message_spec(*outcome),
{
    match outcome {
        BuildOutcome::DependencyFailed => String::from_str("build dependency failure"),
        BuildOutcome::ScriptFailed(step) => {
            let mut message = String::from_str("build script failed at step ");
            let number = format_decimal(*step as u64);
            message.append(number.as_str());
            message
        },
        BuildOutcome::OutputMissing => String::from_str("installation failed"),
        BuildOutcome::Built(files) => {
            if files.len() == 0 {
                String::from_str("installation failed")
            } else {
                String::new()
            }
        },
    }
}

/// What installing comes to, given the registry, the service's name and
/// how its build ended: the installed files, or the error kind. The name
/// is judged first, then whether the service is loaded, then the build.
pub open spec fn install_outcome(registry: RegistryView, name: Seq<char>, built: BuildOutcome)
    -> Result<Seq<String>, ErrorKind> {
    if !name_is_safe(name) {
        Err(ErrorKind::ManifestMalformed)
    } else if registry.service_map.contains_key(name) {
        Err(ErrorKind::ServiceInUse)
    } else {
        match built {
            BuildOutcome::Built(files) => if files@.len() > 0 {
                Ok(files@)
            } else {
                Err(ErrorKind::BuildFailure)
            },
            _ => Err(ErrorKind::BuildFailure),
        }
    }
}

/// The commands that the removal of a service runs: the `disable` commands
/// of its record, none without a record or a runtime section.
pub open spec fn disabled_by(config: Option<ServiceConfig>) -> Seq<String> {
    match config {
        Some(cfg) => match cfg.runtime {
            Some(runtime) => runtime.disable@,
            None => Seq::empty(),
        },
        None => Seq::empty(),
    }
}

/// What the removal of a service deletes: the directory of the recorded
/// name and the recorded files, nothing without a record or its metadata.
pub open spec fn removed_by(config: Option<ServiceConfig>) -> Option<(String, Vec<String>)> {
    match config {
        Some(cfg) => match cfg.metadata {
            Some(metadata) => Some((metadata.name, cfg.files)),
            None => None,
        },
        None => None,
    }
}

/// Removing a service with the record that its installation made deletes
/// the directory of its name and exactly the files that were installed,
/// after the `disable` commands that were installed with it.
pub proof fn lemma_removal_undoes_installation(
    cfg: ServiceConfig,
    files: Seq<String>,
    metadata: Metadata,
    runtime: RuntimeTemplate,
)
    requires
        cfg.files@ == files,
        cfg.metadata == Some(metadata),
        cfg.runtime == Some(runtime),
    ensures
        removed_by(Some(cfg)) matches Some((name, removed)) && name == metadata.name && removed@
            == files,
        disabled_by(Some(cfg)) == runtime.disable@,
{
}

/// What is to be done to remove a service.
pub struct UninstallPlan {
    /// The commands that switch the service off, in order.
    pub disable: Vec<String>,
    /// The service directory's name and the files to delete, if the record
    /// says which service it is of.
    pub remove: Option<(String, Vec<String>)>,
}

impl FFIManagerStub {
    /// Says whether a service of this name may be installed now: its name
    /// must be safe (`ManifestMalformed`), and no service of that name
    /// may be loaded (`ServiceInUse`). To be asked before anything is
    /// built.
    pub fn install_allowed(&self, name: &str) -> (allowed: Result<(), ErrorKind>)
        requires
            self.wf(),
        ensures
            allowed == (if !name_is_safe(name@) {
                Err::<(), ErrorKind>(ErrorKind::ManifestMalformed)
            } else if self@.service_map.contains_key(name@) {
                Err::<(), ErrorKind>(ErrorKind::ServiceInUse)
            } else {
                Ok::<(), ErrorKind>(())
            }),
    {
        if !check_name(name) {
            Err(ErrorKind::ManifestMalformed)
        } else if self.lookup(name).is_some() {
            Err(ErrorKind::ServiceInUse)
        } else {
            Ok(())
        }
    }

    /// Concludes an installation: given how the build ended, makes the
    /// record that is to be stored for the service. Its entry is the first
    /// installed file. The registry does not change: installing loads
    /// nothing.
    pub fn install(
        &self,
        metadata: Metadata,
        runtime: RuntimeTemplate,
        built: BuildOutcome,
    ) -> (installed: Result<ServiceConfig, ErrorKind>)
        requires
            self.wf(),
        ensures
            match install_outcome(self@, metadata.name@, built) {
                Ok(files) => {
                    &&& installed matches Ok(cfg)
                    &&& cfg.files@ == files
                    &&& cfg.entry@ == files[0]@
                    &&& cfg.metadata == Some(metadata)
                    &&& cfg.runtime == Some(runtime)
                },
                Err(kind) => installed matches Err(found) && found == kind,
            },
    {
        match self.install_allowed(metadata.name.as_str()) {
            Ok(()) => {},
            Err(kind) => {
                return Err(kind);
            },
        }
        match built {
            BuildOutcome::Built(files) => {
                if files.len() == 0 {
                    Err(ErrorKind::BuildFailure)
                } else {
                    Ok(ServiceConfig::for_install(files, metadata, runtime))
                }
            },
            _ => Err(ErrorKind::BuildFailure),
        }
    }

    /// Plans the removal of a service, given the record that is stored for
    /// it, if any. A loaded service is not removed (`ServiceInUse`).
    /// Without a record there is nothing to do, and that is no error. With
    /// one, the plan runs the record's `disable` commands and deletes the
    /// recorded files and the directory of the recorded name.
    pub fn uninstall(&self, name: &String, config: Option<ServiceConfig>) -> (planned: Result<
        UninstallPlan,
        ErrorKind,
    >)
        requires
            self.wf(),
        ensures
            self@.service_map.contains_key(name@) ==> (planned matches Err(kind) && kind
                == ErrorKind::ServiceInUse),
            !self@.service_map.contains_key(name@) ==> (planned matches Ok(plan) && plan.disable@
                == disabled_by(config) && plan.remove == removed_by(config)),
    {
        if self.lookup(name.as_str()).is_some() {
            return Err(ErrorKind::ServiceInUse);
        }
        let cfg = match config {
            Some(cfg) => cfg,
            None => {
                return Ok(UninstallPlan { disable: Vec::new(), remove: None });
            },
        };
        let disable = match cfg.runtime {
            Some(runtime) => runtime.disable,
            None => Vec::new(),
        };
        let remove = match cfg.metadata {
            Some(metadata) => Some((metadata.name, cfg.files)),
            None => None,
        };
        Ok(UninstallPlan { disable, remove })
    }
}

} // verus!
