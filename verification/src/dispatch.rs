//! The dispatcher's decisions: from a call descriptor to the call that is
//! to be made, and from its outcome to the response envelope.
//!
//! Making the call is left to the caller, who holds the worker pool and
//! the foreign-function boundary.

use crate::error::ErrorKind;
use crate::handle::{parse_decimal, parse_handle, split, ServiceSig, UsageSig, INVALID_HANDLE};
use crate::json::{
    each_of, field_of, fields_of, find_field, find_string, json_elements, json_fields,
    json_number_value, json_parsed, json_string, lemma_each_of_prefix, lemma_each_of_step,
    string_field, texts, texts_of, views, Json,
};
use crate::registry::{FFIManagerStub, RegistryView};
use crate::service::{call_check, same_text, ContextKind, Service, MAX_ARITY};
use std::sync::Arc;
use vstd::prelude::*;

verus! {

/// A call as a client asks for it: the handle string, the function's name,
/// and the arguments, each the JSON text of an object with a single key.
pub type FFIDescriptor = (String, String, Vec<String>);

/// A call that is ready to be made.
pub struct CallPlan {
    /// The service to call into.
    pub service: ServiceSig,
    /// The usage on whose behalf the call is made.
    pub usage: UsageSig,
    /// The calling convention of the service.
    pub kind: ContextKind,
    /// The entry point.
    pub function: String,
    /// The arguments in order, each as compact JSON text.
    pub args: Vec<String>,
    /// The loaded service, kept alive for the call even if it is torn down
    /// meanwhile.
    pub pinned: Arc<Service>,
}

/// The payload of an argument: the value under the sole key of the object
/// that the argument is, as compact JSON text.
pub open spec fn payload_of(arg: Seq<char>) -> Option<Seq<char>> {
    match json_parsed(arg) {
        Some(doc) => match json_fields(doc) {
            Some(fields) => if fields.len() == 1 {
                Some(fields[0].1)
            } else {
                None
            },
            None => None,
        },
        None => None,
    }
}

/// The step that a payload refers to: the number under the sole key `$ref`
/// of the object that the payload is.
pub open spec fn reference_of(payload: Seq<char>) -> Option<u64> {
    match json_fields(payload) {
        Some(fields) => if fields.len() == 1 && fields[0].0 == "$ref"@ {
            json_number_value(fields[0].1)
        } else {
            None
        },
        None => None,
    }
}

/// A returned string as a JSON value. What a service with C strings at
/// its boundary returns is the JSON string that holds it. What another
/// service returns is the document that it parses to, or else, too, the
/// JSON string that holds it verbatim.
pub open spec fn result_json(kind: ContextKind, raw: Seq<char>) -> Seq<char> {
    match kind {
        ContextKind::CDLL => json_string(raw),
        _ => match json_parsed(raw) {
            Some(doc) => doc,
            None => json_string(raw),
        },
    }
}

/// What is passed for one argument. Within a chain, `results` holds the
/// results of the earlier steps as JSON values, and a payload that refers
/// to one of them is replaced by that result; one that refers to no
/// earlier step cannot be passed. Outside a chain every payload is passed
/// as it is.
pub open spec fn passed_for(arg: Seq<char>, results: Option<Seq<Seq<char>>>) -> Option<Seq<char>> {
    match payload_of(arg) {
        None => None,
        Some(payload) => match results {
            None => Some(payload),
            Some(earlier) => match reference_of(payload) {
                None => Some(payload),
                Some(step) => if step < earlier.len() {
                    Some(earlier[step as int])
                } else {
                    None
                },
            },
        },
    }
}

/// Reads an argument as what is passed for it.
pub open spec fn pass_reader(results: Option<Seq<Seq<char>>>) -> spec_fn(Seq<char>) -> Option<
    Seq<char>,
> {
    |arg: Seq<char>| passed_for(arg, results)
}

/// What is passed for a list of arguments, if every one of them can be
/// passed.
pub open spec fn marshalled(args: Seq<Seq<char>>, results: Option<Seq<Seq<char>>>) -> Option<
    Seq<Seq<char>>,
> {
    each_of(args, pass_reader(results))
}

/// The call that a descriptor comes to against a registry: the two
/// signatures, the loaded service and the marshalled arguments, or the
/// error kind. The handle is judged first, then the function and its
/// arity, then the arguments.
pub open spec fn plan_outcome(
    registry: RegistryView,
    handle: Seq<char>,
    function: Seq<char>,
    args: Seq<Seq<char>>,
    results: Option<Seq<Seq<char>>>,
) -> Result<(ServiceSig, UsageSig, Service, Seq<Seq<char>>), ErrorKind> {
    match parse_decimal(handle) {
        None => Err(ErrorKind::InvalidHandle),
        Some(number) => if number == INVALID_HANDLE {
            Err(ErrorKind::InvalidHandle)
        } else {
            match registry.resolved(number) {
                None => Err(ErrorKind::StaleHandle),
                Some((sig, usage, service)) => match call_check(
                    service.entries(),
                    function,
                    args.len(),
                ) {
                    Err(kind) => Err(kind),
                    Ok(()) => match marshalled(args, results) {
                        None => Err(ErrorKind::MarshalFailure),
                        Some(passed) => Ok((sig, usage, service, passed)),
                    },
                },
            }
        },
    }
}

/// The payload of an argument.
fn payload(arg: &str) -> (found: Option<Json>)
    ensures
        found matches Some(value) ==> payload_of(arg@) == Some(value@),
        found is None ==> payload_of(arg@) is None,
{
    let doc = match Json::parse(arg) {
        Some(doc) => doc,
        None => {
            return None;
        },
    };
    let mut fields = match doc.fields() {
        Some(fields) => fields,
        None => {
            return None;
        },
    };
    if fields.len() != 1 {
        return None;
    }
    let ghost all = fields@;
    match fields.pop() {
        Some((_, value)) => {
            assert(fields_of(all)[0].1 == value@);
            Some(value)
        },
        None => None,
    }
}

/// The step that a payload refers to.
fn reference(value: &Json) -> (step: Option<u64>)
    ensures
        step == reference_of(value@),
{
    let fields = match value.fields() {
        Some(fields) => fields,
        None => {
            return None;
        },
    };
    if fields.len() != 1 {
        return None;
    }
    assert(fields_of(fields@)[0] == (fields@[0].0@, fields@[0].1@));
    if same_text(fields[0].0.as_str(), "$ref") {
        fields[0].1.number_value()
    } else {
        None
    }
}

/// Turns the string that a call returned into the JSON value that is
/// reported as its result, as compact text.
pub fn result_text(kind: ContextKind, raw: &str) -> (text: String)
    ensures
        text@ == result_json(kind, raw@),
{
    match kind {
        ContextKind::CDLL => Json::string(raw).text(),
        _ => match Json::parse(raw) {
            Some(doc) => doc.text(),
            None => Json::string(raw).text(),
        },
    }
}

/// What is passed for one argument, as compact JSON text.
fn pass(arg: &str, results: Option<&Vec<String>>) -> (passed: Option<String>)
    ensures
        passed matches Some(text) ==> passed_for(
            arg@,
            match results {
                Some(earlier) => Some(views(earlier@)),
                None => None,
            },
        ) == Some(text@),
        passed is None ==> passed_for(
            arg@,
            match results {
                Some(earlier) => Some(views(earlier@)),
                None => None,
            },
        ) is None,
{
    let value = match payload(arg) {
        Some(value) => value,
        None => {
            return None;
        },
    };
    let earlier = match results {
        Some(earlier) => earlier,
        None => {
            return Some(value.text());
        },
    };
    match reference(&value) {
        None => Some(value.text()),
        Some(step) => {
            if step < earlier.len() as u64 {
                let result = earlier[step as usize].clone();
                assert(views(earlier@)[step as int] == result@);
                Some(result)
            } else {
                None
            }
        },
    }
}

/// Marshals the arguments of a call: each argument gives its payload as
/// compact JSON text, in order. With `results`, the results of the earlier
/// steps of a chain as `result_text` gave them, a payload that refers to
/// one of them is replaced by it. Fails with `MarshalFailure` where an
/// argument cannot be passed.
pub fn marshal(args: &Vec<String>, results: Option<&Vec<String>>) -> (passed: Result<
    Vec<String>,
    ErrorKind,
>)
    ensures
        match marshalled(
            views(args@),
            match results {
                Some(earlier) => Some(views(earlier@)),
                None => None,
            },
        ) {
            Some(texts) => passed matches Ok(out) && views(out@) == texts && out@.len()
                == args@.len(),
            None => passed == Err::<Vec<String>, ErrorKind>(ErrorKind::MarshalFailure),
        },
{
    let ghost earlier = match results {
        Some(earlier) => Some(views(earlier@)),
        None => None,
    };
    let mut out: Vec<String> = Vec::new();
    let mut i: usize = 0;
    proof {
        if args@.len() > 0 {
            lemma_each_of_step(views(args@), pass_reader(earlier), 0);
        } else {
            assert(views(args@).take(0) =~= views(args@));
        }
        assert(views(out@) =~= Seq::<Seq<char>>::empty());
    }
    while i < args.len()
        invariant
            i <= args@.len(),
            earlier == (match results {
                Some(earlier) => Some(views(earlier@)),
                None => None,
            }),
            marshalled(views(args@).take(i as int), earlier) == Some(views(out@)),
            out@.len() == i,
        decreases args@.len() - i,
    {
        proof {
            lemma_each_of_step(views(args@), pass_reader(earlier), i as int);
        }
        match pass(args[i].as_str(), results) {
            Some(text) => {
                let ghost before = views(out@);
                out.push(text);
                assert(views(out@) =~= before.push(text@));
            },
            None => {
                proof {
                    lemma_each_of_prefix(views(args@), pass_reader(earlier), i + 1);
                }
                return Err(ErrorKind::MarshalFailure);
            },
        }
        i = i + 1;
    }
    assert(views(args@).take(i as int) =~= views(args@));
    Ok(out)
}

impl FFIManagerStub {
    /// Plans the call that a descriptor asks for.
    ///
    /// With `results` the call is a step of a chain, `results` holding the
    /// results of the steps before it.
    pub fn plan(&self, descriptor: &FFIDescriptor, results: Option<&Vec<String>>) -> (planned:
        Result<CallPlan, ErrorKind>)
        requires
            self.wf(),
        ensures
            match plan_outcome(
                self@,
                descriptor.0@,
                descriptor.1@,
                views(descriptor.2@),
                match results {
                    Some(earlier) => Some(views(earlier@)),
                    None => None,
                },
            ) {
                Ok((sig, usage, service, passed)) => {
                    &&& planned matches Ok(plan)
                    &&& plan.service == sig
                    &&& plan.usage == usage
                    &&& plan.kind == service.kind_spec()
                    &&& *plan.pinned == service
                    &&& plan.function@ == descriptor.1@
                    &&& views(plan.args@) == passed
                },
                Err(kind) => planned matches Err(found) && found == kind,
            },
            planned matches Ok(plan) ==> plan.args@.len() <= MAX_ARITY,
    {
        let number = match parse_handle(descriptor.0.as_str()) {
            Some(number) => number,
            None => {
                return Err(ErrorKind::InvalidHandle);
            },
        };
        if number == INVALID_HANDLE {
            return Err(ErrorKind::InvalidHandle);
        }
        let (sig, usage) = split(number);
        let pinned = match self.pin(number) {
            Some(pinned) => pinned,
            None => {
                return Err(ErrorKind::StaleHandle);
            },
        };
        let service: &Service = &*pinned;
        assert(views(descriptor.2@).len() == descriptor.2@.len());
        match service.check_call(descriptor.1.as_str(), descriptor.2.len()) {
            Ok(()) => {},
            Err(kind) => {
                return Err(kind);
            },
        }
        let args = match marshal(&descriptor.2, results) {
            Ok(args) => args,
            Err(kind) => {
                return Err(kind);
            },
        };
        let kind = service.kind();
        let function = descriptor.1.clone();
        Ok(CallPlan { service: sig, usage, kind, function, args, pinned })
    }

    /// Plans the single call that a descriptor asks for: the handle must
    /// be a number other than zero (`InvalidHandle`) that names a live
    /// usage (`StaleHandle`); the function must be bound
    /// (`UnknownFunction`) and take as many arguments as are given
    /// (`ArityMismatch`); every argument must be an object with a single
    /// key (`MarshalFailure`).
    pub fn execute(&self, descriptor: &FFIDescriptor) -> (planned: Result<CallPlan, ErrorKind>)
        requires
            self.wf(),
        ensures
            match plan_outcome(
                self@,
                descriptor.0@,
                descriptor.1@,
                views(descriptor.2@),
                None,
            ) {
                Ok((sig, usage, service, passed)) => {
                    &&& planned matches Ok(plan)
                    &&& plan.service == sig
                    &&& plan.usage == usage
                    &&& plan.kind == service.kind_spec()
                    &&& *plan.pinned == service
                    &&& plan.function@ == descriptor.1@
                    &&& views(plan.args@) == passed
                },
                Err(kind) => planned matches Err(found) && found == kind,
            },
            planned matches Ok(plan) ==> plan.args@.len() <= MAX_ARITY,
    {
        self.plan(descriptor, None)
    }

    /// Says what a chain does next, given the results of the steps that
    /// were made so far, as `result_text` gave them: the call of the next
    /// step, planned with those results at hand, or the end of the chain
    /// with the result of its last step (the empty string for a chain
    /// without steps). A step that cannot be planned ends the chain with
    /// that step's error.
    pub fn chain_execute(&self, descriptors: &Vec<FFIDescriptor>, results: &Vec<String>) -> (next:
        Result<ChainStep, ErrorKind>)
        requires
            self.wf(),
        ensures
            results@.len() >= descriptors@.len() ==> (next matches Ok(ChainStep::Done(text))
                && text@ == (if results@.len() == 0 {
                Seq::<char>::empty()
            } else {
                results@.last()@
            })),
            results@.len() < descriptors@.len() ==> match plan_outcome(
                self@,
                descriptors@[results@.len() as int].0@,
                descriptors@[results@.len() as int].1@,
                views(descriptors@[results@.len() as int].2@),
                Some(views(results@)),
            ) {
                Ok((sig, usage, service, passed)) => {
                    &&& next matches Ok(ChainStep::Call(plan))
                    &&& plan.service == sig
                    &&& plan.usage == usage
                    &&& plan.kind == service.kind_spec()
                    &&& *plan.pinned == service
                    &&& plan.function@ == descriptors@[results@.len() as int].1@
                    &&& views(plan.args@) == passed
                },
                Err(kind) => next matches Err(found) && found == kind,
            },
            next matches Ok(ChainStep::Call(plan)) ==> plan.args@.len() <= MAX_ARITY,
    {
        let made = results.len();
        if made >= descriptors.len() {
            if made == 0 {
                return Ok(ChainStep::Done(String::new()));
            }
            return Ok(ChainStep::Done(results[made - 1].clone()));
        }
        match self.plan(&descriptors[made], Some(results)) {
            Ok(plan) => Ok(ChainStep::Call(plan)),
            Err(kind) => Err(kind),
        }
    }
}

/// What a chain does next.
pub enum ChainStep {
    /// Make this call, and come back with its result.
    Call(CallPlan),
    /// The chain is through; this is its result.
    Done(String),
}

/// The response envelope of a call with the JSON value `result`.
pub open spec fn ok_envelope_spec(id: Seq<char>, result: Seq<char>) -> Seq<char> {
    "{\"id\":"@ + json_string(id) + ",\"ok\":true,\"result\":"@ + result + "}"@
}

/// The response envelope of a call that failed.
pub open spec fn error_envelope_spec(id: Seq<char>, kind: ErrorKind, message: Seq<char>) -> Seq<
    char,
> {
    "{\"id\":"@ + json_string(id) + ",\"ok\":false,\"error\":{\"kind\":"@ + json_string(
        kind.name_spec(),
    ) + ",\"message\":"@ + json_string(message) + "}}"@
}

/// Writes the response envelope of a call that went through: the
/// request's id, `ok` set, and the result, which is the JSON text that
/// `result_text` made of what the call returned.
pub fn ok_envelope(id: &str, result: &str) -> (envelope: String)
    ensures
        envelope@ == ok_envelope_spec(id@, result@),
{
    let mut envelope = String::new();
    envelope.append("{\"id\":");
    envelope.append(Json::string(id).text().as_str());
    envelope.append(",\"ok\":true,\"result\":");
    envelope.append(result);
    envelope.append("}");
    assert(envelope@ =~= ok_envelope_spec(id@, result@));
    envelope
}

/// Writes the response envelope of a call that failed: the request's id,
/// `ok` unset, and the error with its kind's name and a message.
pub fn error_envelope(id: &str, kind: ErrorKind, message: &str) -> (envelope: String)
    ensures
        envelope@ == error_envelope_spec(id@, kind, message@),
{
    let mut envelope = String::new();
    envelope.append("{\"id\":");
    envelope.append(Json::string(id).text().as_str());
    envelope.append(",\"ok\":false,\"error\":{\"kind\":");
    envelope.append(Json::string(kind.name()).text().as_str());
    envelope.append(",\"message\":");
    envelope.append(Json::string(message).text().as_str());
    envelope.append("}}");
    assert(envelope@ =~= error_envelope_spec(id@, kind, message@));
    envelope
}

/// The response envelope that answers a call, given how the call ended:
/// with the string that a service of the given calling convention
/// returned, or with an error kind, whose name is also the message.
pub open spec fn response_spec(
    id: Seq<char>,
    kind: ContextKind,
    outcome: Result<String, ErrorKind>,
) -> Seq<char> {
    match outcome {
        Ok(raw) => ok_envelope_spec(id, result_json(kind, raw@)),
        Err(error) => error_envelope_spec(id, error, error.name_spec()),
    }
}

/// Writes the response envelope that answers a call, given how the call
/// ended.
pub fn respond(id: &str, kind: ContextKind, outcome: &Result<String, ErrorKind>) -> (envelope:
    String)
    ensures
        envelope@ == response_spec(id@, kind, *outcome),
{
    match outcome {
        Ok(raw) => ok_envelope(id, result_text(kind, raw.as_str()).as_str()),
        Err(error) => error_envelope(id, *error, error.name()),
    }
}

/// The call descriptor that an object's entries hold: the handle string
/// under `sig`, the function's name under `func` and the arguments under
/// `args`. A missing or ill-typed entry gives the error kind of what it
/// stands for.
pub open spec fn descriptor_of(fields: Seq<(Seq<char>, Seq<char>)>) -> Result<
    (Seq<char>, Seq<char>, Seq<Seq<char>>),
    ErrorKind,
> {
    match string_field(fields, "sig"@) {
        None => Err(ErrorKind::InvalidHandle),
        Some(handle) => match string_field(fields, "func"@) {
            None => Err(ErrorKind::UnknownFunction),
            Some(function) => match field_of(fields, "args"@) {
                None => Err(ErrorKind::MarshalFailure),
                Some(list) => match json_elements(list) {
                    None => Err(ErrorKind::MarshalFailure),
                    Some(args) => Ok((handle, function, args)),
                },
            },
        },
    }
}

/// The id of the request that `raw` holds: the string under `id`, or the
/// empty string where there is none.
pub open spec fn request_id(raw: Seq<char>) -> Seq<char> {
    match json_parsed(raw) {
        Some(doc) => match json_fields(doc) {
            Some(fields) => match string_field(fields, "id"@) {
                Some(id) => id,
                None => Seq::empty(),
            },
            None => Seq::empty(),
        },
        None => Seq::empty(),
    }
}

/// The call descriptor of the request that `raw` holds. A request that is
/// no JSON object is a `MarshalFailure`.
pub open spec fn request_descriptor(raw: Seq<char>) -> Result<
    (Seq<char>, Seq<char>, Seq<Seq<char>>),
    ErrorKind,
> {
    match json_parsed(raw) {
        Some(doc) => match json_fields(doc) {
            Some(fields) => descriptor_of(fields),
            None => Err(ErrorKind::MarshalFailure),
        },
        None => Err(ErrorKind::MarshalFailure),
    }
}

/// The descriptors of a list of steps, or the error of the first step that
/// holds none.
pub open spec fn descriptors_of(steps: Seq<Seq<char>>) -> Result<
    Seq<(Seq<char>, Seq<char>, Seq<Seq<char>>)>,
    ErrorKind,
>
    decreases steps.len(),
{
    if steps.len() == 0 {
        Ok(Seq::empty())
    } else {
        match descriptors_of(steps.drop_last()) {
            Err(kind) => Err(kind),
            Ok(front) => match json_fields(steps.last()) {
                None => Err(ErrorKind::MarshalFailure),
                Some(fields) => match descriptor_of(fields) {
                    Err(kind) => Err(kind),
                    Ok(last) => Ok(front.push(last)),
                },
            },
        }
    }
}

/// The step descriptors of the chain request that `raw` holds, listed
/// under `sig_func_args_table`.
pub open spec fn chain_descriptors(raw: Seq<char>) -> Result<
    Seq<(Seq<char>, Seq<char>, Seq<Seq<char>>)>,
    ErrorKind,
> {
    match json_parsed(raw) {
        Some(doc) => match json_fields(doc) {
            Some(fields) => match field_of(fields, "sig_func_args_table"@) {
                Some(table) => match json_elements(table) {
                    Some(steps) => descriptors_of(steps),
                    None => Err(ErrorKind::MarshalFailure),
                },
                None => Err(ErrorKind::MarshalFailure),
            },
            None => Err(ErrorKind::MarshalFailure),
        },
        None => Err(ErrorKind::MarshalFailure),
    }
}

/// A descriptor as text.
pub open spec fn descriptor_view(descriptor: FFIDescriptor) -> (
    Seq<char>,
    Seq<char>,
    Seq<Seq<char>>,
) {
    (descriptor.0@, descriptor.1@, views(descriptor.2@))
}

/// The call descriptor that an object's entries hold.
fn read_descriptor(fields: &Vec<(String, Json)>) -> (read: Result<FFIDescriptor, ErrorKind>)
    ensures
        match descriptor_of(fields_of(fields@)) {
            Ok(found) => read matches Ok(descriptor) && descriptor_view(descriptor) == found,
            Err(kind) => read matches Err(found) && found == kind,
        },
{
    let handle = match find_string(fields, "sig") {
        Some(handle) => handle,
        None => {
            return Err(ErrorKind::InvalidHandle);
        },
    };
    let function = match find_string(fields, "func") {
        Some(function) => function,
        None => {
            return Err(ErrorKind::UnknownFunction);
        },
    };
    let list = match find_field(fields, "args") {
        Some(list) => list,
        None => {
            return Err(ErrorKind::MarshalFailure);
        },
    };
    let args = match list.elements() {
        Some(args) => args,
        None => {
            return Err(ErrorKind::MarshalFailure);
        },
    };
    Ok((handle, function, texts(&args)))
}

/// Reads a request envelope: its id, and the call descriptor it holds or
/// why it holds none. The id is there even where the descriptor is not, so
/// that the failure can be answered.
pub fn decode_request(raw: &str) -> (request: (String, Result<FFIDescriptor, ErrorKind>))
    ensures
        request.0@ == request_id(raw@),
        match request_descriptor(raw@) {
            Ok(found) => request.1 matches Ok(descriptor) && descriptor_view(descriptor) == found,
            Err(kind) => request.1 matches Err(found) && found == kind,
        },
{
    let fields = match Json::parse(raw) {
        Some(doc) => match doc.fields() {
            Some(fields) => fields,
            None => {
                return (String::new(), Err(ErrorKind::MarshalFailure));
            },
        },
        None => {
            return (String::new(), Err(ErrorKind::MarshalFailure));
        },
    };
    let id = match find_string(&fields, "id") {
        Some(id) => id,
        None => String::new(),
    };
    (id, read_descriptor(&fields))
}

/// Reads a chain request envelope: its id, and the descriptors of its
/// steps in order, or why they cannot be had.
pub fn decode_chain(raw: &str) -> (request: (String, Result<Vec<FFIDescriptor>, ErrorKind>))
    ensures
        request.0@ == request_id(raw@),
        match chain_descriptors(raw@) {
            Ok(found) => request.1 matches Ok(descriptors) && descriptors@.map_values(
                |descriptor: FFIDescriptor| descriptor_view(descriptor),
            ) == found,
            Err(kind) => request.1 matches Err(found) && found == kind,
        },
{
    let fields = match Json::parse(raw) {
        Some(doc) => match doc.fields() {
            Some(fields) => fields,
            None => {
                return (String::new(), Err(ErrorKind::MarshalFailure));
            },
        },
        None => {
            return (String::new(), Err(ErrorKind::MarshalFailure));
        },
    };
    let id = match find_string(&fields, "id") {
        Some(id) => id,
        None => String::new(),
    };
    let steps = match find_field(&fields, "sig_func_args_table") {
        Some(table) => match table.elements() {
            Some(steps) => steps,
            None => {
                return (id, Err(ErrorKind::MarshalFailure));
            },
        },
        None => {
            return (id, Err(ErrorKind::MarshalFailure));
        },
    };
    let ghost all = texts_of(steps@);
    let mut descriptors: Vec<FFIDescriptor> = Vec::new();
    let mut i: usize = 0;
    assert(all.take(0) =~= Seq::<Seq<char>>::empty());
    assert(descriptors@.map_values(|descriptor: FFIDescriptor| descriptor_view(descriptor))
        =~= Seq::empty());
    while i < steps.len()
        invariant
            i <= steps@.len(),
            all == texts_of(steps@),
            id@ == request_id(raw@),
            chain_descriptors(raw@) == descriptors_of(all),
            descriptors_of(all.take(i as int)) == Ok::<
                Seq<(Seq<char>, Seq<char>, Seq<Seq<char>>)>,
                ErrorKind,
            >(descriptors@.map_values(|descriptor: FFIDescriptor| descriptor_view(descriptor))),
        decreases steps@.len() - i,
    {
        assert(all.take(i + 1).drop_last() =~= all.take(i as int));
        assert(all.take(i + 1).last() == steps@[i as int]@);
        let read = match steps[i].fields() {
            Some(entries) => read_descriptor(&entries),
            None => Err(ErrorKind::MarshalFailure),
        };
        match read {
            Ok(descriptor) => {
                let ghost before = descriptors@.map_values(
                    |descriptor: FFIDescriptor| descriptor_view(descriptor),
                );
                descriptors.push(descriptor);
                assert(descriptors@.map_values(
                    |descriptor: FFIDescriptor| descriptor_view(descriptor),
                ) =~= before.push(descriptor_view(descriptor)));
            },
            Err(kind) => {
                proof {
                    lemma_descriptors_prefix(all, i + 1);
                }
                return (id, Err(kind));
            },
        }
        i = i + 1;
    }
    assert(all.take(i as int) =~= all);
    (id, Ok(descriptors))
}

/// The first step without a descriptor decides the error of the whole
/// list.
proof fn lemma_descriptors_prefix(steps: Seq<Seq<char>>, k: int)
    requires
        0 <= k <= steps.len(),
        descriptors_of(steps.take(k)) is Err,
    ensures
        descriptors_of(steps) == descriptors_of(steps.take(k)),
    decreases steps.len() - k,
{
    if k < steps.len() {
        assert(steps.take(k + 1).drop_last() =~= steps.take(k));
        lemma_descriptors_prefix(steps, k + 1);
    } else {
        assert(steps.take(k) =~= steps);
    }
}

} // verus!
