//! The `System.security` script object's methods and properties.
//!
//! The surrounding virtual machine is modelled by the small [`Activation`]
//! context: the string arena, the sandbox the movie runs in, and the warning
//! log the unimplemented stubs write to. Each function returns exactly what
//! the script caller sees.

use vstd::prelude::*;

use crate::arena::Arena;
use crate::avm_string::AvmString;
use crate::utf8::utf16_units;

verus! {

/// Which sandbox the movie runs in.
#[derive(Clone, Copy, Debug, PartialEq, Eq, Structural)]
pub enum SandboxType {
    Remote,
    LocalWithFile,
    LocalWithNetwork,
    LocalTrusted,
}

impl SandboxType {
    /// The name the `sandboxType` property reports.
    pub open spec fn spec_name(self) -> Seq<char> {
        match self {
            SandboxType::Remote => "remote"@,
            SandboxType::LocalWithFile => "localWithFile"@,
            SandboxType::LocalWithNetwork => "localWithNetwork"@,
            SandboxType::LocalTrusted => "localTrusted"@,
        }
    }

    pub fn name(&self) -> (r: &str)
        ensures
            r@ == self.spec_name(),
    {
        match self {
            SandboxType::Remote => "remote",
            SandboxType::LocalWithFile => "localWithFile",
            SandboxType::LocalWithNetwork => "localWithNetwork",
            SandboxType::LocalTrusted => "localTrusted",
        }
    }
}

/// A script value, as far as these methods produce one.
#[derive(Clone, Copy, Debug, PartialEq, Eq, Structural)]
pub enum Value {
    Undefined,
    String(AvmString),
}

/// A script object reference.
#[derive(Clone, Copy, Debug, PartialEq, Eq, Structural)]
pub struct Object {
    pub id: usize,
}

/// An error surfaced to the script; none of these methods raises one.
#[derive(Clone, Copy, Debug, PartialEq, Eq, Structural)]
pub struct Error {
    pub code: usize,
}

/// The slice of the interpreter state these methods touch.
pub struct Activation {
    pub arena: Arena,
    pub sandbox_type: SandboxType,
    pub warnings: Vec<String>,
}

impl Activation {
    pub open spec fn wf(self) -> bool {
        self.arena.wf()
    }

    /// Record a diagnostic for the host; scripts never observe it.
    pub fn log_warning(&mut self, message: &str)
        ensures
            final(self).arena == old(self).arena,
            final(self).sandbox_type == old(self).sandbox_type,
            final(self).warnings@.len() == old(self).warnings@.len() + 1,
            final(self).warnings@.last()@ == message@,
            forall|i: int| 0 <= i < old(self).warnings@.len() ==> final(self).warnings@[i] == old(
                self,
            ).warnings@[i],
    {
        self.warnings.push(message.to_owned());
    }
}

/// `System.security.allowDomain`: not implemented; warns and yields
/// `undefined`.
pub fn allow_domain(activation: &mut Activation, _this: Object, _args: &Vec<Value>) -> (r: Result<
    Value,
    Error,
>)
    ensures
        r == Result::<Value, Error>::Ok(Value::Undefined),
        final(activation).arena == old(activation).arena,
        final(activation).sandbox_type == old(activation).sandbox_type,
        final(activation).warnings@.len() == old(activation).warnings@.len() + 1,
        final(activation).warnings@.last()@ == "System.security.allowDomain() not implemented"@,
        forall|i: int|
            0 <= i < old(activation).warnings@.len()
                ==> (#[trigger] final(activation).warnings@[i]) == old(activation).warnings@[i],
{
    activation.log_warning("System.security.allowDomain() not implemented");
    Ok(Value::Undefined)
}

/// `System.security.allowInsecureDomain`: not implemented; warns and yields
/// `undefined`.
pub fn allow_insecure_domain(activation: &mut Activation, _this: Object, _args: &Vec<Value>) -> (r:
    Result<Value, Error>)
    ensures
        r == Result::<Value, Error>::Ok(Value::Undefined),
        final(activation).arena == old(activation).arena,
        final(activation).sandbox_type == old(activation).sandbox_type,
        final(activation).warnings@.len() == old(activation).warnings@.len() + 1,
        final(activation).warnings@.last()@ == "System.security.allowInsecureDomain() not implemented"@,
        forall|i: int|
            0 <= i < old(activation).warnings@.len()
                ==> (#[trigger] final(activation).warnings@[i]) == old(activation).warnings@[i],
{
    activation.log_warning("System.security.allowInsecureDomain() not implemented");
    Ok(Value::Undefined)
}

/// `System.security.loadPolicyFile`: not implemented; warns and yields
/// `undefined`.
pub fn load_policy_file(activation: &mut Activation, _this: Object, _args: &Vec<Value>) -> (r: Result<
    Value,
    Error,
>)
    ensures
        r == Result::<Value, Error>::Ok(Value::Undefined),
        final(activation).arena == old(activation).arena,
        final(activation).sandbox_type == old(activation).sandbox_type,
        final(activation).warnings@.len() == old(activation).warnings@.len() + 1,
        final(activation).warnings@.last()@ == "System.security.allowInsecureDomain() not implemented"@,
        forall|i: int|
            0 <= i < old(activation).warnings@.len()
                ==> (#[trigger] final(activation).warnings@[i]) == old(activation).warnings@[i],
{
    activation.log_warning("System.security.allowInsecureDomain() not implemented");
    Ok(Value::Undefined)
}

/// `System.security.escapeDomain`: not implemented; warns and yields
/// `undefined`.
pub fn escape_domain(activation: &mut Activation, _this: Object, _args: &Vec<Value>) -> (r: Result<
    Value,
    Error,
>)
    ensures
        r == Result::<Value, Error>::Ok(Value::Undefined),
        final(activation).arena == old(activation).arena,
        final(activation).sandbox_type == old(activation).sandbox_type,
        final(activation).warnings@.len() == old(activation).warnings@.len() + 1,
        final(activation).warnings@.last()@ == "System.security.escapeDomain() not implemented"@,
        forall|i: int|
            0 <= i < old(activation).warnings@.len()
                ==> (#[trigger] final(activation).warnings@[i]) == old(activation).warnings@[i],
{
    activation.log_warning("System.security.escapeDomain() not implemented");
    Ok(Value::Undefined)
}

/// The `System.security.sandboxType` property: the sandbox's name as a
/// fresh managed string.
pub fn get_sandbox_type(activation: &mut Activation, _this: Object, _args: &Vec<Value>) -> (r: Result<
    Value,
    Error,
>)
    requires
        old(activation).wf(),
    ensures
        final(activation).wf(),
        old(activation).arena.extends(final(activation).arena),
        final(activation).sandbox_type == old(activation).sandbox_type,
        final(activation).arena.buffer_allocs == old(activation).arena.buffer_allocs + 1,
        final(activation).warnings@ == old(activation).warnings@,
        match r {
            Ok(v) => match v {
                Value::String(h) => final(activation).arena.wf_handle(h)
                    && final(activation).arena.str_view(h) == utf16_units(
                    old(activation).sandbox_type.spec_name(),
                ),
                Value::Undefined => false,
            },
            Err(_) => false,
        },
{
    let st = activation.sandbox_type;
    let name = st.name();
    let h = AvmString::new_utf8(&mut activation.arena, name);
    Ok(Value::String(h))
}

/// The `System.security.chooseLocalSwfPath` property: not implemented;
/// warns and yields `undefined`.
pub fn get_choose_local_swf_path(activation: &mut Activation, _this: Object, _args: &Vec<Value>) -> (
    r: Result<Value, Error>)
    ensures
        r == Result::<Value, Error>::Ok(Value::Undefined),
        final(activation).arena == old(activation).arena,
        final(activation).sandbox_type == old(activation).sandbox_type,
        final(activation).warnings@.len() == old(activation).warnings@.len() + 1,
        final(activation).warnings@.last()@ == "System.security.chooseLocalSwfPath() not implemented"@,
        forall|i: int|
            0 <= i < old(activation).warnings@.len()
                ==> (#[trigger] final(activation).warnings@[i]) == old(activation).warnings@[i],
{
    activation.log_warning("System.security.chooseLocalSwfPath() not implemented");
    Ok(Value::Undefined)
}

/// The `System.security.PolicyFileResolver` method: not implemented; warns
/// and yields `undefined`.
pub fn policy_file_resolver(activation: &mut Activation, _this: Object, _args: &Vec<Value>) -> (r:
    Result<Value, Error>)
    ensures
        r == Result::<Value, Error>::Ok(Value::Undefined),
        final(activation).arena == old(activation).arena,
        final(activation).sandbox_type == old(activation).sandbox_type,
        final(activation).warnings@.len() == old(activation).warnings@.len() + 1,
        final(activation).warnings@.last()@ == "System.security.chooseLocalSwfPath() not implemented"@,
        forall|i: int|
            0 <= i < old(activation).warnings@.len()
                ==> (#[trigger] final(activation).warnings@[i]) == old(activation).warnings@[i],
{
    activation.log_warning("System.security.chooseLocalSwfPath() not implemented");
    Ok(Value::Undefined)
}

} // verus!
