//! The execution context: the interpreter's control-flow state signal and the
//! layered environment of bindings that running code reads and writes.

use vstd::prelude::*;
use vstd::string::StringExecFns;
use crate::value::{GValue, Value};

verus! {

/// The scope a binding is created in: the whole enclosing function, or only
/// the innermost block.
#[derive(Clone, Copy, Debug, PartialEq, Eq, Structural)]
pub enum VariableScope {
    /// Visible throughout the enclosing function body.
    Function,
    /// Visible only within the innermost environment record.
    Block,
}

/// The global execution-state signal: consulted by every statement executor
/// to implement non-local control transfer. Exactly one state is active at a
/// time; it is advisory, so executors must check it after every nested
/// evaluation.
#[derive(Clone, Debug, PartialEq, Eq)]
pub enum InterpreterState {
    /// Normal sequential execution.
    Executing,
    /// A `break`, with its optional target label.
    Break(Option<String>),
    /// A `continue`, with its optional target label.
    Continue(Option<String>),
    /// A `return` from the enclosing function.
    Return,
    /// An abort signal injected by the host.
    Error,
}

/// Mathematical image of an [`InterpreterState`].
pub enum GState {
    /// Normal sequential execution.
    Executing,
    /// A `break`, with its optional target label.
    Break(Option<Seq<char>>),
    /// A `continue`, with its optional target label.
    Continue(Option<Seq<char>>),
    /// A `return` from the enclosing function.
    Return,
    /// An abort signal injected by the host.
    Error,
}

impl View for InterpreterState {
    type V = GState;

    open spec fn view(&self) -> GState {
        match self {
            InterpreterState::Executing => GState::Executing,
            InterpreterState::Break(l) => GState::Break(
                match l {
                    Some(s) => Some(s@),
                    None => None,
                },
            ),
            InterpreterState::Continue(l) => GState::Continue(
                match l {
                    Some(s) => Some(s@),
                    None => None,
                },
            ),
            InterpreterState::Return => GState::Return,
            InterpreterState::Error => GState::Error,
        }
    }
}

/// One binding of an environment record.
#[derive(Debug)]
pub struct Binding {
    /// The bound name.
    pub name: String,
    /// The bound value.
    pub value: Value,
    /// Whether assignment to the binding is allowed.
    pub mutable: bool,
}

/// Mathematical image of a [`Binding`].
pub struct GBinding {
    /// The bound name.
    pub name: Seq<char>,
    /// The bound value.
    pub value: GValue,
    /// Whether assignment to the binding is allowed.
    pub mutable: bool,
}

/// The image of one environment record.
pub open spec fn env_view(env: Seq<Binding>) -> Seq<GBinding> {
    Seq::new(env.len(), |i: int| GBinding { name: env[i].name@, value: env[i].value@, mutable: env[i].mutable })
}

/// The image of the whole environment chain, outermost record first.
pub open spec fn envs_view(envs: Seq<Vec<Binding>>) -> Seq<Seq<GBinding>> {
    Seq::new(envs.len(), |i: int| env_view(envs[i]@))
}

// ---------------------------------------------------------------------------
// Environment model
// ---------------------------------------------------------------------------

/// True when the record holds a binding of the given name.
pub open spec fn env_has(env: Seq<GBinding>, name: Seq<char>) -> bool {
    exists|j: int| 0 <= j < env.len() && env[j].name == name
}

/// The earliest binding of the given name in the record.
pub open spec fn env_get(env: Seq<GBinding>, name: Seq<char>) -> GBinding
    recommends
        env_has(env, name),
    decreases env,
{
    if env.len() == 0 {
        arbitrary()
    } else if env.first().name == name {
        env.first()
    } else {
        env_get(env.drop_first(), name)
    }
}

/// The record with the value of the earliest binding of the given name
/// replaced.
pub open spec fn env_set(env: Seq<GBinding>, name: Seq<char>, value: GValue) -> Seq<GBinding>
    decreases env,
{
    if env.len() == 0 {
        env
    } else if env.first().name == name {
        seq![GBinding { name: env.first().name, value, mutable: env.first().mutable }]
            + env.drop_first()
    } else {
        seq![env.first()] + env_set(env.drop_first(), name, value)
    }
}

/// True when some record of the chain holds a binding of the given name.
pub open spec fn chain_has(envs: Seq<Seq<GBinding>>, name: Seq<char>) -> bool {
    exists|i: int| 0 <= i < envs.len() && env_has(#[trigger] envs[i], name)
}

/// The binding of the given name in the innermost record that holds one.
pub open spec fn chain_get(envs: Seq<Seq<GBinding>>, name: Seq<char>) -> GBinding
    recommends
        chain_has(envs, name),
    decreases envs,
{
    if envs.len() == 0 {
        arbitrary()
    } else if env_has(envs.last(), name) {
        env_get(envs.last(), name)
    } else {
        chain_get(envs.drop_last(), name)
    }
}

/// The chain with the value of the given name replaced in the innermost
/// record that holds it.
pub open spec fn chain_set(envs: Seq<Seq<GBinding>>, name: Seq<char>, value: GValue) -> Seq<
    Seq<GBinding>,
>
    decreases envs,
{
    if envs.len() == 0 {
        envs
    } else if env_has(envs.last(), name) {
        envs.drop_last().push(env_set(envs.last(), name, value))
    } else {
        chain_set(envs.drop_last(), name, value).push(envs.last())
    }
}

/// The chain with a new binding appended to the record the scope selects:
/// the outermost (function) record or the innermost (block) record.
pub open spec fn chain_create(
    envs: Seq<Seq<GBinding>>,
    b: GBinding,
    scope: VariableScope,
) -> Seq<Seq<GBinding>> {
    if envs.len() == 0 {
        envs
    } else {
        match scope {
            VariableScope::Function => envs.update(0, envs[0].push(b)),
            VariableScope::Block => envs.update(
                envs.len() - 1,
                envs.last().push(b),
            ),
        }
    }
}

/// Mathematical image of a [`Context`]: the environment chain and the
/// control-flow state.
pub struct GCtx {
    /// The environment chain, outermost record first.
    pub envs: Seq<Seq<GBinding>>,
    /// The control-flow state signal.
    pub state: GState,
}

/// The chain with a fresh empty record pushed.
pub open spec fn gpush(cx: GCtx) -> GCtx {
    GCtx { envs: cx.envs.push(Seq::empty()), state: cx.state }
}

/// The chain with its innermost record discarded.
pub open spec fn gpop(cx: GCtx) -> GCtx {
    if cx.envs.len() == 0 {
        cx
    } else {
        GCtx { envs: cx.envs.drop_last(), state: cx.state }
    }
}

/// The context a fresh execution starts from: one empty global record, in the
/// executing state.
pub open spec fn initial_context() -> GCtx {
    GCtx { envs: seq![Seq::empty()], state: GState::Executing }
}

/// Message thrown when an undeclared name is read or assigned.
pub open spec fn reference_error_message(name: Seq<char>) -> Seq<char> {
    name + " is not defined"@
}

/// Message thrown when an immutable binding is assigned.
pub open spec fn const_assign_message() -> Seq<char> {
    "Assignment to constant variable."@
}

/// The part of the execution context that carries the control-flow state.
#[derive(Debug)]
pub struct Interpreter {
    state: InterpreterState,
}

impl View for Interpreter {
    type V = GState;

    closed spec fn view(&self) -> GState {
        self.state@
    }
}

impl Interpreter {
    /// The currently active control-flow state.
    pub fn get_current_state(&self) -> (r: &InterpreterState)
        ensures
            r@ == self@,
    {
        &self.state
    }
}

/// The mutable execution context: the environment chain, innermost record
/// last, and the control-flow state signal.
#[derive(Debug)]
pub struct Context {
    envs: Vec<Vec<Binding>>,
    executor: Interpreter,
}

impl View for Context {
    type V = GCtx;

    closed spec fn view(&self) -> GCtx {
        GCtx { envs: envs_view(self.envs@), state: self.executor.state@ }
    }
}

impl Context {
    /// A fresh context: one empty global record, in the executing state.
    pub fn new() -> (cx: Context)
        ensures
            cx@ == initial_context(),
    {
        let mut envs: Vec<Vec<Binding>> = Vec::new();
        envs.push(Vec::new());
        let cx = Context { envs, executor: Interpreter { state: InterpreterState::Executing } };
        proof {
            assert(cx@.envs =~~= initial_context().envs);
            assert(cx@ =~~= initial_context());
        }
        cx
    }

    /// The control-flow state carrier.
    pub fn executor(&self) -> (r: &Interpreter)
        ensures
            r@ == self@.state,
    {
        &self.executor
    }

    /// Overwrites the control-flow state.
    pub fn set_state(&mut self, state: InterpreterState)
        ensures
            final(self)@.envs == old(self)@.envs,
            final(self)@.state == state@,
    {
        self.executor.state = state;
    }

    /// An owned copy of the control-flow state.
    pub fn state_snapshot(&self) -> (r: InterpreterState)
        ensures
            r@ == self@.state,
    {
        match &self.executor.state {
            InterpreterState::Executing => InterpreterState::Executing,
            InterpreterState::Break(l) => InterpreterState::Break(
                match l {
                    Some(s) => Some(s.clone()),
                    None => None,
                },
            ),
            InterpreterState::Continue(l) => InterpreterState::Continue(
                match l {
                    Some(s) => Some(s.clone()),
                    None => None,
                },
            ),
            InterpreterState::Return => InterpreterState::Return,
            InterpreterState::Error => InterpreterState::Error,
        }
    }

    /// Enters a fresh declarative environment record.
    pub fn push_environment(&mut self)
        ensures
            final(self)@ == gpush(old(self)@),
    {
        self.envs.push(Vec::new());
        proof {
            assert(final(self)@.envs =~~= gpush(old(self)@).envs);
            assert(final(self)@ =~~= gpush(old(self)@));
        }
    }

    /// Leaves the innermost environment record.
    pub fn pop_environment(&mut self)
        requires
            old(self)@.envs.len() > 0,
        ensures
            final(self)@ == gpop(old(self)@),
    {
        let _ = self.envs.pop();
        proof {
            assert(final(self)@.envs =~= gpop(old(self)@).envs);
            assert(final(self)@ =~~= gpop(old(self)@));
        }
    }

    /// Decides whether any record of the chain binds the given name.
    pub fn has_binding(&self, name: &str) -> (r: bool)
        ensures
            r == chain_has(self@.envs, name@),
    {
        let owned = name.to_owned();
        let mut i: usize = 0;
        while i < self.envs.len()
            invariant
                i <= self.envs@.len(),
                owned@ == name@,
                forall|j: int| 0 <= j < i ==> !env_has(#[trigger] self@.envs[j], name@),
            decreases self.envs@.len() - i,
        {
            match env_find(&self.envs[i], &owned) {
                Some(j) => {
                    proof {
                        assert(self@.envs[i as int][j as int].name == name@);
                        assert(env_has(self@.envs[i as int], name@));
                    }
                    return true;
                },
                None => (),
            }
            i = i + 1;
        }
        false
    }
}

/// Finds the index of the earliest binding of the given name in a record.
fn env_find(env: &Vec<Binding>, name: &String) -> (r: Option<usize>)
    ensures
        match r {
            Some(j) => j < env@.len() && env@[j as int].name@ == name@ && forall|k: int|
                0 <= k < j ==> env@[k].name@ != name@,
            None => forall|k: int| 0 <= k < env@.len() ==> env@[k].name@ != name@,
        },
{
    let mut j: usize = 0;
    while j < env.len()
        invariant
            j <= env@.len(),
            forall|k: int| 0 <= k < j ==> env@[k].name@ != name@,
        decreases env@.len() - j,
    {
        if env[j].name == *name {
            return Some(j);
        }
        j = j + 1;
    }
    None
}

/// The earliest binding of a name sits where the scan stopped.
proof fn lemma_env_get_at(env: Seq<GBinding>, name: Seq<char>, j: int)
    requires
        0 <= j < env.len(),
        env[j].name == name,
        forall|k: int| 0 <= k < j ==> env[k].name != name,
    ensures
        env_has(env, name),
        env_get(env, name) == env[j],
    decreases env.len(),
{
    if j > 0 {
        lemma_env_get_at(env.drop_first(), name, j - 1);
    }
}

/// Replacing the value at the scan's stopping point is what `env_set` means.
proof fn lemma_env_set_at(env: Seq<GBinding>, name: Seq<char>, value: GValue, j: int)
    requires
        0 <= j < env.len(),
        env[j].name == name,
        forall|k: int| 0 <= k < j ==> env[k].name != name,
    ensures
        env_set(env, name, value) == env.update(
            j,
            GBinding { name: env[j].name, value, mutable: env[j].mutable },
        ),
    decreases env.len(),
{
    if j == 0 {
        assert(env_set(env, name, value) =~= env.update(
            0,
            GBinding { name: env[0].name, value, mutable: env[0].mutable },
        ));
    } else {
        lemma_env_set_at(env.drop_first(), name, value, j - 1);
        assert(env.update(
            j,
            GBinding { name: env[j].name, value, mutable: env[j].mutable },
        ).drop_first() =~= env.drop_first().update(
            j - 1,
            GBinding { name: env[j].name, value, mutable: env[j].mutable },
        ));
        assert(env_set(env, name, value) =~= env.update(
            j,
            GBinding { name: env[j].name, value, mutable: env[j].mutable },
        ));
    }
}

/// A name missing from every record scanned so far is missing from the whole
/// suffix the recursion has not reached; `env_set` leaves such records alone.
proof fn lemma_chain_set_at(envs: Seq<Seq<GBinding>>, name: Seq<char>, value: GValue, i: int)
    requires
        0 <= i < envs.len(),
        env_has(envs[i], name),
        forall|k: int| i < k < envs.len() ==> !env_has(#[trigger] envs[k], name),
    ensures
        chain_has(envs, name),
        chain_get(envs, name) == env_get(envs[i], name),
        chain_set(envs, name, value) == envs.update(i, env_set(envs[i], name, value)),
    decreases envs.len(),
{
    if i == envs.len() - 1 {
        assert(chain_set(envs, name, value) =~= envs.update(i, env_set(envs[i], name, value)));
    } else {
        assert(!env_has(envs.last(), name));
        lemma_chain_set_at(envs.drop_last(), name, value, i);
        assert(envs.update(i, env_set(envs[i], name, value)).drop_last() =~= envs.drop_last()
            .update(i, env_set(envs[i], name, value)));
        assert(chain_set(envs, name, value) =~= envs.update(i, env_set(envs[i], name, value)));
    }
}

/// A name missing from every record of the chain is not chain-bound.
proof fn lemma_chain_not_has(envs: Seq<Seq<GBinding>>, name: Seq<char>)
    requires
        forall|k: int| 0 <= k < envs.len() ==> !env_has(#[trigger] envs[k], name),
    ensures
        !chain_has(envs, name),
{
}

impl Context {
    /// Creates a mutable binding of the given name, initialized to the
    /// absence-of-value sentinel, in the record the scope selects.
    pub fn create_mutable_binding(&mut self, name: String, scope: VariableScope)
        requires
            old(self)@.envs.len() > 0,
        ensures
            final(self)@.envs == chain_create(
                old(self)@.envs,
                GBinding { name: name@, value: GValue::Undefined, mutable: true },
                scope,
            ),
            final(self)@.state == old(self)@.state,
    {
        self.create_initialized_binding(name, Value::Undefined, true, scope)
    }

    /// Creates an immutable binding of the given name, initialized to the
    /// absence-of-value sentinel, in the record the scope selects.
    pub fn create_immutable_binding(&mut self, name: String, scope: VariableScope)
        requires
            old(self)@.envs.len() > 0,
        ensures
            final(self)@.envs == chain_create(
                old(self)@.envs,
                GBinding { name: name@, value: GValue::Undefined, mutable: false },
                scope,
            ),
            final(self)@.state == old(self)@.state,
    {
        self.create_initialized_binding(name, Value::Undefined, false, scope)
    }

    /// Creates a binding that already carries its first value, in the record
    /// the scope selects.
    pub fn create_initialized_binding(
        &mut self,
        name: String,
        value: Value,
        mutable: bool,
        scope: VariableScope,
    )
        requires
            old(self)@.envs.len() > 0,
        ensures
            final(self)@.envs == chain_create(
                old(self)@.envs,
                GBinding { name: name@, value: value@, mutable },
                scope,
            ),
            final(self)@.state == old(self)@.state,
    {
        let ghost b = GBinding { name: name@, value: value@, mutable };
        let idx: usize = match scope {
            VariableScope::Function => 0,
            VariableScope::Block => self.envs.len() - 1,
        };
        let binding = Binding { name, value, mutable };
        let mut record = self.envs.remove(idx);
        record.push(binding);
        self.envs.insert(idx, record);
        proof {
            assert(self.envs@ =~= old(self).envs@.update(idx as int, self.envs@[idx as int]));
            assert(env_view(self.envs@[idx as int]@) =~= env_view(old(self).envs@[idx as int]@)
                .push(b));
            assert(final(self)@.envs =~= chain_create(old(self)@.envs, b, scope));
        }
    }

    /// Gives the innermost existing binding of the name its first value,
    /// whether or not the binding is mutable.
    pub fn initialize_binding(&mut self, name: &str, value: Value)
        requires
            chain_has(old(self)@.envs, name@),
        ensures
            final(self)@.envs == chain_set(old(self)@.envs, name@, value@),
            final(self)@.state == old(self)@.state,
    {
        let _ = self.set_binding_value(name, value);
    }

    /// Assigns to the innermost existing binding of the name. Fails with a
    /// thrown value when the binding is immutable (without changing
    /// anything), and when no record binds the name.
    pub fn set_mutable_binding(&mut self, name: &str, value: Value) -> (r: Result<(), Value>)
        ensures
            final(self)@.state == old(self)@.state,
            chain_has(old(self)@.envs, name@) && chain_get(old(self)@.envs, name@).mutable ==> r
                is Ok && final(self)@.envs == chain_set(old(self)@.envs, name@, value@),
            chain_has(old(self)@.envs, name@) && !chain_get(old(self)@.envs, name@).mutable ==> (
            r matches Err(e) && e@ == GValue::Str(const_assign_message()) && final(self)@
                == old(self)@),
            !chain_has(old(self)@.envs, name@) ==> (r matches Err(e) && e@ == GValue::Str(
                reference_error_message(name@),
            ) && final(self)@ == old(self)@),
    {
        if !self.has_binding(name) {
            let mut m = name.to_owned();
            m.append(" is not defined");
            return Err(Value::Str(m));
        }
        if !self.innermost_binding_is_mutable(name) {
            return Err(Value::Str(String::from_str("Assignment to constant variable.")));
        }
        let _ = self.set_binding_value(name, value);
        Ok(())
    }

    /// Whether the innermost existing binding of the name is mutable.
    fn innermost_binding_is_mutable(&self, name: &str) -> (r: bool)
        requires
            chain_has(self@.envs, name@),
        ensures
            r == chain_get(self@.envs, name@).mutable,
    {
        let owned = name.to_owned();
        let mut i: usize = self.envs.len();
        while i > 0
            invariant
                i <= self.envs@.len(),
                owned@ == name@,
                chain_has(self@.envs, name@),
                forall|k: int| i <= k < self.envs@.len() ==> !env_has(#[trigger] self@.envs[k], name@),
            decreases i,
        {
            i = i - 1;
            match env_find(&self.envs[i], &owned) {
                Some(j) => {
                    proof {
                        lemma_env_get_at(self@.envs[i as int], name@, j as int);
                        lemma_chain_set_at(
                            self@.envs,
                            name@,
                            GValue::Undefined,
                            i as int,
                        );
                    }
                    return self.envs[i][j].mutable;
                },
                None => {
                    proof {
                        assert(!env_has(self@.envs[i as int], name@));
                    }
                },
            }
        }
        proof {
            lemma_chain_not_has(self@.envs, name@);
        }
        // Unreachable: the precondition says some record binds the name.
        false
    }

    /// Overwrites the value of the innermost existing binding of the name.
    fn set_binding_value(&mut self, name: &str, value: Value) -> (r: bool)
        requires
            chain_has(old(self)@.envs, name@),
        ensures
            final(self)@.envs == chain_set(old(self)@.envs, name@, value@),
            final(self)@.state == old(self)@.state,
            r,
    {
        let owned = name.to_owned();
        let mut i: usize = self.envs.len();
        while i > 0
            invariant
                i <= self.envs@.len(),
                owned@ == name@,
                *self == *old(self),
                chain_has(self@.envs, name@),
                forall|k: int| i <= k < self.envs@.len() ==> !env_has(#[trigger] self@.envs[k], name@),
            decreases i,
        {
            i = i - 1;
            match env_find(&self.envs[i], &owned) {
                Some(j) => {
                    proof {
                        lemma_env_get_at(self@.envs[i as int], name@, j as int);
                        lemma_env_set_at(self@.envs[i as int], name@, value@, j as int);
                        lemma_chain_set_at(self@.envs, name@, value@, i as int);
                    }
                    let ghost genv = self@.envs[i as int];
                    let mut record = self.envs.remove(i);
                    let mutable = record[j].mutable;
                    let nm = record[j].name.clone();
                    record[j] = Binding { name: nm, value, mutable };
                    self.envs.insert(i, record);
                    proof {
                        assert(self.envs@ =~= old(self).envs@.update(i as int, self.envs@[i as int]));
                        assert(env_view(self.envs@[i as int]@) =~= genv.update(
                            j as int,
                            GBinding { name: name@, value: value@, mutable: genv[j as int].mutable },
                        ));
                        assert(final(self)@.envs =~= chain_set(old(self)@.envs, name@, value@));
                    }
                    return true;
                },
                None => {
                    proof {
                        assert(!env_has(self@.envs[i as int], name@));
                    }
                },
            }
        }
        proof {
            lemma_chain_not_has(self@.envs, name@);
        }
        // Unreachable: the precondition says some record binds the name.
        false
    }

    /// The value of the innermost existing binding of the name.
    pub fn get_binding_value(&self, name: &str) -> (r: Value)
        requires
            chain_has(self@.envs, name@),
        ensures
            r@ == chain_get(self@.envs, name@).value,
    {
        let owned = name.to_owned();
        let mut i: usize = self.envs.len();
        while i > 0
            invariant
                i <= self.envs@.len(),
                owned@ == name@,
                chain_has(self@.envs, name@),
                forall|k: int| i <= k < self.envs@.len() ==> !env_has(#[trigger] self@.envs[k], name@),
            decreases i,
        {
            i = i - 1;
            match env_find(&self.envs[i], &owned) {
                Some(j) => {
                    proof {
                        lemma_env_get_at(self@.envs[i as int], name@, j as int);
                        lemma_chain_set_at(self@.envs, name@, GValue::Undefined, i as int);
                    }
                    return self.envs[i][j].value.clone();
                },
                None => {
                    proof {
                        assert(!env_has(self@.envs[i as int], name@));
                    }
                },
            }
        }
        proof {
            lemma_chain_not_has(self@.envs, name@);
        }
        // Unreachable: the precondition says some record binds the name.
        Value::Undefined
    }
}

} // verus!
