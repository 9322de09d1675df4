//! Scopes: frames of bindings, each with a link to the frame around it.

use vstd::prelude::*;
use vstd::string::StringExecFns;
use crate::value::{Value, ValueModel};

verus! {

/// A handle to a frame of an [`EnvironmentArena`].
pub type EnvId = usize;

/// One name of a frame and its value.
#[derive(Debug)]
pub struct Binding {
    pub name: String,
    pub value: Value,
}

/// What a binding list binds: each name to the value of its last entry.
pub open spec fn bindings_map(bindings: Seq<Binding>) -> Map<Seq<char>, ValueModel>
    decreases bindings.len(),
{
    if bindings.len() == 0 {
        Map::empty()
    } else {
        bindings_map(bindings.drop_last()).insert(bindings.last().name@, bindings.last().value@)
    }
}

/// Whether `index` is the place of the last entry for `name`.
pub open spec fn is_last_entry(bindings: Seq<Binding>, name: Seq<char>, index: int) -> bool {
    &&& 0 <= index < bindings.len()
    &&& bindings[index].name@ == name
    &&& forall|j: int| index < j < bindings.len() ==> bindings[j].name@ != name
}

/// A name without an entry is not bound.
pub proof fn lemma_unbound(bindings: Seq<Binding>, name: Seq<char>)
    requires
        forall|j: int| 0 <= j < bindings.len() ==> bindings[j].name@ != name,
    ensures
        !bindings_map(bindings).contains_key(name),
    decreases bindings.len(),
{
    if bindings.len() > 0 {
        lemma_unbound(bindings.drop_last(), name);
    }
}

/// A name is bound to the value of its last entry.
pub proof fn lemma_bound(bindings: Seq<Binding>, name: Seq<char>, index: int)
    requires
        is_last_entry(bindings, name, index),
    ensures
        bindings_map(bindings).contains_key(name),
        bindings_map(bindings)[name] == bindings[index].value@,
    decreases bindings.len(),
{
    if index < bindings.len() - 1 {
        lemma_bound(bindings.drop_last(), name, index);
    }
}

/// Replacing the value of the last entry for a name rebinds the name and
/// nothing else.
pub proof fn lemma_rebound(bindings: Seq<Binding>, name: Seq<char>, index: int, entry: Binding)
    requires
        is_last_entry(bindings, name, index),
        entry.name@ == name,
    ensures
        bindings_map(bindings.update(index, entry)) == bindings_map(bindings).insert(name, entry.value@),
    decreases bindings.len(),
{
    let updated = bindings.update(index, entry);
    if index < bindings.len() - 1 {
        lemma_rebound(bindings.drop_last(), name, index, entry);
        assert(updated.drop_last() =~= bindings.drop_last().update(index, entry));
        assert(updated.last() == bindings.last());
        assert(bindings_map(updated) =~= bindings_map(bindings).insert(name, entry.value@));
    } else {
        assert(updated.drop_last() =~= bindings.drop_last());
        assert(bindings_map(updated) =~= bindings_map(bindings).insert(name, entry.value@));
    }
}

/// A frame: the names declared in one scope, and the scope around it.
#[derive(Debug)]
pub struct Environment {
    enclosing: Option<EnvId>,
    values: Vec<Binding>,
}

/// The mathematical value of an [`Environment`].
pub struct FrameModel {
    pub enclosing: Option<nat>,
    pub values: Map<Seq<char>, ValueModel>,
}

impl View for Environment {
    type V = FrameModel;

    closed spec fn view(&self) -> FrameModel {
        FrameModel {
            enclosing: match self.enclosing {
                Some(id) => Some(id as nat),
                None => None,
            },
            values: bindings_map(self.values@),
        }
    }
}

impl Environment {
    /// An empty frame with no frame around it.
    pub fn new() -> (r: Self)
        ensures
            r@ == (FrameModel { enclosing: None, values: Map::empty() }),
    {
        Self { enclosing: None, values: Vec::new() }
    }

    /// An empty frame inside the frame `enclosing`.
    pub fn new_with_enclosing(enclosing: EnvId) -> (r: Self)
        ensures
            r@ == (FrameModel { enclosing: Some(enclosing as nat), values: Map::empty() }),
    {
        Self { enclosing: Some(enclosing), values: Vec::new() }
    }

    /// The place of the last entry for `name`, if there is one.
    fn find(&self, name: &str) -> (r: Option<usize>)
        ensures
            match r {
                Some(index) => is_last_entry(self.values@, name@, index as int),
                None => forall|j: int| 0 <= j < self.values@.len() ==> self.values@[j].name@ != name@,
            },
    {
        let key = String::from_str(name);
        let mut i: usize = self.values.len();
        while i > 0
            invariant
                i <= self.values.len(),
                key@ == name@,
                forall|j: int| i <= j < self.values@.len() ==> self.values@[j].name@ != name@,
            decreases i,
        {
            i -= 1;
            if self.values[i].name == key {
                return Some(i);
            }
        }
        None
    }

    /// Binds `name` to `value` in this frame, whether or not it was bound.
    fn define(&mut self, name: String, value: Value)
        ensures
            final(self)@ == (FrameModel {
                enclosing: old(self)@.enclosing,
                values: old(self)@.values.insert(name@, value@),
            }),
    {
        match self.find(name.as_str()) {
            Some(index) => {
                let entry = Binding { name, value };
                proof {
                    lemma_rebound(self.values@, name@, index as int, entry);
                }
                self.values[index] = entry;
            },
            None => {
                let entry = Binding { name, value };
                self.values.push(entry);
                assert(self.values@.drop_last() =~= old(self).values@);
            },
        }
    }

    /// Gives `name` a new value if this frame binds it; says whether it did.
    fn assign(&mut self, name: &str, value: Value) -> (r: bool)
        ensures
            r == old(self)@.values.contains_key(name@),
            final(self)@ == if r {
                FrameModel {
                    enclosing: old(self)@.enclosing,
                    values: old(self)@.values.insert(name@, value@),
                }
            } else {
                old(self)@
            },
    {
        match self.find(name) {
            Some(index) => {
                let entry = Binding { name: String::from_str(name), value };
                proof {
                    lemma_bound(self.values@, name@, index as int);
                    lemma_rebound(self.values@, name@, index as int, entry);
                }
                self.values[index] = entry;
                true
            },
            None => {
                proof {
                    lemma_unbound(self.values@, name@);
                }
                false
            },
        }
    }

    /// Whether this frame binds `name`.
    fn contains(&self, name: &str) -> (r: bool)
        ensures
            r == self@.values.contains_key(name@),
    {
        match self.find(name) {
            Some(index) => {
                proof {
                    lemma_bound(self.values@, name@, index as int);
                }
                true
            },
            None => {
                proof {
                    lemma_unbound(self.values@, name@);
                }
                false
            },
        }
    }

    /// The value that this frame binds `name` to, if it binds it.
    fn get(&self, name: &str) -> (r: Option<Value>)
        ensures
            match r {
                Some(value) => self@.values.contains_key(name@) && self@.values[name@] == value@,
                None => !self@.values.contains_key(name@),
            },
    {
        match self.find(name) {
            Some(index) => {
                proof {
                    lemma_bound(self.values@, name@, index as int);
                }
                Some(self.values[index].value.clone())
            },
            None => {
                proof {
                    lemma_unbound(self.values@, name@);
                }
                None
            },
        }
    }
}

/// The nearest frame that binds `name`, walking from `env` outward.
pub open spec fn resolve(frames: Seq<FrameModel>, env: nat, name: Seq<char>) -> Option<nat>
    decreases env,
{
    if env >= frames.len() {
        None
    } else if frames[env as int].values.contains_key(name) {
        Some(env)
    } else {
        match frames[env as int].enclosing {
            Some(parent) => if parent < env {
                resolve(frames, parent, name)
            } else {
                None
            },
            None => None,
        }
    }
}

/// The frame that a name resolves to binds the name, and was made no
/// later than the frame where the walk began.
pub proof fn lemma_resolve_binds(frames: Seq<FrameModel>, env: nat, name: Seq<char>)
    ensures
        match resolve(frames, env, name) {
            Some(frame) => frame <= env && frame < frames.len() && frames[frame as int].values.contains_key(
                name,
            ),
            None => true,
        },
    decreases env,
{
    if env < frames.len() && !frames[env as int].values.contains_key(name) {
        match frames[env as int].enclosing {
            Some(parent) => {
                if parent < env {
                    lemma_resolve_binds(frames, parent, name);
                }
            },
            None => {},
        }
    }
}

/// What reading `name` from `env` gives: the value in the nearest frame
/// that binds it.
pub open spec fn lookup(frames: Seq<FrameModel>, env: nat, name: Seq<char>) -> Option<ValueModel> {
    match resolve(frames, env, name) {
        Some(frame) => Some(frames[frame as int].values[name]),
        None => None,
    }
}

/// `frames` with `name` bound to `value` in the frame `env`.
pub open spec fn bind(frames: Seq<FrameModel>, env: nat, name: Seq<char>, value: ValueModel) -> Seq<
    FrameModel,
> {
    if env < frames.len() {
        frames.update(
            env as int,
            FrameModel {
                enclosing: frames[env as int].enclosing,
                values: frames[env as int].values.insert(name, value),
            },
        )
    } else {
        frames
    }
}

/// Binding a name in a frame does not change which frame any other
/// name resolves to, nor what it reads as.
pub proof fn lemma_bind_keeps_others(
    frames: Seq<FrameModel>,
    frame: nat,
    name: Seq<char>,
    value: ValueModel,
    env: nat,
    other: Seq<char>,
)
    requires
        other != name,
    ensures
        resolve(bind(frames, frame, name, value), env, other) == resolve(frames, env, other),
        lookup(bind(frames, frame, name, value), env, other) == lookup(frames, env, other),
    decreases env,
{
    let after = bind(frames, frame, name, value);
    if env < frames.len() && !frames[env as int].values.contains_key(other) {
        match frames[env as int].enclosing {
            Some(parent) => {
                if parent < env {
                    lemma_bind_keeps_others(frames, frame, name, value, parent, other);
                }
            },
            None => {},
        }
    }
    lemma_resolve_binds(frames, env, other);
}

/// A name that was just declared in a scope reads there as the value it
/// was declared with, whatever the scopes around it bind.
pub proof fn lemma_define_then_lookup(frames: Seq<FrameModel>, env: nat, name: Seq<char>, value: ValueModel)
    requires
        env < frames.len(),
    ensures
        lookup(bind(frames, env, name, value), env, name) == Some(value),
{
}

/// After an assignment the name reads as the value assigned, from the
/// scope of the assignment: the assignment writes to the frame that the
/// name resolves to, and the name resolves to that frame afterwards.
pub proof fn lemma_assign_then_lookup(frames: Seq<FrameModel>, env: nat, name: Seq<char>, value: ValueModel)
    requires
        resolve(frames, env, name) is Some,
    ensures
        resolve(bind(frames, resolve(frames, env, name)->Some_0, name, value), env, name) == resolve(
            frames,
            env,
            name,
        ),
        lookup(bind(frames, resolve(frames, env, name)->Some_0, name, value), env, name) == Some(value),
    decreases env,
{
    let target = resolve(frames, env, name)->Some_0;
    lemma_resolve_binds(frames, env, name);
    if env < frames.len() && !frames[env as int].values.contains_key(name) {
        match frames[env as int].enclosing {
            Some(parent) => {
                if parent < env {
                    lemma_assign_then_lookup(frames, parent, name, value);
                }
            },
            None => {},
        }
    }
}

/// Whether the walk from `env` outward passes the frame `frame`.
pub open spec fn on_chain(frames: Seq<FrameModel>, env: nat, frame: nat) -> bool
    decreases env,
{
    if env >= frames.len() {
        false
    } else if env == frame {
        true
    } else {
        match frames[env as int].enclosing {
            Some(parent) => parent < env && on_chain(frames, parent, frame),
            None => false,
        }
    }
}

/// The walk from a frame outward passes only this frame and frames that
/// were made before it.
pub proof fn lemma_chain_goes_back(frames: Seq<FrameModel>, env: nat, frame: nat)
    requires
        on_chain(frames, env, frame),
    ensures
        frame <= env,
        frame < frames.len(),
    decreases env,
{
    if env != frame {
        lemma_chain_goes_back(frames, frames[env as int].enclosing->Some_0, frame);
    }
}

/// The frame that a name resolves to lies on the walk.
pub proof fn lemma_resolve_is_on_chain(frames: Seq<FrameModel>, env: nat, name: Seq<char>)
    requires
        resolve(frames, env, name) is Some,
    ensures
        on_chain(frames, env, resolve(frames, env, name)->Some_0),
    decreases env,
{
    if env < frames.len() && !frames[env as int].values.contains_key(name) {
        lemma_resolve_is_on_chain(frames, frames[env as int].enclosing->Some_0, name);
    }
}

/// Binding a name in a frame that the walk from `env` does not pass
/// changes nothing that is read from `env`: no name resolves to another
/// frame or reads as another value.
pub proof fn lemma_bind_off_chain(
    frames: Seq<FrameModel>,
    frame: nat,
    name: Seq<char>,
    value: ValueModel,
    env: nat,
    other: Seq<char>,
)
    requires
        !on_chain(frames, env, frame),
    ensures
        resolve(bind(frames, frame, name, value), env, other) == resolve(frames, env, other),
        lookup(bind(frames, frame, name, value), env, other) == lookup(frames, env, other),
        forall|any: nat|
            on_chain(bind(frames, frame, name, value), env, any) == #[trigger] on_chain(frames, env, any),
    decreases env,
{
    let after = bind(frames, frame, name, value);
    if env < frames.len() {
        match frames[env as int].enclosing {
            Some(parent) => {
                if parent < env {
                    lemma_bind_off_chain(frames, frame, name, value, parent, other);
                }
            },
            None => {},
        }
    }
    lemma_resolve_binds(frames, env, other);
    assert forall|any: nat| on_chain(after, env, any) == #[trigger] on_chain(frames, env, any) by {
        lemma_bind_keeps_chain(frames, frame, name, value, env, any);
    }
}

/// Binding a name changes no walk.
pub proof fn lemma_bind_keeps_chain(
    frames: Seq<FrameModel>,
    frame: nat,
    name: Seq<char>,
    value: ValueModel,
    env: nat,
    any: nat,
)
    ensures
        on_chain(bind(frames, frame, name, value), env, any) == on_chain(frames, env, any),
    decreases env,
{
    if env < frames.len() && env != any {
        match frames[env as int].enclosing {
            Some(parent) => {
                if parent < env {
                    lemma_bind_keeps_chain(frames, frame, name, value, parent, any);
                }
            },
            None => {},
        }
    }
}

/// Two frames made inside the same frame are apart: neither lies on the
/// walk from the other, nor on the walk from a frame made inside the
/// other. So what is written to one of them, or to a frame made inside
/// it, is not read from the other: two closures made by two calls of one
/// function keep their variables apart, however often each is called.
pub proof fn lemma_sibling_frames_are_apart(
    frames: Seq<FrameModel>,
    first: nat,
    second: nat,
    inside: nat,
)
    requires
        first < frames.len(),
        second < frames.len(),
        inside < frames.len(),
        first != second,
        frames[first as int].enclosing is Some,
        frames[first as int].enclosing == frames[second as int].enclosing,
        frames[first as int].enclosing->Some_0 < first,
        frames[first as int].enclosing->Some_0 < second,
        frames[inside as int].enclosing == Some(first),
        first < inside,
        inside != second,
    ensures
        !on_chain(frames, first, second),
        !on_chain(frames, second, first),
        !on_chain(frames, inside, second),
        !on_chain(frames, second, inside),
{
    let parent = frames[first as int].enclosing->Some_0;
    if on_chain(frames, parent, second) {
        lemma_chain_goes_back(frames, parent, second);
    }
    if on_chain(frames, parent, first) {
        lemma_chain_goes_back(frames, parent, first);
    }
    if on_chain(frames, parent, inside) {
        lemma_chain_goes_back(frames, parent, inside);
    }
    reveal_with_fuel(on_chain, 3);
}

/// The message for a name that no frame binds.
pub open spec fn undefined_variable(name: Seq<char>) -> Seq<char> {
    "Undefined variable '"@ + name + "'."@
}

/// Writes the message for a name that no frame binds.
pub fn undefined_variable_message(name: &str) -> (r: String)
    ensures
        r@ == undefined_variable(name@),
{
    let mut text = String::from_str("Undefined variable '");
    text.append(name);
    text.append("'.");
    text
}

/// The owner of all frames. Frames are never removed, so a handle stays
/// good for as long as the arena lives.
#[derive(Debug)]
pub struct EnvironmentArena {
    environments: Vec<Environment>,
}

impl View for EnvironmentArena {
    type V = Seq<FrameModel>;

    closed spec fn view(&self) -> Seq<FrameModel> {
        self.environments@.map_values(|e: Environment| e@)
    }
}

impl EnvironmentArena {
    /// An arena without frames.
    pub fn new() -> (r: Self)
        ensures
            r@ == Seq::<FrameModel>::empty(),
    {
        let r = Self { environments: Vec::new() };
        assert(r@ =~= Seq::<FrameModel>::empty());
        r
    }

    /// The number of frames.
    pub fn len(&self) -> (r: usize)
        ensures
            r == self@.len(),
    {
        self.environments.len()
    }

    /// Makes an empty frame with no frame around it and hands back its
    /// handle.
    pub fn create_env(&mut self) -> (id: EnvId)
        ensures
            id == old(self)@.len(),
            final(self)@ == old(self)@.push(FrameModel { enclosing: None, values: Map::empty() }),
    {
        let id = self.environments.len();
        self.environments.push(Environment::new());
        assert(self@ =~= old(self)@.push(FrameModel { enclosing: None, values: Map::empty() }));
        id
    }

    /// Makes an empty frame inside the frame `enclosing` and hands back its
    /// handle.
    pub fn create_env_with_enclosing(&mut self, enclosing: EnvId) -> (id: EnvId)
        ensures
            id == old(self)@.len(),
            final(self)@ == old(self)@.push(
                FrameModel { enclosing: Some(enclosing as nat), values: Map::empty() },
            ),
    {
        let id = self.environments.len();
        self.environments.push(Environment::new_with_enclosing(enclosing));
        assert(self@ =~= old(self)@.push(
            FrameModel { enclosing: Some(enclosing as nat), values: Map::empty() },
        ));
        id
    }

    /// Binds `name` to `value` in the frame `env_id` itself, whether or not
    /// the name was bound there. Nothing happens where the handle names no
    /// frame.
    pub fn define(&mut self, env_id: EnvId, name: String, value: Value)
        ensures
            final(self)@ == bind(old(self)@, env_id as nat, name@, value@),
    {
        if env_id < self.environments.len() {
            self.environments[env_id].define(name, value);
            assert(self@ =~= bind(old(self)@, env_id as nat, name@, value@));
        }
    }

    /// The nearest frame that binds `name`, walking from `env_id` outward.
    fn resolve(&self, env_id: EnvId, name: &str) -> (r: Option<EnvId>)
        ensures
            match r {
                Some(frame) => resolve(self@, env_id as nat, name@) == Some(frame as nat) && frame
                    < self@.len() && self@[frame as int].values.contains_key(name@),
                None => resolve(self@, env_id as nat, name@) is None,
            },
    {
        let mut current = env_id;
        loop
            invariant
                resolve(self@, env_id as nat, name@) == resolve(self@, current as nat, name@),
            ensures
                resolve(self@, env_id as nat, name@) is None,
            decreases current,
        {
            if current >= self.environments.len() {
                break ;
            }
            if self.environments[current].contains(name) {
                return Some(current);
            }
            assert(self@[current as int].enclosing == match self.environments[current as int].enclosing {
                Some(id) => Some(id as nat),
                None => None,
            });
            match self.environments[current].enclosing {
                Some(parent) => {
                    if parent < current {
                        current = parent;
                    } else {
                        break ;
                    }
                },
                None => {
                    break ;
                },
            }
        }
        None
    }

    /// Gives `name` a new value in the nearest frame that binds it, walking
    /// from `env_id` outward. Fails, and changes nothing, where no frame
    /// binds the name.
    pub fn assign(&mut self, env_id: EnvId, name: &str, value: Value) -> (r: Result<(), String>)
        ensures
            match r {
                Ok(_) => match resolve(old(self)@, env_id as nat, name@) {
                    Some(frame) => final(self)@ == bind(old(self)@, frame, name@, value@),
                    None => false,
                },
                Err(message) => resolve(old(self)@, env_id as nat, name@) is None && final(self)@
                    == old(self)@ && message@ == undefined_variable(name@),
            },
    {
        match self.resolve(env_id, name) {
            Some(frame) => {
                let done = self.environments[frame].assign(name, value);
                assert(self@ =~= bind(old(self)@, frame as nat, name@, value@));
                Ok(())
            },
            None => Err(undefined_variable_message(name)),
        }
    }

    /// Reads `name` from the nearest frame that binds it, walking from
    /// `env_id` outward. Fails where no frame binds the name.
    pub fn get(&self, env_id: EnvId, name: &str) -> (r: Result<Value, String>)
        ensures
            match r {
                Ok(value) => lookup(self@, env_id as nat, name@) == Some(value@),
                Err(message) => lookup(self@, env_id as nat, name@) is None && message@
                    == undefined_variable(name@),
            },
    {
        match self.resolve(env_id, name) {
            Some(frame) => match self.environments[frame].get(name) {
                Some(value) => Ok(value),
                None => Err(undefined_variable_message(name)),
            },
            None => Err(undefined_variable_message(name)),
        }
    }
}

} // verus!
