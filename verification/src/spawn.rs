//! What a shell is started with: its path and the changes to make to the
//! environment it inherits, checked before any process is created.

use vstd::prelude::*;

verus! {

/// One change to the environment of the child.
#[derive(Debug, PartialEq, Eq)]
pub enum EnvOverride {
    /// Remove the variable of this name.
    Remove(Vec<u8>),
    /// Give the variable of this name this value.
    Assign(Vec<u8>, Vec<u8>),
}

/// The mathematical value of an [`EnvOverride`].
pub enum EnvOverrideView {
    Remove(Seq<u8>),
    Assign(Seq<u8>, Seq<u8>),
}

impl View for EnvOverride {
    type V = EnvOverrideView;

    open spec fn view(&self) -> EnvOverrideView {
        match *self {
            EnvOverride::Remove(name) => EnvOverrideView::Remove(name@),
            EnvOverride::Assign(name, value) => EnvOverrideView::Assign(name@, value@),
        }
    }
}

/// What of a request cannot be handed to the system.
#[derive(Clone, Copy, Debug, PartialEq, Eq, Structural)]
pub enum SetupFault {
    /// The shell path.
    ShellPath,
    /// The override at this place in the list.
    Override(usize),
}

/// Why no session was opened.
#[derive(Clone, Copy, Debug, PartialEq, Eq, Structural)]
pub enum SpawnError {
    /// The request cannot be handed to the system. No process was created.
    ExecSetup(SetupFault),
    /// Allocating the pseudo-terminal or forking failed with this error
    /// code.
    ForkPty(i32),
    /// Switching the descriptor to non-blocking mode failed with this error
    /// code.
    NonBlocking(i32),
}

/// `bytes` holds no NUL byte.
pub open spec fn has_no_nul(bytes: Seq<u8>) -> bool {
    forall|i: int| 0 <= i < bytes.len() ==> #[trigger] bytes[i] != 0
}

/// A shell path can be handed to the system if it holds no NUL byte.
pub open spec fn valid_shell_path(path: Seq<u8>) -> bool {
    has_no_nul(path)
}

/// A variable name can be handed to the system if it is not empty and holds
/// neither a NUL byte nor `=`.
pub open spec fn valid_name(name: Seq<u8>) -> bool {
    &&& name.len() > 0
    &&& forall|i: int| 0 <= i < name.len() ==> #[trigger] name[i] != 0 && name[i] != 0x3D
}

/// An override can be handed to the system if its name can and its value,
/// if it has one, holds no NUL byte.
pub open spec fn valid_override(change: EnvOverrideView) -> bool {
    match change {
        EnvOverrideView::Remove(name) => valid_name(name),
        EnvOverrideView::Assign(name, value) => valid_name(name) && has_no_nul(value),
    }
}

/// The values of a list of overrides, in order.
pub open spec fn override_views(overrides: Seq<EnvOverride>) -> Seq<EnvOverrideView> {
    overrides.map_values(|change: EnvOverride| change@)
}

/// The override at place `i` is the first that cannot be handed to the
/// system.
pub open spec fn is_first_invalid(overrides: Seq<EnvOverrideView>, i: int) -> bool {
    &&& 0 <= i < overrides.len()
    &&& !valid_override(overrides[i])
    &&& forall|j: int| 0 <= j < i ==> valid_override(#[trigger] overrides[j])
}

/// Every override of the list can be handed to the system.
pub open spec fn all_valid(overrides: Seq<EnvOverrideView>) -> bool {
    forall|i: int| 0 <= i < overrides.len() ==> valid_override(#[trigger] overrides[i])
}

/// The mathematical value of a [`SpawnRequest`].
pub struct SpawnRequestView {
    pub shell_path: Seq<u8>,
    pub overrides: Seq<EnvOverrideView>,
}

/// The overrides that give a shell a plain prompt: the prompt hook
/// `PROMPT_COMMAND` is removed, the prompt `PS1` is `$`, and the terminal
/// type `TERM` is `dumb`.
pub open spec fn standard_override_views() -> Seq<EnvOverrideView> {
    seq![
        EnvOverrideView::Remove(
            seq![0x50, 0x52, 0x4F, 0x4D, 0x50, 0x54, 0x5F, 0x43, 0x4F, 0x4D, 0x4D, 0x41, 0x4E, 0x44],
        ),
        EnvOverrideView::Assign(seq![0x50, 0x53, 0x31], seq![0x24]),
        EnvOverrideView::Assign(seq![0x54, 0x45, 0x52, 0x4D], seq![0x64, 0x75, 0x6D, 0x62]),
    ]
}

/// The standard overrides can be handed to the system.
pub proof fn lemma_standard_overrides_valid()
    ensures
        all_valid(standard_override_views()),
{
    let list = standard_override_views();
    assert forall|i: int| 0 <= i < list.len() implies valid_override(#[trigger] list[i]) by {
        assert(i == 0 || i == 1 || i == 2);
    }
}

/// The overrides that give a shell a plain prompt.
pub fn standard_overrides() -> (overrides: Vec<EnvOverride>)
    ensures
        override_views(overrides@) == standard_override_views(),
{
    let prompt_hook: Vec<u8> = vec![
        0x50, 0x52, 0x4F, 0x4D, 0x50, 0x54, 0x5F, 0x43, 0x4F, 0x4D, 0x4D, 0x41, 0x4E, 0x44,
    ];
    let prompt: Vec<u8> = vec![0x50, 0x53, 0x31];
    let dollar: Vec<u8> = vec![0x24];
    let terminal: Vec<u8> = vec![0x54, 0x45, 0x52, 0x4D];
    let dumb: Vec<u8> = vec![0x64, 0x75, 0x6D, 0x62];
    let mut overrides: Vec<EnvOverride> = Vec::new();
    overrides.push(EnvOverride::Remove(prompt_hook));
    overrides.push(EnvOverride::Assign(prompt, dollar));
    overrides.push(EnvOverride::Assign(terminal, dumb));
    assert(override_views(overrides@)[1]->Assign_1 =~= standard_override_views()[1]->Assign_1);
    overrides
}

fn no_nul(bytes: &[u8]) -> (ok: bool)
    ensures
        ok == has_no_nul(bytes@),
{
    let mut i: usize = 0;
    while i < bytes.len()
        invariant
            0 <= i <= bytes.len(),
            forall|k: int| 0 <= k < i ==> #[trigger] bytes@[k] != 0,
        decreases bytes.len() - i,
    {
        if bytes[i] == 0 {
            return false;
        }
        i += 1;
    }
    true
}

fn name_ok(name: &[u8]) -> (ok: bool)
    ensures
        ok == valid_name(name@),
{
    if name.len() == 0 {
        return false;
    }
    let mut i: usize = 0;
    while i < name.len()
        invariant
            0 <= i <= name.len(),
            forall|k: int| 0 <= k < i ==> #[trigger] name@[k] != 0 && name@[k] != 0x3D,
        decreases name.len() - i,
    {
        if name[i] == 0 || name[i] == 0x3D {
            return false;
        }
        i += 1;
    }
    true
}

fn override_ok(change: &EnvOverride) -> (ok: bool)
    ensures
        ok == valid_override(change@),
{
    match change {
        EnvOverride::Remove(name) => name_ok(name.as_slice()),
        EnvOverride::Assign(name, value) => name_ok(name.as_slice()) && no_nul(value.as_slice()),
    }
}

/// A shell path and a list of overrides that can be handed to the system.
pub struct SpawnRequest {
    shell_path: Vec<u8>,
    overrides: Vec<EnvOverride>,
}

impl View for SpawnRequest {
    type V = SpawnRequestView;

    closed spec fn view(&self) -> SpawnRequestView {
        SpawnRequestView {
            shell_path: self.shell_path@,
            overrides: override_views(self.overrides@),
        }
    }
}

impl SpawnRequest {
    #[verifier::type_invariant]
    spec fn well_formed(&self) -> bool {
        valid_shell_path(self@.shell_path) && all_valid(self@.overrides)
    }

    /// Checks a request. It is accepted when the shell path and every
    /// override can be handed to the system; else the error names the shell
    /// path, or the first override that cannot.
    pub fn new(shell_path: Vec<u8>, overrides: Vec<EnvOverride>) -> (result: Result<
        SpawnRequest,
        SpawnError,
    >)
        ensures
            match result {
                Ok(request) => {
                    &&& valid_shell_path(shell_path@)
                    &&& all_valid(override_views(overrides@))
                    &&& request@.shell_path == shell_path@
                    &&& request@.overrides == override_views(overrides@)
                },
                Err(SpawnError::ExecSetup(SetupFault::ShellPath)) => !valid_shell_path(
                    shell_path@,
                ),
                Err(SpawnError::ExecSetup(SetupFault::Override(i))) => {
                    &&& valid_shell_path(shell_path@)
                    &&& is_first_invalid(override_views(overrides@), i as int)
                },
                Err(_) => false,
            },
    {
        if !no_nul(shell_path.as_slice()) {
            return Err(SpawnError::ExecSetup(SetupFault::ShellPath));
        }
        let mut i: usize = 0;
        while i < overrides.len()
            invariant
                0 <= i <= overrides.len(),
                valid_shell_path(shell_path@),
                forall|j: int|
                    0 <= j < i ==> valid_override(#[trigger] override_views(overrides@)[j]),
            decreases overrides.len() - i,
        {
            if !override_ok(&overrides[i]) {
                return Err(SpawnError::ExecSetup(SetupFault::Override(i)));
            }
            i += 1;
        }
        Ok(SpawnRequest { shell_path, overrides })
    }

    /// The path of the shell; it holds no NUL byte.
    pub fn shell_path(&self) -> (path: &[u8])
        ensures
            path@ == self@.shell_path,
            valid_shell_path(path@),
    {
        proof {
            use_type_invariant(self);
        }
        self.shell_path.as_slice()
    }

    /// The overrides, in the order given; each can be handed to the system.
    pub fn overrides(&self) -> (overrides: &[EnvOverride])
        ensures
            override_views(overrides@) == self@.overrides,
            all_valid(self@.overrides),
    {
        proof {
            use_type_invariant(self);
        }
        self.overrides.as_slice()
    }
}

} // verus!
