use vstd::prelude::*;

verus! {

/// What a caller asks for when it starts a machine.
pub struct StartVm {
    pub name: String,
    pub kernel: String,
    pub disks: Vec<String>,
    pub cpus: String,
    pub memory: String,
}

pub ghost struct StartVmView {
    pub name: Seq<char>,
    pub kernel: Seq<char>,
    pub disks: Seq<Seq<char>>,
    pub cpus: Seq<char>,
    pub memory: Seq<char>,
}

impl View for StartVm {
    type V = StartVmView;

    open spec fn view(&self) -> StartVmView {
        StartVmView {
            name: self.name@,
            kernel: self.kernel@,
            disks: self.disks.deep_view(),
            cpus: self.cpus@,
            memory: self.memory@,
        }
    }
}

pub open spec fn is_digit(c: char) -> bool {
    '0' <= c && c <= '9'
}

pub open spec fn all_digits(s: Seq<char>) -> bool {
    forall|i: int| 0 <= i < s.len() ==> is_digit(#[trigger] s[i])
}

/// A decimal numeral whose value is above zero.
pub open spec fn is_positive_numeral(s: Seq<char>) -> bool {
    &&& s.len() > 0
    &&& all_digits(s)
    &&& exists|i: int| 0 <= i < s.len() && #[trigger] s[i] != '0'
}

pub open spec fn is_size_suffix(c: char) -> bool {
    c == 'K' || c == 'M' || c == 'G'
}

/// A memory size: a decimal numeral followed by one unit letter, as in `2048M`.
pub open spec fn is_memory_size(s: Seq<char>) -> bool {
    &&& s.len() >= 2
    &&& all_digits(s.drop_last())
    &&& is_size_suffix(s.last())
}

impl StartVmView {
    pub open spec fn valid(self) -> bool {
        &&& self.name.len() > 0
        &&& self.disks.len() > 0
        &&& is_positive_numeral(self.cpus)
        &&& is_memory_size(self.memory)
    }
}

fn digit_char(c: char) -> (r: bool)
    ensures
        r == is_digit(c),
{
    '0' <= c && c <= '9'
}

fn positive_numeral(s: &str) -> (r: bool)
    ensures
        r == is_positive_numeral(s@),
{
    let n = s.unicode_len();
    if n == 0 {
        return false;
    }
    let mut nonzero = false;
    let mut i: usize = 0;
    while i < n
        invariant
            n == s@.len(),
            i <= n,
            all_digits(s@.subrange(0, i as int)),
            nonzero == exists|j: int| 0 <= j < i && #[trigger] s@[j] != '0',
        decreases n - i,
    {
        let c = s.get_char(i);
        if !digit_char(c) {
            assert(!all_digits(s@));
            return false;
        }
        assert(all_digits(s@.subrange(0, i + 1))) by {
            assert forall|j: int| 0 <= j < i + 1 implies is_digit(#[trigger] s@.subrange(0, i + 1)[j]) by {
                if j < i {
                    assert(s@.subrange(0, i + 1)[j] == s@.subrange(0, i as int)[j]);
                }
            }
        }
        if c != '0' {
            nonzero = true;
        }
        i = i + 1;
    }
    assert(s@.subrange(0, n as int) =~= s@);
    nonzero
}

fn memory_size(s: &str) -> (r: bool)
    ensures
        r == is_memory_size(s@),
{
    let n = s.unicode_len();
    if n < 2 {
        return false;
    }
    let last = s.get_char(n - 1);
    if !(last == 'K' || last == 'M' || last == 'G') {
        return false;
    }
    let mut i: usize = 0;
    while i < n - 1
        invariant
            n == s@.len(),
            n >= 2,
            i <= n - 1,
            forall|j: int| 0 <= j < i ==> is_digit(#[trigger] s@[j]),
        decreases n - 1 - i,
    {
        let c = s.get_char(i);
        if !digit_char(c) {
            assert(s@.drop_last()[i as int] == c);
            return false;
        }
        i = i + 1;
    }
    assert forall|j: int| 0 <= j < s@.drop_last().len() implies is_digit(
        #[trigger] s@.drop_last()[j],
    ) by {
        assert(s@.drop_last()[j] == s@[j]);
    }
    true
}

impl StartVm {
    /// Whether the descriptor may be launched: it has a name and at least one
    /// disk, its cpu count is a positive integer and its memory carries a unit.
    pub fn is_valid(&self) -> (r: bool)
        ensures
            r == self@.valid(),
    {
        self.name.unicode_len() > 0 && self.disks.len() > 0 && positive_numeral(
            self.cpus.as_str(),
        ) && memory_size(self.memory.as_str())
    }
}


/// Lifecycle of a machine. `Starting` is the only initial state; `Stopped`
/// and `Failed` are terminal.
#[derive(Clone, Copy, PartialEq, Eq, Structural, Debug)]
pub enum VmState {
    Starting,
    Running,
    Stopped,
    Failed,
}

impl VmState {
    pub open spec fn terminal(self) -> bool {
        self == VmState::Stopped || self == VmState::Failed
    }

    /// The transitions of the lifecycle: `Starting` may become `Running`, and
    /// any state that is not terminal may become `Stopped` or `Failed`.
    pub open spec fn may_become(self, next: VmState) -> bool {
        &&& !self.terminal()
        &&& next != VmState::Starting
        &&& next == VmState::Running ==> self == VmState::Starting
    }

    pub fn is_terminal(&self) -> (r: bool)
        ensures
            r == self.terminal(),
    {
        matches!(self, VmState::Stopped | VmState::Failed)
    }

    pub fn can_become(&self, next: VmState) -> (r: bool)
        ensures
            r == self.may_become(next),
    {
        match (*self, next) {
            (VmState::Stopped, _) | (VmState::Failed, _) => false,
            (_, VmState::Starting) => false,
            (VmState::Running, VmState::Running) => false,
            _ => true,
        }
    }

    /// The name under which the state travels on the wire.
    pub fn as_str(&self) -> (r: &'static str)
        ensures
            r@ == state_name(*self),
    {
        match self {
            VmState::Starting => "Starting",
            VmState::Running => "Running",
            VmState::Stopped => "Stopped",
            VmState::Failed => "Failed",
        }
    }
}

pub open spec fn state_name(s: VmState) -> Seq<char> {
    match s {
        VmState::Starting => "Starting"@,
        VmState::Running => "Running"@,
        VmState::Stopped => "Stopped"@,
        VmState::Failed => "Failed"@,
    }
}

/// The terminal state that a process exit leads to: `Stopped` after a clean
/// exit, `Failed` after any other.
pub open spec fn exit_state_of(clean_exit: bool) -> VmState {
    if clean_exit {
        VmState::Stopped
    } else {
        VmState::Failed
    }
}

pub fn exit_state(clean_exit: bool) -> (r: VmState)
    ensures
        r == exit_state_of(clean_exit),
        r.terminal(),
{
    if clean_exit {
        VmState::Stopped
    } else {
        VmState::Failed
    }
}

/// What clients see of a machine: what was asked for, the identifier it was
/// given and where it is in its lifecycle.
pub struct VmHandle {
    pub descriptor: StartVm,
    pub guid: String,
    pub state: VmState,
}

pub ghost struct VmHandleView {
    pub descriptor: StartVmView,
    pub guid: Seq<char>,
    pub state: VmState,
}

impl View for VmHandle {
    type V = VmHandleView;

    open spec fn view(&self) -> VmHandleView {
        VmHandleView { descriptor: self.descriptor@, guid: self.guid@, state: self.state }
    }
}

fn copy_strings(v: &Vec<String>) -> (r: Vec<String>)
    ensures
        r.deep_view() == v.deep_view(),
{
    let mut r: Vec<String> = Vec::new();
    let mut i: usize = 0;
    while i < v.len()
        invariant
            i <= v.len(),
            r.deep_view() == v.deep_view().subrange(0, i as int),
        decreases v.len() - i,
    {
        let s = v[i].clone();
        let ghost before = r.deep_view();
        r.push(s);
        assert(r.deep_view() =~= before.push(v[i as int]@));
        i = i + 1;
        assert(r.deep_view() =~= v.deep_view().subrange(0, i as int));
    }
    assert(v.deep_view().subrange(0, v.len() as int) =~= v.deep_view());
    r
}

impl Clone for StartVm {
    fn clone(&self) -> (r: Self)
        ensures
            r@ == self@,
    {
        StartVm {
            name: self.name.clone(),
            kernel: self.kernel.clone(),
            disks: copy_strings(&self.disks),
            cpus: self.cpus.clone(),
            memory: self.memory.clone(),
        }
    }
}

impl Clone for VmHandle {
    fn clone(&self) -> (r: Self)
        ensures
            r@ == self@,
    {
        VmHandle { descriptor: self.descriptor.clone(), guid: self.guid.clone(), state: self.state }
    }
}

/// Why a request on the control plane failed.
#[derive(Debug)]
pub enum VmError {
    /// The descriptor is not one that can be launched.
    InvalidDescriptor,
    /// The hypervisor process could not be spawned; the text says why.
    SpawnFailed(String),
    /// No machine has the identifier.
    NotFound,
    /// A machine with the identifier is already registered.
    DuplicateIdentifier,
    /// A console session is already attached to the machine.
    AlreadyAttached,
}

} // verus!
