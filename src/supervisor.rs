use crate::model::{exit_state, exit_state_of, StartVm, StartVmView, VmError, VmHandle, VmHandleView, VmState};
use crate::registry::{
    handles_of, has_guid, index_of, lists, unique_guids, with_state, Registry, VmContext, VmRecord,
};
use vstd::prelude::*;

verus! {

pub open spec fn is_lower_hex(c: char) -> bool {
    ('0' <= c && c <= '9') || ('a' <= c && c <= 'f')
}

pub open spec fn is_hyphen_position(i: int) -> bool {
    i == 8 || i == 13 || i == 18 || i == 23
}

/// A UUID written out as 36 characters: lower-case hex digits in groups of
/// 8, 4, 4, 4 and 12, joined by hyphens.
pub open spec fn is_hyphenated_uuid(s: Seq<char>) -> bool {
    &&& s.len() == 36
    &&& forall|i: int|
        0 <= i < 36 ==> if is_hyphen_position(i) {
            #[trigger] s[i] == '-'
        } else {
            is_lower_hex(s[i])
        }
}

/// Relies on uuid's `Uuid::new_v4` for a random identifier and on its
/// `Display`, which writes the lower-case hyphenated form (36 characters,
/// hyphens after the 8th, 12th, 16th and 20th hex digit). `new_v4` panics
/// only when the operating system cannot supply random bytes.
#[verifier::external_body]
fn new_identifier() -> (r: String)
    ensures
        is_hyphenated_uuid(r@),
{
    uuid::Uuid::new_v4().to_string()
}

/// Where the hypervisor of a machine is told to put its control socket.
pub open spec fn socket_path_of(guid: Seq<char>) -> Seq<char> {
    "/tmp/abathur/clh/"@ + guid + ".sock"@
}

/// One `--disk path=<disk>` pair per disk, in the order given.
pub open spec fn disk_args(disks: Seq<Seq<char>>) -> Seq<Seq<char>>
    decreases disks.len(),
{
    if disks.len() == 0 {
        Seq::empty()
    } else {
        disk_args(disks.drop_last()) + seq!["--disk"@, "path="@ + disks.last()]
    }
}

/// The arguments the hypervisor is invoked with for a descriptor.
pub open spec fn hypervisor_args(d: StartVmView, socket: Seq<char>) -> Seq<Seq<char>> {
    seq!["--kernel"@, d.kernel] + disk_args(d.disks) + seq![
        "--cpus"@,
        "boot="@ + d.cpus,
        "--memory"@,
        "size="@ + d.memory,
        "--api-socket"@,
        socket,
    ]
}

/// Everything needed to spawn the hypervisor for one machine.
pub struct LaunchPlan {
    pub descriptor: StartVm,
    pub guid: String,
    pub api_socket: String,
    /// The executable, looked up in `search_path` alone.
    pub program: String,
    pub search_path: String,
    pub args: Vec<String>,
}

impl LaunchPlan {
    pub open spec fn describes(&self, d: StartVmView, guid: Seq<char>) -> bool {
        &&& self.descriptor@ == d
        &&& self.guid@ == guid
        &&& self.api_socket@ == socket_path_of(guid)
        &&& self.program@ == "cloud-hypervisor"@
        &&& self.search_path@ == "/bin"@
        &&& self.args.deep_view() == hypervisor_args(d, socket_path_of(guid))
    }
}

fn joined(a: &str, b: &str) -> (r: String)
    ensures
        r@ == a@ + b@,
{
    let mut r = String::from_str(a);
    r.append(b);
    r
}

pub fn api_socket_path(guid: &str) -> (r: String)
    ensures
        r@ == socket_path_of(guid@),
{
    let mut r = String::from_str("/tmp/abathur/clh/");
    r.append(guid);
    r.append(".sock");
    r
}

fn push_text(args: &mut Vec<String>, s: String)
    ensures
        final(args).deep_view() == old(args).deep_view().push(s@),
{
    let ghost before = args.deep_view();
    args.push(s);
    assert(args.deep_view() =~= before.push(s@));
}

pub fn hypervisor_arguments(descriptor: &StartVm, api_socket: &str) -> (r: Vec<String>)
    ensures
        r.deep_view() == hypervisor_args(descriptor@, api_socket@),
{
    let mut args: Vec<String> = Vec::new();
    push_text(&mut args, String::from_str("--kernel"));
    push_text(&mut args, descriptor.kernel.clone());
    let ghost head = args.deep_view();
    assert(head =~= seq!["--kernel"@, descriptor@.kernel]);
    let disks = &descriptor.disks;
    let mut i: usize = 0;
    while i < disks.len()
        invariant
            i <= disks.len(),
            disks.deep_view() == descriptor@.disks,
            args.deep_view() == head + disk_args(disks.deep_view().subrange(0, i as int)),
        decreases disks.len() - i,
    {
        push_text(&mut args, String::from_str("--disk"));
        push_text(&mut args, joined("path=", disks[i].as_str()));
        let ghost done = disks.deep_view().subrange(0, i + 1);
        assert(done.drop_last() =~= disks.deep_view().subrange(0, i as int));
        assert(done.last() == disks[i as int]@);
        i = i + 1;
        assert(args.deep_view() =~= head + disk_args(done));
    }
    assert(disks.deep_view().subrange(0, i as int) =~= descriptor@.disks);
    let ghost middle = args.deep_view();
    push_text(&mut args, String::from_str("--cpus"));
    push_text(&mut args, joined("boot=", descriptor.cpus.as_str()));
    push_text(&mut args, String::from_str("--memory"));
    push_text(&mut args, joined("size=", descriptor.memory.as_str()));
    push_text(&mut args, String::from_str("--api-socket"));
    push_text(&mut args, String::from_str(api_socket));
    assert(args.deep_view() =~= hypervisor_args(descriptor@, api_socket@));
    args
}

/// The plan for launching a descriptor under a given identifier.
pub fn launch_plan(descriptor: &StartVm, guid: &str) -> (r: LaunchPlan)
    ensures
        r.describes(descriptor@, guid@),
{
    let api_socket = api_socket_path(guid);
    let args = hypervisor_arguments(descriptor, api_socket.as_str());
    LaunchPlan {
        descriptor: descriptor.clone(),
        guid: String::from_str(guid),
        api_socket,
        program: String::from_str("cloud-hypervisor"),
        search_path: String::from_str("/bin"),
        args,
    }
}

/// Checks a descriptor and plans its launch under a fresh random identifier.
pub fn plan_start(descriptor: &StartVm) -> (r: Result<LaunchPlan, VmError>)
    ensures
        !descriptor@.valid() ==> r is Err && r->Err_0 is InvalidDescriptor,
        descriptor@.valid() ==> r is Ok && r->Ok_0.describes(descriptor@, r->Ok_0.guid@)
            && is_hyphenated_uuid(r->Ok_0.guid@),
{
    if !descriptor.is_valid() {
        return Err(VmError::InvalidDescriptor);
    }
    let guid = new_identifier();
    Ok(launch_plan(descriptor, guid.as_str()))
}

/// A successful start: the registry gained exactly one record, at its end,
/// for a machine in state `Starting` whose identifier was unused before.
pub open spec fn started(before: Seq<VmRecord>, after: Seq<VmRecord>, h: VmHandleView) -> bool {
    &&& !has_guid(before, h.guid)
    &&& h.state == VmState::Starting
    &&& after.len() == before.len() + 1
    &&& after.drop_last() == before
    &&& after.last().handle == h
    &&& !after.last().attached
}

/// Registers a machine once its hypervisor has been spawned from `plan`.
/// `spawned` is what the spawn gave: the console handles, or why it failed.
/// On any failure the registry is left as it was.
pub fn start_vm<Io>(registry: &mut Registry<Io>, plan: LaunchPlan, spawned: Result<Io, String>) -> (r:
    Result<VmHandle, VmError>)
    requires
        old(registry).wf(),
    ensures
        final(registry).wf(),
        spawned is Err ==> r is Err && r->Err_0 == VmError::SpawnFailed(spawned->Err_0),
        spawned is Ok && has_guid(old(registry)@, plan.guid@) ==> r is Err
            && r->Err_0 is DuplicateIdentifier,
        spawned is Ok && !has_guid(old(registry)@, plan.guid@) ==> r is Ok,
        r is Err ==> final(registry)@ == old(registry)@,
        r is Ok ==> {
            let h = r->Ok_0@;
            &&& h == (VmHandleView {
                descriptor: plan.descriptor@,
                guid: plan.guid@,
                state: VmState::Starting,
            })
            &&& started(old(registry)@, final(registry)@, h)
            &&& final(registry)@.last().api_socket == plan.api_socket@
            &&& final(registry).io_at(old(registry)@.len() as int) == spawned->Ok_0
        },
{
    match spawned {
        Err(cause) => Err(VmError::SpawnFailed(cause)),
        Ok(io) => {
            let handle = VmHandle {
                descriptor: plan.descriptor,
                guid: plan.guid,
                state: VmState::Starting,
            };
            let returned = handle.clone();
            let context = VmContext { handle, api_socket: plan.api_socket, attached: false, io };
            let ghost before = registry@;
            match registry.insert(context) {
                Ok(()) => {
                    assert(registry@.drop_last() =~= before);
                    Ok(returned)
                },
                Err(e) => Err(e),
            }
        },
    }
}

/// The handles of every registered machine, in the order they were started.
pub fn list_vm<Io>(registry: &Registry<Io>) -> (r: Vec<VmHandle>)
    ensures
        lists(r@, registry@),
{
    registry.list()
}

/// What the exit of a machine's process does to the records: a machine that
/// had not reached a terminal state takes the one its exit leads to; nothing
/// else changes.
pub open spec fn exited(before: Seq<VmRecord>, after: Seq<VmRecord>, guid: Seq<char>, clean_exit: bool) -> bool {
    if has_guid(before, guid) && !before[index_of(before, guid)].handle.state.terminal() {
        after == with_state(before, index_of(before, guid), exit_state_of(clean_exit))
    } else {
        after == before
    }
}

/// Records the exit of a machine's process, as its watcher observed it.
/// Returns whether the machine's state changed.
pub fn vm_main<Io>(registry: &mut Registry<Io>, guid: &str, clean_exit: bool) -> (r: bool)
    requires
        old(registry).wf(),
    ensures
        final(registry).wf(),
        exited(old(registry)@, final(registry)@, guid@, clean_exit),
        r == (has_guid(old(registry)@, guid@) && !old(registry)@[index_of(
            old(registry)@,
            guid@,
        )].handle.state.terminal()),
{
    registry.update_state(guid, exit_state(clean_exit))
}


/// Starting machines one after another on an empty registry leaves exactly
/// the handles that the starts returned, in that order, with no identifier
/// twice.
pub proof fn lemma_list_after_starts(states: Seq<Seq<VmRecord>>, handles: Seq<VmHandleView>)
    requires
        states.len() == handles.len() + 1,
        states[0].len() == 0,
        forall|i: int| 0 <= i < handles.len() ==> started(states[i], #[trigger] states[i + 1], handles[i]),
    ensures
        handles_of(states.last()) == handles,
        unique_guids(states.last()),
    decreases handles.len(),
{
    let n = handles.len() as int;
    if n == 0 {
        assert(handles_of(states.last()) =~= handles);
    } else {
        let prev = states.drop_last();
        let hs = handles.drop_last();
        assert forall|i: int| 0 <= i < hs.len() implies started(prev[i], #[trigger] prev[i + 1], hs[i]) by {
            assert(started(states[i], states[i + 1], handles[i]));
        }
        lemma_list_after_starts(prev, hs);
        let before = states[n - 1];
        let after = states[n];
        assert(prev.last() == before);
        assert(started(states[n - 1], states[n - 1 + 1], handles[n - 1]));
        assert(after =~= before.push(after.last()));
        assert(handles_of(after) =~= handles_of(before).push(handles[n - 1]));
        assert(handles_of(after) =~= handles);
        assert forall|i: int, j: int|
            0 <= i < after.len() && 0 <= j < after.len() && i != j implies (#[trigger] after[i]).handle.guid
            != (#[trigger] after[j]).handle.guid by {
            let m = before.len() as int;
            if i < m && j < m {
                assert(after[i] == before[i] && after[j] == before[j]);
            } else if i == m {
                assert(after[j] == before[j]);
            } else {
                assert(after[i] == before[i]);
            }
        }
    }
}

/// Listing twice with no change in between gives the same handles.
pub proof fn lemma_list_stable<Io>(registry: &Registry<Io>, first: Seq<VmHandle>, second: Seq<VmHandle>)
    requires
        lists(first, registry@),
        lists(second, registry@),
    ensures
        first.len() == second.len(),
        forall|i: int| 0 <= i < first.len() ==> (#[trigger] first[i])@ == second[i]@,
{
}

/// A listing shows exactly the handles of the records, so what the laws
/// of this module say of `handles_of` holds of what `list_vm` returns.
pub proof fn lemma_listing_is_handles(listed: Seq<VmHandle>, records: Seq<VmRecord>)
    requires
        lists(listed, records),
    ensures
        listed.map_values(|h: VmHandle| h@) == handles_of(records),
{
    assert(listed.map_values(|h: VmHandle| h@) =~= handles_of(records));
}

/// Once a machine's process has exited, a listing shows the machine in
/// `Stopped` after a clean exit and in `Failed` after any other, unless it had
/// already reached a terminal state; every other machine is listed as before.
pub proof fn lemma_exit_is_listed(
    before: Seq<VmRecord>,
    after: Seq<VmRecord>,
    guid: Seq<char>,
    clean_exit: bool,
)
    requires
        unique_guids(before),
        has_guid(before, guid),
        !before[index_of(before, guid)].handle.state.terminal(),
        exited(before, after, guid, clean_exit),
    ensures
        ({
            let i = index_of(before, guid);
            &&& handles_of(after).len() == handles_of(before).len()
            &&& handles_of(after)[i].guid == guid
            &&& handles_of(after)[i].state == (if clean_exit {
                VmState::Stopped
            } else {
                VmState::Failed
            })
            &&& forall|j: int|
                0 <= j < before.len() && j != i ==> #[trigger] handles_of(after)[j] == handles_of(
                    before,
                )[j]
        }),
{
}

/// A terminal state is never left: whatever exit is observed later, a machine
/// in `Stopped` or `Failed` keeps its state.
pub proof fn lemma_terminal_is_kept(
    before: Seq<VmRecord>,
    after: Seq<VmRecord>,
    guid: Seq<char>,
    clean_exit: bool,
)
    requires
        has_guid(before, guid),
        before[index_of(before, guid)].handle.state.terminal(),
        exited(before, after, guid, clean_exit),
    ensures
        after == before,
{
}

/// Two starts, one after the other, give two different identifiers, and a
/// later listing holds both handles.
pub proof fn lemma_two_starts(
    s0: Seq<VmRecord>,
    s1: Seq<VmRecord>,
    s2: Seq<VmRecord>,
    h1: VmHandleView,
    h2: VmHandleView,
)
    requires
        started(s0, s1, h1),
        started(s1, s2, h2),
    ensures
        h1.guid != h2.guid,
        handles_of(s2).contains(h1),
        handles_of(s2).contains(h2),
{
    let n = s0.len() as int;
    assert(s1[n] == s1.last());
    assert(s2[n] == s2.drop_last()[n]);
    assert(s2[n].handle.guid == h1.guid);
    assert(handles_of(s2)[n] == h1);
    assert(handles_of(s2)[n + 1] == h2);
}

} // verus!
