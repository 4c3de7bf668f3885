use vstd::prelude::*;
use vstd::utf8::encode_utf8;

use crate::mode::{
    is_read_only, normalize_mode, permission_bits, read_only, OWNER_WRITE, PERMISSION_MASK,
};

verus! {

/// One filesystem step of a reconciliation.
#[derive(Clone, Copy, Debug, PartialEq, Eq, Structural)]
pub enum Action {
    /// Set the file's permission bits to the low twelve bits of this mode.
    SetMode(u32),
    /// Open for writing, seek to the start, write the desired content in
    /// full and truncate the file to exactly its length.
    WriteContent,
}

/// What a reconciliation will do: the steps in the order they must run, and
/// whether they change anything.
///
/// Whoever runs the steps stops at the first one that fails and undoes
/// nothing: a rewrite of a read-only file that fails leaves the owner's write
/// bit set.
#[derive(Clone, Debug)]
pub struct Plan {
    pub changed: bool,
    pub actions: Vec<Action>,
}

/// The model of a file that the steps act on: its bytes and its permission
/// bits.
pub struct FileState {
    pub content: Seq<u8>,
    pub mode: u32,
}

/// The content steps: nothing when the bytes already match; a plain rewrite
/// when the owner may write; otherwise the rewrite between adding the owner's
/// write bit and restoring the mode read before.
pub open spec fn content_actions(desired: Seq<u8>, current: Seq<u8>, mode: u32) -> Seq<Action> {
    if current == desired {
        seq![]
    } else if is_read_only(mode) {
        seq![Action::SetMode(mode | OWNER_WRITE), Action::WriteContent, Action::SetMode(mode)]
    } else {
        seq![Action::WriteContent]
    }
}

/// The mode step: one `SetMode` exactly when the permission bits differ.
pub open spec fn mode_actions(desired_mode: u32, mode: u32) -> Seq<Action> {
    if permission_bits(mode) == desired_mode {
        seq![]
    } else {
        seq![Action::SetMode(desired_mode)]
    }
}

/// Content steps first, then the mode step.
pub open spec fn planned_actions(
    desired: Seq<u8>,
    desired_mode: u32,
    current: Seq<u8>,
    mode: u32,
) -> Seq<Action> {
    content_actions(desired, current, mode) + mode_actions(desired_mode, mode)
}

/// Drift on either axis.
pub open spec fn drifts(desired: Seq<u8>, desired_mode: u32, current: Seq<u8>, mode: u32) -> bool {
    current != desired || permission_bits(mode) != desired_mode
}

/// Writing `data` at offset zero over `old`: bytes past the end of `data`
/// stay as they were.
pub open spec fn overwrite(old: Seq<u8>, data: Seq<u8>) -> Seq<u8> {
    if old.len() <= data.len() {
        data
    } else {
        data + old.subrange(data.len() as int, old.len() as int)
    }
}

/// Setting a file's length: cut, or padded with zero bytes.
pub open spec fn set_len(s: Seq<u8>, len: nat) -> Seq<u8> {
    if len <= s.len() {
        s.take(len as int)
    } else {
        s + Seq::new((len - s.len()) as nat, |i: int| 0u8)
    }
}

/// The file a rewrite leaves behind.
pub open spec fn rewritten(old: Seq<u8>, desired: Seq<u8>) -> Seq<u8> {
    set_len(overwrite(old, desired), desired.len())
}

/// The effect of one step on a file.
pub open spec fn apply_action(desired: Seq<u8>, s: FileState, a: Action) -> FileState {
    match a {
        Action::SetMode(m) => FileState { content: s.content, mode: permission_bits(m) },
        Action::WriteContent => FileState { content: rewritten(s.content, desired), mode: s.mode },
    }
}

/// The effect of a sequence of steps, run in order.
pub open spec fn apply_actions(desired: Seq<u8>, s: FileState, actions: Seq<Action>) -> FileState
    decreases actions.len(),
{
    if actions.len() == 0 {
        s
    } else {
        apply_actions(desired, apply_action(desired, s, actions[0]), actions.drop_first())
    }
}

/// Whether two byte strings are equal.
pub fn same_bytes(a: &[u8], b: &[u8]) -> (r: bool)
    ensures
        r == (a@ == b@),
{
    if a.len() != b.len() {
        return false;
    }
    let mut i: usize = 0;
    while i < a.len()
        invariant
            a@.len() == b@.len(),
            i <= a@.len(),
            forall|j: int| 0 <= j < i ==> a@[j] == b@[j],
        decreases a@.len() - i,
    {
        if a[i] != b[i] {
            return false;
        }
        i = i + 1;
    }
    assert(a@ =~= b@);
    true
}

/// Decides how to bring a file holding `current` with mode `mode` (as the
/// platform reports it, file-type bits included) to `desired` with
/// permission bits `desired_mode`.
pub fn plan_reconcile(desired: &[u8], desired_mode: u32, current: &[u8], mode: u32) -> (p: Plan)
    ensures
        p.actions@ == planned_actions(desired@, desired_mode, current@, mode),
        p.changed == drifts(desired@, desired_mode, current@, mode),
{
    let mut actions: Vec<Action> = Vec::new();
    let mut changed = false;
    if !same_bytes(current, desired) {
        let relax = read_only(mode);
        if relax {
            actions.push(Action::SetMode(mode | OWNER_WRITE));
        }
        actions.push(Action::WriteContent);
        if relax {
            actions.push(Action::SetMode(mode));
        }
        changed = true;
    }
    proof {
        assert(actions@ =~= content_actions(desired@, current@, mode));
    }
    if normalize_mode(mode) != desired_mode {
        actions.push(Action::SetMode(desired_mode));
        changed = true;
    }
    proof {
        assert(actions@ =~= planned_actions(desired@, desired_mode, current@, mode));
    }
    Plan { changed, actions }
}

/// Running `a` and then `b` is running their concatenation.
pub proof fn lemma_apply_concat(desired: Seq<u8>, s: FileState, a: Seq<Action>, b: Seq<Action>)
    ensures
        apply_actions(desired, s, a + b) == apply_actions(
            desired,
            apply_actions(desired, s, a),
            b,
        ),
    decreases a.len(),
{
    if a.len() == 0 {
        assert(a + b =~= b);
    } else {
        assert((a + b).drop_first() =~= a.drop_first() + b);
        lemma_apply_concat(desired, apply_action(desired, s, a[0]), a.drop_first(), b);
    }
}

/// Running one step more is applying it to what the others left.
pub proof fn lemma_apply_push(desired: Seq<u8>, s: FileState, a: Seq<Action>, x: Action)
    ensures
        apply_actions(desired, s, a.push(x)) == apply_action(
            desired,
            apply_actions(desired, s, a),
            x,
        ),
{
    assert(a.push(x) =~= a + seq![x]);
    lemma_apply_concat(desired, s, a, seq![x]);
    let t = apply_actions(desired, s, a);
    assert(seq![x].drop_first() =~= Seq::<Action>::empty());
    assert(seq![x][0] == x);
    assert(apply_actions(desired, t, seq![x]) == apply_actions(
        desired,
        apply_action(desired, t, x),
        Seq::<Action>::empty(),
    ));
}

/// A rewrite leaves exactly the desired bytes, whatever the file held
/// before: no byte of longer old content survives past the new length.
pub proof fn lemma_rewrite_exact(old: Seq<u8>, desired: Seq<u8>)
    ensures
        rewritten(old, desired) == desired,
        rewritten(old, desired).len() == desired.len(),
{
    let w = overwrite(old, desired);
    assert(w.take(desired.len() as int) =~= desired);
}

proof fn lemma_permission_bits_of_mode(m: u32)
    requires
        m <= PERMISSION_MASK,
    ensures
        permission_bits(m) == m,
{
    assert(m <= 0o7777 ==> m & 0o7777 == m) by (bit_vector);
}

proof fn lemma_content_steps(desired: Seq<u8>, current: Seq<u8>, mode: u32)
    ensures
        apply_actions(
            desired,
            FileState { content: current, mode: permission_bits(mode) },
            content_actions(desired, current, mode),
        ) == (FileState { content: desired, mode: permission_bits(mode) }),
{
    let s0 = FileState { content: current, mode: permission_bits(mode) };
    let acts = content_actions(desired, current, mode);
    lemma_rewrite_exact(current, desired);
    lemma_apply_push(desired, s0, Seq::<Action>::empty(), Action::WriteContent);
    assert(Seq::<Action>::empty().push(Action::WriteContent) =~= seq![Action::WriteContent]);
    if current != desired && is_read_only(mode) {
        let a = Action::SetMode(mode | OWNER_WRITE);
        let one = Seq::<Action>::empty().push(a);
        let two = one.push(Action::WriteContent);
        let three = two.push(Action::SetMode(mode));
        lemma_apply_push(desired, s0, Seq::<Action>::empty(), a);
        lemma_apply_push(desired, s0, one, Action::WriteContent);
        lemma_apply_push(desired, s0, two, Action::SetMode(mode));
        assert(three =~= acts);
    }
}

/// Reconciliation reaches the desired state: running the planned steps on
/// any file leaves exactly the desired bytes and the desired permission bits,
/// read-only files included (the write bit added for the rewrite does not
/// remain).
pub proof fn lemma_reconcile_reaches_desired(
    desired: Seq<u8>,
    desired_mode: u32,
    current: Seq<u8>,
    mode: u32,
)
    requires
        desired_mode <= PERMISSION_MASK,
    ensures
        apply_actions(
            desired,
            FileState { content: current, mode: permission_bits(mode) },
            planned_actions(desired, desired_mode, current, mode),
        ) == (FileState { content: desired, mode: desired_mode }),
{
    let s0 = FileState { content: current, mode: permission_bits(mode) };
    lemma_apply_concat(
        desired,
        s0,
        content_actions(desired, current, mode),
        mode_actions(desired_mode, mode),
    );
    lemma_content_steps(desired, current, mode);
    lemma_permission_bits_of_mode(desired_mode);
    let s1 = FileState { content: desired, mode: permission_bits(mode) };
    let x = Action::SetMode(desired_mode);
    lemma_apply_push(desired, s1, Seq::<Action>::empty(), x);
    assert(Seq::<Action>::empty().push(x) =~= seq![x]);
}

/// Reconciliation is idempotent: reading the file back after the planned
/// steps (with whatever file-type bits the platform reports) finds no drift,
/// so a second run plans no step and reports no change.
pub proof fn lemma_reconcile_idempotent(
    desired: Seq<u8>,
    desired_mode: u32,
    current: Seq<u8>,
    mode: u32,
    reread_mode: u32,
)
    requires
        desired_mode <= PERMISSION_MASK,
        permission_bits(reread_mode) == apply_actions(
            desired,
            FileState { content: current, mode: permission_bits(mode) },
            planned_actions(desired, desired_mode, current, mode),
        ).mode,
    ensures
        ({
            let after = apply_actions(
                desired,
                FileState { content: current, mode: permission_bits(mode) },
                planned_actions(desired, desired_mode, current, mode),
            );
            &&& !drifts(desired, desired_mode, after.content, reread_mode)
            &&& planned_actions(desired, desired_mode, after.content, reread_mode) == Seq::<
                Action,
            >::empty()
            &&& apply_actions(
                desired,
                FileState { content: after.content, mode: permission_bits(reread_mode) },
                Seq::<Action>::empty(),
            ) == after
        }),
{
    lemma_reconcile_reaches_desired(desired, desired_mode, current, mode);
    assert(planned_actions(desired, desired_mode, desired, reread_mode) =~= Seq::<
        Action,
    >::empty());
}

/// The content axis alone: when only the bytes differ, no step sets the
/// desired mode; a file the owner may write gets a single rewrite.
pub proof fn lemma_content_only_drift(
    desired: Seq<u8>,
    desired_mode: u32,
    current: Seq<u8>,
    mode: u32,
)
    requires
        current != desired,
        permission_bits(mode) == desired_mode,
    ensures
        planned_actions(desired, desired_mode, current, mode) == content_actions(
            desired,
            current,
            mode,
        ),
        !is_read_only(mode) ==> planned_actions(desired, desired_mode, current, mode) == seq![
            Action::WriteContent,
        ],
{
    assert(planned_actions(desired, desired_mode, current, mode) =~= content_actions(
        desired,
        current,
        mode,
    ));
}

/// The mode axis alone: when only the permission bits differ, the one step
/// is setting them, and the bytes are the same before and after.
pub proof fn lemma_mode_only_drift(desired: Seq<u8>, desired_mode: u32, current: Seq<u8>, mode: u32)
    requires
        current == desired,
        permission_bits(mode) != desired_mode,
    ensures
        planned_actions(desired, desired_mode, current, mode) == seq![
            Action::SetMode(desired_mode),
        ],
        apply_actions(
            desired,
            FileState { content: current, mode: permission_bits(mode) },
            planned_actions(desired, desired_mode, current, mode),
        ).content == current,
{
    let acts = planned_actions(desired, desired_mode, current, mode);
    let s0 = FileState { content: current, mode: permission_bits(mode) };
    let x = Action::SetMode(desired_mode);
    assert(acts =~= seq![x]);
    lemma_apply_push(desired, s0, Seq::<Action>::empty(), x);
    assert(Seq::<Action>::empty().push(x) =~= seq![x]);
}

/// A file that has just been created is empty: reconciling it reports a
/// change whenever the desired state differs from that empty file, and
/// leaves the desired bytes and permission bits.
pub proof fn lemma_created_file(desired: Seq<u8>, desired_mode: u32, created_mode: u32)
    requires
        desired_mode <= PERMISSION_MASK,
        desired.len() > 0 || permission_bits(created_mode) != desired_mode,
    ensures
        drifts(desired, desired_mode, Seq::<u8>::empty(), created_mode),
        apply_actions(
            desired,
            FileState { content: Seq::<u8>::empty(), mode: permission_bits(created_mode) },
            planned_actions(desired, desired_mode, Seq::<u8>::empty(), created_mode),
        ) == (FileState { content: desired, mode: desired_mode }),
{
    lemma_reconcile_reaches_desired(desired, desired_mode, Seq::<u8>::empty(), created_mode);
}

/// Shorter desired content truncates: after reconciliation the file is
/// exactly as long as the desired bytes.
pub proof fn lemma_truncates(desired: Seq<u8>, desired_mode: u32, current: Seq<u8>, mode: u32)
    requires
        desired_mode <= PERMISSION_MASK,
        current.len() > desired.len(),
    ensures
        apply_actions(
            desired,
            FileState { content: current, mode: permission_bits(mode) },
            planned_actions(desired, desired_mode, current, mode),
        ).content.len() == desired.len(),
{
    lemma_reconcile_reaches_desired(desired, desired_mode, current, mode);
}

/// The desired state of a file: its content, where it lives, and its
/// permission bits (at most `0o7777`).
#[derive(Clone, Debug, PartialEq)]
pub struct Params {
    pub content: String,
    pub dest: String,
    pub mode: u32,
}

/// The bytes the desired content is written as.
pub open spec fn desired_bytes(p: &Params) -> Seq<u8> {
    encode_utf8(p.content@)
}

/// What a reconciliation reports: whether it changed anything, and the path
/// it reconciled.
#[derive(Clone, Debug, PartialEq)]
pub struct ModuleResult {
    pub changed: bool,
    pub output: Option<String>,
}

impl Params {
    /// The mode is a permission value: at most twelve bits.
    pub open spec fn wf(&self) -> bool {
        self.mode <= PERMISSION_MASK
    }

    /// The steps that bring a file holding `current`, whose mode the platform
    /// reports as `mode`, to this desired state.
    pub fn plan(&self, current: &[u8], mode: u32) -> (p: Plan)
        ensures
            p.actions@ == planned_actions(desired_bytes(self), self.mode, current@, mode),
            p.changed == drifts(desired_bytes(self), self.mode, current@, mode),
    {
        plan_reconcile(self.content.as_str().as_bytes(), self.mode, current, mode)
    }

    /// The report of a completed plan: its change flag and the destination.
    pub fn outcome(&self, plan: &Plan) -> (r: ModuleResult)
        ensures
            r.changed == plan.changed,
            r.output is Some,
            r.output->0@ == self.dest@,
    {
        ModuleResult { changed: plan.changed, output: Some(self.dest.clone()) }
    }
}

/// A file held in memory, with its mode as a platform reports it (file-type
/// bits included). Running a plan on it does what the filesystem steps do.
#[derive(Clone, Debug, PartialEq)]
pub struct MemoryFile {
    pub content: Vec<u8>,
    pub mode: u32,
}

impl MemoryFile {
    pub open spec fn state(&self) -> FileState {
        FileState { content: self.content@, mode: permission_bits(self.mode) }
    }

    /// Writes `data` from offset zero, keeping what lies past its end.
    fn write_from_start(&mut self, data: &[u8])
        ensures
            final(self).content@ == overwrite(old(self).content@, data@),
            final(self).mode == old(self).mode,
    {
        let ghost start = self.content@;
        let mut i: usize = 0;
        while i < data.len()
            invariant
                i <= data@.len(),
                self.mode == old(self).mode,
                self.content@.len() == if start.len() > i { start.len() } else { i as nat },
                forall|j: int| 0 <= j < i ==> self.content@[j] == data@[j],
                forall|j: int| i <= j < start.len() ==> self.content@[j] == start[j],
            decreases data@.len() - i,
        {
            if i < self.content.len() {
                self.content.set(i, data[i]);
            } else {
                self.content.push(data[i]);
            }
            i = i + 1;
        }
        assert(self.content@ =~= overwrite(start, data@));
    }

    /// Performs one step.
    pub fn apply(&mut self, desired: &[u8], a: Action)
        ensures
            final(self).state() == apply_action(desired@, old(self).state(), a),
    {
        match a {
            Action::SetMode(m) => {
                let cur = self.mode;
                let kept = cur & !PERMISSION_MASK;
                let mode = kept | (m & PERMISSION_MASK);
                assert((kept | (m & 0o7777)) & 0o7777 == m & 0o7777) by (bit_vector)
                    requires
                        kept == cur & !0o7777u32,
                ;
                self.mode = mode;
            },
            Action::WriteContent => {
                self.write_from_start(desired);
                self.content.truncate(desired.len());
                assert(self.content@ =~= rewritten(old(self).content@, desired@));
            },
        }
    }

    /// Performs the steps in order.
    pub fn apply_all(&mut self, desired: &[u8], actions: &Vec<Action>)
        ensures
            final(self).state() == apply_actions(desired@, old(self).state(), actions@),
    {
        let mut i: usize = 0;
        while i < actions.len()
            invariant
                i <= actions@.len(),
                self.state() == apply_actions(desired@, old(self).state(), actions@.take(i as int)),
            decreases actions@.len() - i,
        {
            proof {
                lemma_apply_push(desired@, old(self).state(), actions@.take(i as int), actions@[i as int]);
                assert(actions@.take(i as int).push(actions@[i as int]) =~= actions@.take(i + 1));
            }
            self.apply(desired, actions[i]);
            i = i + 1;
        }
        assert(actions@.take(i as int) =~= actions@);
    }
}

/// Reconciles a file held in memory to the desired state: plans from what
/// the file holds, runs the plan, and reports.
pub fn reconcile_in_memory(params: &Params, file: &mut MemoryFile) -> (r: ModuleResult)
    ensures
        r.changed == drifts(desired_bytes(params), params.mode, old(file).content@, old(file).mode),
        r.output is Some,
        r.output->0@ == params.dest@,
        final(file).state() == apply_actions(
            desired_bytes(params),
            old(file).state(),
            planned_actions(desired_bytes(params), params.mode, old(file).content@, old(file).mode),
        ),
        params.wf() ==> final(file).state() == (FileState {
            content: desired_bytes(params),
            mode: params.mode,
        }),
{
    let plan = params.plan(file.content.as_slice(), file.mode);
    let desired = params.content.as_str().as_bytes();
    file.apply_all(desired, &plan.actions);
    proof {
        if params.wf() {
            lemma_reconcile_reaches_desired(
                desired_bytes(params),
                params.mode,
                old(file).content@,
                old(file).mode,
            );
        }
    }
    params.outcome(&plan)
}

} // verus!
